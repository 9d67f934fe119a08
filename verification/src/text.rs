//! Strings as sequences of characters: splitting, trimming, joining, and the
//! decimal and hexadecimal forms of numbers.
use vstd::prelude::*;

verus! {

broadcast use vstd::string::group_string_axioms;

/// `String::push` appends the given character to the end of the string.
pub assume_specification[ String::push ](s: &mut String, c: char)
    ensures
        final(s)@ == old(s)@.push(c),
;

/// The contents of a list of strings.
pub open spec fn views(v: Seq<String>) -> Seq<Seq<char>> {
    Seq::new(v.len(), |i: int| v[i]@)
}

/// The contents of a list of string slices.
pub open spec fn slice_views(v: Seq<&str>) -> Seq<Seq<char>> {
    Seq::new(v.len(), |i: int| v[i]@)
}

pub proof fn lemma_views_push(v: Seq<String>, s: String)
    ensures
        views(v.push(s)) == views(v).push(s@),
{
    assert(views(v.push(s)) =~= views(v).push(s@));
}

/// The characters of a string.
pub fn to_chars(s: &str) -> (v: Vec<char>)
    ensures
        v@ == s@,
{
    let mut v: Vec<char> = Vec::new();
    for c in it: s.chars()
        invariant
            v@ == it.seq().take(it.index()),
            it.seq() == s@,
    {
        v.push(c);
        proof {
            assert(it.seq().take(it.index() + 1) =~= it.seq().take(it.index()).push(c));
        }
    }
    proof {
        assert(s@.take(s@.len() as int) =~= s@);
    }
    v
}

/// The string made of the given characters.
pub fn from_chars(v: &[char]) -> (s: String)
    ensures
        s@ == v@,
{
    let mut s = String::new();
    let mut i: usize = 0;
    while i < v.len()
        invariant
            i <= v.len(),
            s@ == v@.take(i as int),
        decreases v.len() - i,
    {
        s.push(v[i]);
        proof {
            assert(v@.take(i + 1) =~= v@.take(i as int).push(v@[i as int]));
        }
        i += 1;
    }
    proof {
        assert(v@.take(v@.len() as int) =~= v@);
    }
    s
}

/// The given strings, one after the other.
pub fn cat2(a: &str, b: &str) -> (r: String)
    ensures
        r@ == a@ + b@,
{
    let mut r = a.to_owned();
    r.append(b);
    r
}

/// The given strings, one after the other.
pub fn cat3(a: &str, b: &str, c: &str) -> (r: String)
    ensures
        r@ == a@ + b@ + c@,
{
    let mut r = a.to_owned();
    r.append(b);
    r.append(c);
    r
}

/// The given strings, one after the other.
pub fn cat4(a: &str, b: &str, c: &str, d: &str) -> (r: String)
    ensures
        r@ == a@ + b@ + c@ + d@,
{
    let mut r = a.to_owned();
    r.append(b);
    r.append(c);
    r.append(d);
    r
}

/// The given strings, one after the other.
pub fn cat5(a: &str, b: &str, c: &str, d: &str, e: &str) -> (r: String)
    ensures
        r@ == a@ + b@ + c@ + d@ + e@,
{
    let mut r = a.to_owned();
    r.append(b);
    r.append(c);
    r.append(d);
    r.append(e);
    r
}

/// The given strings, one after the other.
pub fn cat6(a: &str, b: &str, c: &str, d: &str, e: &str, f: &str) -> (r: String)
    ensures
        r@ == a@ + b@ + c@ + d@ + e@ + f@,
{
    let mut r = a.to_owned();
    r.append(b);
    r.append(c);
    r.append(d);
    r.append(e);
    r.append(f);
    r
}

/// The given strings, one after the other.
pub fn cat7(a: &str, b: &str, c: &str, d: &str, e: &str, f: &str, g: &str) -> (r: String)
    ensures
        r@ == a@ + b@ + c@ + d@ + e@ + f@ + g@,
{
    let mut r = a.to_owned();
    r.append(b);
    r.append(c);
    r.append(d);
    r.append(e);
    r.append(f);
    r.append(g);
    r
}

/// The given strings, one after the other.
pub fn cat8(a: &str, b: &str, c: &str, d: &str, e: &str, f: &str, g: &str, h: &str) -> (r: String)
    ensures
        r@ == a@ + b@ + c@ + d@ + e@ + f@ + g@ + h@,
{
    let mut r = a.to_owned();
    r.append(b);
    r.append(c);
    r.append(d);
    r.append(e);
    r.append(f);
    r.append(g);
    r.append(h);
    r
}

/// Whether two strings have the same contents.
pub fn same(a: &str, b: &str) -> (r: bool)
    ensures
        r == (a@ == b@),
{
    a.to_owned() == b.to_owned()
}

/// Whether a list of strings holds `s`.
pub fn list_has(list: &Vec<String>, s: &str) -> (r: bool)
    ensures
        r == views(list@).contains(s@),
{
    let mut i: usize = 0;
    while i < list.len()
        invariant
            i <= list.len(),
            forall|j: int| 0 <= j < i ==> list@[j]@ != s@,
        decreases list.len() - i,
    {
        if same(list[i].as_str(), s) {
            assert(views(list@)[i as int] == s@);
            return true;
        }
        i += 1;
    }
    proof {
        assert forall|j: int| 0 <= j < views(list@).len() implies views(list@)[j] != s@ by {}
    }
    false
}

/// The text that a sequence of bytes holds, read as UTF-8 with every malformed
/// part replaced.
pub uninterp spec fn utf8_lossy(bytes: Seq<u8>) -> Seq<char>;

/// `String::from_utf8_lossy` gives the text that the bytes encode; each malformed
/// part becomes the replacement character. The result is named, not spelled out;
/// of well-formed bytes it is their decoding.
#[verifier::external_body]
pub(crate) fn from_utf8_lossy(bytes: &Vec<u8>) -> (s: String)
    ensures
        s@ == utf8_lossy(bytes@),
        vstd::utf8::valid_utf8(bytes@) ==> s@ == vstd::utf8::decode_utf8(bytes@),
{
    String::from_utf8_lossy(bytes).into_owned()
}

/// What the standard library says of bytes that are no UTF-8.
pub uninterp spec fn utf8_error_text(bytes: Seq<u8>) -> Seq<char>;

/// `std::str::from_utf8` gives the text that well-formed bytes encode, and an
/// error of other bytes. How that error reads is named, not spelled out.
#[verifier::external_body]
pub(crate) fn from_utf8(bytes: &Vec<u8>) -> (r: Result<String, String>)
    ensures
        match r {
            Ok(s) => vstd::utf8::valid_utf8(bytes@) && s@ == vstd::utf8::decode_utf8(bytes@),
            Err(e) => !vstd::utf8::valid_utf8(bytes@) && e@ == utf8_error_text(bytes@),
        },
{
    match std::str::from_utf8(bytes) {
        Ok(s) => Ok(s.to_string()),
        Err(e) => Err(e.to_string()),
    }
}

// ---------------------------------------------------------------- numbers

pub open spec fn is_digit(c: char) -> bool {
    '0' <= c && c <= '9'
}

pub open spec fn digit_char(d: nat) -> char {
    (48 + d) as char
}

/// Decimal form, without leading zeros.
pub open spec fn dec(n: nat) -> Seq<char>
    decreases n,
{
    if n < 10 {
        seq![digit_char(n)]
    } else {
        dec(n / 10).push(digit_char(n % 10))
    }
}

/// The number that a sequence of decimal digits stands for.
pub open spec fn value(s: Seq<char>) -> nat
    decreases s.len(),
{
    if s.len() == 0 {
        0
    } else {
        10 * value(s.drop_last()) + (s.last() as nat - 48) as nat
    }
}

pub open spec fn all_digits(s: Seq<char>) -> bool {
    forall|i: int| 0 <= i < s.len() ==> is_digit(#[trigger] s[i])
}

/// Reading back the decimal form of a number gives the number.
pub proof fn lemma_value_of_dec(n: nat)
    ensures
        value(dec(n)) == n,
        all_digits(dec(n)),
        dec(n).len() > 0,
    decreases n,
{
    if n >= 10 {
        lemma_value_of_dec(n / 10);
        assert(dec(n).drop_last() =~= dec(n / 10));
    } else {
        reveal_with_fuel(value, 2);
        assert(dec(n).drop_last() =~= Seq::<char>::empty());
    }
}

fn digit_of(d: u64) -> (c: char)
    requires
        d < 10,
    ensures
        c == digit_char(d as nat),
{
    (48 + d as u8) as char
}

/// Decimal form of `n`.
pub fn dec_u64(n: u64) -> (s: String)
    ensures
        s@ == dec(n as nat),
    decreases n,
{
    if n < 10 {
        let mut s = String::new();
        s.push(digit_of(n));
        assert(s@ =~= seq![digit_char(n as nat)]);
        s
    } else {
        let mut s = dec_u64(n / 10);
        s.push(digit_of(n % 10));
        s
    }
}

/// Decimal form, with a sign where the number is negative.
pub open spec fn dec_int(n: int) -> Seq<char> {
    if n < 0 {
        "-"@ + dec((-n) as nat)
    } else {
        dec(n as nat)
    }
}

/// Decimal form of `n`.
pub fn dec_i32(n: i32) -> (s: String)
    ensures
        s@ == dec_int(n as int),
{
    if n < 0 {
        let mut s = "-".to_owned();
        let m: u64 = (-(n as i64)) as u64;
        s.append(dec_u64(m).as_str());
        s
    } else {
        dec_u64(n as u64)
    }
}

pub open spec fn hex_char(d: nat) -> char {
    if d < 10 {
        digit_char(d)
    } else {
        (87 + d) as char
    }
}

/// `width` lowercase hexadecimal digits of `n`, most significant first.
pub open spec fn hex_fixed(n: nat, width: nat) -> Seq<char>
    decreases width,
{
    if width == 0 {
        Seq::empty()
    } else {
        hex_fixed(n / 16, (width - 1) as nat).push(hex_char(n % 16))
    }
}

/// `width` lowercase hexadecimal digits of `n`.
pub fn hex_u64(n: u64, width: usize) -> (s: String)
    ensures
        s@ == hex_fixed(n as nat, width as nat),
    decreases width,
{
    if width == 0 {
        let s = String::new();
        assert(s@ =~= Seq::<char>::empty());
        s
    } else {
        let mut s = hex_u64(n / 16, width - 1);
        let d: u64 = n % 16;
        let c = if d < 10 {
            digit_of(d)
        } else {
            (87 + d as u8) as char
        };
        s.push(c);
        s
    }
}

/// `width` decimal digits of `n`, most significant first.
pub open spec fn dec_fixed(n: nat, width: nat) -> Seq<char>
    decreases width,
{
    if width == 0 {
        Seq::empty()
    } else {
        dec_fixed(n / 10, (width - 1) as nat).push(digit_char(n % 10))
    }
}

/// `width` decimal digits of `n`.
pub fn dec_padded(n: u64, width: usize) -> (s: String)
    ensures
        s@ == dec_fixed(n as nat, width as nat),
    decreases width,
{
    if width == 0 {
        let s = String::new();
        assert(s@ =~= Seq::<char>::empty());
        s
    } else {
        let mut s = dec_padded(n / 10, width - 1);
        s.push(digit_of(n % 10));
        s
    }
}

/// A number that fits its width can be read off its digits.
pub proof fn lemma_dec_fixed(n: nat, width: nat)
    ensures
        dec_fixed(n, width).len() == width,
        all_digits(dec_fixed(n, width)),
        n < vstd::arithmetic::power::pow(10, width) ==> value(dec_fixed(n, width)) == n,
    decreases width,
{
    vstd::arithmetic::power::lemma_pow0(10);
    if width > 0 {
        lemma_dec_fixed(n / 10, (width - 1) as nat);
        vstd::arithmetic::power::lemma_pow_adds(10, 1, (width - 1) as nat);
        vstd::arithmetic::power::lemma_pow1(10);
        assert(dec_fixed(n, width).drop_last() =~= dec_fixed(n / 10, (width - 1) as nat));
    }
}

/// The value of a hexadecimal digit of either case.
pub open spec fn hex_digit(c: char) -> Option<nat> {
    if '0' <= c && c <= '9' {
        Some((c as nat - 48) as nat)
    } else if 'a' <= c && c <= 'f' {
        Some((c as nat - 87) as nat)
    } else if 'A' <= c && c <= 'F' {
        Some((c as nat - 55) as nat)
    } else {
        None
    }
}

/// The number that a sequence of hexadecimal digits stands for.
pub open spec fn hex_value(s: Seq<char>) -> Option<nat>
    decreases s.len(),
{
    if s.len() == 0 {
        Some(0)
    } else {
        match (hex_value(s.drop_last()), hex_digit(s.last())) {
            (Some(v), Some(d)) => Some(16 * v + d),
            _ => None,
        }
    }
}

/// What a string says as a hexadecimal number of at most `max`: an optional `+`,
/// then one or more digits.
pub open spec fn parse_hex(s: Seq<char>, max: nat) -> Option<nat> {
    match hex_value(unsigned_part(s)) {
        Some(v) => if s.len() > 0 && v <= max {
            Some(v)
        } else {
            None
        },
        None => None,
    }
}

proof fn lemma_hex_prefix(s: Seq<char>, i: int)
    requires
        0 <= i <= s.len(),
    ensures
        hex_value(s) matches Some(v) ==> (hex_value(s.take(i)) matches Some(w) && w <= v),
    decreases s.len() - i,
{
    if i < s.len() {
        lemma_hex_prefix(s, i + 1);
        assert(s.take(i + 1).drop_last() =~= s.take(i));
    } else {
        assert(s.take(i) =~= s);
    }
}

fn hex_digit_of(c: char) -> (r: Option<u64>)
    ensures
        match r {
            Some(d) => hex_digit(c) == Some(d as nat) && d < 16,
            None => hex_digit(c) is None,
        },
{
    if '0' <= c && c <= '9' {
        Some(c as u64 - 48)
    } else if 'a' <= c && c <= 'f' {
        Some(c as u64 - 87)
    } else if 'A' <= c && c <= 'F' {
        Some(c as u64 - 55)
    } else {
        None
    }
}

/// What a string says as a hexadecimal number of at most `max`.
pub fn parse_hex_str(s: &str, max: u32) -> (r: Option<u32>)
    ensures
        match r {
            Some(n) => parse_hex(s@, max as nat) == Some(n as nat),
            None => parse_hex(s@, max as nat) is None,
        },
{
    let v = to_chars(s);
    if v.len() == 0 {
        return None;
    }
    let start: usize = if v.len() > 1 && v[0] == '+' {
        1
    } else {
        0
    };
    let ghost d = unsigned_part(s@);
    let mut n: u64 = 0;
    let mut i: usize = start;
    proof {
        assert(d =~= v@.skip(start as int));
        assert(d.take(0) =~= Seq::<char>::empty());
    }
    while i < v.len()
        invariant
            start <= i <= v.len(),
            start <= 1,
            v@ == s@,
            d == unsigned_part(s@),
            d == v@.skip(start as int),
            n <= max,
            hex_value(d.take(i - start)) == Some(n as nat),
        decreases v.len() - i,
    {
        proof {
            assert(d.take(i + 1 - start).drop_last() =~= d.take(i - start));
            assert(d.take(i + 1 - start).last() == v@[i as int]);
            lemma_hex_prefix(d, i + 1 - start);
        }
        match hex_digit_of(v[i]) {
            Some(x) => {
                n = 16 * n + x;
            },
            None => return None,
        }
        if n > max as u64 {
            return None;
        }
        i += 1;
    }
    assert(d.take(d.len() as int) =~= d);
    Some(n as u32)
}

/// Why a string is no unsigned number.
#[derive(Clone, Copy, Debug, PartialEq, Eq, Structural)]
pub enum IntError {
    Empty,
    InvalidDigit,
    PosOverflow,
}

impl IntError {
    pub open spec fn text(self) -> Seq<char> {
        match self {
            IntError::Empty => "cannot parse integer from empty string"@,
            IntError::InvalidDigit => "invalid digit found in string"@,
            IntError::PosOverflow => "number too large to fit in target type"@,
        }
    }

    pub fn message(self) -> (s: &'static str)
        ensures
            s@ == self.text(),
    {
        match self {
            IntError::Empty => "cannot parse integer from empty string",
            IntError::InvalidDigit => "invalid digit found in string",
            IntError::PosOverflow => "number too large to fit in target type",
        }
    }
}

/// How many digits a sequence starts with.
pub open spec fn leading_digits(s: Seq<char>) -> nat
    decreases s.len(),
{
    if s.len() == 0 || !is_digit(s[0]) {
        0
    } else {
        1 + leading_digits(s.skip(1))
    }
}

/// A sequence without its sign, where it has one and something follows.
pub open spec fn unsigned_part(s: Seq<char>) -> Seq<char> {
    if s.len() > 1 && s[0] == '+' {
        s.skip(1)
    } else {
        s
    }
}

/// What a string says as an unsigned number of at most `max`: an optional `+`,
/// then one or more decimal digits.
pub open spec fn parse_uint(s: Seq<char>, max: nat) -> Result<nat, IntError> {
    let d = unsigned_part(s);
    let k = leading_digits(d) as int;
    if s.len() == 0 {
        Err(IntError::Empty)
    } else if value(d.take(k)) > max {
        Err(IntError::PosOverflow)
    } else if k < d.len() {
        Err(IntError::InvalidDigit)
    } else {
        Ok(value(d))
    }
}

proof fn lemma_leading_digits(s: Seq<char>, k: nat)
    requires
        k <= s.len(),
        forall|i: int| 0 <= i < k ==> is_digit(#[trigger] s[i]),
        k == s.len() || !is_digit(s[k as int]),
    ensures
        leading_digits(s) == k,
    decreases k,
{
    if k > 0 {
        let t = s.skip(1);
        assert forall|i: int| 0 <= i < k - 1 implies is_digit(#[trigger] t[i]) by {
            assert(t[i] == s[i + 1]);
        }
        assert(k < s.len() ==> t[k - 1] == s[k as int]);
        assert(is_digit(s[0]));
        lemma_leading_digits(t, (k - 1) as nat);
    }
}

pub proof fn lemma_leading_digits_bound(s: Seq<char>)
    ensures
        leading_digits(s) <= s.len(),
        forall|i: int| 0 <= i < leading_digits(s) ==> is_digit(#[trigger] s[i]),
        leading_digits(s) == s.len() || !is_digit(s[leading_digits(s) as int]),
    decreases s.len(),
{
    if s.len() > 0 && is_digit(s[0]) {
        let t = s.skip(1);
        lemma_leading_digits_bound(t);
        assert forall|i: int| 0 <= i < leading_digits(s) implies is_digit(#[trigger] s[i]) by {
            if i > 0 {
                assert(t[i - 1] == s[i]);
            }
        }
        assert(leading_digits(t) < t.len() ==> t[leading_digits(t) as int] == s[leading_digits(s) as int]);
    }
}

proof fn lemma_value_monotone(s: Seq<char>, i: int, j: int)
    requires
        0 <= i <= j <= s.len(),
    ensures
        value(s.take(i)) <= value(s.take(j)),
    decreases j - i,
{
    if i < j {
        lemma_value_monotone(s, i, j - 1);
        assert(s.take(j).drop_last() =~= s.take(j - 1));
    }
}

/// A number that was read is within its bound.
pub proof fn lemma_parse_bound(s: Seq<char>, max: nat)
    ensures
        parse_uint(s, max) matches Ok(n) ==> n <= max,
{
    let d = unsigned_part(s);
    assert(d.take(d.len() as int) =~= d);
    lemma_leading_digits_bound(d);
}

/// Reads an unsigned number of at most `max`.
pub fn parse_uint_chars(s: &[char], max: u64) -> (r: Result<u64, IntError>)
    ensures
        match r {
            Ok(n) => parse_uint(s@, max as nat) == Ok::<nat, IntError>(n as nat),
            Err(e) => parse_uint(s@, max as nat) == Err::<nat, IntError>(e),
        },
{
    if s.len() == 0 {
        return Err(IntError::Empty);
    }
    let ghost d = unsigned_part(s@);
    let start: usize = if s.len() > 1 && s[0] == '+' {
        1
    } else {
        0
    };
    let mut i: usize = start;
    let mut acc: u64 = 0;
    proof {
        lemma_leading_digits_bound(d);
        assert(d.take(0) =~= Seq::<char>::empty());
    }
    while i < s.len()
        invariant
            start <= i <= s.len(),
            d == s@.skip(start as int),
            d.len() == s.len() - start,
            acc <= max,
            acc == value(d.take(i - start)),
            i - start <= leading_digits(d) <= d.len(),
            leading_digits(d) == d.len() || !is_digit(d[leading_digits(d) as int]),
            s.len() > 0,
            d == unsigned_part(s@),
            forall|j: int| 0 <= j < leading_digits(d) ==> is_digit(#[trigger] d[j]),
        decreases s.len() - i,
    {
        let c = s[i];
        assert(c == d[i - start]);
        if !('0' <= c && c <= '9') {
            assert(leading_digits(d) == i - start);
            return Err(IntError::InvalidDigit);
        }
        let v: u64 = (c as u32 - 48) as u64;
        proof {
            assert(is_digit(d[i - start]));
            assert(leading_digits(d) > i - start);
            assert(d.take(i - start + 1).drop_last() =~= d.take(i - start));
            assert(value(d.take(i - start + 1)) == 10 * acc + v);
            lemma_value_monotone(d, i - start + 1, leading_digits(d) as int);
        }
        if acc > max / 10 {
            return Err(IntError::PosOverflow);
        }
        if v > max - acc * 10 {
            return Err(IntError::PosOverflow);
        }
        acc = acc * 10 + v;
        i += 1;
    }
    proof {
        assert(d.take(d.len() as int) =~= d);
    }
    Ok(acc)
}

/// Reads an unsigned number of at most `max`.
pub fn parse_uint_str(s: &str, max: u64) -> (r: Result<u64, IntError>)
    ensures
        match r {
            Ok(n) => parse_uint(s@, max as nat) == Ok::<nat, IntError>(n as nat),
            Err(e) => parse_uint(s@, max as nat) == Err::<nat, IntError>(e),
        },
{
    let v = to_chars(s);
    parse_uint_chars(v.as_slice(), max)
}

/// The decimal form of a number is read back as that number.
pub proof fn lemma_parse_of_dec(n: nat, max: nat)
    requires
        n <= max,
    ensures
        parse_uint(dec(n), max) == Ok::<nat, IntError>(n),
{
    let s = dec(n);
    lemma_value_of_dec(n);
    assert(is_digit(s[0]));
    lemma_leading_digits(s, s.len());
    assert(s.take(s.len() as int) =~= s);
}

// --------------------------------------------------------------- splitting

/// The white space characters of Unicode.
pub open spec fn is_white(c: char) -> bool {
    ||| ('\u{9}' <= c && c <= '\u{d}')
    ||| c == ' '
    ||| c == '\u{85}'
    ||| c == '\u{a0}'
    ||| c == '\u{1680}'
    ||| ('\u{2000}' <= c && c <= '\u{200a}')
    ||| c == '\u{2028}'
    ||| c == '\u{2029}'
    ||| c == '\u{202f}'
    ||| c == '\u{205f}'
    ||| c == '\u{3000}'
}

pub fn white(c: char) -> (r: bool)
    ensures
        r == is_white(c),
{
    ('\u{9}' <= c && c <= '\u{d}') || c == ' ' || c == '\u{85}' || c == '\u{a0}' || c == '\u{1680}'
        || ('\u{2000}' <= c && c <= '\u{200a}') || c == '\u{2028}' || c == '\u{2029}' || c
        == '\u{202f}' || c == '\u{205f}' || c == '\u{3000}'
}

/// The parts of `s` between the characters that `f` picks out.
pub open spec fn split_by(s: Seq<char>, f: spec_fn(char) -> bool) -> Seq<Seq<char>>
    decreases s.len(),
{
    if s.len() == 0 {
        seq![Seq::<char>::empty()]
    } else {
        let before = split_by(s.drop_last(), f);
        if f(s.last()) {
            before.push(Seq::<char>::empty())
        } else {
            before.drop_last().push(before.last().push(s.last()))
        }
    }
}

/// Picks out the white space characters.
pub open spec fn whites() -> spec_fn(char) -> bool {
    |x: char| is_white(x)
}

/// Picks out `c`.
pub open spec fn just(c: char) -> spec_fn(char) -> bool {
    |x: char| x == c
}

/// The parts of `s` between the occurrences of `c`.
pub open spec fn split_char(s: Seq<char>, c: char) -> Seq<Seq<char>> {
    split_by(s, just(c))
}

/// A sequence without the separator is one part.
pub proof fn lemma_split_none(s: Seq<char>, c: char)
    requires
        forall|i: int| 0 <= i < s.len() ==> s[i] != c,
    ensures
        split_char(s, c) == seq![s],
    decreases s.len(),
{
    if s.len() > 0 {
        let d = s.drop_last();
        assert forall|i: int| 0 <= i < d.len() implies d[i] != c by {
            assert(d[i] == s[i]);
        }
        lemma_split_none(d, c);
        assert(s.last() != c);
        assert(d.push(s.last()) =~= s);
        assert(split_char(s, c) =~= seq![s]);
    } else {
        assert(s =~= Seq::<char>::empty());
    }
}

/// What follows the last separator is the last part.
pub proof fn lemma_split_append(a: Seq<char>, b: Seq<char>, c: char)
    requires
        forall|i: int| 0 <= i < b.len() ==> b[i] != c,
    ensures
        split_char(a.push(c) + b, c) == split_char(a, c).push(b),
    decreases b.len(),
{
    let s = a.push(c) + b;
    if b.len() == 0 {
        assert(s =~= a.push(c));
        assert(s.drop_last() =~= a);
        assert(b =~= Seq::<char>::empty());
    } else {
        let d = b.drop_last();
        assert forall|i: int| 0 <= i < d.len() implies d[i] != c by {
            assert(d[i] == b[i]);
        }
        lemma_split_append(a, d, c);
        assert(s.drop_last() =~= a.push(c) + d);
        assert(s.last() == b.last() && b.last() != c);
        assert(d.push(b.last()) =~= b);
        assert(split_char(s, c) =~= split_char(a, c).push(b));
    }
}

/// The members of a list that are not empty.
pub open spec fn nonempty(v: Seq<Seq<char>>) -> Seq<Seq<char>>
    decreases v.len(),
{
    if v.len() == 0 {
        Seq::empty()
    } else {
        let before = nonempty(v.drop_last());
        if v.last().len() > 0 {
            before.push(v.last())
        } else {
            before
        }
    }
}

/// The words of `s`: its maximal runs of characters that are not white space.
pub open spec fn words(s: Seq<char>) -> Seq<Seq<char>> {
    nonempty(split_by(s, whites()))
}

fn split_general(s: &[char], white_space: bool, c: char) -> (r: Vec<String>)
    ensures
        views(r@) == (if white_space {
            split_by(s@, whites())
        } else {
            split_char(s@, c)
        }),
{
    let ghost f: spec_fn(char) -> bool = if white_space {
        whites()
    } else {
        just(c)
    };
    let mut out: Vec<String> = Vec::new();
    let mut cur = String::new();
    let mut i: usize = 0;
    proof {
        assert(s@.take(0) =~= Seq::<char>::empty());
        assert(views(out@).push(cur@) =~= seq![Seq::<char>::empty()]);
    }
    while i < s.len()
        invariant
            i <= s.len(),
            views(out@).push(cur@) == split_by(s@.take(i as int), f),
            f == (if white_space {
                whites()
            } else {
                just(c)
            }),
        decreases s.len() - i,
    {
        let ghost before = split_by(s@.take(i as int), f);
        let x = s[i];
        proof {
            assert(s@.take(i + 1).drop_last() =~= s@.take(i as int));
            assert(s@.take(i + 1).last() == x);
        }
        let cut = if white_space {
            white(x)
        } else {
            x == c
        };
        if cut {
            proof {
                lemma_views_push(out@, cur);
            }
            out.push(cur);
            cur = String::new();
            assert(cur@ =~= Seq::<char>::empty());
        } else {
            cur.push(x);
            assert(before.drop_last() =~= views(out@));
        }
        i += 1;
    }
    proof {
        assert(s@.take(s@.len() as int) =~= s@);
        lemma_views_push(out@, cur);
    }
    out.push(cur);
    out
}

/// The parts of `s` between the occurrences of `c`.
pub fn split(s: &str, c: char) -> (r: Vec<String>)
    ensures
        views(r@) == split_char(s@, c),
{
    let v = to_chars(s);
    split_general(v.as_slice(), false, c)
}

/// The strings of `v` that are not empty, in order.
pub fn keep_nonempty(v: Vec<String>) -> (r: Vec<String>)
    ensures
        views(r@) == nonempty(views(v@)),
{
    let mut out: Vec<String> = Vec::new();
    let mut i: usize = 0;
    assert(views(v@).take(0) =~= Seq::<Seq<char>>::empty());
    assert(views(out@) =~= Seq::<Seq<char>>::empty());
    while i < v.len()
        invariant
            i <= v.len(),
            views(out@) == nonempty(views(v@).take(i as int)),
        decreases v.len() - i,
    {
        proof {
            let t = views(v@).take(i + 1);
            assert(t.drop_last() =~= views(v@).take(i as int));
            assert(t.last() == v@[i as int]@);
        }
        if !v[i].as_str().is_empty() {
            let s = v[i].clone();
            proof {
                lemma_views_push(out@, s);
            }
            out.push(s);
        }
        i += 1;
    }
    assert(views(v@).take(v@.len() as int) =~= views(v@));
    out
}

/// The words of `s`.
pub fn split_words(s: &str) -> (r: Vec<String>)
    ensures
        views(r@) == words(s@),
{
    let v = to_chars(s);
    keep_nonempty(split_general(v.as_slice(), true, ' '))
}

/// A line without the carriage return at its end.
pub open spec fn strip_cr(s: Seq<char>) -> Seq<char> {
    if s.len() > 0 && s.last() == '\r' {
        s.drop_last()
    } else {
        s
    }
}

/// The lines of `s`: each ends at a line feed or a carriage return and a line
/// feed, the last one also at the end of `s`.
pub open spec fn lines(s: Seq<char>) -> Seq<Seq<char>> {
    let parts = split_char(s, '\n');
    let ended = Seq::new((parts.len() - 1) as nat, |i: int| strip_cr(parts[i]));
    if parts.last().len() > 0 {
        ended.push(parts.last())
    } else {
        ended
    }
}

pub proof fn lemma_split_nonempty(s: Seq<char>, f: spec_fn(char) -> bool)
    ensures
        split_by(s, f).len() >= 1,
    decreases s.len(),
{
    if s.len() > 0 {
        lemma_split_nonempty(s.drop_last(), f);
    }
}

/// The lines of `s`.
pub fn split_lines(s: &str) -> (r: Vec<String>)
    ensures
        views(r@) == lines(s@),
{
    let parts = split(s, '\n');
    proof {
        lemma_split_nonempty(s@, just('\n'));
        assert(views(parts@).len() >= 1);
    }
    let mut out: Vec<String> = Vec::new();
    let mut i: usize = 0;
    while i < parts.len() - 1
        invariant
            i <= parts.len() - 1,
            views(out@) =~= Seq::new(i as nat, |k: int| strip_cr(parts@[k]@)),
        decreases parts.len() - 1 - i,
    {
        let v = to_chars(parts[i].as_str());
        let n: usize = v.len();
        let line = if n > 0 && v[n - 1] == '\r' {
            let l = from_chars(vstd::slice::slice_subrange(v.as_slice(), 0, n - 1));
            assert(l@ =~= v@.drop_last());
            l
        } else {
            parts[i].clone()
        };
        proof {
            lemma_views_push(out@, line);
        }
        out.push(line);
        i += 1;
    }
    assert(views(out@) =~= Seq::new((views(parts@).len() - 1) as nat, |k: int| strip_cr(views(parts@)[k])));
    let last = parts[parts.len() - 1].clone();
    if !last.as_str().is_empty() {
        proof {
            lemma_views_push(out@, last);
        }
        out.push(last);
    }
    out
}

/// The members of a list, with `sep` between each two of them.
pub open spec fn join(v: Seq<Seq<char>>, sep: Seq<char>) -> Seq<char>
    decreases v.len(),
{
    if v.len() == 0 {
        Seq::empty()
    } else if v.len() == 1 {
        v[0]
    } else {
        join(v.drop_last(), sep) + sep + v.last()
    }
}

/// The strings of `v`, with `sep` between each two of them.
pub fn join_strings(v: &Vec<String>, sep: &str) -> (r: String)
    ensures
        r@ == join(views(v@), sep@),
{
    let mut out = String::new();
    let mut i: usize = 0;
    proof {
        assert(views(v@).take(0) =~= Seq::<Seq<char>>::empty());
        assert(out@ =~= Seq::<char>::empty());
    }
    while i < v.len()
        invariant
            i <= v.len(),
            out@ == join(views(v@).take(i as int), sep@),
        decreases v.len() - i,
    {
        proof {
            let t = views(v@).take(i + 1);
            assert(t.drop_last() =~= views(v@).take(i as int));
            assert(t.last() == v@[i as int]@);
            assert(i == 0 ==> out@ =~= Seq::<char>::empty());
            assert(i == 0 ==> t[0] == v@[0]@);
        }
        if i > 0 {
            out.append(sep);
        }
        let ghost mid = out@;
        out.append(v[i].as_str());
        proof {
            assert(i == 0 ==> mid + v@[0]@ =~= v@[0]@);
        }
        i += 1;
    }
    assert(views(v@).take(v@.len() as int) =~= views(v@));
    out
}

// ---------------------------------------------------------------- trimming

pub open spec fn trim_start(s: Seq<char>) -> Seq<char>
    decreases s.len(),
{
    if s.len() > 0 && is_white(s[0]) {
        trim_start(s.skip(1))
    } else {
        s
    }
}

pub open spec fn trim_end(s: Seq<char>) -> Seq<char>
    decreases s.len(),
{
    if s.len() > 0 && is_white(s.last()) {
        trim_end(s.drop_last())
    } else {
        s
    }
}

/// `s` without the white space at both ends.
pub open spec fn trim(s: Seq<char>) -> Seq<char> {
    trim_end(trim_start(s))
}

proof fn lemma_trim_start(s: Seq<char>)
    ensures
        trim_start(s).len() == 0 || !is_white(trim_start(s)[0]),
    decreases s.len(),
{
    if s.len() > 0 && is_white(s[0]) {
        lemma_trim_start(s.skip(1));
    }
}

proof fn lemma_trim_end(s: Seq<char>)
    ensures
        trim_end(s).len() <= s.len(),
        trim_end(s) == s.take(trim_end(s).len() as int),
        trim_end(s).len() == 0 || !is_white(trim_end(s).last()),
    decreases s.len(),
{
    if s.len() > 0 && is_white(s.last()) {
        lemma_trim_end(s.drop_last());
        assert(s.take(trim_end(s).len() as int) =~= s.drop_last().take(trim_end(s).len() as int));
    } else {
        assert(s.take(s.len() as int) =~= s);
    }
}

/// Trimming again changes nothing.
pub proof fn lemma_trim_twice(s: Seq<char>)
    ensures
        trim(trim(s)) == trim(s),
{
    lemma_trim_start(s);
    lemma_trim_end(trim_start(s));
    let t = trim(s);
    if t.len() > 0 {
        assert(t[0] == trim_start(s)[0]);
    }
    assert(trim_start(t) == t);
    assert(trim_end(t) == t);
}

/// `s` without the white space at its end.
pub fn trimmed_end(s: &str) -> (r: String)
    ensures
        r@ == trim_end(s@),
{
    let v = to_chars(s);
    let mut j: usize = v.len();
    assert(v@.take(v@.len() as int) =~= s@);
    while j > 0 && white(v[j - 1])
        invariant
            j <= v.len(),
            trim_end(v@.take(j as int)) == trim_end(s@),
        decreases j,
    {
        assert(v@.take(j as int).drop_last() =~= v@.take(j - 1));
        j -= 1;
    }
    let r = from_chars(vstd::slice::slice_subrange(v.as_slice(), 0, j));
    assert(r@ =~= v@.take(j as int));
    r
}

/// `s` without the white space at both ends.
pub fn trimmed(s: &str) -> (r: String)
    ensures
        r@ == trim(s@),
{
    let v = to_chars(s);
    let mut i: usize = 0;
    assert(v@.skip(0) =~= s@);
    while i < v.len() && white(v[i])
        invariant
            i <= v.len(),
            trim_start(v@.skip(i as int)) == trim_start(s@),
        decreases v.len() - i,
    {
        assert(v@.skip(i as int).skip(1) =~= v@.skip(i + 1));
        i += 1;
    }
    let t = from_chars(vstd::slice::slice_subrange(v.as_slice(), i, v.len()));
    assert(t@ =~= v@.skip(i as int));
    trimmed_end(t.as_str())
}

// --------------------------------------------------------------- searching

/// Whether `p` occurs in `s` at position `i`.
pub open spec fn occurs_at(s: Seq<char>, p: Seq<char>, i: int) -> bool {
    0 <= i && i + p.len() <= s.len() && s.subrange(i, i + p.len()) == p
}

/// Whether `p` occurs in `s`.
pub open spec fn contains_text(s: Seq<char>, p: Seq<char>) -> bool {
    exists|i: int| occurs_at(s, p, i)
}

fn matches_at(s: &Vec<char>, p: &Vec<char>, i: usize) -> (r: bool)
    requires
        i <= s.len(),
    ensures
        r == occurs_at(s@, p@, i as int),
{
    if p.len() > s.len() - i {
        return false;
    }
    let mut k: usize = 0;
    while k < p.len()
        invariant
            k <= p.len(),
            i + p.len() <= s.len(),
            forall|j: int| 0 <= j < k ==> s@[i + j] == p@[j],
        decreases p.len() - k,
    {
        if s[i + k] != p[k] {
            proof {
                assert(s@.subrange(i as int, i + p.len())[k as int] != p@[k as int]);
            }
            return false;
        }
        k += 1;
    }
    assert(s@.subrange(i as int, i + p.len()) =~= p@);
    true
}

/// Whether `p` occurs in `s`.
pub fn contains(s: &str, p: &str) -> (r: bool)
    ensures
        r == contains_text(s@, p@),
{
    let a = to_chars(s);
    let b = to_chars(p);
    let mut i: usize = 0;
    while i < a.len()
        invariant
            i <= a.len(),
            a@ == s@,
            b@ == p@,
            forall|j: int| 0 <= j < i ==> !occurs_at(a@, b@, j),
        decreases a.len() - i,
    {
        if matches_at(&a, &b, i) {
            return true;
        }
        i += 1;
    }
    let r = matches_at(&a, &b, i);
    r
}

/// Position of the first occurrence of `p` in `s`.
pub open spec fn is_first_at(s: Seq<char>, p: Seq<char>, i: int) -> bool {
    occurs_at(s, p, i) && forall|j: int| 0 <= j < i ==> !occurs_at(s, p, j)
}

/// Position of the first occurrence of `p` in `s`, where there is one.
pub open spec fn position(s: Seq<char>, p: Seq<char>) -> Option<int> {
    if contains_text(s, p) {
        Some(choose|i: int| is_first_at(s, p, i))
    } else {
        None
    }
}

/// There is only one first occurrence.
pub proof fn lemma_position(s: Seq<char>, p: Seq<char>, i: int)
    requires
        is_first_at(s, p, i),
    ensures
        position(s, p) == Some(i),
{
    let k = choose|k: int| is_first_at(s, p, k);
    assert(is_first_at(s, p, k));
    if k < i {
        assert(!occurs_at(s, p, k));
    } else if i < k {
        assert(!occurs_at(s, p, i));
    }
}

/// Position of the first occurrence of `p` in `s`.
pub fn find_chars(s: &Vec<char>, p: &str) -> (r: Option<usize>)
    ensures
        match r {
            Some(i) => position(s@, p@) == Some(i as int) && occurs_at(s@, p@, i as int),
            None => position(s@, p@) is None,
        },
{
    let b = to_chars(p);
    let mut i: usize = 0;
    while i <= s.len()
        invariant
            i <= s.len() + 1,
            b@ == p@,
            forall|j: int| 0 <= j < i ==> !occurs_at(s@, b@, j),
        decreases s.len() + 1 - i,
    {
        if matches_at(s, &b, i) {
            proof {
                lemma_position(s@, p@, i as int);
            }
            return Some(i);
        }
        if i == s.len() {
            return None;
        }
        i += 1;
    }
    None
}

/// What follows the prefix `p` of `s`, where `s` starts with it.
pub open spec fn without_prefix(s: Seq<char>, p: Seq<char>) -> Option<Seq<char>> {
    if p.is_prefix_of(s) {
        Some(s.skip(p.len() as int))
    } else {
        None
    }
}

/// Whether `s` starts with `p`.
pub fn starts_with(s: &str, p: &str) -> (r: bool)
    ensures
        r == p@.is_prefix_of(s@),
{
    let a = to_chars(s);
    let b = to_chars(p);
    let r = matches_at(&a, &b, 0);
    proof {
        if r {
            assert(p@ =~= s@.subrange(0, p@.len() as int));
        }
    }
    r
}

/// What follows the prefix `p` of `s`, where `s` starts with it.
pub fn strip_prefix(s: &str, p: &str) -> (r: Option<String>)
    ensures
        match r {
            Some(t) => without_prefix(s@, p@) == Some(t@),
            None => without_prefix(s@, p@) is None,
        },
{
    if starts_with(s, p) {
        let a = to_chars(s);
        let k: usize = to_chars(p).len();
        let t = from_chars(vstd::slice::slice_subrange(a.as_slice(), k, a.len()));
        assert(t@ =~= s@.skip(k as int));
        Some(t)
    } else {
        None
    }
}

/// Position of the first `c` in `s`; the length of `s` where there is none.
pub open spec fn first_of(s: Seq<char>, c: char) -> int
    decreases s.len(),
{
    if s.len() == 0 || s[0] == c {
        0
    } else {
        1 + first_of(s.skip(1), c)
    }
}

pub proof fn lemma_first_of(s: Seq<char>, c: char, k: int)
    requires
        0 <= k <= s.len(),
        forall|i: int| 0 <= i < k ==> s[i] != c,
        k < s.len() ==> s[k] == c,
    ensures
        first_of(s, c) == k,
    decreases k,
{
    if k > 0 {
        assert(s[0] != c);
        let t = s.skip(1);
        assert forall|i: int| 0 <= i < k - 1 implies t[i] != c by {
            assert(t[i] == s[i + 1]);
        }
        assert(k < s.len() ==> t[k - 1] == s[k]);
        lemma_first_of(t, c, k - 1);
    }
}

/// `s` before and after its first `c`.
pub open spec fn halves(s: Seq<char>, c: char) -> Option<(Seq<char>, Seq<char>)> {
    let k = first_of(s, c);
    if k < s.len() {
        Some((s.take(k), s.skip(k + 1)))
    } else {
        None
    }
}

/// `s` before and after its first `c`.
pub fn split_once(s: &str, c: char) -> (r: Option<(String, String)>)
    ensures
        match r {
            Some((a, b)) => halves(s@, c) == Some((a@, b@)),
            None => halves(s@, c) is None,
        },
{
    let v = to_chars(s);
    let mut i: usize = 0;
    while i < v.len() && v[i] != c
        invariant
            i <= v.len(),
            forall|j: int| 0 <= j < i ==> v@[j] != c,
        decreases v.len() - i,
    {
        i += 1;
    }
    proof {
        lemma_first_of(v@, c, i as int);
    }
    if i < v.len() {
        let a = from_chars(vstd::slice::slice_subrange(v.as_slice(), 0, i));
        let b = from_chars(vstd::slice::slice_subrange(v.as_slice(), i + 1, v.len()));
        assert(a@ =~= s@.take(i as int));
        assert(b@ =~= s@.skip(i + 1));
        Some((a, b))
    } else {
        None
    }
}

// ---------------------------------------------------------------- ordering

/// Dictionary order by character.
pub open spec fn str_less(a: Seq<char>, b: Seq<char>) -> bool
    decreases a.len(),
{
    if b.len() == 0 {
        false
    } else if a.len() == 0 {
        true
    } else if a[0] != b[0] {
        a[0] < b[0]
    } else {
        str_less(a.skip(1), b.skip(1))
    }
}

/// Of two different strings, one comes before the other.
pub proof fn lemma_str_less_total(a: Seq<char>, b: Seq<char>)
    ensures
        str_less(a, b) || str_less(b, a) || a == b,
        !(str_less(a, b) && str_less(b, a)),
        !str_less(a, a),
    decreases a.len(),
{
    if a.len() > 0 {
        lemma_str_less_total(a.skip(1), a.skip(1));
    }
    if a.len() > 0 && b.len() > 0 && a[0] == b[0] {
        lemma_str_less_total(a.skip(1), b.skip(1));
        if a.skip(1) == b.skip(1) {
            assert(a =~= seq![a[0]] + a.skip(1));
            assert(b =~= seq![b[0]] + b.skip(1));
        }
    }
    if a.len() == 0 && b.len() == 0 {
        assert(a =~= b);
    }
}

pub proof fn lemma_str_less_transitive(a: Seq<char>, b: Seq<char>, c: Seq<char>)
    requires
        str_less(a, b),
        str_less(b, c),
    ensures
        str_less(a, c),
    decreases a.len(),
{
    if a.len() > 0 && a[0] == b[0] && b[0] == c[0] {
        lemma_str_less_transitive(a.skip(1), b.skip(1), c.skip(1));
    }
}

/// Whether `a` comes before `b` in dictionary order.
pub fn less(a: &str, b: &str) -> (r: bool)
    ensures
        r == str_less(a@, b@),
{
    let x = to_chars(a);
    let y = to_chars(b);
    let mut i: usize = 0;
    assert(x@.skip(0) =~= x@);
    assert(y@.skip(0) =~= y@);
    while i < x.len() && i < y.len()
        invariant
            i <= x.len(),
            i <= y.len(),
            x@ == a@,
            y@ == b@,
            str_less(a@, b@) == str_less(x@.skip(i as int), y@.skip(i as int)),
        decreases x.len() - i,
    {
        if x[i] != y[i] {
            return x[i] < y[i];
        }
        assert(x@.skip(i as int).skip(1) =~= x@.skip(i + 1));
        assert(y@.skip(i as int).skip(1) =~= y@.skip(i + 1));
        i += 1;
    }
    i < y.len()
}

// ------------------------------------------------------------------ letters

pub open spec fn is_ascii_alnum(c: char) -> bool {
    is_digit(c) || ('a' <= c && c <= 'z') || ('A' <= c && c <= 'Z')
}

pub fn ascii_alnum(c: char) -> (r: bool)
    ensures
        r == is_ascii_alnum(c),
{
    ('0' <= c && c <= '9') || ('a' <= c && c <= 'z') || ('A' <= c && c <= 'Z')
}

/// Lowercase of an ASCII letter; any other character as it is.
pub open spec fn ascii_lower(c: char) -> char {
    if 'A' <= c && c <= 'Z' {
        ((c as u32) + 32) as char
    } else {
        c
    }
}

/// `s` with its ASCII letters in lowercase.
pub open spec fn lowercase(s: Seq<char>) -> Seq<char> {
    Seq::new(s.len(), |i: int| ascii_lower(s[i]))
}

/// `s` with its ASCII letters in lowercase.
pub fn to_ascii_lowercase(s: &str) -> (r: String)
    ensures
        r@ == lowercase(s@),
{
    let v = to_chars(s);
    let mut out = String::new();
    let mut i: usize = 0;
    while i < v.len()
        invariant
            i <= v.len(),
            out@ =~= lowercase(v@).take(i as int),
        decreases v.len() - i,
    {
        let c = v[i];
        let l = if 'A' <= c && c <= 'Z' {
            (c as u8 + 32) as char
        } else {
            c
        };
        out.push(l);
        i += 1;
    }
    assert(lowercase(v@).take(v@.len() as int) =~= lowercase(v@));
    out
}

} // verus!
