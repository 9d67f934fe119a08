//! What taking texts apart and putting them together have to do with each other.
use crate::text;
use vstd::prelude::*;

verus! {

/// Whether a text has no `c`.
pub open spec fn free_of(s: Seq<char>, c: char) -> bool {
    forall|i: int| 0 <= i < s.len() ==> #[trigger] s[i] != c
}

/// Whether a text has no white space.
pub open spec fn solid(s: Seq<char>) -> bool {
    forall|i: int| 0 <= i < s.len() ==> !text::is_white(#[trigger] s[i])
}

/// Texts with one `c` between each two of them.
pub open spec fn strung(parts: Seq<Seq<char>>, c: char) -> Seq<char>
    decreases parts.len(),
{
    if parts.len() == 0 {
        Seq::empty()
    } else if parts.len() == 1 {
        parts[0]
    } else {
        strung(parts.drop_last(), c).push(c) + parts.last()
    }
}

/// One text more is strung on by one `c` more.
pub proof fn lemma_strung_push(parts: Seq<Seq<char>>, x: Seq<char>, c: char)
    requires
        parts.len() > 0,
    ensures
        strung(parts.push(x), c) == strung(parts, c).push(c) + x,
{
    assert(parts.push(x).drop_last() =~= parts);
}

/// A number has no character that is no digit.
pub proof fn lemma_numbers_are_digits(n: nat, c: char)
    requires
        !text::is_digit(c),
    ensures
        free_of(text::dec(n), c),
        solid(text::dec(n)),
        text::dec(n).len() > 0,
{
    text::lemma_value_of_dec(n);
    assert forall|i: int| 0 <= i < text::dec(n).len() implies #[trigger] text::dec(n)[i] != c
        && !text::is_white(text::dec(n)[i]) by {
        assert(text::is_digit(text::dec(n)[i]));
    }
}

/// Texts that are strung together and split again are the same texts.
pub proof fn law_split_undoes_string(parts: Seq<Seq<char>>, c: char)
    requires
        parts.len() > 0,
        forall|k: int| 0 <= k < parts.len() ==> free_of(#[trigger] parts[k], c),
    ensures
        text::split_char(strung(parts, c), c) == parts,
    decreases parts.len(),
{
    if parts.len() == 1 {
        text::lemma_split_none(parts[0], c);
        assert(seq![parts[0]] =~= parts);
    } else {
        let d = parts.drop_last();
        assert forall|k: int| 0 <= k < d.len() implies free_of(#[trigger] d[k], c) by {
            assert(d[k] == parts[k]);
        }
        law_split_undoes_string(d, c);
        assert(free_of(parts[parts.len() - 1], c));
        text::lemma_split_append(strung(d, c), parts.last(), c);
        assert(d.push(parts.last()) =~= parts);
    }
}

/// A text that is split and strung together again is the same text, and no part holds
/// what it was split at.
pub proof fn law_string_undoes_split(s: Seq<char>, c: char)
    ensures
        strung(text::split_char(s, c), c) == s,
        text::split_char(s, c).len() > 0,
        forall|k: int|
            0 <= k < text::split_char(s, c).len() ==> free_of(
                #[trigger] text::split_char(s, c)[k],
                c,
            ),
    decreases s.len(),
{
    if s.len() == 0 {
        assert(strung(text::split_char(s, c), c) =~= s);
    } else {
        let d = s.drop_last();
        let b = text::split_char(d, c);
        let w = text::split_char(s, c);
        law_string_undoes_split(d, c);
        assert(d.push(s.last()) =~= s);
        if s.last() == c {
            assert(w == b.push(Seq::empty()));
            assert(w.drop_last() =~= b);
            assert(strung(w, c) =~= s);
            assert forall|k: int| 0 <= k < w.len() implies free_of(#[trigger] w[k], c) by {
                if k < b.len() {
                    assert(w[k] == b[k]);
                }
            }
        } else {
            let last = b.last().push(s.last());
            assert(w == b.drop_last().push(last));
            assert(w.drop_last() =~= b.drop_last());
            if b.len() == 1 {
                assert(strung(w, c) =~= s);
            } else {
                assert(strung(w, c) =~= strung(b, c).push(s.last()));
            }
            assert forall|k: int| 0 <= k < w.len() implies free_of(#[trigger] w[k], c) by {
                if k < b.len() - 1 {
                    assert(w[k] == b[k]);
                } else {
                    assert(free_of(b[b.len() - 1], c));
                }
            }
        }
    }
}

/// A text is split in two at the first `c`.
pub proof fn law_halves(a: Seq<char>, b: Seq<char>, c: char)
    requires
        free_of(a, c),
    ensures
        text::halves(a.push(c) + b, c) == Some((a, b)),
        text::halves(a, c) is None,
{
    let s = a.push(c) + b;
    assert(s[a.len() as int] == c);
    assert forall|i: int| 0 <= i < a.len() implies s[i] != c by {
        assert(s[i] == a[i]);
    }
    text::lemma_first_of(s, c, a.len() as int);
    text::lemma_first_of(a, c, a.len() as int);
    assert(s.take(a.len() as int) =~= a);
    assert(s.skip(a.len() as int + 1) =~= b);
}

proof fn lemma_split_white(a: Seq<char>, b: Seq<char>, c: char)
    requires
        text::is_white(c),
        solid(b),
    ensures
        text::split_by(a.push(c) + b, text::whites()) == text::split_by(a, text::whites()).push(b),
    decreases b.len(),
{
    let s = a.push(c) + b;
    let f = text::whites();
    if b.len() == 0 {
        assert(s =~= a.push(c));
        assert(s.drop_last() =~= a);
        assert(b =~= Seq::<char>::empty());
    } else {
        let d = b.drop_last();
        assert forall|i: int| 0 <= i < d.len() implies !text::is_white(#[trigger] d[i]) by {
            assert(d[i] == b[i]);
        }
        lemma_split_white(a, d, c);
        assert(s.drop_last() =~= a.push(c) + d);
        assert(s.last() == b[b.len() - 1]);
        assert(d.push(b.last()) =~= b);
        assert(text::split_by(s, f) =~= text::split_by(a, f).push(b));
    }
}

proof fn lemma_solid(s: Seq<char>)
    requires
        solid(s),
    ensures
        text::split_by(s, text::whites()) == seq![s],
    decreases s.len(),
{
    if s.len() > 0 {
        let d = s.drop_last();
        assert forall|i: int| 0 <= i < d.len() implies !text::is_white(#[trigger] d[i]) by {
            assert(d[i] == s[i]);
        }
        lemma_solid(d);
        assert(!text::is_white(s[s.len() - 1]));
        assert(d.push(s.last()) =~= s);
        assert(text::split_by(s, text::whites()) =~= seq![s]);
    } else {
        assert(s =~= Seq::<char>::empty());
    }
}

/// A list without empty texts loses none.
pub proof fn lemma_all_nonempty(v: Seq<Seq<char>>)
    requires
        forall|k: int| 0 <= k < v.len() ==> (#[trigger] v[k]).len() > 0,
    ensures
        text::nonempty(v) == v,
    decreases v.len(),
{
    if v.len() > 0 {
        let d = v.drop_last();
        assert forall|k: int| 0 <= k < d.len() implies (#[trigger] d[k]).len() > 0 by {
            assert(d[k] == v[k]);
        }
        lemma_all_nonempty(d);
        assert(v[v.len() - 1].len() > 0);
        assert(d.push(v.last()) =~= v);
    } else {
        assert(v =~= Seq::<Seq<char>>::empty());
    }
}

/// Words with a space between each two of them are read back as these words.
pub proof fn law_words(parts: Seq<Seq<char>>)
    requires
        parts.len() > 0,
        forall|k: int| 0 <= k < parts.len() ==> solid(#[trigger] parts[k]) && parts[k].len() > 0,
    ensures
        text::words(strung(parts, ' ')) == parts,
{
    lemma_split_words(parts);
    lemma_all_nonempty(parts);
}

proof fn lemma_split_words(parts: Seq<Seq<char>>)
    requires
        parts.len() > 0,
        forall|k: int| 0 <= k < parts.len() ==> solid(#[trigger] parts[k]),
    ensures
        text::split_by(strung(parts, ' '), text::whites()) == parts,
    decreases parts.len(),
{
    if parts.len() == 1 {
        lemma_solid(parts[0]);
        assert(seq![parts[0]] =~= parts);
    } else {
        let d = parts.drop_last();
        assert forall|k: int| 0 <= k < d.len() implies solid(#[trigger] d[k]) by {
            assert(d[k] == parts[k]);
        }
        lemma_split_words(d);
        assert(solid(parts[parts.len() - 1]));
        lemma_split_white(strung(d, ' '), parts.last(), ' ');
        assert(d.push(parts.last()) =~= parts);
    }
}

/// White space ends a word, and what follows is the next one; more white space changes
/// nothing.
pub proof fn law_words_append(a: Seq<char>, b: Seq<char>, c: char)
    requires
        text::is_white(c),
        solid(b),
    ensures
        text::words(a.push(c) + b) == (if b.len() > 0 {
            text::words(a).push(b)
        } else {
            text::words(a)
        }),
{
    lemma_split_white(a, b, c);
    let v = text::split_by(a, text::whites());
    assert(v.push(b).drop_last() =~= v);
}

/// A text without white space is one word.
pub proof fn law_one_word(s: Seq<char>)
    requires
        solid(s),
        s.len() > 0,
    ensures
        text::words(s) == seq![s],
{
    lemma_solid(s);
    let v = seq![s];
    assert(v.drop_last() =~= Seq::<Seq<char>>::empty());
    reveal_with_fuel(text::nonempty, 2);
    assert(text::nonempty(v) =~= v);
}

/// An empty text has no words.
pub proof fn law_no_words()
    ensures
        text::words(Seq::empty()) == Seq::<Seq<char>>::empty(),
{
    let v = seq![Seq::<char>::empty()];
    assert(v.drop_last() =~= Seq::<Seq<char>>::empty());
    reveal_with_fuel(text::nonempty, 2);
    assert(text::nonempty(v) =~= Seq::<Seq<char>>::empty());
}

/// Trimming takes away white space alone, and all of it at both ends.
pub proof fn law_trim(s: Seq<char>)
    ensures
        exists|i: int, j: int|
            0 <= i <= j <= s.len() && text::trim(s) == #[trigger] s.subrange(i, j) && (forall|k: int|
                0 <= k < i || j <= k < s.len() ==> text::is_white(#[trigger] s[k])),
        text::trim(s).len() > 0 ==> !text::is_white(text::trim(s)[0]) && !text::is_white(
            text::trim(s).last(),
        ),
{
    let a = text::trim_start(s);
    let i = lemma_trim_start_at(s);
    let n = lemma_trim_end_at(a);
    let t = text::trim(s);
    assert(t =~= s.subrange(i, i + n));
    assert forall|k: int| 0 <= k < i || i + n <= k < s.len() implies text::is_white(
        #[trigger] s[k],
    ) by {
        if k >= i {
            assert(a[k - i] == s[k]);
        }
    }
    if t.len() > 0 {
        assert(t[0] == a[0]);
    }
}

proof fn lemma_trim_start_at(s: Seq<char>) -> (i: int)
    ensures
        0 <= i <= s.len(),
        text::trim_start(s) == s.skip(i),
        forall|k: int| 0 <= k < i ==> text::is_white(#[trigger] s[k]),
        i < s.len() ==> !text::is_white(s[i]),
    decreases s.len(),
{
    if s.len() > 0 && text::is_white(s[0]) {
        let t = s.skip(1);
        let i = lemma_trim_start_at(t);
        assert(t.skip(i) =~= s.skip(i + 1));
        assert forall|k: int| 0 <= k < i + 1 implies text::is_white(#[trigger] s[k]) by {
            if k > 0 {
                assert(t[k - 1] == s[k]);
            }
        }
        i + 1
    } else {
        assert(s.skip(0) =~= s);
        0
    }
}

proof fn lemma_trim_end_at(s: Seq<char>) -> (n: int)
    ensures
        0 <= n <= s.len(),
        text::trim_end(s) == s.take(n),
        forall|k: int| n <= k < s.len() ==> text::is_white(#[trigger] s[k]),
        n > 0 ==> !text::is_white(s[n - 1]),
    decreases s.len(),
{
    if s.len() > 0 && text::is_white(s.last()) {
        let t = s.drop_last();
        let n = lemma_trim_end_at(t);
        assert(t.take(n) =~= s.take(n));
        assert forall|k: int| n <= k < s.len() implies text::is_white(#[trigger] s[k]) by {
            if k < t.len() {
                assert(t[k] == s[k]);
            }
        }
        n
    } else {
        assert(s.take(s.len() as int) =~= s);
        s.len() as int
    }
}

/// Lines that were ended with a line feed each are read back as these lines.
pub proof fn law_lines(parts: Seq<Seq<char>>)
    requires
        forall|k: int|
            0 <= k < parts.len() ==> free_of(#[trigger] parts[k], '\n') && free_of(parts[k], '\r'),
    ensures
        text::lines(strung(parts.push(Seq::empty()), '\n')) == parts,
{
    let all = parts.push(Seq::<char>::empty());
    assert forall|k: int| 0 <= k < all.len() implies free_of(#[trigger] all[k], '\n') by {
        if k < parts.len() {
            assert(free_of(parts[k], '\n'));
        }
    }
    law_split_undoes_string(all, '\n');
    assert forall|k: int| 0 <= k < parts.len() implies text::strip_cr(#[trigger] all[k])
        == parts[k] by {
        assert(free_of(parts[k], '\r'));
        if parts[k].len() > 0 {
            assert(parts[k][parts[k].len() - 1] != '\r');
        }
    }
    assert(text::lines(strung(all, '\n')) =~= parts);
}

/// Of two texts that differ, the one with the lesser character where they first do
/// comes first, and the start of a text comes before the text.
pub proof fn law_dictionary_order(
    start: Seq<char>,
    c: char,
    d: char,
    a: Seq<char>,
    b: Seq<char>,
)
    requires
        c < d,
    ensures
        text::str_less(start.push(c) + a, start.push(d) + b),
        text::str_less(start, start.push(c) + a),
    decreases start.len(),
{
    let x = start.push(c) + a;
    let y = start.push(d) + b;
    if start.len() > 0 {
        let s = start.skip(1);
        law_dictionary_order(s, c, d, a, b);
        assert(x.skip(1) =~= s.push(c) + a);
        assert(y.skip(1) =~= s.push(d) + b);
        assert(x[0] == start[0] && y[0] == start[0]);
    } else {
        assert(x[0] == c && y[0] == d);
    }
}

/// Lower case changes the letters from `A` to `Z` and nothing else, and changes
/// nothing a second time.
pub proof fn law_lowercase(s: Seq<char>, i: int)
    requires
        0 <= i < s.len(),
    ensures
        text::lowercase(s).len() == s.len(),
        !('A' <= s[i] && s[i] <= 'Z') ==> text::lowercase(s)[i] == s[i],
        'A' <= s[i] && s[i] <= 'Z' ==> text::lowercase(s)[i] as u32 - 'a' as u32 == s[i] as u32
            - 'A' as u32,
        text::lowercase(text::lowercase(s)) == text::lowercase(s),
{
    let l = text::lowercase(s);
    assert forall|k: int| 0 <= k < s.len() implies text::lowercase(l)[k] == l[k] by {
        let c = s[k];
        if 'A' <= c && c <= 'Z' {
            assert('a' <= l[k] && l[k] <= 'z');
        }
    }
    assert(text::lowercase(l) =~= l);
}

/// A carriage return at the end of a line is no part of it.
pub proof fn law_carriage_returns(s: Seq<char>)
    ensures
        text::strip_cr(s.push('\r')) == s,
        s.len() == 0 || s.last() != '\r' ==> text::strip_cr(s) == s,
{
    assert(s.push('\r').drop_last() =~= s);
}

/// A number reads back from its digits, with or without a plus sign before them,
/// unless it is too large; and nothing that has another character is a number.
pub proof fn law_numbers(n: nat, max: nat, s: Seq<char>, k: int)
    ensures
        n <= max ==> text::parse_uint(text::dec(n), max) == Ok::<nat, text::IntError>(n),
        n <= max ==> text::parse_uint(seq!['+'] + text::dec(n), max) == Ok::<nat, text::IntError>(n),
        n > max ==> text::parse_uint(text::dec(n), max) is Err,
        0 < k < s.len() && !text::is_digit(s[k]) ==> text::parse_uint(s, max) is Err,
        s.len() == 0 ==> text::parse_uint(s, max) is Err,
{
    let d = text::dec(n);
    text::lemma_value_of_dec(n);
    assert(text::is_digit(d[0]));
    assert(text::unsigned_part(d) == d);
    text::lemma_leading_digits_bound(d);
    if text::leading_digits(d) < d.len() {
        assert(text::is_digit(d[text::leading_digits(d) as int]));
    }
    assert(d.take(d.len() as int) =~= d);
    let p = seq!['+'] + d;
    assert(p[0] == '+');
    assert(p.skip(1) =~= d);
    let u = text::unsigned_part(s);
    text::lemma_leading_digits_bound(u);
    if 0 < k < s.len() && !text::is_digit(s[k]) {
        let i = if u.len() == s.len() {
            k
        } else {
            k - 1
        };
        assert(u[i] == s[k]);
        assert(text::leading_digits(u) < u.len());
    }
}

/// The hexadecimal digits of a number read back as the number, in lower or upper case.
pub proof fn law_hex_digits(d: nat)
    requires
        d < 16,
    ensures
        text::hex_digit(text::hex_char(d)) == Some(d),
        d >= 10 ==> text::hex_digit((text::hex_char(d) as u32 - 32) as char) == Some(d),
{
}

} // verus!
