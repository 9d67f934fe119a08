//! What JSON and base64 texts say.
//!
//! A text that is no JSON has no fields. Of a text that is, a field is looked up
//! in its outermost object.
use crate::text;
use base64::engine::general_purpose::STANDARD;
use base64::Engine;
use serde_json::Value;
use vstd::prelude::*;

verus! {

/// The contents of an optional string.
pub open spec fn opt(s: Option<String>) -> Option<Seq<char>> {
    match s {
        Some(t) => Some(t@),
        None => None,
    }
}

/// The contents of a list of optional strings.
pub open spec fn opts(v: Seq<Option<String>>) -> Seq<Option<Seq<char>>> {
    Seq::new(v.len(), |i: int| opt(v[i]))
}

/// The contents of a list of members.
pub open spec fn members(v: Seq<(String, Option<String>)>) -> Seq<(Seq<char>, Option<Seq<char>>)> {
    Seq::new(v.len(), |i: int| (v[i].0@, opt(v[i].1)))
}

/// The contents of a list of records with two optional fields.
pub open spec fn records(v: Seq<(Option<String>, Option<String>)>) -> Seq<
    (Option<Seq<char>>, Option<Seq<char>>),
> {
    Seq::new(v.len(), |i: int| (opt(v[i].0), opt(v[i].1)))
}

/// The contents of a list of pairs.
pub open spec fn pairs(v: Seq<(String, String)>) -> Seq<(Seq<char>, Seq<char>)> {
    Seq::new(v.len(), |i: int| (v[i].0@, v[i].1@))
}

/// Why a text is no JSON; `None` where it is.
pub uninterp spec fn fault_in(text: Seq<char>) -> Option<Seq<char>>;

/// `serde_json::from_str` reads a text as JSON, or gives an error. How the error
/// reads, and on which texts it comes, is named, not spelled out.
#[verifier::external_body]
pub(crate) fn fault(text: &str) -> (r: Option<String>)
    ensures
        opt(r) == fault_in(text@),
{
    match serde_json::from_str::<Value>(text) {
        Ok(_) => None,
        Err(e) => Some(e.to_string()),
    }
}

/// The string that a field of a JSON text holds.
pub uninterp spec fn string_in(text: Seq<char>, key: Seq<char>) -> Option<Seq<char>>;

/// `serde_json::from_str`, then `Value::get` and `Value::as_str`: the string in a
/// field; `None` where the text is no JSON, has no such field, or holds something
/// else in it. The string is named, not spelled out.
#[verifier::external_body]
pub(crate) fn string(text: &str, key: &str) -> (r: Option<String>)
    ensures
        opt(r) == string_in(text@, key@),
        fault_in(text@) is Some ==> r is None,
{
    let v: Value = serde_json::from_str(text).ok()?;
    v.get(key)?.as_str().map(str::to_string)
}

/// The number that a field of a JSON text holds.
pub uninterp spec fn number_in(text: Seq<char>, key: Seq<char>) -> Option<u64>;

/// `serde_json::from_str`, then `Value::get` and `Value::as_u64`: the unsigned
/// number in a field; `None` where the text is no JSON, has no such field, or holds
/// something else in it. The number is named, not spelled out.
#[verifier::external_body]
pub(crate) fn number(text: &str, key: &str) -> (r: Option<u64>)
    ensures
        r == number_in(text@, key@),
        fault_in(text@) is Some ==> r is None,
{
    let v: Value = serde_json::from_str(text).ok()?;
    v.get(key)?.as_u64()
}

/// The elements of the array in a field of a JSON text, each as the string that it
/// is.
pub uninterp spec fn strings_in(text: Seq<char>, key: Seq<char>) -> Option<Seq<Option<Seq<char>>>>;

/// `serde_json::from_str`, then `Value::get` and `Value::as_array`, and
/// `Value::as_str` of each element: the array in a field, with `None` for each
/// element that is no string; `None` where the text is no JSON, has no such field,
/// or holds something else in it. The elements are named, not spelled out.
#[verifier::external_body]
pub(crate) fn strings(text: &str, key: &str) -> (r: Option<Vec<Option<String>>>)
    ensures
        match r {
            Some(v) => strings_in(text@, key@) == Some(opts(v@)),
            None => strings_in(text@, key@) is None,
        },
        fault_in(text@) is Some ==> r is None,
{
    let v: Value = serde_json::from_str(text).ok()?;
    Some(v.get(key)?.as_array()?.iter().map(|e| e.as_str().map(str::to_string)).collect())
}

/// The members of the object in a field of a JSON text, each with the string that
/// it holds.
pub uninterp spec fn members_in(text: Seq<char>, key: Seq<char>) -> Option<
    Seq<(Seq<char>, Option<Seq<char>>)>,
>;

/// `serde_json::from_str`, then `Value::get` and `Value::as_object`, and
/// `Value::as_str` of each member: the object in a field, with `None` for each
/// member that is no string; `None` where the text is no JSON, has no such field,
/// or holds something else in it. The members are named, not spelled out.
#[verifier::external_body]
pub(crate) fn object(text: &str, key: &str) -> (r: Option<Vec<(String, Option<String>)>>)
    ensures
        match r {
            Some(v) => members_in(text@, key@) == Some(members(v@)),
            None => members_in(text@, key@) is None,
        },
        fault_in(text@) is Some ==> r is None,
{
    let v: Value = serde_json::from_str(text).ok()?;
    let o = v.get(key)?.as_object()?;
    Some(o.iter().map(|(k, e)| (k.clone(), e.as_str().map(str::to_string))).collect())
}

/// The elements of the array in a field of a JSON text, each as the strings in its
/// fields `a` and `b`.
pub uninterp spec fn records_in(
    text: Seq<char>,
    key: Seq<char>,
    a: Seq<char>,
    b: Seq<char>,
) -> Option<Seq<(Option<Seq<char>>, Option<Seq<char>>)>>;

/// `serde_json::from_str`, then `Value::get` and `Value::as_array`, and of each
/// element the strings in its fields `a` and `b`, with `None` for one that is
/// missing or no string; `None` where the text is no JSON, has no such field, or
/// holds something else in it. The elements are named, not spelled out.
#[verifier::external_body]
pub(crate) fn table(text: &str, key: &str, a: &str, b: &str) -> (r: Option<
    Vec<(Option<String>, Option<String>)>,
>)
    ensures
        match r {
            Some(v) => records_in(text@, key@, a@, b@) == Some(records(v@)),
            None => records_in(text@, key@, a@, b@) is None,
        },
        fault_in(text@) is Some ==> r is None,
{
    let v: Value = serde_json::from_str(text).ok()?;
    let rows = v.get(key)?.as_array()?;
    let cell = |e: &Value, k: &str| e.get(k).and_then(Value::as_str).map(str::to_string);
    Some(rows.iter().map(|e| (cell(e, a), cell(e, b))).collect())
}

/// Whether no two members have the same name, and none has one of the others.
pub open spec fn names_differ(
    members: Seq<(Seq<char>, Option<Seq<char>>)>,
    number: Seq<char>,
    rows: Seq<char>,
) -> bool {
    &&& number != rows
    &&& forall|i: int, j: int|
        0 <= i < j < members.len() ==> #[trigger] members[i].0 != #[trigger] members[j].0
    &&& forall|i: int|
        0 <= i < members.len() ==> #[trigger] members[i].0 != number && members[i].0 != rows
}

/// The rows that have a string in each of their two fields.
pub open spec fn full_rows(rows: Seq<(Seq<char>, Seq<char>)>) -> Seq<
    (Option<Seq<char>>, Option<Seq<char>>),
> {
    Seq::new(rows.len(), |i: int| (Some(rows[i].0), Some(rows[i].1)))
}

/// The text of an object: members that are strings or null, one that is a number,
/// and one that is an array of objects with the fields `a` and `b`.
pub uninterp spec fn object_text(
    texts: Seq<(Seq<char>, Option<Seq<char>>)>,
    number: (Seq<char>, u64),
    rows: (Seq<char>, Seq<(Seq<char>, Seq<char>)>),
    a: Seq<char>,
    b: Seq<char>,
) -> Seq<char>;

/// `serde_json::to_string_pretty` of an object: members that are strings or null,
/// one that is a number, and one that is an array of objects with the fields `a`
/// and `b`. The text is named, not spelled out. Reading it back gives what was
/// written: `serde_json` keeps every string, number and array, and no name occurs
/// twice.
#[verifier::external_body]
pub(crate) fn write(
    texts: Vec<(String, Option<String>)>,
    number: (&str, u64),
    rows: (&str, Vec<(String, String)>),
    a: &str,
    b: &str,
) -> (r: String)
    requires
        names_differ(members(texts@), number.0@, rows.0@),
        a@ != b@,
    ensures
        r@ == object_text(
            members(texts@),
            (number.0@, number.1),
            (rows.0@, pairs(rows.1@)),
            a@,
            b@,
        ),
        fault_in(r@) is None,
        forall|i: int|
            0 <= i < texts@.len() ==> #[trigger] string_in(r@, texts@[i].0@) == opt(texts@[i].1),
        number_in(r@, number.0@) == Some(number.1),
        records_in(r@, rows.0@, a@, b@) == Some(full_rows(pairs(rows.1@))),
{
    let mut v = Value::from_iter(texts);
    let row = |(x, y): (String, String)| Value::from_iter([(a, x), (b, y)]);
    v[number.0] = Value::from(number.1);
    v[rows.0] = Value::from_iter(rows.1.into_iter().map(row));
    serde_json::to_string_pretty(&v).unwrap()
}

/// The base64 form of bytes.
pub uninterp spec fn base64_of(bytes: Seq<u8>) -> Seq<char>;

/// The bytes that a base64 text stands for, or what is wrong with it.
pub uninterp spec fn bytes_of(text: Seq<char>) -> Result<Seq<u8>, Seq<char>>;

/// Whether the base64 form of so many bytes fits in memory: it has four characters
/// for every three bytes.
pub open spec fn encodable(n: nat) -> bool {
    (n + 2) / 3 * 4 <= isize::MAX
}

/// `base64`'s `Engine::encode` with the standard alphabet and padding. The text is
/// named, not spelled out; decoding it gives the bytes back. It must fit in memory.
#[verifier::external_body]
pub(crate) fn encode(bytes: &Vec<u8>) -> (r: String)
    requires
        encodable(bytes@.len()),
    ensures
        r@ == base64_of(bytes@),
        bytes_of(r@) is Ok,
        bytes_of(r@)->Ok_0 == bytes@,
{
    STANDARD.encode(bytes)
}

/// `base64`'s `Engine::decode` with the standard alphabet and padding: the bytes,
/// or an error. Both are named, not spelled out.
#[verifier::external_body]
pub(crate) fn decode(text: &str) -> (r: Result<Vec<u8>, String>)
    ensures
        match r {
            Ok(b) => bytes_of(text@) == Ok::<Seq<u8>, Seq<char>>(b@),
            Err(e) => bytes_of(text@) == Err::<Seq<u8>, Seq<char>>(e@),
        },
{
    STANDARD.decode(text).map_err(|e| e.to_string())
}

/// The strings of a list, without the gaps.
pub open spec fn present(v: Seq<Option<Seq<char>>>) -> Seq<Seq<char>>
    decreases v.len(),
{
    if v.len() == 0 {
        Seq::empty()
    } else {
        match v.last() {
            Some(s) => present(v.drop_last()).push(s),
            None => present(v.drop_last()),
        }
    }
}

/// The strings of a list, without the gaps.
pub fn keep_present(v: Vec<Option<String>>) -> (r: Vec<String>)
    ensures
        text::views(r@) == present(opts(v@)),
{
    let mut out: Vec<String> = Vec::new();
    let mut i: usize = 0;
    assert(opts(v@).take(0) =~= Seq::<Option<Seq<char>>>::empty());
    assert(text::views(out@) =~= Seq::<Seq<char>>::empty());
    while i < v.len()
        invariant
            i <= v.len(),
            text::views(out@) == present(opts(v@).take(i as int)),
        decreases v.len() - i,
    {
        proof {
            assert(opts(v@).take(i + 1).drop_last() =~= opts(v@).take(i as int));
            assert(opts(v@).take(i + 1).last() == opt(v@[i as int]));
        }
        if let Some(s) = &v[i] {
            let t = s.clone();
            proof {
                text::lemma_views_push(out@, t);
            }
            out.push(t);
        }
        i += 1;
    }
    assert(opts(v@).take(v@.len() as int) =~= opts(v@));
    out
}

/// The members that hold a string.
pub open spec fn string_members(v: Seq<(Seq<char>, Option<Seq<char>>)>) -> Seq<
    (Seq<char>, Seq<char>),
>
    decreases v.len(),
{
    if v.len() == 0 {
        Seq::empty()
    } else {
        match v.last().1 {
            Some(s) => string_members(v.drop_last()).push((v.last().0, s)),
            None => string_members(v.drop_last()),
        }
    }
}

/// The members that hold a string.
pub fn keep_strings(v: Vec<(String, Option<String>)>) -> (r: Vec<(String, String)>)
    ensures
        pairs(r@) == string_members(members(v@)),
{
    let mut out: Vec<(String, String)> = Vec::new();
    let mut i: usize = 0;
    assert(members(v@).take(0) =~= Seq::<(Seq<char>, Option<Seq<char>>)>::empty());
    assert(pairs(out@) =~= Seq::<(Seq<char>, Seq<char>)>::empty());
    while i < v.len()
        invariant
            i <= v.len(),
            pairs(out@) == string_members(members(v@).take(i as int)),
        decreases v.len() - i,
    {
        let ghost before = pairs(out@);
        proof {
            assert(members(v@).take(i + 1).drop_last() =~= members(v@).take(i as int));
            assert(members(v@).take(i + 1).last() == members(v@)[i as int]);
        }
        if let Some(s) = &v[i].1 {
            let pair = (v[i].0.clone(), s.clone());
            out.push(pair);
            assert(pairs(out@) =~= before.push((pair.0@, pair.1@)));
        }
        i += 1;
    }
    assert(members(v@).take(v@.len() as int) =~= members(v@));
    out
}

/// The records that have both fields.
pub open spec fn full_records(v: Seq<(Option<Seq<char>>, Option<Seq<char>>)>) -> Seq<
    (Seq<char>, Seq<char>),
>
    decreases v.len(),
{
    if v.len() == 0 {
        Seq::empty()
    } else {
        match v.last() {
            (Some(a), Some(b)) => full_records(v.drop_last()).push((a, b)),
            _ => full_records(v.drop_last()),
        }
    }
}

/// The records that have both fields.
pub fn keep_full(v: Vec<(Option<String>, Option<String>)>) -> (r: Vec<(String, String)>)
    ensures
        pairs(r@) == full_records(records(v@)),
{
    let mut out: Vec<(String, String)> = Vec::new();
    let mut i: usize = 0;
    assert(records(v@).take(0) =~= Seq::<(Option<Seq<char>>, Option<Seq<char>>)>::empty());
    assert(pairs(out@) =~= Seq::<(Seq<char>, Seq<char>)>::empty());
    while i < v.len()
        invariant
            i <= v.len(),
            pairs(out@) == full_records(records(v@).take(i as int)),
        decreases v.len() - i,
    {
        let ghost before = pairs(out@);
        proof {
            assert(records(v@).take(i + 1).drop_last() =~= records(v@).take(i as int));
            assert(records(v@).take(i + 1).last() == records(v@)[i as int]);
        }
        match (&v[i].0, &v[i].1) {
            (Some(a), Some(b)) => {
                let pair = (a.clone(), b.clone());
                out.push(pair);
                assert(pairs(out@) =~= before.push((pair.0@, pair.1@)));
            },
            _ => {},
        }
        i += 1;
    }
    assert(records(v@).take(v@.len() as int) =~= records(v@));
    out
}

/// Records that have both fields lose nothing.
pub proof fn lemma_full_rows(rows: Seq<(Seq<char>, Seq<char>)>)
    ensures
        full_records(full_rows(rows)) == rows,
    decreases rows.len(),
{
    let v = full_rows(rows);
    if rows.len() > 0 {
        lemma_full_rows(rows.drop_last());
        assert(v.drop_last() =~= full_rows(rows.drop_last()));
        assert(full_records(v) =~= rows);
    } else {
        assert(rows =~= Seq::<(Seq<char>, Seq<char>)>::empty());
    }
}

} // verus!
