//! Deleting a workspace.
//!
//! Everything at or below a path goes: the processes that work there, what is
//! mounted there, and the files. So the path must be one that may be deleted.
use crate::command;
use crate::command::{Cmd, Outcome};
use crate::deeds;
use crate::deeds::Deed;
use crate::paths;
use crate::plan;
use crate::plan::{Plan, Reply};
use crate::text;
use vstd::prelude::*;

verus! {

/// Whether `path` lies strictly below the directory `root`, which ends in a slash.
pub open spec fn is_below(path: Seq<char>, root: Seq<char>) -> bool {
    root.is_prefix_of(path) && paths::components(path).len() > paths::components(root).len()
}

/// Why a path may not be deleted; `None` where it may. It must be absolute, must
/// not lead upwards, and must lie strictly below one of the allowed directories.
pub open spec fn path_fault(path: Seq<char>) -> Option<Seq<char>> {
    if path.len() == 0 || path[0] != '/' {
        Some("path must be absolute: "@ + path)
    } else if paths::components(path).contains(".."@) {
        Some("path must not contain '..': "@ + path)
    } else if !is_below(path, "/home/ubuntu/"@) && !is_below(path, "/tmp/"@) {
        Some("path outside allowed roots (/home/ubuntu/, /tmp/): "@ + path)
    } else {
        None
    }
}

fn below(path: &str, root: &str) -> (r: bool)
    ensures
        r == is_below(path@, root@),
{
    if !text::starts_with(path, root) {
        return false;
    }
    let p = paths::split_components(path);
    let q = paths::split_components(root);
    assert(text::views(p@).len() == p.len());
    assert(text::views(q@).len() == q.len());
    p.len() > q.len()
}

/// Checks that a path may be deleted.
pub fn validate_reset_path(path: &str) -> (r: Result<(), String>)
    ensures
        match r {
            Ok(_) => path_fault(path@) is None,
            Err(e) => path_fault(path@) == Some(e@),
        },
{
    let v = text::to_chars(path);
    if v.len() == 0 || v[0] != '/' {
        return Err(text::cat2("path must be absolute: ", path));
    }
    let c = paths::split_components(path);
    if text::list_has(&c, "..") {
        return Err(text::cat2("path must not contain '..': ", path));
    }
    if !below(path, "/home/ubuntu/") && !below(path, "/tmp/") {
        return Err(
            text::cat2("path outside allowed roots (/home/ubuntu/, /tmp/): ", path),
        );
    }
    Ok(())
}

/// The parts of a text that goes on after a separator are the parts before it and
/// the parts after it.
proof fn lemma_split_concat(a: Seq<char>, b: Seq<char>, c: char)
    ensures
        text::split_char(a.push(c) + b, c) == text::split_char(a, c) + text::split_char(b, c),
    decreases b.len(),
{
    let s = a.push(c) + b;
    if b.len() == 0 {
        assert(s =~= a.push(c));
        assert(s.drop_last() =~= a);
        assert(text::split_char(b, c) =~= seq![Seq::<char>::empty()]);
        assert(text::split_char(s, c) =~= text::split_char(a, c) + text::split_char(b, c));
    } else {
        let d = b.drop_last();
        lemma_split_concat(a, d, c);
        assert(s.drop_last() =~= a.push(c) + d);
        assert(s.last() == b.last());
        text::lemma_split_nonempty(d, text::just(c));
        let pa = text::split_char(a, c);
        let pd = text::split_char(d, c);
        assert((pa + pd).last() == pd.last());
        assert((pa + pd).drop_last() =~= pa + pd.drop_last());
        assert(text::split_char(s, c) =~= pa + text::split_char(b, c));
    }
}

proof fn lemma_named_concat(a: Seq<Seq<char>>, b: Seq<Seq<char>>)
    ensures
        paths::named(a + b) == paths::named(a) + paths::named(b),
    decreases b.len(),
{
    if b.len() == 0 {
        assert(a + b =~= a);
        assert(paths::named(a) + paths::named(b) =~= paths::named(a));
    } else {
        lemma_named_concat(a, b.drop_last());
        assert((a + b).drop_last() =~= a + b.drop_last());
        assert((a + b).last() == b.last());
        assert(paths::named(a + b) =~= paths::named(a) + paths::named(b));
    }
}

/// The components of a path that goes on after a slash are those before it and
/// those after it.
pub proof fn lemma_components_concat(a: Seq<char>, b: Seq<char>)
    ensures
        paths::components(a.push('/') + b) == paths::components(a) + paths::components(b),
{
    lemma_split_concat(a, b, '/');
    lemma_named_concat(text::split_char(a, '/'), text::split_char(b, '/'));
}

/// The components of a path below a directory start with those of the directory.
proof fn lemma_below(path: Seq<char>, root: Seq<char>)
    requires
        is_below(path, root),
        root.len() > 0,
        root.last() == '/',
    ensures
        paths::components(root).is_prefix_of(paths::components(path)),
{
    let head = root.drop_last();
    let rest = path.skip(root.len() as int);
    assert(head.push('/') =~= root);
    assert(path =~= head.push('/') + rest);
    lemma_components_concat(head, rest);
    lemma_components_concat(head, Seq::<char>::empty());
    assert(head.push('/') + Seq::<char>::empty() =~= root);
    let none = Seq::<char>::empty();
    text::lemma_split_none(none, '/');
    reveal_with_fuel(paths::named, 2);
    assert(text::split_char(none, '/').drop_last() =~= Seq::<Seq<char>>::empty());
    assert(paths::components(none) =~= Seq::<Seq<char>>::empty());
    assert(paths::components(root) =~= paths::components(head));
}

/// A path that may be deleted names something inside one of the allowed
/// directories, never such a directory itself, and never leads out of it.
pub proof fn law_deleted_paths_are_confined(path: Seq<char>)
    requires
        path_fault(path) is None,
    ensures
        ({
            let c = paths::components(path);
            let home = paths::components("/home/ubuntu/"@);
            let tmp = paths::components("/tmp/"@);
            &&& path[0] == '/'
            &&& !c.contains(".."@)
            &&& home.is_prefix_of(c) && c.len() > home.len() || tmp.is_prefix_of(c) && c.len()
                > tmp.len()
        }),
{
    reveal_strlit("/home/ubuntu/");
    reveal_strlit("/tmp/");
    if is_below(path, "/home/ubuntu/"@) {
        lemma_below(path, "/home/ubuntu/"@);
    } else {
        lemma_below(path, "/tmp/"@);
    }
}

/// Whether a path starts at the root.
pub open spec fn is_absolute(path: Seq<char>) -> bool {
    path.len() > 0 && path[0] == '/'
}

/// Whether `target` is `path` or lies below it: both start at the same place, and
/// the components of `target` go on from those of `path`.
pub open spec fn at_or_below(target: Seq<char>, path: Seq<char>) -> bool {
    is_absolute(target) == is_absolute(path) && paths::components(path).is_prefix_of(
        paths::components(target),
    )
}

fn absolute(path: &str) -> (r: bool)
    ensures
        r == is_absolute(path@),
{
    let v = text::to_chars(path);
    v.len() > 0 && v[0] == '/'
}

/// Whether `target` is `path` or lies below it.
pub fn is_at_or_below(target: &str, path: &str) -> (r: bool)
    ensures
        r == at_or_below(target@, path@),
{
    absolute(target) == absolute(path) && paths::leads(
        &paths::split_components(path),
        &paths::split_components(target),
    )
}

/// A slash at the end of a path changes nothing.
pub proof fn law_trailing_slash_changes_nothing(target: Seq<char>, path: Seq<char>)
    requires
        path.len() > 0,
    ensures
        at_or_below(target, path.push('/')) == at_or_below(target, path),
        at_or_below(path, path.push('/')),
{
    let none = Seq::<char>::empty();
    lemma_components_concat(path, none);
    assert(path.push('/') + none =~= path.push('/'));
    text::lemma_split_none(none, '/');
    reveal_with_fuel(paths::named, 2);
    assert(text::split_char(none, '/').drop_last() =~= Seq::<Seq<char>>::empty());
    assert(paths::components(none) =~= Seq::<Seq<char>>::empty());
    assert(paths::components(path.push('/')) =~= paths::components(path));
    let c = paths::components(path);
    assert(c =~= c.take(c.len() as int));
}

/// The number of an octal digit.
pub open spec fn octal_digit(c: char) -> Option<nat> {
    if '0' <= c && c <= '7' {
        Some((c as nat - '0' as nat) as nat)
    } else {
        None
    }
}

/// The character that three octal digits name, where they name one byte.
pub open spec fn octal_char(a: char, b: char, c: char) -> Option<char> {
    match (octal_digit(a), octal_digit(b), octal_digit(c)) {
        (Some(x), Some(y), Some(z)) => if 64 * x + 8 * y + z <= 255 {
            Some((64 * x + 8 * y + z) as char)
        } else {
            None
        },
        _ => None,
    }
}

/// The character that an escape at the start of a text stands for: a backslash and
/// three octal digits.
pub open spec fn escape_at(s: Seq<char>) -> Option<char> {
    if s.len() > 3 && s[0] == '\\' {
        octal_char(s[1], s[2], s[3])
    } else {
        None
    }
}

/// What a field says: an escape stands for the character that it names, and every
/// other character for itself.
pub open spec fn decoded(s: Seq<char>) -> Seq<char>
    decreases s.len(),
{
    if s.len() == 0 {
        Seq::empty()
    } else {
        match escape_at(s) {
            Some(c) => seq![c] + decoded(s.skip(4)),
            None => seq![s[0]] + decoded(s.skip(1)),
        }
    }
}

/// How a character is written in a field: blanks and backslashes are escaped.
pub open spec fn escaped_char(c: char) -> Seq<char> {
    if c == ' ' {
        "\\040"@
    } else if c == '\t' {
        "\\011"@
    } else if c == '\n' {
        "\\012"@
    } else if c == '\\' {
        "\\134"@
    } else {
        seq![c]
    }
}

/// How a path is written in a field.
pub open spec fn escaped(p: Seq<char>) -> Seq<char>
    decreases p.len(),
{
    if p.len() == 0 {
        Seq::empty()
    } else {
        escaped_char(p[0]) + escaped(p.skip(1))
    }
}

/// What was written to a field is what the field says.
pub proof fn law_mount_fields_read_back(p: Seq<char>)
    ensures
        decoded(escaped(p)) == p,
    decreases p.len(),
{
    if p.len() > 0 {
        reveal_strlit("\\040");
        reveal_strlit("\\011");
        reveal_strlit("\\012");
        reveal_strlit("\\134");
        law_mount_fields_read_back(p.skip(1));
        let e = escaped_char(p[0]);
        let s = escaped(p);
        assert(s.skip(e.len() as int) =~= escaped(p.skip(1)));
        assert(forall|i: int| 0 <= i < e.len() ==> s[i] == e[i]);
        assert(escape_at(s) == (if e.len() == 4 {
            Some(p[0])
        } else {
            None
        }));
        assert(seq![p[0]] + p.skip(1) =~= p);
    } else {
        assert(p =~= Seq::<char>::empty());
    }
}

fn octal_value(c: char) -> (r: Option<u32>)
    ensures
        match r {
            Some(d) => octal_digit(c) == Some(d as nat) && d < 8,
            None => octal_digit(c) is None,
        },
{
    if '0' <= c && c <= '7' {
        Some(c as u32 - 48)
    } else {
        None
    }
}

fn read_escape(a: char, b: char, c: char) -> (r: Option<char>)
    ensures
        r == octal_char(a, b, c),
{
    match (octal_value(a), octal_value(b), octal_value(c)) {
        (Some(x), Some(y), Some(z)) => {
            let n: u32 = 64 * x + 8 * y + z;
            if n <= 255 {
                Some(n as u8 as char)
            } else {
                None
            }
        },
        _ => None,
    }
}

/// What a field of the list of mounts says: blanks and backslashes in it are
/// escaped as octal numbers.
pub fn decode_mount_field(raw: &str) -> (r: String)
    ensures
        r@ == decoded(raw@),
        forall|p: Seq<char>| raw@ == #[trigger] escaped(p) ==> r@ == p,
{
    let s = text::to_chars(raw);
    let mut out = String::new();
    let mut i: usize = 0;
    proof {
        assert(s@.skip(0) =~= s@);
        assert(out@ + decoded(s@) =~= decoded(s@));
    }
    while i < s.len()
        invariant
            i <= s.len(),
            s@ == raw@,
            out@ + decoded(s@.skip(i as int)) == decoded(s@),
        decreases s.len() - i,
    {
        let ghost before = out@;
        let ghost rest = s@.skip(i as int);
        assert(rest.skip(1) =~= s@.skip(i + 1));
        if s[i] == '\\' && s.len() - i > 3 {
            if let Some(c) = read_escape(s[i + 1], s[i + 2], s[i + 3]) {
                out.push(c);
                proof {
                    assert(rest.skip(4) =~= s@.skip(i + 4));
                    assert(before + decoded(rest) =~= out@ + decoded(s@.skip(i + 4)));
                }
                i += 4;
                continue ;
            }
        }
        out.push(s[i]);
        proof {
            assert(before + decoded(rest) =~= out@ + decoded(s@.skip(i + 1)));
        }
        i += 1;
    }
    proof {
        assert(s@.skip(s@.len() as int) =~= Seq::<char>::empty());
        assert(out@ + decoded(Seq::<char>::empty()) =~= out@);
        assert forall|p: Seq<char>| raw@ == #[trigger] escaped(p) implies out@ == p by {
            law_mount_fields_read_back(p);
        }
    }
    out
}

// -- mounts

/// How long the names of a path are, each with a slash, in bytes.
pub open spec fn names_len(v: Seq<Seq<char>>) -> nat
    decreases v.len(),
{
    if v.len() == 0 {
        0
    } else {
        names_len(v.drop_last()) + 1 + vstd::utf8::encode_utf8(v.last()).len()
    }
}

/// How long a path is, written without what says nothing, in bytes.
pub open spec fn path_len(path: Seq<char>) -> nat {
    names_len(paths::components(path))
}

fn path_length(path: &str) -> (r: u128)
    ensures
        r == path_len(path@),
{
    let c = paths::split_components(path);
    let ghost v = text::views(c@);
    let mut n: u128 = 0;
    let mut i: usize = 0;
    assert(v.take(0) =~= Seq::<Seq<char>>::empty());
    while i < c.len()
        invariant
            i <= c.len(),
            v == text::views(c@),
            n == names_len(v.take(i as int)),
            n <= i * 0x1_0000_0000_0000_0000,
        decreases c.len() - i,
    {
        proof {
            assert(v.take(i + 1).drop_last() =~= v.take(i as int));
            assert(v.take(i + 1).last() == c@[i as int]@);
        }
        n = n + 1 + c[i].as_str().as_bytes().len() as u128;
        i += 1;
    }
    assert(v.take(v.len() as int) =~= v);
    n
}

/// Where a line of the list of mounts says that something is mounted.
pub open spec fn mount_point(line: Seq<char>) -> Option<Seq<char>> {
    let w = text::words(line);
    if w.len() >= 2 {
        Some(decoded(w[1]))
    } else {
        None
    }
}

/// What is mounted at or below a path, in the order of the list.
pub open spec fn mounts_in(lines: Seq<Seq<char>>, path: Seq<char>) -> Seq<Seq<char>>
    decreases lines.len(),
{
    if lines.len() == 0 {
        Seq::empty()
    } else {
        let before = mounts_in(lines.drop_last(), path);
        match mount_point(lines.last()) {
            Some(m) => if at_or_below(m, path) {
                before.push(m)
            } else {
                before
            },
            None => before,
        }
    }
}

/// `v` with `x` after everything that is at least as long.
pub open spec fn insert_deep(v: Seq<Seq<char>>, x: Seq<char>) -> Seq<Seq<char>>
    decreases v.len(),
{
    if v.len() == 0 || path_len(v.last()) >= path_len(x) {
        v.push(x)
    } else {
        insert_deep(v.drop_last(), x).push(v.last())
    }
}

/// The longest first; what is equally long keeps its order.
pub open spec fn deepest_first(v: Seq<Seq<char>>) -> Seq<Seq<char>>
    decreases v.len(),
{
    if v.len() == 0 {
        Seq::empty()
    } else {
        insert_deep(deepest_first(v.drop_last()), v.last())
    }
}

proof fn lemma_insert_deep(v: Seq<Seq<char>>, x: Seq<char>, j: int)
    requires
        0 <= j <= v.len(),
        forall|k: int| j <= k < v.len() ==> path_len(#[trigger] v[k]) < path_len(x),
        j > 0 ==> path_len(v[j - 1]) >= path_len(x),
    ensures
        insert_deep(v, x) == v.insert(j, x),
    decreases v.len(),
{
    if j < v.len() {
        let d = v.drop_last();
        assert forall|k: int| j <= k < d.len() implies path_len(#[trigger] d[k]) < path_len(x) by {
            assert(d[k] == v[k]);
        }
        assert(path_len(v[v.len() - 1]) < path_len(x));
        lemma_insert_deep(d, x, j);
        assert(d.insert(j, x).push(v.last()) =~= v.insert(j, x));
    } else {
        assert(v.insert(j, x) =~= v.push(x));
    }
}

fn insert_mount(out: &mut Vec<String>, m: String)
    ensures
        text::views(final(out)@) == insert_deep(text::views(old(out)@), m@),
{
    let ghost v = text::views(out@);
    let n: u128 = path_length(m.as_str());
    let mut j: usize = out.len();
    while j > 0 && path_length(out[j - 1].as_str()) < n
        invariant
            j <= out.len(),
            v == text::views(out@),
            n == path_len(m@),
            forall|k: int| j <= k < v.len() ==> path_len(#[trigger] v[k]) < path_len(m@),
        decreases j,
    {
        assert(v[j - 1] == out@[j - 1]@);
        j -= 1;
    }
    proof {
        if j > 0 {
            assert(v[j - 1] == out@[j - 1]@);
        }
        lemma_insert_deep(v, m@, j as int);
    }
    out.insert(j, m);
    assert(text::views(out@) =~= v.insert(j as int, m@));
}

/// What is mounted at or below a path, in the order in which to unmount it.
pub fn mounts_under(content: &str, path: &str) -> (r: Vec<String>)
    ensures
        text::views(r@) == deepest_first(mounts_in(text::lines(content@), path@)),
{
    let lines = text::split_lines(content);
    let ghost v = text::views(lines@);
    let mut out: Vec<String> = Vec::new();
    let mut i: usize = 0;
    assert(v.take(0) =~= Seq::<Seq<char>>::empty());
    assert(text::views(out@) =~= Seq::<Seq<char>>::empty());
    while i < lines.len()
        invariant
            i <= lines.len(),
            v == text::views(lines@),
            v == text::lines(content@),
            text::views(out@) == deepest_first(mounts_in(v.take(i as int), path@)),
        decreases lines.len() - i,
    {
        let w = text::split_words(lines[i].as_str());
        proof {
            assert(v.take(i + 1).drop_last() =~= v.take(i as int));
            assert(v.take(i + 1).last() == v[i as int]);
            assert(v[i as int] == lines@[i as int]@);
            assert(text::views(w@).len() == w.len());
        }
        if w.len() >= 2 {
            assert(text::views(w@)[1] == w@[1]@);
            let m = decode_mount_field(w[1].as_str());
            if is_at_or_below(m.as_str(), path) {
                proof {
                    let before = mounts_in(v.take(i as int), path@);
                    assert(before.push(m@).drop_last() =~= before);
                }
                insert_mount(&mut out, m);
            }
        }
        i += 1;
    }
    assert(v.take(v.len() as int) =~= v);
    out
}

proof fn lemma_below_is_longer(a: Seq<Seq<char>>, b: Seq<Seq<char>>)
    requires
        a.is_prefix_of(b),
        a.len() < b.len(),
    ensures
        names_len(a) < names_len(b),
    decreases b.len(),
{
    let d = b.drop_last();
    if a.len() == d.len() {
        assert(a =~= d);
    } else {
        assert(a.is_prefix_of(d)) by {
            assert(a =~= d.take(a.len() as int));
        }
        lemma_below_is_longer(a, d);
    }
}

pub open spec fn longest_first(v: Seq<Seq<char>>) -> bool {
    forall|i: int, j: int|
        0 <= i < j < v.len() ==> path_len(#[trigger] v[i]) >= path_len(#[trigger] v[j])
}

proof fn lemma_insert_keeps_order(v: Seq<Seq<char>>, x: Seq<char>)
    requires
        longest_first(v),
    ensures
        longest_first(insert_deep(v, x)),
        insert_deep(v, x).to_multiset() == v.to_multiset().insert(x),
        insert_deep(v, x).len() == v.len() + 1,
        v.len() > 0 ==> path_len(insert_deep(v, x).last()) <= path_len(v.last()),
        path_len(insert_deep(v, x).last()) <= path_len(x),
        forall|k: int|
            0 <= k < insert_deep(v, x).len() ==> #[trigger] insert_deep(v, x)[k] == x || v.contains(
                insert_deep(v, x)[k],
            ),
    decreases v.len(),
{
    broadcast use vstd::seq_lib::group_to_multiset_ensures;

    let r = insert_deep(v, x);
    if v.len() == 0 || path_len(v.last()) >= path_len(x) {
        assert forall|i: int, j: int| 0 <= i < j < r.len() implies path_len(#[trigger] r[i])
            >= path_len(#[trigger] r[j]) by {
            assert(r[i] == v[i]);
            if j < v.len() {
                assert(r[j] == v[j]);
            } else if i < v.len() - 1 {
                assert(path_len(v[i]) >= path_len(v[v.len() - 1]));
            }
        }
        assert forall|k: int| 0 <= k < r.len() implies #[trigger] r[k] == x || v.contains(r[k]) by {
            if k < v.len() {
                assert(r[k] == v[k]);
            }
        }
    } else {
        let d = v.drop_last();
        assert forall|i: int, j: int| 0 <= i < j < d.len() implies path_len(#[trigger] d[i])
            >= path_len(#[trigger] d[j]) by {
            assert(d[i] == v[i] && d[j] == v[j]);
        }
        lemma_insert_keeps_order(d, x);
        let m = insert_deep(d, x);
        assert(r == m.push(v.last()));
        assert forall|k: int| 0 <= k < m.len() implies path_len(#[trigger] m[k]) >= path_len(v.last()) by {
            if m[k] != x {
                let q = choose|q: int| 0 <= q < d.len() && d[q] == m[k];
                assert(d[q] == v[q]);
                assert(path_len(v[q]) >= path_len(v[v.len() - 1]));
            }
        }
        assert forall|i: int, j: int| 0 <= i < j < r.len() implies path_len(#[trigger] r[i])
            >= path_len(#[trigger] r[j]) by {
            assert(r[i] == m[i]);
            if j < m.len() {
                assert(r[j] == m[j]);
            }
        }
        assert forall|k: int| 0 <= k < r.len() implies #[trigger] r[k] == x || v.contains(r[k]) by {
            if k < m.len() {
                assert(r[k] == m[k]);
                if m[k] != x {
                    let q = choose|q: int| 0 <= q < d.len() && d[q] == m[k];
                    assert(v[q] == m[k]);
                }
            } else {
                assert(v[v.len() - 1] == r[k]);
            }
        }
        assert(v =~= d.push(v.last()));
    }
}

proof fn lemma_deepest_first(v: Seq<Seq<char>>)
    ensures
        longest_first(deepest_first(v)),
        deepest_first(v).to_multiset() == v.to_multiset(),
    decreases v.len(),
{
    broadcast use vstd::seq_lib::group_to_multiset_ensures;

    if v.len() > 0 {
        lemma_deepest_first(v.drop_last());
        lemma_insert_keeps_order(deepest_first(v.drop_last()), v.last());
        assert(v =~= v.drop_last().push(v.last()));
    } else {
        assert(v =~= Seq::<Seq<char>>::empty());
    }
}

/// Everything that is mounted at or below the path is unmounted, and a mount that
/// lies below another one is unmounted before it.
pub proof fn law_nested_mounts_go_first(v: Seq<Seq<char>>, i: int, j: int)
    requires
        0 <= i < j < deepest_first(v).len(),
    ensures
        deepest_first(v).to_multiset() == v.to_multiset(),
        at_or_below(deepest_first(v)[j], deepest_first(v)[i]) ==> at_or_below(
            deepest_first(v)[i],
            deepest_first(v)[j],
        ),
{
    lemma_deepest_first(v);
    let a = deepest_first(v)[i];
    let b = deepest_first(v)[j];
    let (x, y) = (paths::components(a), paths::components(b));
    if at_or_below(b, a) {
        if x.len() < y.len() {
            lemma_below_is_longer(x, y);
        }
        assert(x =~= y);
    }
}

/// What is unmounted is what the list says is mounted at or below the path.
pub proof fn law_mounts_are_found(lines: Seq<Seq<char>>, path: Seq<char>, m: Seq<char>)
    ensures
        mounts_in(lines, path).contains(m) <==> at_or_below(m, path) && exists|k: int|
            0 <= k < lines.len() && mount_point(#[trigger] lines[k]) == Some(m),
    decreases lines.len(),
{
    if lines.len() > 0 {
        let d = lines.drop_last();
        let b = mounts_in(d, path);
        let a = mounts_in(lines, path);
        law_mounts_are_found(d, path, m);
        if a.contains(m) {
            let i = choose|i: int| 0 <= i < a.len() && a[i] == m;
            if i < b.len() {
                assert(b[i] == m);
                assert(b.contains(m));
                let k = choose|k: int| 0 <= k < d.len() && mount_point(#[trigger] d[k]) == Some(m);
                assert(mount_point(lines[k]) == Some(m));
            } else {
                assert(mount_point(lines[lines.len() - 1]) == Some(m));
            }
        }
        if at_or_below(m, path) && exists|k: int|
            0 <= k < lines.len() && mount_point(#[trigger] lines[k]) == Some(m) {
            let k = choose|k: int|
                0 <= k < lines.len() && mount_point(#[trigger] lines[k]) == Some(m);
            if k < d.len() {
                assert(mount_point(d[k]) == Some(m));
                let i = choose|i: int| 0 <= i < b.len() && b[i] == m;
                assert(a[i] == m);
            } else {
                assert(a[a.len() - 1] == m);
            }
        }
    }
}

/// The command that detaches a mount, busy or not.
pub fn umount(mount_point: &str) -> (r: Cmd)
    ensures
        r@ == command::cmd("umount"@, seq!["-l"@, mount_point@], "umount"@, "umount"@),
        deeds::umount(r@) == Some(Deed::Detached { dir: mount_point@ }),
{
    let r = command::command("umount", &["-l", mount_point], "umount", "umount");
    assert(r@.args =~= seq!["-l"@, mount_point@]);
    r
}

/// Whether a mount was detached, from how the command ended.
pub fn unmounted(mount_point: &str, o: &Outcome) -> (r: Result<(), String>)
    ensures
        match *o {
            Outcome::NotSpawned(why) => r is Err && r->Err_0@ == "umount "@ + mount_point@ + ": "@ + why@,
            Outcome::Exited(out) => if out.success() {
                r is Ok
            } else {
                r is Err && r->Err_0@ == "umount "@ + mount_point@ + ": "@ + text::trim(
                    text::utf8_lossy(out.stderr@),
                )
            },
        },
{
    match o {
        Outcome::NotSpawned(why) => Err(text::cat4("umount ", mount_point, ": ", why.as_str())),
        Outcome::Exited(out) => {
            if out.succeeded() {
                return Ok(());
            }
            let said = text::trimmed(text::from_utf8_lossy(&out.stderr).as_str());
            Err(text::cat4("umount ", mount_point, ": ", said.as_str()))
        },
    }
}

/// Which mount to detach after the one at position `k` was to be, given how the
/// command ended: the next one, or none where it was the last. After a failure no
/// further one is tried.
pub fn unmount_under(mounts: &Vec<String>, k: usize, o: &Outcome) -> (r: Result<
    Option<usize>,
    String,
>)
    requires
        k < mounts@.len(),
    ensures
        match r {
            Ok(next) => (*o matches Outcome::Exited(out) && out.success()) && next == (if k + 1
                < mounts@.len() {
                Some((k + 1) as usize)
            } else {
                None
            }),
            Err(e) => match *o {
                Outcome::NotSpawned(why) => e@ == "umount "@ + mounts@[k as int]@ + ": "@ + why@,
                Outcome::Exited(out) => !out.success() && e@ == "umount "@ + mounts@[k as int]@
                    + ": "@ + text::trim(text::utf8_lossy(out.stderr@)),
            },
        },
{
    match unmounted(mounts[k].as_str(), o) {
        Ok(_) => if mounts.len() - k > 1 {
            Ok(Some(k + 1))
        } else {
            Ok(None)
        },
        Err(e) => Err(e),
    }
}

/// Deleting a workspace whose path may be deleted.
#[derive(Clone, Copy, Debug, PartialEq, Eq, Structural)]
pub enum Reset {
    /// End the processes that work in it.
    KillInside,
    /// Detach what is mounted in it.
    Unmount,
    /// Count what is in it.
    Count,
    /// Remove it; no where it was not there.
    Remove,
    /// See that it is gone.
    AskGone,
    /// It is gone.
    Done,
    /// It may not be.
    Failed,
}

impl Plan for Reset {
    open spec fn next(self, r: Reply) -> Self {
        match self {
            Reset::KillInside => Reset::Unmount,
            Reset::Unmount => match r {
                Reply::Error => Reset::Failed,
                _ => Reset::Count,
            },
            Reset::Count => Reset::Remove,
            Reset::Remove => match r {
                Reply::Error => Reset::Failed,
                _ => Reset::AskGone,
            },
            Reset::AskGone => match r {
                Reply::Error => Reset::Failed,
                _ => Reset::Done,
            },
            Reset::Done => Reset::Done,
            Reset::Failed => Reset::Failed,
        }
    }

    open spec fn lenient(self) -> bool {
        self == Reset::KillInside || self == Reset::Count
    }

    open spec fn ended(self) -> bool {
        self == Reset::Done || self == Reset::Failed
    }

    open spec fn doomed(self) -> bool {
        self == Reset::Failed
    }

    open spec fn left(self) -> nat {
        match self {
            Reset::KillInside => 5,
            Reset::Unmount => 4,
            Reset::Count => 3,
            Reset::Remove => 2,
            Reset::AskGone => 1,
            _ => 0,
        }
    }

    fn step(self, r: Reply) -> (p: Self) {
        match self {
            Reset::KillInside => Reset::Unmount,
            Reset::Unmount => match r {
                Reply::Error => Reset::Failed,
                _ => Reset::Count,
            },
            Reset::Count => Reset::Remove,
            Reset::Remove => match r {
                Reply::Error => Reset::Failed,
                _ => Reset::AskGone,
            },
            Reset::AskGone => match r {
                Reply::Error => Reset::Failed,
                _ => Reset::Done,
            },
            Reset::Done => Reset::Done,
            Reset::Failed => Reset::Failed,
        }
    }

    fn is_lenient(self) -> (b: bool) {
        match self {
            Reset::KillInside | Reset::Count => true,
            _ => false,
        }
    }

    proof fn lemma_ends(self, r: Reply) {
    }
}

/// Nothing is removed before every mount in it was detached, which comes after its
/// processes were to be ended; and a reset succeeds only where the path was removed
/// and seen to be gone.
pub proof fn law_reset_is_in_order(replies: Seq<Reply>)
    ensures
        ({
            let p = Reset::KillInside;
            let end = plan::reached(p, replies);
            &&& plan::does(p, replies, Reset::Unmount) ==> plan::does(p, replies, Reset::KillInside)
            &&& plan::does(p, replies, Reset::Remove) ==> plan::manages(p, replies, Reset::Unmount)
            &&& end == Reset::Done ==> plan::manages(p, replies, Reset::Remove)
            &&& end == Reset::Done ==> plan::manages(p, replies, Reset::AskGone)
        }),
{
    let p = Reset::KillInside;
    plan::lemma_way_in(
        p,
        replies,
        |x: Reset| x != Reset::KillInside,
        plan::doing(Reset::KillInside),
    );
    plan::lemma_way_in(
        p,
        replies,
        |x: Reset|
            x == Reset::Count || x == Reset::Remove || x == Reset::AskGone
                || x == Reset::Done,
        plan::managing(Reset::Unmount),
    );
    plan::lemma_way_in(
        p,
        replies,
        |x: Reset| x == Reset::AskGone || x == Reset::Done,
        plan::managing(Reset::Remove),
    );
    plan::lemma_way_in(p, replies, |x: Reset| x == Reset::Done, plan::managing(Reset::AskGone));
}

/// What came of removing a path.
#[derive(Debug, PartialEq, Eq)]
pub enum Removal {
    Removed,
    /// There was nothing.
    NotFound,
    /// It failed, for the given reason.
    Failed(String),
}

/// Whether a path was removed: one that was not there counts.
pub fn removed(path: &str, r: &Removal) -> (res: Result<bool, String>)
    ensures
        match *r {
            Removal::Removed => res == Ok::<bool, String>(true),
            Removal::NotFound => res == Ok::<bool, String>(false),
            Removal::Failed(why) => res is Err && res->Err_0@ == "rm -rf "@ + path@ + ": "@ + why@,
        },
{
    match r {
        Removal::Removed => Ok(true),
        Removal::NotFound => Ok(false),
        Removal::Failed(why) => Err(text::cat4("rm -rf ", path, ": ", why.as_str())),
    }
}

/// See that a path is gone.
pub fn require_gone(path: &str, found: bool) -> (r: Result<bool, String>)
    ensures
        match r {
            Ok(b) => b && !found,
            Err(e) => found && e@ == "path still exists after delete: "@ + path@,
        },
{
    if found {
        Err(text::cat2("path still exists after delete: ", path))
    } else {
        Ok(true)
    }
}

} // verus!
