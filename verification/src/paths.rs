//! Paths as strings of components between slashes.
use crate::text;
use vstd::prelude::*;

verus! {

/// `dir` with `name` below it; `name` itself where it is absolute.
pub open spec fn joined(dir: Seq<char>, name: Seq<char>) -> Seq<char> {
    if name.len() > 0 && name[0] == '/' {
        name
    } else if dir.len() == 0 || dir.last() == '/' {
        dir + name
    } else {
        dir + "/"@ + name
    }
}

/// `dir` with `name` below it; `name` itself where it is absolute.
pub fn join(dir: &str, name: &str) -> (r: String)
    ensures
        r@ == joined(dir@, name@),
{
    let d = text::to_chars(dir);
    let n = text::to_chars(name);
    if n.len() > 0 && n[0] == '/' {
        return name.to_owned();
    }
    if d.len() == 0 || d[d.len() - 1] == '/' {
        return text::cat2(dir, name);
    }
    text::cat3(dir, "/", name)
}

/// The named components of a path: empty ones and single dots say nothing.
pub open spec fn named(v: Seq<Seq<char>>) -> Seq<Seq<char>>
    decreases v.len(),
{
    if v.len() == 0 {
        Seq::empty()
    } else {
        let before = named(v.drop_last());
        if v.last().len() == 0 || v.last() == "."@ {
            before
        } else {
            before.push(v.last())
        }
    }
}

/// The components of a path, without its root.
pub open spec fn components(path: Seq<char>) -> Seq<Seq<char>> {
    named(text::split_char(path, '/'))
}

/// The components of a path, without its root.
pub fn split_components(path: &str) -> (r: Vec<String>)
    ensures
        text::views(r@) == components(path@),
{
    let parts = text::split(path, '/');
    let mut out: Vec<String> = Vec::new();
    let mut i: usize = 0;
    assert(text::views(parts@).take(0) =~= Seq::<Seq<char>>::empty());
    assert(text::views(out@) =~= Seq::<Seq<char>>::empty());
    while i < parts.len()
        invariant
            i <= parts.len(),
            text::views(out@) == named(text::views(parts@).take(i as int)),
        decreases parts.len() - i,
    {
        proof {
            let t = text::views(parts@).take(i + 1);
            assert(t.drop_last() =~= text::views(parts@).take(i as int));
            assert(t.last() == parts@[i as int]@);
        }
        let s = parts[i].as_str();
        if !s.is_empty() && !text::same(s, ".") {
            let c = parts[i].clone();
            proof {
                text::lemma_views_push(out@, c);
            }
            out.push(c);
        }
        i += 1;
    }
    assert(text::views(parts@).take(parts@.len() as int) =~= text::views(parts@));
    out
}

/// Whether a list of components starts with another one.
pub fn leads(first: &Vec<String>, all: &Vec<String>) -> (r: bool)
    ensures
        r == text::views(first@).is_prefix_of(text::views(all@)),
{
    let ghost f = text::views(first@);
    let ghost a = text::views(all@);
    if first.len() > all.len() {
        return false;
    }
    let mut i: usize = 0;
    while i < first.len()
        invariant
            i <= first.len() <= all.len(),
            f == text::views(first@),
            a == text::views(all@),
            forall|j: int| 0 <= j < i ==> f[j] == a[j],
        decreases first.len() - i,
    {
        assert(f[i as int] == first@[i as int]@);
        assert(a[i as int] == all@[i as int]@);
        if !text::same(first[i].as_str(), all[i].as_str()) {
            assert(a.take(f.len() as int)[i as int] == a[i as int]);
            return false;
        }
        i += 1;
    }
    assert(f =~= a.take(f.len() as int));
    true
}

/// The last component of a path, unless it leads upwards.
pub open spec fn last_name(path: Seq<char>) -> Option<Seq<char>> {
    let c = components(path);
    if c.len() == 0 || c.last() == ".."@ {
        None
    } else {
        Some(c.last())
    }
}

/// The last component of a path, unless it leads upwards.
pub fn file_name(path: &str) -> (r: Option<String>)
    ensures
        match r {
            Some(s) => last_name(path@) == Some(s@),
            None => last_name(path@) is None,
        },
{
    let c = split_components(path);
    assert(text::views(c@).len() == c.len());
    if c.len() == 0 {
        return None;
    }
    let last = c[c.len() - 1].clone();
    assert(text::views(c@).last() == last@);
    if text::same(last.as_str(), "..") {
        None
    } else {
        Some(last)
    }
}

/// A relative path without the slashes and dots before its first name.
pub open spec fn without_lead(s: Seq<char>) -> Seq<char>
    decreases s.len(),
{
    if s.len() > 0 && s[0] == '/' {
        without_lead(s.skip(1))
    } else if s.len() > 0 && s[0] == '.' && (s.len() == 1 || s[1] == '/') {
        without_lead(s.skip(1))
    } else {
        s
    }
}

/// A path without the slashes and dots after its last name.
pub open spec fn without_tail(s: Seq<char>) -> Seq<char>
    decreases s.len(),
{
    if s.len() > 0 && s.last() == '/' {
        without_tail(s.drop_last())
    } else if s.len() > 0 && s.last() == '.' && (s.len() == 1 || s[s.len() - 2] == '/') {
        without_tail(s.drop_last())
    } else {
        s
    }
}

/// The directory that a path is in: what is left without its last component.
/// Neither the root nor an empty path is in a directory.
pub open spec fn parent_of(path: Seq<char>) -> Option<Seq<char>> {
    if components(path).len() == 0 {
        if path.len() > 0 && path[0] != '/' {
            Some(Seq::empty())
        } else {
            None
        }
    } else {
        let head = up_to_slash(without_tail(path));
        if head.len() == 0 {
            Some(Seq::empty())
        } else if without_tail(head).len() == 0 {
            Some(seq![head[0]])
        } else {
            Some(without_tail(head))
        }
    }
}

/// A path up to its last slash, with the slash.
pub open spec fn up_to_slash(s: Seq<char>) -> Seq<char>
    decreases s.len(),
{
    if s.len() == 0 || s.last() == '/' {
        s
    } else {
        up_to_slash(s.drop_last())
    }
}

fn tail_cut(v: &Vec<char>, len: usize) -> (j: usize)
    requires
        len <= v.len(),
    ensures
        j <= len,
        v@.take(j as int) == without_tail(v@.take(len as int)),
{
    let mut j: usize = len;
    while j > 0 && (v[j - 1] == '/' || (v[j - 1] == '.' && (j == 1 || v[j - 2] == '/')))
        invariant
            j <= len <= v.len(),
            without_tail(v@.take(j as int)) == without_tail(v@.take(len as int)),
        decreases j,
    {
        proof {
            let s = v@.take(j as int);
            assert(s.drop_last() =~= v@.take(j - 1));
            assert(s.last() == v@[j - 1]);
            assert(s.len() > 1 ==> s[s.len() - 2] == v@[j - 2]);
        }
        j -= 1;
    }
    proof {
        let s = v@.take(j as int);
        assert(s.len() > 0 ==> s.last() == v@[j - 1]);
        assert(s.len() > 1 ==> s[s.len() - 2] == v@[j - 2]);
    }
    j
}

fn slash_cut(v: &Vec<char>, len: usize) -> (j: usize)
    requires
        len <= v.len(),
    ensures
        j <= len,
        v@.take(j as int) == up_to_slash(v@.take(len as int)),
{
    let mut j: usize = len;
    while j > 0 && v[j - 1] != '/'
        invariant
            j <= len <= v.len(),
            up_to_slash(v@.take(j as int)) == up_to_slash(v@.take(len as int)),
        decreases j,
    {
        proof {
            assert(v@.take(j as int).drop_last() =~= v@.take(j - 1));
            assert(v@.take(j as int).last() == v@[j - 1]);
        }
        j -= 1;
    }
    assert(j > 0 ==> v@.take(j as int).last() == v@[j - 1]);
    j
}

/// The directory that a path is in.
pub fn parent(path: &str) -> (r: Option<String>)
    ensures
        match r {
            Some(s) => parent_of(path@) == Some(s@),
            None => parent_of(path@) is None,
        },
{
    let v = text::to_chars(path);
    let c = split_components(path);
    assert(text::views(c@).len() == c.len());
    if c.len() == 0 {
        if v.len() > 0 && v[0] != '/' {
            let r = String::new();
            assert(r@ =~= Seq::<char>::empty());
            return Some(r);
        }
        return None;
    }
    assert(v@.take(v@.len() as int) =~= v@);
    let a: usize = tail_cut(&v, v.len());
    let b: usize = slash_cut(&v, a);
    let d: usize = tail_cut(&v, b);
    let end: usize = if b > 0 && d == 0 {
        1
    } else {
        d
    };
    let r = text::from_chars(vstd::slice::slice_subrange(v.as_slice(), 0, end));
    proof {
        assert(v@.take(b as int).len() == b);
        assert(v@.take(d as int).len() == d);
        assert(r@ =~= v@.take(end as int));
        if b == 0 {
            assert(v@.take(0) =~= Seq::<char>::empty());
        } else if d == 0 {
            assert(v@.take(1) =~= seq![v@.take(b as int)[0]]);
        }
    }
    Some(r)
}

/// What follows a leading `~` component.
pub open spec fn below_tilde(path: Seq<char>) -> Option<Seq<char>> {
    if path.len() > 0 && path[0] == '~' && (path.len() == 1 || path[1] == '/') {
        Some(without_tail(without_lead(path.skip(1))))
    } else {
        None
    }
}

/// `path` with a leading `~` replaced by the home directory.
pub open spec fn expanded(path: Seq<char>, home: Option<Seq<char>>) -> Seq<char> {
    match (below_tilde(path), home) {
        (Some(rest), Some(h)) => joined(h, rest),
        _ => path,
    }
}

fn strip_tilde(path: &str) -> (r: Option<String>)
    ensures
        match r {
            Some(s) => below_tilde(path@) == Some(s@),
            None => below_tilde(path@) is None,
        },
{
    let v = text::to_chars(path);
    if !(v.len() > 0 && v[0] == '~' && (v.len() == 1 || v[1] == '/')) {
        return None;
    }
    let mut i: usize = 1;
    while i < v.len() && (v[i] == '/' || (v[i] == '.' && (i + 1 == v.len() || v[i + 1] == '/')))
        invariant
            1 <= i <= v.len(),
            without_lead(v@.skip(i as int)) == without_lead(v@.skip(1)),
        decreases v.len() - i,
    {
        proof {
            let s = v@.skip(i as int);
            assert(s.skip(1) =~= v@.skip(i + 1));
            assert(s[0] == v@[i as int]);
            assert(s.len() > 1 ==> s[1] == v@[i + 1]);
        }
        i += 1;
    }
    let ghost body = v@.skip(i as int);
    proof {
        assert(body.len() > 0 ==> body[0] == v@[i as int]);
        assert(body.len() > 1 ==> body[1] == v@[i + 1]);
        assert(without_lead(v@.skip(1)) == body);
    }
    let mut j: usize = v.len();
    assert(v@.subrange(i as int, j as int) =~= body);
    while j > i && (v[j - 1] == '/' || (v[j - 1] == '.' && (j - 1 == i || v[j - 2] == '/')))
        invariant
            i <= j <= v.len(),
            without_tail(v@.subrange(i as int, j as int)) == without_tail(body),
        decreases j,
    {
        proof {
            let s = v@.subrange(i as int, j as int);
            assert(s.drop_last() =~= v@.subrange(i as int, j - 1));
            assert(s.last() == v@[j - 1]);
            assert(s.len() > 1 ==> s[s.len() - 2] == v@[j - 2]);
        }
        j -= 1;
    }
    proof {
        let s = v@.subrange(i as int, j as int);
        assert(s.len() > 0 ==> s.last() == v@[j - 1]);
        assert(s.len() > 1 ==> s[s.len() - 2] == v@[j - 2]);
    }
    Some(text::from_chars(vstd::slice::slice_subrange(v.as_slice(), i, j)))
}

/// Replaces a leading `~` by the home directory, where that is known. Paths in
/// config files are not expanded by a shell.
pub fn expand_tilde(path: &str, home: Option<&str>) -> (r: String)
    ensures
        r@ == expanded(
            path@,
            match home {
                Some(h) => Some(h@),
                None => None,
            },
        ),
{
    match (strip_tilde(path), home) {
        (Some(rest), Some(h)) => join(h, rest.as_str()),
        _ => path.to_owned(),
    }
}

/// A path that does not start with `~` is left alone.
pub proof fn law_expand_tilde_leaves_other_paths(path: Seq<char>, home: Option<Seq<char>>)
    requires
        path.len() == 0 || path[0] != '~',
    ensures
        expanded(path, home) == path,
{
}

} // verus!
