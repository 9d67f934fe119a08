//! What holds of paths, whatever they are.
use crate::paths;
use crate::text;
use crate::text_laws;
use vstd::prelude::*;

verus! {

/// Whether a text is a name that can stand in a path: not empty, without slashes,
/// and not one of the names that lead nowhere or upwards.
pub open spec fn plain(name: Seq<char>) -> bool {
    name.len() > 0 && text_laws::free_of(name, '/') && name != "."@ && name != ".."@
}

proof fn lemma_named_append(a: Seq<Seq<char>>, b: Seq<Seq<char>>)
    ensures
        paths::named(a + b) == paths::named(a) + paths::named(b),
    decreases b.len(),
{
    if b.len() == 0 {
        assert(a + b =~= a);
        assert(paths::named(b) =~= Seq::<Seq<char>>::empty());
        assert(paths::named(a) + paths::named(b) =~= paths::named(a));
    } else {
        lemma_named_append(a, b.drop_last());
        assert((a + b).drop_last() =~= a + b.drop_last());
        assert((a + b).last() == b.last());
        assert(paths::named(a + b) =~= paths::named(a) + paths::named(b));
    }
}

proof fn lemma_strung_append(a: Seq<Seq<char>>, b: Seq<Seq<char>>, c: char)
    requires
        a.len() > 0,
        b.len() > 0,
    ensures
        text_laws::strung(a + b, c) == text_laws::strung(a, c).push(c) + text_laws::strung(b, c),
    decreases b.len(),
{
    if b.len() == 1 {
        assert((a + b).drop_last() =~= a);
        assert((a + b).last() == b[0]);
    } else {
        lemma_strung_append(a, b.drop_last(), c);
        assert((a + b).drop_last() =~= a + b.drop_last());
        assert(text_laws::strung(a + b, c) =~= text_laws::strung(a, c).push(c) + text_laws::strung(b, c));
    }
}

/// The components of two paths with a slash between them are those of the first
/// and then those of the second.
pub proof fn law_components_append(a: Seq<char>, b: Seq<char>)
    ensures
        paths::components(a.push('/') + b) == paths::components(a) + paths::components(b),
{
    let p = text::split_char(a, '/');
    let q = text::split_char(b, '/');
    text_laws::law_string_undoes_split(a, '/');
    text_laws::law_string_undoes_split(b, '/');
    lemma_strung_append(p, q, '/');
    let all = p + q;
    assert forall|k: int| 0 <= k < all.len() implies text_laws::free_of(#[trigger] all[k], '/') by {
        if k < p.len() {
            assert(all[k] == p[k]);
        } else {
            assert(all[k] == q[k - p.len()]);
        }
    }
    text_laws::law_split_undoes_string(all, '/');
    lemma_named_append(p, q);
}

/// A plain name is a path of one component, and the empty path has none.
pub proof fn law_components_of_names(name: Seq<char>)
    requires
        plain(name),
    ensures
        paths::components(name) == seq![name],
        paths::components(Seq::empty()) == Seq::<Seq<char>>::empty(),
{
    text::lemma_split_none(name, '/');
    let v = seq![name];
    assert(v.drop_last() =~= Seq::<Seq<char>>::empty());
    reveal_with_fuel(paths::named, 2);
    assert(paths::named(v) =~= v);
    let none = Seq::<char>::empty();
    text::lemma_split_none(none, '/');
    let w = seq![none];
    assert(w.drop_last() =~= Seq::<Seq<char>>::empty());
    assert(paths::named(w) =~= Seq::<Seq<char>>::empty());
}

/// What is joined to a directory is below it: the components of the directory come
/// first, and those of the rest after them. An absolute path takes its place.
pub proof fn law_join_goes_below(dir: Seq<char>, name: Seq<char>)
    ensures
        name.len() == 0 || name[0] != '/' ==> paths::components(paths::joined(dir, name))
            == paths::components(dir) + paths::components(name),
        name.len() > 0 && name[0] == '/' ==> paths::joined(dir, name) == name,
{
    reveal_strlit("/");
    let none = Seq::<char>::empty();
    let a = seq!['a'];
    reveal_strlit(".");
    reveal_strlit("..");
    assert(a[0] == 'a');
    law_components_of_names(a);
    if name.len() == 0 || name[0] != '/' {
        if dir.len() == 0 {
            assert(dir =~= none);
            assert(dir + name =~= name);
            assert(paths::components(dir) + paths::components(name) =~= paths::components(name));
        } else if dir.last() == '/' {
            let d = dir.drop_last();
            assert(dir =~= d.push('/') + none);
            law_components_append(d, none);
            assert(dir + name =~= d.push('/') + name);
            law_components_append(d, name);
            assert(paths::components(d) + paths::components(none) =~= paths::components(d));
        } else {
            assert(dir + "/"@ + name =~= dir.push('/') + name);
            law_components_append(dir, name);
        }
    }
}

/// A name that was joined to a directory is the last one of the path.
pub proof fn law_joined_name_is_last(dir: Seq<char>, name: Seq<char>)
    requires
        plain(name),
    ensures
        paths::components(paths::joined(dir, name)) == paths::components(dir).push(name),
        paths::last_name(paths::joined(dir, name)) == Some(name),
{
    assert(name[0] != '/');
    law_join_goes_below(dir, name);
    law_components_of_names(name);
    assert(paths::components(dir) + seq![name] =~= paths::components(dir).push(name));
}

proof fn lemma_up_to_slash(dir: Seq<char>, name: Seq<char>)
    requires
        text_laws::free_of(name, '/'),
    ensures
        paths::up_to_slash(dir.push('/') + name) == dir.push('/'),
    decreases name.len(),
{
    let s = dir.push('/') + name;
    if name.len() == 0 {
        assert(s =~= dir.push('/'));
    } else {
        let d = name.drop_last();
        assert(s.last() == name[name.len() - 1]);
        assert(s.drop_last() =~= dir.push('/') + d);
        assert forall|i: int| 0 <= i < d.len() implies #[trigger] d[i] != '/' by {
            assert(d[i] == name[i]);
        }
        lemma_up_to_slash(dir, d);
    }
}

/// What was joined to a directory is in that directory.
pub proof fn law_joined_name_is_in_the_directory(dir: Seq<char>, name: Seq<char>)
    requires
        plain(name),
        dir.len() > 0,
        dir.last() != '/',
        dir.last() != '.',
    ensures
        paths::parent_of(paths::joined(dir, name)) == Some(dir),
{
    reveal_strlit("/");
    reveal_strlit(".");
    law_joined_name_is_last(dir, name);
    let s = paths::joined(dir, name);
    assert(name[0] != '/');
    assert(s =~= dir.push('/') + name);
    assert(s.last() == name.last());
    assert(name[name.len() - 1] != '/');
    if name.last() == '.' {
        if name.len() == 1 {
            assert(name =~= "."@);
        } else {
            assert(s[s.len() - 2] == name[name.len() - 2]);
        }
    }
    assert(paths::without_tail(s) == s);
    lemma_up_to_slash(dir, name);
    let head = dir.push('/');
    assert(head.drop_last() =~= dir);
    reveal_with_fuel(paths::without_tail, 2);
    assert(paths::without_tail(head) == dir);
}

/// What is below `~` is below the home directory; without a home directory, or
/// where the tilde is only the start of a name, a path stays as it is.
pub proof fn law_tilde_is_the_home_directory(rest: Seq<char>, home: Seq<char>, path: Seq<char>)
    requires
        rest.len() > 0,
        rest[0] != '/' && rest[0] != '.',
        rest.last() != '/' && rest.last() != '.',
    ensures
        paths::expanded(seq!['~', '/'] + rest, Some(home)) == paths::joined(home, rest),
        paths::expanded(path, None) == path,
        path.len() > 1 && path[1] != '/' ==> paths::expanded(path, Some(home)) == path,
{
    let p = seq!['~', '/'] + rest;
    let q = p.skip(1);
    assert(q[0] == '/');
    assert(q.skip(1) =~= rest);
    reveal_with_fuel(paths::without_lead, 2);
    assert(paths::without_lead(q) == rest);
    assert(paths::without_tail(rest) == rest);
}

} // verus!
