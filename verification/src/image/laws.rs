//! What holds of the names of images, whatever they are.
use crate::image::inspect;
use crate::image::reference;
use crate::image::reference::Named;
use crate::text;
use crate::text_laws;
use vstd::prelude::*;

verus! {

/// Whether a list holds the parts of a repository: none of them has a slash, and
/// the last one no colon.
pub open spec fn are_parts(names: Seq<Seq<char>>) -> bool {
    &&& names.len() > 0
    &&& forall|k: int| 0 <= k < names.len() ==> text_laws::free_of(#[trigger] names[k], '/')
    &&& text_laws::free_of(names.last(), ':')
}

/// A text in front is strung on by one `c` more.
proof fn lemma_strung_cons(x: Seq<char>, parts: Seq<Seq<char>>, c: char)
    requires
        parts.len() > 0,
    ensures
        text_laws::strung(seq![x] + parts, c) == x.push(c) + text_laws::strung(parts, c),
    decreases parts.len(),
{
    let all = seq![x] + parts;
    if parts.len() == 1 {
        assert(all.drop_last() =~= seq![x]);
        assert(text_laws::strung(seq![x], c) == x);
    } else {
        lemma_strung_cons(x, parts.drop_last(), c);
        assert(all.drop_last() =~= seq![x] + parts.drop_last());
        assert(text_laws::strung(all, c) =~= x.push(c) + text_laws::strung(parts, c));
    }
}

/// What is added to the last of some texts is added to all of them.
proof fn lemma_strung_tail(parts: Seq<Seq<char>>, y: Seq<char>, c: char)
    requires
        parts.len() > 0,
    ensures
        text_laws::strung(parts.drop_last().push(parts.last() + y), c) == text_laws::strung(parts, c)
            + y,
{
    let t = parts.drop_last().push(parts.last() + y);
    assert(t.drop_last() =~= parts.drop_last());
    assert(text_laws::strung(t, c) =~= text_laws::strung(parts, c) + y);
}

proof fn lemma_join(v: Seq<Seq<char>>)
    ensures
        text::join(v, "/"@) == text_laws::strung(v, '/'),
    decreases v.len(),
{
    reveal_strlit("/");
    if v.len() > 1 {
        lemma_join(v.drop_last());
        assert(text::join(v, "/"@) =~= text_laws::strung(v, '/'));
    }
}

/// The parts of the text `strung(names)` followed by a colon and a tag.
proof fn lemma_parts(names: Seq<Seq<char>>, tag: Seq<char>)
    requires
        are_parts(names),
        text_laws::free_of(tag, '/'),
    ensures
        ({
            let last = names.last().push(':') + tag;
            let all = names.drop_last().push(last);
            &&& text::split_char(text_laws::strung(names, '/').push(':') + tag, '/') == all
            &&& reference::base_and_tag(last) == (names.last(), tag)
        }),
{
    let y = Seq::<char>::empty().push(':') + tag;
    let last = names.last().push(':') + tag;
    let all = names.drop_last().push(last);
    assert(names.last() + y =~= last);
    lemma_strung_tail(names, y, '/');
    assert(text_laws::strung(names, '/') + y =~= text_laws::strung(names, '/').push(':') + tag);
    assert forall|k: int| 0 <= k < all.len() implies text_laws::free_of(#[trigger] all[k], '/') by {
        if k < names.len() - 1 {
            assert(all[k] == names[k]);
        } else {
            let f = names[names.len() - 1];
            assert(text_laws::free_of(f, '/'));
            assert forall|i: int| 0 <= i < last.len() implies #[trigger] last[i] != '/' by {
                if i < f.len() {
                    assert(last[i] == f[i]);
                } else if i > f.len() {
                    assert(last[i] == tag[i - f.len() - 1]);
                }
            }
        }
    }
    text_laws::law_split_undoes_string(all, '/');
    text_laws::law_halves(names.last(), tag, ':');
}

/// The full name of an image reads back as that image: the registry is what comes
/// before the first slash, the tag what comes after the colon of the last part, and
/// the repository all that is between.
pub proof fn law_full_name_reads_back(
    registry: Seq<char>,
    names: Seq<Seq<char>>,
    tag: Seq<char>,
)
    requires
        are_parts(names),
        text_laws::free_of(registry, '/'),
        registry.contains('.') || registry.contains(':') || registry == "localhost"@,
        text_laws::free_of(tag, '/'),
        registry == "docker.io"@ ==> names.len() > 1,
    ensures
        ({
            let image = Named { registry, repository: text_laws::strung(names, '/'), tag };
            &&& image.text() == registry.push('/') + text_laws::strung(names, '/').push(':') + tag
            &&& reference::named(image.text()) == image
        }),
{
    let repository = text_laws::strung(names, '/');
    let image = Named { registry, repository, tag };
    let s = image.text();
    reveal_strlit("/");
    reveal_strlit(":");
    assert(s =~= registry.push('/') + (repository.push(':') + tag));
    assert(s =~= registry.push('/') + repository.push(':') + tag);
    lemma_parts(names, tag);
    let last = names.last().push(':') + tag;
    let rest = names.drop_last().push(last);
    let all = seq![registry] + rest;
    text_laws::law_string_undoes_split(repository.push(':') + tag, '/');
    lemma_strung_cons(registry, rest, '/');
    assert forall|k: int| 0 <= k < all.len() implies text_laws::free_of(#[trigger] all[k], '/') by {
        if k > 0 {
            assert(all[k] == rest[k - 1]);
            assert(text_laws::free_of(rest[k - 1], '/'));
        }
    }
    text_laws::law_split_undoes_string(all, '/');
    assert(text::split_char(s, '/') == all);
    assert(all.last() == last);
    assert(all.drop_last().skip(1).push(names.last()) =~= names);
    lemma_join(names);
}

/// A name that starts with no host is that of an image of Docker: a single name is
/// one of its own library, and one of several parts is as it stands.
pub proof fn law_docker_names(names: Seq<Seq<char>>, tag: Seq<char>)
    requires
        are_parts(names),
        text_laws::free_of(tag, '/'),
        names.len() > 1 ==> !names[0].contains('.') && !names[0].contains(':') && names[0]
            != "localhost"@,
    ensures
        ({
            let image = reference::named(text_laws::strung(names, '/').push(':') + tag);
            &&& image.registry == "docker.io"@
            &&& image.repository == (if names.len() == 1 {
                "library/"@ + names[0]
            } else {
                text_laws::strung(names, '/')
            })
            &&& image.tag == tag
        }),
{
    lemma_parts(names, tag);
    let last = names.last().push(':') + tag;
    let all = names.drop_last().push(last);
    assert(all.last() == last);
    assert(all.drop_last().push(names.last()) =~= names);
    lemma_join(names);
    if names.len() > 1 {
        assert(all[0] == names[0]);
    }
}

/// A name without a tag is that of the latest image of that name.
pub proof fn law_latest_is_meant(names: Seq<Seq<char>>)
    requires
        are_parts(names),
    ensures
        reference::named(text_laws::strung(names, '/')) == reference::named(
            text_laws::strung(names, '/').push(':') + "latest"@,
        ),
{
    reveal_strlit("latest");
    let tag = "latest"@;
    assert(text_laws::free_of(tag, '/'));
    lemma_parts(names, tag);
    text_laws::law_split_undoes_string(names, '/');
    text_laws::law_halves(names.last(), Seq::empty(), ':');
    let last = names.last().push(':') + tag;
    let all = names.drop_last().push(last);
    assert(all.drop_last() =~= names.drop_last());
    assert(all.last() == last);
    if names.len() > 1 {
        assert(all[0] == names[0]);
    }
}

proof fn lemma_hyphens(names: Seq<Seq<char>>)
    requires
        forall|k: int| 0 <= k < names.len() ==> text_laws::free_of(#[trigger] names[k], '/'),
    ensures
        reference::hyphenated(text_laws::strung(names, '/')) == text_laws::strung(names, '-'),
    decreases names.len(),
{
    let a = reference::hyphenated(text_laws::strung(names, '/'));
    let b = text_laws::strung(names, '-');
    if names.len() > 0 {
        let l = names[names.len() - 1];
        assert(text_laws::free_of(l, '/'));
        if names.len() > 1 {
            let d = names.drop_last();
            assert forall|k: int| 0 <= k < d.len() implies text_laws::free_of(#[trigger] d[k], '/') by {
                assert(d[k] == names[k]);
            }
            lemma_hyphens(d);
            let h = text_laws::strung(d, '/');
            let s = text_laws::strung(names, '/');
            assert(s == h.push('/') + l);
            let g = reference::hyphenated(h);
            assert(a.len() == s.len());
            assert forall|i: int| 0 <= i < s.len() implies a[i] == b[i] by {
                if i < h.len() {
                    assert(s[i] == h[i]);
                    assert(a[i] == g[i]);
                    assert(b[i] == g[i]);
                } else if i == h.len() {
                    assert(s[i] == '/');
                } else {
                    assert(s[i] == l[i - h.len() - 1]);
                }
            }
        }
    }
    assert(a =~= b);
}

/// The local name of an image is that of its repository and tag with hyphens in
/// place of slashes, so it can stand in a path as one name.
pub proof fn law_local_name_is_one_name(
    registry: Seq<char>,
    names: Seq<Seq<char>>,
    tag: Seq<char>,
)
    requires
        are_parts(names),
        text_laws::free_of(tag, '/'),
    ensures
        ({
            let image = Named { registry, repository: text_laws::strung(names, '/'), tag };
            &&& image.local_text() == text_laws::strung(names.push(tag), '-')
            &&& text_laws::free_of(image.local_text(), '/')
        }),
{
    let image = Named { registry, repository: text_laws::strung(names, '/'), tag };
    reveal_strlit("-");
    lemma_hyphens(names);
    text_laws::lemma_strung_push(names, tag, '-');
    let h = text_laws::strung(names, '-');
    let s = image.local_text();
    assert(s =~= h.push('-') + tag);
    assert forall|i: int| 0 <= i < s.len() implies #[trigger] s[i] != '/' by {
        if i < h.len() {
            assert(s[i] == reference::hyphenated(image.repository)[i]);
        } else if i > h.len() {
            assert(s[i] == tag[i - h.len() - 1]);
        }
    }
}

/// Both kinds of SSH server are looked for in both directories of programs, and
/// nothing else is.
pub proof fn law_ssh_servers_looked_for(dir: Seq<char>, program: Seq<char>)
    requires
        dir == "sbin"@ || dir == "bin"@,
        program == "sshd"@ || program == "dropbear"@,
    ensures
        inspect::ssh_server_paths().contains("usr/"@ + dir + "/"@ + program),
        inspect::ssh_server_paths().len() == 4,
{
    reveal_strlit("sbin");
    reveal_strlit("bin");
    reveal_strlit("sshd");
    reveal_strlit("dropbear");
    reveal_strlit("usr/");
    reveal_strlit("/");
    reveal_strlit("usr/sbin/sshd");
    reveal_strlit("usr/bin/sshd");
    reveal_strlit("usr/sbin/dropbear");
    reveal_strlit("usr/bin/dropbear");
    let v = inspect::ssh_server_paths();
    let s = "usr/"@ + dir + "/"@ + program;
    if dir == "sbin"@ && program == "sshd"@ {
        assert(s =~= v[0]);
    } else if dir == "bin"@ && program == "sshd"@ {
        assert(s =~= v[1]);
    } else if dir == "sbin"@ {
        assert(s =~= v[2]);
    } else {
        assert(s =~= v[3]);
    }
}

} // verus!
