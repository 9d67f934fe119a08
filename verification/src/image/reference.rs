//! Names of images in registries.
use crate::error::Error;
use crate::text;
use vstd::prelude::*;

verus! {

/// An image in a registry.
#[derive(Debug, PartialEq, Eq)]
pub struct ImageReference {
    pub registry: String,
    pub repository: String,
    pub tag: String,
}

/// What an [`ImageReference`] says.
pub struct Named {
    pub registry: Seq<char>,
    pub repository: Seq<char>,
    pub tag: Seq<char>,
}

impl View for ImageReference {
    type V = Named;

    open spec fn view(&self) -> Named {
        Named { registry: self.registry@, repository: self.repository@, tag: self.tag@ }
    }
}

/// Whether the first part of a reference names a registry.
pub open spec fn is_host(s: Seq<char>) -> bool {
    s.contains('.') || s.contains(':') || s == "localhost"@
}

/// The last part of a reference without its tag, and the tag.
pub open spec fn base_and_tag(last: Seq<char>) -> (Seq<char>, Seq<char>) {
    match text::halves(last, ':') {
        Some((n, t)) => (n, t),
        None => (last, "latest"@),
    }
}

/// What a reference names: the registry is that of Docker unless the first part
/// is a host, single names there are in `library`, and the tag is `latest` unless
/// one is given.
pub open spec fn named(s: Seq<char>) -> Named {
    let parts = text::split_char(s, '/');
    let (base, tag) = base_and_tag(parts.last());
    let host = parts.len() > 1 && is_host(parts[0]);
    let names = if host {
        parts.drop_last().skip(1).push(base)
    } else {
        parts.drop_last().push(base)
    };
    let registry = if host {
        parts[0]
    } else {
        "docker.io"@
    };
    Named {
        registry,
        repository: if registry == "docker.io"@ && names.len() == 1 {
            "library/"@ + text::join(names, "/"@)
        } else {
            text::join(names, "/"@)
        },
        tag,
    }
}

/// `s` with every slash replaced by a hyphen.
pub open spec fn hyphenated(s: Seq<char>) -> Seq<char> {
    Seq::new(
        s.len(),
        |i: int|
            if s[i] == '/' {
                '-'
            } else {
                s[i]
            },
    )
}

impl Named {
    pub open spec fn text(self) -> Seq<char> {
        self.registry + "/"@ + self.repository + ":"@ + self.tag
    }

    pub open spec fn local_text(self) -> Seq<char> {
        hyphenated(self.repository) + "-"@ + self.tag
    }
}

fn has_char(s: &str, c: char) -> (r: bool)
    ensures
        r == s@.contains(c),
{
    let v = text::to_chars(s);
    let mut i: usize = 0;
    while i < v.len()
        invariant
            i <= v.len(),
            v@ == s@,
            forall|j: int| 0 <= j < i ==> v@[j] != c,
        decreases v.len() - i,
    {
        if v[i] == c {
            assert(s@[i as int] == c);
            return true;
        }
        i += 1;
    }
    false
}

impl ImageReference {
    /// Reads a reference. The empty one names nothing.
    pub fn parse(s: &str) -> (r: Result<ImageReference, Error>)
        ensures
            match r {
                Ok(i) => s@.len() > 0 && i@ == named(s@),
                Err(e) => s@.len() == 0 && (e matches Error::Image(m) && m@
                    == "empty image reference"@),
            },
    {
        if s.is_empty() {
            return Err(Error::Image("empty image reference".to_owned()));
        }
        let parts = text::split(s, '/');
        let ghost v = text::views(parts@);
        proof {
            text::lemma_split_nonempty(s@, text::just('/'));
        }
        assert(v.len() == parts.len());
        let last = parts[parts.len() - 1].clone();
        assert(v.last() == last@);
        let (base, tag) = match text::split_once(last.as_str(), ':') {
            Some(p) => p,
            None => (last.clone(), "latest".to_owned()),
        };
        let first = parts[0].as_str();
        assert(v[0] == first@);
        let host = parts.len() > 1 && (has_char(first, '.') || has_char(first, ':') || text::same(
            first,
            "localhost",
        ));
        let start: usize = if host {
            1
        } else {
            0
        };
        let mut names: Vec<String> = Vec::new();
        let mut i: usize = start;
        while i < parts.len() - 1
            invariant
                start <= i <= parts.len() - 1,
                v == text::views(parts@),
                text::views(names@) =~= v.subrange(start as int, i as int),
            decreases parts.len() - 1 - i,
        {
            let n = parts[i].clone();
            proof {
                text::lemma_views_push(names@, n);
            }
            names.push(n);
            i += 1;
        }
        proof {
            text::lemma_views_push(names@, base);
            assert(v.drop_last().skip(1) =~= v.subrange(1, v.len() - 1) || v.len() == 1);
            assert(v.drop_last() =~= v.subrange(0, v.len() - 1));
        }
        names.push(base);
        let registry = if host {
            parts[0].clone()
        } else {
            "docker.io".to_owned()
        };
        let joined = text::join_strings(&names, "/");
        assert(text::views(names@).len() == names.len());
        let repository = if text::same(registry.as_str(), "docker.io") && names.len() == 1 {
            text::cat2("library/", joined.as_str())
        } else {
            joined
        };
        Ok(ImageReference { registry, repository, tag })
    }

    /// The full reference.
    pub fn to_string(&self) -> (r: String)
        ensures
            r@ == self@.text(),
    {
        text::cat5(
            self.registry.as_str(),
            "/",
            self.repository.as_str(),
            ":",
            self.tag.as_str(),
        )
    }

    /// A name for the image that can stand in a path.
    pub fn local_name(&self) -> (r: String)
        ensures
            r@ == self@.local_text(),
    {
        let v = text::to_chars(self.repository.as_str());
        let mut out = String::new();
        let mut i: usize = 0;
        while i < v.len()
            invariant
                i <= v.len(),
                out@ =~= hyphenated(v@).take(i as int),
            decreases v.len() - i,
        {
            if v[i] == '/' {
                out.push('-');
            } else {
                out.push(v[i]);
            }
            i += 1;
        }
        assert(hyphenated(v@).take(v@.len() as int) =~= hyphenated(v@));
        text::cat3(out.as_str(), "-", self.tag.as_str())
    }
}

} // verus!
