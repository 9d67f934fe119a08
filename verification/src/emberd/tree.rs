//! A directory tree, as far as its size matters.
use vstd::prelude::*;

verus! {

/// What is at a path.
#[derive(Debug, PartialEq, Eq)]
pub enum Tree {
    Missing,
    /// A regular file of the given length.
    File(u64),
    /// A symbolic link; it is not followed.
    Link,
    /// A directory and what is in it.
    Dir(Vec<Tree>),
    /// Something else.
    Other,
}

/// How many entries a tree has, itself included.
pub open spec fn entries(t: Tree) -> nat
    decreases t,
{
    match t {
        Tree::Missing => 0,
        Tree::Dir(v) => 1 + entries_of(v@),
        _ => 1,
    }
}

pub open spec fn entries_of(v: Seq<Tree>) -> nat
    decreases v,
{
    if v.len() == 0 {
        0
    } else {
        entries_of(v.drop_last()) + entries(v[v.len() - 1])
    }
}

/// How many bytes the regular files of a tree have.
pub open spec fn bytes(t: Tree) -> nat
    decreases t,
{
    match t {
        Tree::File(n) => n as nat,
        Tree::Dir(v) => bytes_of(v@),
        _ => 0,
    }
}

pub open spec fn bytes_of(v: Seq<Tree>) -> nat
    decreases v,
{
    if v.len() == 0 {
        0
    } else {
        bytes_of(v.drop_last()) + bytes(v[v.len() - 1])
    }
}

proof fn lemma_prefix(v: Seq<Tree>, i: int)
    requires
        0 <= i <= v.len(),
    ensures
        entries_of(v.take(i)) <= entries_of(v),
        bytes_of(v.take(i)) <= bytes_of(v),
    decreases v.len() - i,
{
    if i < v.len() {
        lemma_prefix(v, i + 1);
        assert(v.take(i + 1).drop_last() =~= v.take(i));
        assert(v.take(i + 1)[i] == v[i]);
    } else {
        assert(v.take(i) =~= v);
    }
}

/// How many entries a tree has, itself included. Links count and are not followed;
/// a path that is missing counts for nothing.
pub fn count_entries(t: &Tree) -> (n: u64)
    requires
        entries(*t) <= u64::MAX,
    ensures
        n == entries(*t),
    decreases t,
{
    match t {
        Tree::Missing => 0,
        Tree::Dir(v) => {
            let mut n: u64 = 1;
            let mut i: usize = 0;
            assert(v@.take(0) =~= Seq::<Tree>::empty());
            while i < v.len()
                invariant
                    i <= v.len(),
                    *t == Tree::Dir(*v),
                    entries(*t) <= u64::MAX,
                    n == 1 + entries_of(v@.take(i as int)),
                decreases v.len() - i,
            {
                proof {
                    assert(v@.take(i + 1).drop_last() =~= v@.take(i as int));
                    assert(v@.take(i + 1)[i as int] == v@[i as int]);
                    lemma_prefix(v@, i + 1);
                }
                n += count_entries(&v[i]);
                i += 1;
            }
            assert(v@.take(v@.len() as int) =~= v@);
            n
        },
        _ => 1,
    }
}

/// How many bytes the regular files of a tree have. Links are not followed; a path
/// that is missing has none.
pub fn dir_size(t: &Tree) -> (n: u64)
    requires
        bytes(*t) <= u64::MAX,
    ensures
        n == bytes(*t),
    decreases t,
{
    match t {
        Tree::File(n) => *n,
        Tree::Dir(v) => {
            let mut n: u64 = 0;
            let mut i: usize = 0;
            assert(v@.take(0) =~= Seq::<Tree>::empty());
            while i < v.len()
                invariant
                    i <= v.len(),
                    *t == Tree::Dir(*v),
                    bytes(*t) <= u64::MAX,
                    n == bytes_of(v@.take(i as int)),
                decreases v.len() - i,
            {
                proof {
                    assert(v@.take(i + 1).drop_last() =~= v@.take(i as int));
                    assert(v@.take(i + 1)[i as int] == v@[i as int]);
                    lemma_prefix(v@, i + 1);
                }
                n += dir_size(&v[i]);
                i += 1;
            }
            assert(v@.take(v@.len() as int) =~= v@);
            n
        },
        _ => 0,
    }
}

} // verus!
