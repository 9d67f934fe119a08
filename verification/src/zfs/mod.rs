//! ZFS volumes and snapshots.
pub mod laws;
pub mod snapshot;
pub mod storage;

use crate::command;
use crate::command::Cmd;
use crate::deeds;
use crate::deeds::Deed;
use crate::error;
use crate::error::Error;
use crate::text;
use vstd::prelude::*;

verus! {

/// The snapshot of an image that VM volumes are cloned from.
pub const BASE_SNAPSHOT_NAME: &'static str = "base";

/// What came of destroying something that may be gone already.
#[derive(Clone, Copy, Debug, PartialEq, Eq, Structural)]
pub enum DestroyOutcome {
    /// It was there and is destroyed.
    Destroyed,
    /// It was gone already.
    AlreadyAbsent,
}

/// The line in which ZFS says that `name` does not exist.
pub open spec fn missing_line(name: Seq<char>) -> Seq<char> {
    "cannot open '"@ + name + "': dataset does not exist"@
}

/// Whether some line of a message, apart from white space around it, says that
/// `name` itself does not exist.
pub open spec fn says_missing(stderr: Seq<char>, name: Seq<char>) -> bool {
    exists|i: int|
        0 <= i < text::lines(stderr).len() && text::trim(#[trigger] text::lines(stderr)[i])
            == missing_line(name)
}

/// Whether ZFS reported that `name` itself does not exist. A message about another
/// dataset, or with another reason, does not count.
pub fn reports_missing_dataset(stderr: &str, name: &str) -> (r: bool)
    ensures
        r == says_missing(stderr@, name@),
{
    let expected = text::cat3("cannot open '", name, "': dataset does not exist");
    let lines = text::split_lines(stderr);
    let ghost v = text::lines(stderr@);
    assert(v.len() == lines.len());
    let mut i: usize = 0;
    while i < lines.len()
        invariant
            i <= lines.len(),
            v == text::lines(stderr@),
            v == text::views(lines@),
            expected@ == missing_line(name@),
            forall|j: int| 0 <= j < i ==> text::trim(#[trigger] v[j]) != missing_line(name@),
        decreases lines.len() - i,
    {
        assert(v[i as int] == lines@[i as int]@);
        let t = text::trimmed(lines[i].as_str());
        if text::same(t.as_str(), expected.as_str()) {
            assert(text::trim(v[i as int]) == missing_line(name@));
            return true;
        }
        i += 1;
    }
    false
}

/// What a destruction came to, where something that is gone already counts as
/// success.
///
/// It is gone only where ZFS said so of that very name, and a look afterwards
/// found nothing. A look that could not be taken counts as having found it.
pub fn tolerate_missing(name: &str, result: Result<(), Error>, still_present: bool) -> (r: Result<
    DestroyOutcome,
    Error,
>)
    ensures
        match result {
            Ok(_) => r == Ok::<DestroyOutcome, Error>(DestroyOutcome::Destroyed),
            Err(e) => if (e matches Error::Command { command, exit_code, stderr } && says_missing(
                stderr@,
                name@,
            )) && !still_present {
                r == Ok::<DestroyOutcome, Error>(DestroyOutcome::AlreadyAbsent)
            } else {
                r == Err::<DestroyOutcome, Error>(e)
            },
        },
{
    match result {
        Ok(_) => Ok(DestroyOutcome::Destroyed),
        Err(e) => {
            let absent = match &e {
                Error::Command { command: _, exit_code: _, stderr } => reports_missing_dataset(
                    stderr.as_str(),
                    name,
                ) && !still_present,
                _ => false,
            };
            if absent {
                Ok(DestroyOutcome::AlreadyAbsent)
            } else {
                Err(e)
            }
        },
    }
}

/// No failure is passed over unless the target is gone.
pub proof fn law_only_absence_is_tolerated(
    name: Seq<char>,
    e: Error,
    still_present: bool,
    r: Result<DestroyOutcome, Error>,
)
    requires
        if (e matches Error::Command { command, exit_code, stderr } && says_missing(stderr@, name))
            && !still_present {
            r == Ok::<DestroyOutcome, Error>(DestroyOutcome::AlreadyAbsent)
        } else {
            r == Err::<DestroyOutcome, Error>(e)
        },
    ensures
        r is Ok ==> !still_present,
        still_present ==> r == Err::<DestroyOutcome, Error>(e),
        e is CommandExec ==> r == Err::<DestroyOutcome, Error>(e),
{
}

/// How `zfs destroy` is run.
pub open spec fn destroy_args(name: Seq<char>, recursive: bool, dependents: bool) -> Seq<Seq<char>> {
    if dependents {
        seq!["destroy"@, "-R"@, name]
    } else if recursive {
        seq!["destroy"@, "-r"@, name]
    } else {
        seq!["destroy"@, name]
    }
}

/// Destroys a dataset, volume or snapshot; with its children and snapshots where
/// `recursive`, and with everything cloned from it where `force_dependents`.
pub fn destroy(name: &str, recursive: bool, force_dependents: bool) -> (r: Cmd)
    ensures
        r@ == command::cmd(
            "zfs"@,
            destroy_args(name@, recursive, force_dependents),
            "zfs destroy"@,
            "zfs destroy"@,
        ),
        deeds::zfs(r@) == Some((if force_dependents { Deed::DestroyClones { name: name@ } } else if recursive { Deed::DestroyTree { name: name@ } } else { Deed::DestroyOne { name: name@ } })),
{
    proof {
        deeds::lemma_zfs();
    }
    if force_dependents {
        let r = command::command("zfs", &["destroy", "-R", name], "zfs destroy", "zfs destroy");
        assert(r@.args =~= seq!["destroy"@, "-R"@, name@]);
        r
    } else if recursive {
        let r = command::command("zfs", &["destroy", "-r", name], "zfs destroy", "zfs destroy");
        assert(r@.args =~= seq!["destroy"@, "-r"@, name@]);
        r
    } else {
        let r = command::command("zfs", &["destroy", name], "zfs destroy", "zfs destroy");
        assert(r@.args =~= seq!["destroy"@, name@]);
        r
    }
}

/// A number in a listing, or what to say where it is none.
pub open spec fn number_in(s: Seq<char>, field: Seq<char>) -> Result<u64, Seq<char>> {
    match text::parse_uint(text::trim(s), u64::MAX as nat) {
        Ok(n) => Ok(n as u64),
        Err(_) => Err("cannot parse "@ + field + " value: "@ + s),
    }
}

/// Reads a number in a listing.
pub fn parse_u64(s: &str, field: &str) -> (r: Result<u64, Error>)
    ensures
        match r {
            Ok(n) => number_in(s@, field@) == Ok::<u64, Seq<char>>(n),
            Err(e) => number_in(s@, field@) is Err && error::is_zfs(
                e,
                number_in(s@, field@)->Err_0,
            ),
        },
{
    let t = text::trimmed(s);
    match text::parse_uint_str(t.as_str(), u64::MAX) {
        Ok(n) => Ok(n),
        Err(_) => Err(Error::Zfs(text::cat4("cannot parse ", field, " value: ", s))),
    }
}

} // verus!
