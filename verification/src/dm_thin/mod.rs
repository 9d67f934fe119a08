//! Device-mapper thin provisioning.
//!
//! A pool aggregates a metadata device and a data device and holds thin volumes,
//! addressed by number. A snapshot of a thin volume is another thin volume that
//! shares its blocks until they diverge.
pub mod laws;
pub mod loop_device;
pub mod pool;
pub mod storage;
pub mod thin;
pub mod tools;

use crate::command;
use crate::command::{Cmd, Outcome};
use crate::deeds;
use crate::deeds::Deed;
use crate::error::Error;
use crate::text;
use vstd::prelude::*;

verus! {

/// Sectors are always 512 bytes on Linux block devices.
pub const SECTOR_SIZE: u64 = 512;

/// Converts bytes to sectors, rounding up.
pub fn bytes_to_sectors(bytes: u64) -> (r: u64)
    ensures
        r == (bytes + 511) / 512,
{
    if bytes % 512 == 0 {
        bytes / 512
    } else {
        bytes / 512 + 1
    }
}

/// The sectors that [`bytes_to_sectors`] reports are the fewest that hold the
/// bytes.
pub proof fn law_sectors_hold_the_bytes(bytes: u64, r: u64)
    requires
        r == (bytes + 511) / 512,
    ensures
        r * 512 >= bytes,
        (r - 1) * 512 < bytes,
{
}

/// The text that the standard form for debugging gives a string: between quotes,
/// with special characters escaped.
pub uninterp spec fn debug_text(s: Seq<char>) -> Seq<char>;

/// `str` formatted with `{:?}` is put between quotes, with special characters
/// escaped. The result is named, not spelled out.
#[verifier::external_body]
pub(crate) fn debug_str(s: &str) -> (r: String)
    ensures
        r@ == debug_text(s@),
{
    format!("{s:?}")
}

/// Asks whether a device-mapper device of that name is active.
pub fn dm_device_exists(name: &str) -> (r: Cmd)
    ensures
        r@ == command::cmd("dmsetup"@, seq!["info"@, "--noheadings"@, name@], "dmsetup info"@, "dmsetup info"@),
        deeds::dmsetup(r@) == Some(Deed::Look { name: name@ }),
{
    proof {
        deeds::lemma_dmsetup();
    }
    let r = command::command("dmsetup", &["info", "--noheadings", name], "dmsetup info", "dmsetup info");
    assert(r@.args =~= seq!["info"@, "--noheadings"@, name@]);
    r
}

/// Whether the device that [`dm_device_exists`] asked about is active.
pub fn device_found(c: &Cmd, o: Outcome) -> (r: Result<bool, Error>)
    ensures
        match o {
            Outcome::NotSpawned(_) => r is Err && command::is_error_of(r->Err_0, c@, o),
            Outcome::Exited(out) => r == Ok::<bool, Error>(out.success()),
        },
{
    match o {
        Outcome::NotSpawned(why) => Err(
            Error::CommandExec { command: c.spawn_label.clone(), source: why },
        ),
        Outcome::Exited(out) => Ok(out.succeeded()),
    }
}

/// Whether an error says that a thin id is taken: a failed command that printed
/// `File exists`.
pub open spec fn says_exists(e: Error) -> bool {
    e matches Error::Command { command, exit_code, stderr } && text::contains_text(
        stderr@,
        "File exists"@,
    )
}

/// Whether an error says that a thin id is taken.
pub fn is_already_exists(err: &Error) -> (r: bool)
    ensures
        r == says_exists(*err),
{
    match err {
        Error::Command { command: _, exit_code: _, stderr } => text::contains(
            stderr.as_str(),
            "File exists",
        ),
        _ => false,
    }
}

} // verus!
