//! Loop devices.
use crate::command;
use crate::command::Cmd;
use crate::deeds;
use crate::deeds::Deed;
use crate::dm_thin::pool;
use crate::error::Error;
use crate::text;
use vstd::prelude::*;

verus! {

/// Attaches a file to the next free loop device, and prints which one.
pub fn attach(file: &str) -> (r: Cmd)
    ensures
        r@ == command::cmd("losetup"@, seq!["-f"@, "--show"@, file@], "losetup"@, "losetup -f --show"@),
        deeds::losetup(r@) == Some(Deed::Attach { file: file@ }),
{
    proof {
        deeds::lemma_losetup();
    }
    let r = command::command("losetup", &["-f", "--show", file], "losetup", "losetup -f --show");
    assert(r@.args =~= seq!["-f"@, "--show"@, file@]);
    r
}

/// The device in the answer to [`attach`].
pub fn attached(file: &str, stdout: &str) -> (r: Result<String, Error>)
    ensures
        match r {
            Ok(p) => p@ == text::trim(stdout@) && p@.len() > 0,
            Err(e) => text::trim(stdout@).len() == 0 && pool::is_complaint(
                e,
                "losetup -f --show"@,
                "expected a loop device path on stdout, got empty output for "@ + file@,
            ),
        },
{
    let p = text::trimmed(stdout);
    if p.as_str().is_empty() {
        return Err(
            Error::Command {
                command: "losetup -f --show".to_owned(),
                exit_code: 0,
                stderr: text::cat2(
                    "expected a loop device path on stdout, got empty output for ",
                    file,
                ),
            },
        );
    }
    Ok(p)
}

/// Detaches a loop device.
pub fn detach(loop_dev: &str) -> (r: Cmd)
    ensures
        r@ == command::cmd("losetup"@, seq!["-d"@, loop_dev@], "losetup -d"@, "losetup -d"@),
        deeds::losetup(r@) == Some(Deed::Detach { device: loop_dev@ }),
{
    proof {
        deeds::lemma_losetup();
    }
    let r = command::command("losetup", &["-d", loop_dev], "losetup -d", "losetup -d");
    assert(r@.args =~= seq!["-d"@, loop_dev@]);
    r
}

/// Makes a loop device see the size that its file has now.
pub fn refresh_size(loop_dev: &str) -> (r: Cmd)
    ensures
        r@ == command::cmd("losetup"@, seq!["-c"@, loop_dev@], "losetup -c"@, "losetup -c"@),
        deeds::losetup(r@) == Some(Deed::Refresh { device: loop_dev@ }),
{
    proof {
        deeds::lemma_losetup();
    }
    let r = command::command("losetup", &["-c", loop_dev], "losetup -c", "losetup -c");
    assert(r@.args =~= seq!["-c"@, loop_dev@]);
    r
}

/// Lists the loop devices of a file.
pub fn find_for(file: &str) -> (r: Cmd)
    ensures
        r@ == command::cmd("losetup"@, seq!["-j"@, file@], "losetup -j"@, "losetup -j"@),
        deeds::losetup(r@) == Some(Deed::FindLoop { file: file@ }),
{
    proof {
        deeds::lemma_losetup();
    }
    let r = command::command("losetup", &["-j", file], "losetup -j", "losetup -j");
    assert(r@.args =~= seq!["-j"@, file@]);
    r
}

/// The device that the first line of a listing starts with: what stands before
/// its first colon.
pub open spec fn first_device(listing: Seq<char>) -> Option<Seq<char>> {
    let l = text::lines(listing);
    if l.len() == 0 {
        None
    } else {
        match text::halves(l[0], ':') {
            None => None,
            Some((name, _)) => if text::trim(name).len() == 0 {
                None
            } else {
                Some(text::trim(name))
            },
        }
    }
}

/// The device in the answer to [`find_for`], if there is one.
pub fn parse_found(listing: &str) -> (r: Option<String>)
    ensures
        match r {
            Some(d) => first_device(listing@) == Some(d@),
            None => first_device(listing@) is None,
        },
{
    let l = text::split_lines(listing);
    assert(text::views(l@).len() == l.len());
    if l.len() == 0 {
        return None;
    }
    assert(text::views(l@)[0] == l@[0]@);
    match text::split_once(l[0].as_str(), ':') {
        None => None,
        Some((name, _)) => {
            let t = text::trimmed(name.as_str());
            if t.as_str().is_empty() {
                None
            } else {
                Some(t)
            }
        },
    }
}

} // verus!
