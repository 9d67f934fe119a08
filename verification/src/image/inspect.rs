//! What an unpacked root file system holds.
use crate::paths;
use crate::text;
use vstd::prelude::*;

verus! {

/// Where an SSH server can be, below the root.
pub open spec fn ssh_server_paths() -> Seq<Seq<char>> {
    seq!["usr/sbin/sshd"@, "usr/bin/sshd"@, "usr/sbin/dropbear"@, "usr/bin/dropbear"@]
}

/// The paths to look at, below the given root.
pub fn ssh_server_candidates(rootfs_dir: &str) -> (r: Vec<String>)
    ensures
        text::views(r@) == Seq::new(4, |i: int| paths::joined(rootfs_dir@, ssh_server_paths()[i])),
{
    let mut r: Vec<String> = Vec::new();
    r.push(paths::join(rootfs_dir, "usr/sbin/sshd"));
    r.push(paths::join(rootfs_dir, "usr/bin/sshd"));
    r.push(paths::join(rootfs_dir, "usr/sbin/dropbear"));
    r.push(paths::join(rootfs_dir, "usr/bin/dropbear"));
    assert(text::views(r@) =~= Seq::new(
        4,
        |i: int| paths::joined(rootfs_dir@, ssh_server_paths()[i]),
    ));
    r
}

/// Whether the root file system holds an SSH server, given which of the
/// candidates are there.
pub fn rootfs_has_ssh_server(found: &[bool]) -> (r: bool)
    ensures
        r == found@.contains(true),
{
    let mut i: usize = 0;
    while i < found.len()
        invariant
            i <= found.len(),
            forall|j: int| 0 <= j < i ==> !found@[j],
        decreases found.len() - i,
    {
        if found[i] {
            assert(found@[i as int]);
            return true;
        }
        i += 1;
    }
    false
}

} // verus!
