//! The allocator state database.
use crate::paths;
use vstd::prelude::*;

verus! {

/// How long to wait for a lock on the database, in seconds.
pub const BUSY_TIMEOUT_SECS: u64 = 5;

/// Tables of the database. Safe to run on every open: both tables are created
/// only where they are missing. A slot of a subnet, a CID and a VM name can each
/// be recorded once.
pub const SCHEMA: &'static str =
    "
CREATE TABLE IF NOT EXISTS network_allocations (
    block_index    INTEGER NOT NULL,
    subnet         TEXT    NOT NULL,
    vm_name        TEXT    NOT NULL UNIQUE,
    single_address INTEGER NOT NULL DEFAULT 0,
    PRIMARY KEY (subnet, block_index)
) STRICT;

CREATE TABLE IF NOT EXISTS vsock_allocations (
    cid     INTEGER NOT NULL PRIMARY KEY,
    vm_name TEXT    NOT NULL UNIQUE
) STRICT;
";

/// Path to the allocator state database within a state directory.
pub fn db_path(root: &str) -> (r: String)
    ensures
        r@ == paths::joined(root@, "state.db"@),
{
    paths::join(root, "state.db")
}

} // verus!
