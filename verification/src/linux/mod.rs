//! VMs on a Linux host.
pub mod laws;
pub mod platform;
pub mod reconcile;
pub mod vm;
pub mod vsock;

use crate::config::{GlobalConfig, StorageKind};
use crate::dm_thin::storage::DmThinStorage;
use crate::error;
use crate::error::Error;
use crate::zfs::storage::LinuxStorage;
use vstd::prelude::*;

verus! {

/// The storage of an installation.
#[derive(Debug, PartialEq)]
pub enum Storage {
    Zfs(LinuxStorage),
    DmThin(DmThinStorage),
}

/// The storage that a configuration describes. There is none for btrfs.
pub fn create_storage(config: &GlobalConfig, path_is_dir: bool, path_found: bool) -> (r: Storage)
    requires
        config.storage_backend != StorageKind::Btrfs,
    ensures
        match config.storage_backend {
            StorageKind::Zfs => r matches Storage::Zfs(s) && s.pool@ == config.pool@
                && s.images_dataset@ == config.images_text() && s.vms_dataset@ == config.vms_text(),
            _ => r matches Storage::DmThin(s) && s.described(*config, path_is_dir, path_found),
        },
{
    match config.storage_backend {
        StorageKind::Zfs => Storage::Zfs(LinuxStorage::new(config)),
        _ => Storage::DmThin(DmThinStorage::new(config, path_is_dir, path_found)),
    }
}

/// The storage to set up.
#[derive(Clone, Copy, Debug, PartialEq, Eq, Structural)]
pub enum InitKind {
    Zfs,
    DmThin,
}

/// The storage to set up; btrfs is refused.
pub fn init_storage(kind: StorageKind) -> (r: Result<InitKind, Error>)
    ensures
        match kind {
            StorageKind::Zfs => r == Ok::<InitKind, Error>(InitKind::Zfs),
            StorageKind::DmThin => r == Ok::<InitKind, Error>(InitKind::DmThin),
            StorageKind::Btrfs => r is Err && error::is_config(
                r->Err_0,
                "btrfs storage backend is not yet implemented"@,
            ),
        },
{
    match kind {
        StorageKind::Zfs => Ok(InitKind::Zfs),
        StorageKind::DmThin => Ok(InitKind::DmThin),
        StorageKind::Btrfs => Err(
            Error::Config("btrfs storage backend is not yet implemented".to_owned()),
        ),
    }
}

} // verus!
