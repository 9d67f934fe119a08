//! VMs on a macOS host.
pub mod laws;
pub mod network;
pub mod platform;
pub mod storage;
pub mod vm;

use crate::backend::InitConfig;
use crate::config::GlobalConfig;
use crate::macos::storage::MacosStorage;
use crate::paths;
use crate::text;
use vstd::prelude::*;

verus! {

/// The storage that a configuration describes.
pub fn create_storage(config: &GlobalConfig) -> (r: MacosStorage)
    ensures
        r.state_dir@ == config.state_dir@,
{
    MacosStorage::new(config)
}

/// The directories of a new installation.
pub fn init_storage(config: &InitConfig) -> (r: Vec<String>)
    ensures
        text::views(r@) == seq![
            paths::joined(paths::joined(config.state_dir@, "images"@), "data"@),
            paths::joined(config.state_dir@, "vms"@),
            paths::joined(config.state_dir@, "kernels"@),
            paths::joined(config.state_dir@, "network"@),
        ],
{
    MacosStorage::init(config)
}

} // verus!
