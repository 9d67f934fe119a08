//! Configuration of an installation and of its VMs.
pub mod vm;

use crate::text;
use vstd::prelude::*;

verus! {

/// Where VM disks are kept.
#[derive(Clone, Copy, Debug, PartialEq, Eq, Structural)]
pub enum StorageKind {
    Zfs,
    DmThin,
    Btrfs,
}

/// What backs a dm-thin pool.
#[derive(Clone, Copy, Debug, PartialEq, Eq, Structural)]
pub enum DmThinMode {
    /// Two files in a directory.
    File,
    /// A block device for the data, a file for the metadata.
    RawDevice,
}

/// A size in bytes.
#[derive(Clone, Copy, Debug, PartialEq, Eq, Structural)]
pub struct ByteSize {
    pub count: u64,
}

impl ByteSize {
    pub fn bytes(self) -> (r: u64)
        ensures
            r == self.count,
    {
        self.count
    }
}

/// Configuration of an installation.
#[derive(Clone, Debug, PartialEq)]
pub struct GlobalConfig {
    pub storage_backend: StorageKind,
    pub state_dir: String,
    /// Namespace of the installation; empty where it predates namespaces.
    pub instance_id: String,
    pub pool: String,
    pub dataset: String,
    pub storage_path: Option<String>,
    pub dm_thin_mode: Option<DmThinMode>,
    pub dm_thin_block_size: Option<u32>,
    pub wan_iface: Option<String>,
    /// Subnet for the addresses of VMs.
    pub ip_subnet: String,
}

/// Namespace of an installation, if it has one.
pub open spec fn namespace_of(instance_id: Seq<char>) -> Option<Seq<char>> {
    if instance_id.len() == 0 {
        None
    } else {
        Some(instance_id)
    }
}

/// The contents of an optional string slice.
pub open spec fn opt_str(s: Option<&str>) -> Option<Seq<char>> {
    match s {
        Some(t) => Some(t@),
        None => None,
    }
}

impl GlobalConfig {
    /// Namespace of the installation; `None` where it predates namespaces.
    pub fn instance_namespace(&self) -> (r: Option<&str>)
        ensures
            opt_str(r) == namespace_of(self.instance_id@),
    {
        if self.instance_id.as_str().is_empty() {
            None
        } else {
            Some(self.instance_id.as_str())
        }
    }

    pub open spec fn images_text(self) -> Seq<char> {
        self.pool@ + "/"@ + self.dataset@ + "/images"@
    }

    /// Dataset of the image volumes.
    pub fn images_dataset(&self) -> (r: String)
        ensures
            r@ == self.images_text(),
    {
        text::cat4(self.pool.as_str(), "/", self.dataset.as_str(), "/images")
    }

    pub open spec fn vms_text(self) -> Seq<char> {
        self.pool@ + "/"@ + self.dataset@ + "/vms"@
    }

    /// Dataset of the VM volumes.
    pub fn vms_dataset(&self) -> (r: String)
        ensures
            r@ == self.vms_text(),
    {
        text::cat4(self.pool.as_str(), "/", self.dataset.as_str(), "/vms")
    }
}

} // verus!
