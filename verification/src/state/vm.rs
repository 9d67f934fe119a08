//! What is recorded about a VM.
use crate::config::vm::VmEgressConfig;
use vstd::prelude::*;

verus! {

/// Where a VM is in its life.
#[derive(Clone, Copy, Debug, PartialEq, Eq, Structural)]
pub enum VmStatus {
    Creating,
    Running,
    Paused,
    Stopped,
}

impl VmStatus {
    pub open spec fn text(self) -> Seq<char> {
        match self {
            VmStatus::Creating => "creating"@,
            VmStatus::Running => "running"@,
            VmStatus::Paused => "paused"@,
            VmStatus::Stopped => "stopped"@,
        }
    }

    /// The word for the status.
    pub fn name(self) -> (r: &'static str)
        ensures
            r@ == self.text(),
    {
        match self {
            VmStatus::Creating => "creating",
            VmStatus::Running => "running",
            VmStatus::Paused => "paused",
            VmStatus::Stopped => "stopped",
        }
    }
}

/// Network of a VM.
#[derive(Clone, Debug, PartialEq, Eq)]
pub struct NetworkInfo {
    pub tap_device: String,
    pub host_ip: String,
    pub guest_ip: String,
    pub netmask: String,
    pub guest_mac: Option<String>,
    pub wan_iface: Option<String>,
}

/// Vsock device of a VM.
#[derive(Clone, Debug, PartialEq, Eq)]
pub struct VsockInfo {
    pub uds_path: String,
    pub guest_cid: u32,
}

/// What is recorded about a VM.
#[derive(Clone, Debug, PartialEq)]
pub struct VmMetadata {
    pub name: String,
    /// Unique id of the VM.
    pub id: u128,
    pub status: VmStatus,
    pub pid: Option<u32>,
    pub network: Option<NetworkInfo>,
    pub disk_path: String,
    pub disk_size_gib: u32,
    /// Id of the VM's volume in the dm-thin pool.
    pub thin_id: Option<u64>,
    pub api_socket: String,
    pub subnet: Option<String>,
    pub egress: Option<VmEgressConfig>,
    pub vsock: Option<VsockInfo>,
    pub kernel_path: String,
    pub boot_args: Option<String>,
    pub cpus: u32,
    pub memory_mib: u32,
    pub ssh_user: String,
    pub ssh_key: Option<String>,
}

} // verus!
