//! Per-VM configuration, as a file may give it. Every field is optional: what is
//! there overrides the defaults, and command line flags override it in turn.
use crate::config::ByteSize;
use crate::kernel::KernelSpec;
use vstd::prelude::*;

verus! {

/// Per-VM configuration.
#[derive(Clone, Debug, PartialEq)]
pub struct VmConfig {
    pub name: Option<String>,
    /// Base image reference.
    pub image: Option<String>,
    /// Number of vCPUs.
    pub cpus: Option<u32>,
    pub memory: Option<ByteSize>,
    pub disk_size: Option<ByteSize>,
    /// Kernel preset or path.
    pub kernel: Option<KernelSpec>,
    pub network: Option<VmNetworkConfig>,
    pub ssh: Option<VmSshConfig>,
    /// Boot arguments for the kernel.
    pub boot_args: Option<String>,
    /// Whether the VM gets a vsock device.
    pub vsock: Option<bool>,
}

impl Default for VmConfig {
    /// What a file that says nothing gives.
    fn default() -> (r: Self)
        ensures
            r.name is None,
            r.image is None,
            r.cpus is None,
            r.memory is None,
            r.disk_size is None,
            r.kernel is None,
            r.network is None,
            r.ssh is None,
            r.boot_args is None,
            r.vsock is None,
    {
        VmConfig {
            name: None,
            image: None,
            cpus: None,
            memory: None,
            disk_size: None,
            kernel: None,
            network: None,
            ssh: None,
            boot_args: None,
            vsock: None,
        }
    }
}

/// Network configuration of a VM.
#[derive(Clone, Debug, PartialEq)]
pub struct VmNetworkConfig {
    /// Subnet for IP allocation.
    pub subnet: Option<String>,
    /// Egress policy; none where absent.
    pub egress: Option<VmEgressConfig>,
}

/// Egress policy of a VM.
#[derive(Clone, Debug, PartialEq, Eq)]
pub struct VmEgressConfig {
    /// Allowed destinations: host names, CIDR subnets or IPv4 addresses.
    pub allow: Vec<String>,
    /// Whether everything that `allow` does not match is dropped.
    pub deny_all_other: bool,
}

impl Default for VmEgressConfig {
    fn default() -> (r: Self)
        ensures
            r.allow@ == Seq::<String>::empty(),
            !r.deny_all_other,
    {
        VmEgressConfig { allow: Vec::new(), deny_all_other: false }
    }
}

impl VmEgressConfig {
    /// True if the policy neither allows nor denies anything, which is as good as
    /// no policy.
    pub fn is_empty(&self) -> (r: bool)
        ensures
            r == (self.allow@.len() == 0 && !self.deny_all_other),
    {
        self.allow.len() == 0 && !self.deny_all_other
    }
}

/// SSH configuration of a VM.
#[derive(Clone, Debug, PartialEq)]
pub struct VmSshConfig {
    /// User to connect as.
    pub user: Option<String>,
    /// Path to the private key.
    pub key: Option<String>,
}

} // verus!
