//! Firecracker processes.
use crate::error::Error;
use crate::plan;
use crate::plan::{Plan, Reply};
use crate::state::vm::{NetworkInfo, VmMetadata};
use crate::text;
use vstd::prelude::*;

verus! {

/// The VM backend of a Linux host.
#[derive(Clone, Copy, Debug, PartialEq, Eq)]
pub struct LinuxVm;

/// Name of the log of a Firecracker process, beside its API socket.
pub const LOG_NAME: &'static str = "firecracker.log";

/// How long a VM has to shut down before it is killed, in milliseconds.
pub const GRACEFUL_SHUTDOWN_TIMEOUT_MS: u64 = 10_000;

/// How long to wait for a killed process, in milliseconds.
pub const FORCE_KILL_TIMEOUT_MS: u64 = 5000;

/// Starting a VM.
#[derive(Clone, Copy, Debug, PartialEq, Eq, Structural)]
pub enum Start {
    /// See that the VM has a network.
    RequireNetwork,
    /// Make sure that its disk is active.
    OpenDisk,
    /// Ask whether an earlier run left the API socket.
    AskSocket,
    /// Remove it.
    RemoveSocket,
    /// Ask whether an earlier run left the vsock socket.
    AskVsockSocket,
    /// Remove it.
    RemoveVsockSocket,
    /// Start the process.
    Spawn,
    /// Wait for its API socket.
    WaitSocket,
    /// Get ready to talk to it.
    MakeRuntime,
    /// Configure the VM and boot it.
    Configure,
    /// See whether the VM has a vsock device.
    AskVsock,
    /// Give the user access to its socket.
    Secure,
    /// Kill the process after a failure.
    Kill,
    /// The VM runs.
    Started,
    /// It does not.
    Failed,
}

impl Plan for Start {
    open spec fn next(self, r: Reply) -> Self {
        match self {
            Start::RequireNetwork => match r {
                Reply::Error => Start::Failed,
                _ => Start::OpenDisk,
            },
            Start::OpenDisk => match r {
                Reply::Error => Start::Failed,
                _ => Start::AskSocket,
            },
            Start::AskSocket => match r {
                Reply::Yes => Start::RemoveSocket,
                Reply::No => Start::AskVsockSocket,
                Reply::Error => Start::Failed,
            },
            Start::RemoveSocket => match r {
                Reply::Error => Start::Failed,
                _ => Start::AskVsockSocket,
            },
            Start::AskVsockSocket => match r {
                Reply::Yes => Start::RemoveVsockSocket,
                Reply::No => Start::Spawn,
                Reply::Error => Start::Failed,
            },
            Start::RemoveVsockSocket => match r {
                Reply::Error => Start::Failed,
                _ => Start::Spawn,
            },
            Start::Spawn => match r {
                Reply::Error => Start::Failed,
                _ => Start::WaitSocket,
            },
            Start::WaitSocket => match r {
                Reply::Error => Start::Kill,
                _ => Start::MakeRuntime,
            },
            Start::MakeRuntime => match r {
                Reply::Error => Start::Kill,
                _ => Start::Configure,
            },
            Start::Configure => match r {
                Reply::Error => Start::Kill,
                _ => Start::AskVsock,
            },
            Start::AskVsock => match r {
                Reply::Yes => Start::Secure,
                _ => Start::Started,
            },
            Start::Secure => Start::Started,
            Start::Kill => Start::Failed,
            Start::Started => Start::Started,
            Start::Failed => Start::Failed,
        }
    }

    open spec fn lenient(self) -> bool {
        self == Start::AskVsock || self == Start::Secure || self == Start::Kill
    }

    open spec fn ended(self) -> bool {
        self == Start::Started || self == Start::Failed
    }

    open spec fn doomed(self) -> bool {
        self == Start::Kill || self == Start::Failed
    }

    open spec fn left(self) -> nat {
        match self {
            Start::RequireNetwork => 12,
            Start::OpenDisk => 11,
            Start::AskSocket => 10,
            Start::RemoveSocket => 9,
            Start::AskVsockSocket => 8,
            Start::RemoveVsockSocket => 7,
            Start::Spawn => 6,
            Start::WaitSocket => 5,
            Start::MakeRuntime => 4,
            Start::Configure => 3,
            Start::AskVsock => 2,
            Start::Secure => 1,
            Start::Kill => 1,
            _ => 0,
        }
    }

    fn step(self, r: Reply) -> (p: Self) {
        match self {
            Start::RequireNetwork => match r {
                Reply::Error => Start::Failed,
                _ => Start::OpenDisk,
            },
            Start::OpenDisk => match r {
                Reply::Error => Start::Failed,
                _ => Start::AskSocket,
            },
            Start::AskSocket => match r {
                Reply::Yes => Start::RemoveSocket,
                Reply::No => Start::AskVsockSocket,
                Reply::Error => Start::Failed,
            },
            Start::RemoveSocket => match r {
                Reply::Error => Start::Failed,
                _ => Start::AskVsockSocket,
            },
            Start::AskVsockSocket => match r {
                Reply::Yes => Start::RemoveVsockSocket,
                Reply::No => Start::Spawn,
                Reply::Error => Start::Failed,
            },
            Start::RemoveVsockSocket => match r {
                Reply::Error => Start::Failed,
                _ => Start::Spawn,
            },
            Start::Spawn => match r {
                Reply::Error => Start::Failed,
                _ => Start::WaitSocket,
            },
            Start::WaitSocket => match r {
                Reply::Error => Start::Kill,
                _ => Start::MakeRuntime,
            },
            Start::MakeRuntime => match r {
                Reply::Error => Start::Kill,
                _ => Start::Configure,
            },
            Start::Configure => match r {
                Reply::Error => Start::Kill,
                _ => Start::AskVsock,
            },
            Start::AskVsock => match r {
                Reply::Yes => Start::Secure,
                _ => Start::Started,
            },
            Start::Secure => Start::Started,
            Start::Kill => Start::Failed,
            Start::Started => Start::Started,
            Start::Failed => Start::Failed,
        }
    }

    fn is_lenient(self) -> (b: bool) {
        match self {
            Start::AskVsock | Start::Secure | Start::Kill => true,
            _ => false,
        }
    }

    proof fn lemma_ends(self, r: Reply) {
    }
}

/// A process that was started and does not come up is killed, and one that is up was
/// configured; the sockets of an earlier run are gone before a new process starts;
/// and the vsock socket is secured only once the VM has booted. A failure of that is
/// no failure of the start.
pub proof fn law_failed_start_is_killed(replies: Seq<Reply>)
    ensures
        ({
            let p = Start::RequireNetwork;
            let end = plan::reached(p, replies);
            &&& end == Start::Failed && plan::manages(p, replies, Start::Spawn)
                ==> plan::does(p, replies, Start::Kill)
            &&& end == Start::Started ==> plan::manages(p, replies, Start::Configure)
            &&& plan::does(p, replies, Start::Spawn)
                ==> plan::gets(p, replies, Start::AskSocket, Reply::No)
                || plan::manages(p, replies, Start::RemoveSocket)
            &&& plan::does(p, replies, Start::Spawn)
                ==> plan::gets(p, replies, Start::AskVsockSocket, Reply::No)
                || plan::manages(p, replies, Start::RemoveVsockSocket)
            &&& plan::does(p, replies, Start::Secure)
                ==> plan::manages(p, replies, Start::Configure)
            &&& plan::does(p, replies, Start::Secure) ==> end == Start::Started
        }),
{
    let p = Start::RequireNetwork;
    plan::lemma_way_out(
        p,
        replies,
        plan::managing(Start::Spawn),
        |x: Start|
            x == Start::WaitSocket || x == Start::MakeRuntime || x == Start::Configure
                || x == Start::AskVsock || x == Start::Secure || x == Start::Kill
                || x == Start::Started,
        plan::doing(Start::Kill),
    );
    plan::lemma_way_in(
        p,
        replies,
        |x: Start| x == Start::AskVsock || x == Start::Secure || x == Start::Started,
        plan::managing(Start::Configure),
    );
    plan::lemma_way_in(
        p,
        replies,
        |x: Start|
            x != Start::RequireNetwork && x != Start::OpenDisk && x != Start::AskSocket
                && x != Start::RemoveSocket && x != Start::Failed,
        plan::either(plan::getting(Start::AskSocket, Reply::No), plan::managing(Start::RemoveSocket)),
    );
    plan::lemma_either(
        p,
        replies,
        plan::getting(Start::AskSocket, Reply::No),
        plan::managing(Start::RemoveSocket),
    );
    plan::lemma_way_in(
        p,
        replies,
        |x: Start|
            x == Start::Spawn || x == Start::WaitSocket || x == Start::MakeRuntime
                || x == Start::Configure || x == Start::AskVsock || x == Start::Secure
                || x == Start::Kill || x == Start::Started,
        plan::either(plan::getting(Start::AskVsockSocket, Reply::No), plan::managing(Start::RemoveVsockSocket)),
    );
    plan::lemma_either(
        p,
        replies,
        plan::getting(Start::AskVsockSocket, Reply::No),
        plan::managing(Start::RemoveVsockSocket),
    );
    plan::lemma_way_in(
        p,
        replies,
        |x: Start| x == Start::AskVsock || x == Start::Secure || x == Start::Started,
        plan::managing(Start::Configure),
    );
    plan::lemma_stays(p, replies, plan::doing(Start::Secure), |x: Start| x == Start::Started);
}

/// Stopping a VM: it is asked to shut down, and killed where it does not.
#[derive(Clone, Copy, Debug, PartialEq, Eq, Structural)]
pub enum Stop {
    /// See that the VM has a process.
    RequirePid,
    /// Ask whether it is alive.
    AskAlive,
    /// Get ready to talk to it.
    MakeRuntime,
    /// Ask it to reboot over SSH; no where that could not be sent.
    SshReboot,
    /// Press its keys instead.
    CtrlAltDel,
    /// Wait for it to exit; no where it does not.
    WaitExit,
    /// Kill it.
    Kill,
    /// Wait for it to be gone.
    WaitKilled,
    /// Remove its API socket.
    RemoveSocket,
    /// The VM is stopped.
    Stopped,
    /// It may not be.
    Failed,
}

impl Plan for Stop {
    open spec fn next(self, r: Reply) -> Self {
        match self {
            Stop::RequirePid => match r {
                Reply::Error => Stop::Failed,
                _ => Stop::AskAlive,
            },
            Stop::AskAlive => match r {
                Reply::Yes => Stop::MakeRuntime,
                Reply::No => Stop::RemoveSocket,
                Reply::Error => Stop::Failed,
            },
            Stop::MakeRuntime => match r {
                Reply::Error => Stop::Failed,
                _ => Stop::SshReboot,
            },
            Stop::SshReboot => match r {
                Reply::Yes => Stop::WaitExit,
                _ => Stop::CtrlAltDel,
            },
            Stop::CtrlAltDel => Stop::WaitExit,
            Stop::WaitExit => match r {
                Reply::Yes => Stop::RemoveSocket,
                _ => Stop::Kill,
            },
            Stop::Kill => match r {
                Reply::Error => Stop::Failed,
                _ => Stop::WaitKilled,
            },
            Stop::WaitKilled => Stop::RemoveSocket,
            Stop::RemoveSocket => Stop::Stopped,
            Stop::Stopped => Stop::Stopped,
            Stop::Failed => Stop::Failed,
        }
    }

    open spec fn lenient(self) -> bool {
        self == Stop::SshReboot || self == Stop::CtrlAltDel || self == Stop::WaitExit
            || self == Stop::WaitKilled || self == Stop::RemoveSocket
    }

    open spec fn ended(self) -> bool {
        self == Stop::Stopped || self == Stop::Failed
    }

    open spec fn doomed(self) -> bool {
        self == Stop::Failed
    }

    open spec fn left(self) -> nat {
        match self {
            Stop::RequirePid => 9,
            Stop::AskAlive => 8,
            Stop::MakeRuntime => 7,
            Stop::SshReboot => 6,
            Stop::CtrlAltDel => 5,
            Stop::WaitExit => 4,
            Stop::Kill => 3,
            Stop::WaitKilled => 2,
            Stop::RemoveSocket => 1,
            _ => 0,
        }
    }

    fn step(self, r: Reply) -> (p: Self) {
        match self {
            Stop::RequirePid => match r {
                Reply::Error => Stop::Failed,
                _ => Stop::AskAlive,
            },
            Stop::AskAlive => match r {
                Reply::Yes => Stop::MakeRuntime,
                Reply::No => Stop::RemoveSocket,
                Reply::Error => Stop::Failed,
            },
            Stop::MakeRuntime => match r {
                Reply::Error => Stop::Failed,
                _ => Stop::SshReboot,
            },
            Stop::SshReboot => match r {
                Reply::Yes => Stop::WaitExit,
                _ => Stop::CtrlAltDel,
            },
            Stop::CtrlAltDel => Stop::WaitExit,
            Stop::WaitExit => match r {
                Reply::Yes => Stop::RemoveSocket,
                _ => Stop::Kill,
            },
            Stop::Kill => match r {
                Reply::Error => Stop::Failed,
                _ => Stop::WaitKilled,
            },
            Stop::WaitKilled => Stop::RemoveSocket,
            Stop::RemoveSocket => Stop::Stopped,
            Stop::Stopped => Stop::Stopped,
            Stop::Failed => Stop::Failed,
        }
    }

    fn is_lenient(self) -> (b: bool) {
        match self {
            Stop::SshReboot | Stop::CtrlAltDel | Stop::WaitExit | Stop::WaitKilled
            | Stop::RemoveSocket => true,
            _ => false,
        }
    }

    proof fn lemma_ends(self, r: Reply) {
    }
}

/// A VM is killed only after it was asked to shut down and did not, and its socket is
/// removed whenever it is stopped.
pub proof fn law_stop_is_graceful_first(replies: Seq<Reply>)
    ensures
        ({
            let p = Stop::RequirePid;
            let end = plan::reached(p, replies);
            &&& plan::does(p, replies, Stop::Kill)
                ==> plan::gets(p, replies, Stop::SshReboot, Reply::Yes)
                || plan::does(p, replies, Stop::CtrlAltDel)
            &&& plan::does(p, replies, Stop::Kill)
                ==> plan::gets(p, replies, Stop::WaitExit, Reply::No)
                || plan::gets(p, replies, Stop::WaitExit, Reply::Error)
            &&& end == Stop::Stopped ==> plan::does(p, replies, Stop::RemoveSocket)
        }),
{
    let p = Stop::RequirePid;
    plan::lemma_way_in(
        p,
        replies,
        |x: Stop| x == Stop::WaitExit || x == Stop::Kill || x == Stop::WaitKilled,
        plan::either(plan::getting(Stop::SshReboot, Reply::Yes), plan::doing(Stop::CtrlAltDel)),
    );
    plan::lemma_either(
        p,
        replies,
        plan::getting(Stop::SshReboot, Reply::Yes),
        plan::doing(Stop::CtrlAltDel),
    );
    plan::lemma_way_in(
        p,
        replies,
        |x: Stop| x == Stop::Kill || x == Stop::WaitKilled,
        plan::either(plan::getting(Stop::WaitExit, Reply::No), plan::getting(Stop::WaitExit, Reply::Error)),
    );
    plan::lemma_either(
        p,
        replies,
        plan::getting(Stop::WaitExit, Reply::No),
        plan::getting(Stop::WaitExit, Reply::Error),
    );
    plan::lemma_way_in(p, replies, |x: Stop| x == Stop::Stopped, plan::doing(Stop::RemoveSocket));
}

/// Killing a VM.
#[derive(Clone, Copy, Debug, PartialEq, Eq, Structural)]
pub enum ForceStop {
    /// See that the VM has a process.
    RequirePid,
    /// Kill it.
    Kill,
    /// Wait for it to be gone.
    WaitKilled,
    /// Remove its API socket.
    RemoveSocket,
    /// The VM is stopped.
    Stopped,
    /// It may not be.
    Failed,
}

impl Plan for ForceStop {
    open spec fn next(self, r: Reply) -> Self {
        match self {
            ForceStop::RequirePid => match r {
                Reply::Error => ForceStop::Failed,
                _ => ForceStop::Kill,
            },
            ForceStop::Kill => match r {
                Reply::Error => ForceStop::Failed,
                _ => ForceStop::WaitKilled,
            },
            ForceStop::WaitKilled => ForceStop::RemoveSocket,
            ForceStop::RemoveSocket => ForceStop::Stopped,
            ForceStop::Stopped => ForceStop::Stopped,
            ForceStop::Failed => ForceStop::Failed,
        }
    }

    open spec fn lenient(self) -> bool {
        self == ForceStop::WaitKilled || self == ForceStop::RemoveSocket
    }

    open spec fn ended(self) -> bool {
        self == ForceStop::Stopped || self == ForceStop::Failed
    }

    open spec fn doomed(self) -> bool {
        self == ForceStop::Failed
    }

    open spec fn left(self) -> nat {
        match self {
            ForceStop::RequirePid => 4,
            ForceStop::Kill => 3,
            ForceStop::WaitKilled => 2,
            ForceStop::RemoveSocket => 1,
            _ => 0,
        }
    }

    fn step(self, r: Reply) -> (p: Self) {
        match self {
            ForceStop::RequirePid => match r {
                Reply::Error => ForceStop::Failed,
                _ => ForceStop::Kill,
            },
            ForceStop::Kill => match r {
                Reply::Error => ForceStop::Failed,
                _ => ForceStop::WaitKilled,
            },
            ForceStop::WaitKilled => ForceStop::RemoveSocket,
            ForceStop::RemoveSocket => ForceStop::Stopped,
            ForceStop::Stopped => ForceStop::Stopped,
            ForceStop::Failed => ForceStop::Failed,
        }
    }

    fn is_lenient(self) -> (b: bool) {
        match self {
            ForceStop::WaitKilled | ForceStop::RemoveSocket => true,
            _ => false,
        }
    }

    proof fn lemma_ends(self, r: Reply) {
    }
}

/// Only a VM with a process is killed, and one that is stopped was killed, waited for
/// and rid of its socket. Once it is killed, neither the wait nor the socket makes
/// the stop a failure.
pub proof fn law_only_a_process_is_killed(replies: Seq<Reply>)
    ensures
        ({
            let p = ForceStop::RequirePid;
            let end = plan::reached(p, replies);
            &&& plan::does(p, replies, ForceStop::Kill)
                ==> plan::manages(p, replies, ForceStop::RequirePid)
            &&& plan::does(p, replies, ForceStop::RemoveSocket)
                || end == ForceStop::Stopped
                ==> plan::manages(p, replies, ForceStop::Kill)
            &&& end == ForceStop::Stopped ==> plan::does(p, replies, ForceStop::WaitKilled)
            &&& end == ForceStop::Stopped ==> plan::does(p, replies, ForceStop::RemoveSocket)
            &&& plan::manages(p, replies, ForceStop::Kill) ==> end != ForceStop::Failed
        }),
{
    let p = ForceStop::RequirePid;
    plan::lemma_way_in(
        p,
        replies,
        |x: ForceStop| x != ForceStop::RequirePid && x != ForceStop::Failed,
        plan::managing(ForceStop::RequirePid),
    );
    plan::lemma_way_in(
        p,
        replies,
        |x: ForceStop|
            x == ForceStop::WaitKilled || x == ForceStop::RemoveSocket
                || x == ForceStop::Stopped,
        plan::managing(ForceStop::Kill),
    );
    plan::lemma_way_in(
        p,
        replies,
        |x: ForceStop| x == ForceStop::RemoveSocket || x == ForceStop::Stopped,
        plan::doing(ForceStop::WaitKilled),
    );
    plan::lemma_way_in(
        p,
        replies,
        |x: ForceStop| x == ForceStop::Stopped,
        plan::doing(ForceStop::RemoveSocket),
    );
    plan::lemma_stays(
        p,
        replies,
        plan::managing(ForceStop::Kill),
        |x: ForceStop|
            x == ForceStop::WaitKilled || x == ForceStop::RemoveSocket
                || x == ForceStop::Stopped,
    );
}

/// The process of a VM.
pub fn require_pid(vm: &VmMetadata) -> (r: Result<u32, Error>)
    ensures
        match r {
            Ok(p) => vm.pid == Some(p),
            Err(e) => vm.pid is None && (e matches Error::Firecracker(m) && m@ == "vm '"@
                + vm.name@ + "' has no PID"@),
        },
{
    match vm.pid {
        Some(p) => Ok(p),
        None => Err(
            Error::Firecracker(text::cat3("vm '", vm.name.as_str(), "' has no PID")),
        ),
    }
}

/// See that a VM has a network.
pub fn require_network(vm: &VmMetadata) -> (r: Result<bool, Error>)
    ensures
        match r {
            Ok(b) => b && vm.network is Some,
            Err(e) => vm.network is None && (e matches Error::Firecracker(m) && m@ == "vm '"@
                + vm.name@ + "': network must be configured before start"@),
        },
{
    match &vm.network {
        Some(_) => Ok(true),
        None => Err(
            Error::Firecracker(
                text::cat3(
                    "vm '",
                    vm.name.as_str(),
                    "': network must be configured before start",
                ),
            ),
        ),
    }
}

/// What a VM is booted with.
#[derive(Debug, PartialEq, Eq)]
pub struct BootConfig {
    pub cpus: u32,
    pub memory_mib: u32,
    pub kernel_path: String,
    pub rootfs_path: String,
    pub boot_args: Option<String>,
    pub tap_device: String,
    pub guest_ip: String,
    pub host_ip: String,
    pub netmask: String,
    pub guest_mac: Option<String>,
    pub hostname: String,
    pub dns_servers: Vec<String>,
    /// Path of the host side socket and CID of the guest.
    pub vsock: Option<(String, u32)>,
}

fn copy_opt(s: &Option<String>) -> (r: Option<String>)
    ensures
        r == *s,
{
    match s {
        Some(t) => Some(t.clone()),
        None => None,
    }
}

/// The interface through which a VM reaches name servers.
pub fn dns_iface(net: &NetworkInfo) -> (r: String)
    ensures
        r@ == (match net.wan_iface {
            Some(w) => w@,
            None => "eth0"@,
        }),
{
    match &net.wan_iface {
        Some(w) => w.clone(),
        None => "eth0".to_owned(),
    }
}

/// What a VM is booted with: its record, its disk, its network and the name
/// servers found for it.
pub fn configure_and_boot(
    vm: &VmMetadata,
    rootfs_path: &str,
    net: &NetworkInfo,
    dns_servers: Vec<String>,
) -> (r: BootConfig)
    ensures
        r.cpus == vm.cpus,
        r.memory_mib == vm.memory_mib,
        r.kernel_path == vm.kernel_path,
        r.rootfs_path@ == rootfs_path@,
        r.boot_args == vm.boot_args,
        r.tap_device == net.tap_device,
        r.guest_ip == net.guest_ip,
        r.host_ip == net.host_ip,
        r.netmask == net.netmask,
        r.guest_mac == net.guest_mac,
        r.hostname == vm.name,
        r.dns_servers == dns_servers,
        r.vsock == (match vm.vsock {
            Some(v) => Some((v.uds_path, v.guest_cid)),
            None => None,
        }),
{
    BootConfig {
        cpus: vm.cpus,
        memory_mib: vm.memory_mib,
        kernel_path: vm.kernel_path.clone(),
        rootfs_path: rootfs_path.to_owned(),
        boot_args: copy_opt(&vm.boot_args),
        tap_device: net.tap_device.clone(),
        guest_ip: net.guest_ip.clone(),
        host_ip: net.host_ip.clone(),
        netmask: net.netmask.clone(),
        guest_mac: copy_opt(&net.guest_mac),
        hostname: vm.name.clone(),
        dns_servers,
        vsock: match &vm.vsock {
            Some(v) => Some((v.uds_path.clone(), v.guest_cid)),
            None => None,
        },
    }
}

} // verus!
