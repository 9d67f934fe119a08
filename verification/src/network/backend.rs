//! Networking of a VM as a whole: an address, a TAP device and packet filter
//! rules.
use crate::config::GlobalConfig;
use crate::network::ip::IpAllocation;
use crate::network::tap;
use crate::plan;
use crate::plan::{Plan, Reply};
use crate::state::vm::{NetworkInfo, VmMetadata};
use crate::text;
use crate::text_laws;
use vstd::prelude::*;

verus! {

/// The network backend of a Linux host; its allocations are recorded below the
/// given directory.
#[derive(Debug, PartialEq, Eq)]
pub struct LinuxNetwork {
    pub state_dir: String,
}

impl LinuxNetwork {
    pub fn new(state_dir: &str) -> (r: Self)
        ensures
            r.state_dir@ == state_dir@,
    {
        LinuxNetwork { state_dir: state_dir.to_owned() }
    }
}

/// Setting up the network of a VM. What was done is undone where a later step
/// fails.
#[derive(Clone, Copy, Debug, PartialEq, Eq, Structural)]
pub enum Setup {
    /// See whether the WAN interface is given.
    FindWan,
    /// Detect the WAN interface.
    DetectWan,
    /// Allocate an address.
    Allocate,
    /// Create the TAP device.
    CreateTap,
    /// Make the host forward packets.
    Forward,
    /// Add the rules.
    AddRules,
    /// Delete the TAP device after a failure.
    DeleteTap,
    /// Release the address after a failure.
    Release,
    /// The network is set up.
    Done,
    /// It is not.
    Failed,
}

impl Plan for Setup {
    open spec fn next(self, r: Reply) -> Self {
        match self {
            Setup::FindWan => match r {
                Reply::Yes => Setup::Allocate,
                Reply::No => Setup::DetectWan,
                Reply::Error => Setup::Failed,
            },
            Setup::DetectWan => match r {
                Reply::Error => Setup::Failed,
                _ => Setup::Allocate,
            },
            Setup::Allocate => match r {
                Reply::Error => Setup::Failed,
                _ => Setup::CreateTap,
            },
            Setup::CreateTap => match r {
                Reply::Error => Setup::Release,
                _ => Setup::Forward,
            },
            Setup::Forward => match r {
                Reply::Error => Setup::DeleteTap,
                _ => Setup::AddRules,
            },
            Setup::AddRules => match r {
                Reply::Error => Setup::DeleteTap,
                _ => Setup::Done,
            },
            Setup::DeleteTap => Setup::Release,
            Setup::Release => Setup::Failed,
            Setup::Done => Setup::Done,
            Setup::Failed => Setup::Failed,
        }
    }

    open spec fn lenient(self) -> bool {
        self == Setup::DeleteTap || self == Setup::Release
    }

    open spec fn ended(self) -> bool {
        self == Setup::Done || self == Setup::Failed
    }

    open spec fn doomed(self) -> bool {
        self == Setup::DeleteTap || self == Setup::Release || self == Setup::Failed
    }

    open spec fn left(self) -> nat {
        match self {
            Setup::FindWan => 8,
            Setup::DetectWan => 7,
            Setup::Allocate => 6,
            Setup::CreateTap => 5,
            Setup::Forward => 4,
            Setup::AddRules => 3,
            Setup::DeleteTap => 2,
            Setup::Release => 1,
            _ => 0,
        }
    }

    fn step(self, r: Reply) -> (p: Self) {
        match self {
            Setup::FindWan => match r {
                Reply::Yes => Setup::Allocate,
                Reply::No => Setup::DetectWan,
                Reply::Error => Setup::Failed,
            },
            Setup::DetectWan => match r {
                Reply::Error => Setup::Failed,
                _ => Setup::Allocate,
            },
            Setup::Allocate => match r {
                Reply::Error => Setup::Failed,
                _ => Setup::CreateTap,
            },
            Setup::CreateTap => match r {
                Reply::Error => Setup::Release,
                _ => Setup::Forward,
            },
            Setup::Forward => match r {
                Reply::Error => Setup::DeleteTap,
                _ => Setup::AddRules,
            },
            Setup::AddRules => match r {
                Reply::Error => Setup::DeleteTap,
                _ => Setup::Done,
            },
            Setup::DeleteTap => Setup::Release,
            Setup::Release => Setup::Failed,
            Setup::Done => Setup::Done,
            Setup::Failed => Setup::Failed,
        }
    }

    fn is_lenient(self) -> (b: bool) {
        match self {
            Setup::DeleteTap | Setup::Release => true,
            _ => false,
        }
    }

    proof fn lemma_ends(self, r: Reply) {
    }
}

/// Whether a VM has an address in a phase, or keeps one for good.
pub open spec fn holds_address(p: Setup) -> bool {
    match p {
        Setup::FindWan | Setup::DetectWan | Setup::Allocate | Setup::Failed => false,
        _ => true,
    }
}

/// Whether a TAP device exists in a phase, or is kept for good.
pub open spec fn holds_tap(p: Setup) -> bool {
    match p {
        Setup::Forward | Setup::AddRules | Setup::DeleteTap | Setup::Done => true,
        _ => false,
    }
}

/// A set-up that fails leaves nothing behind: an address that was allocated is
/// released, and a device that was created is deleted, whatever failed. One that
/// succeeds did all of its work.
pub proof fn law_failed_setup_rolls_back(replies: Seq<Reply>)
    ensures
        ({
            let p = Setup::FindWan;
            let end = plan::reached(p, replies);
            &&& end == Setup::Failed && plan::manages(p, replies, Setup::Allocate) ==> plan::does(
                p,
                replies,
                Setup::Release,
            )
            &&& end == Setup::Failed && plan::manages(p, replies, Setup::CreateTap) ==> plan::does(
                p,
                replies,
                Setup::DeleteTap,
            )
            &&& end == Setup::Done ==> plan::manages(p, replies, Setup::Allocate) && plan::manages(
                p,
                replies,
                Setup::CreateTap,
            ) && plan::manages(p, replies, Setup::Forward) && plan::manages(
                p,
                replies,
                Setup::AddRules,
            )
        }),
{
    let p = Setup::FindWan;
    plan::lemma_way_out(
        p,
        replies,
        plan::managing(Setup::Allocate),
        |x: Setup| holds_address(x),
        plan::doing(Setup::Release),
    );
    plan::lemma_way_out(
        p,
        replies,
        plan::managing(Setup::CreateTap),
        |x: Setup| holds_tap(x),
        plan::doing(Setup::DeleteTap),
    );
    plan::lemma_way_in(
        p,
        replies,
        |x: Setup| x == Setup::Done,
        plan::managing(Setup::AddRules),
    );
    plan::lemma_way_in(
        p,
        replies,
        |x: Setup| x == Setup::Done || x == Setup::AddRules,
        plan::managing(Setup::Forward),
    );
    plan::lemma_way_in(
        p,
        replies,
        |x: Setup| x == Setup::Done || x == Setup::AddRules || x == Setup::Forward,
        plan::managing(Setup::CreateTap),
    );
    plan::lemma_way_in(
        p,
        replies,
        |x: Setup| holds_address(x),
        plan::managing(Setup::Allocate),
    );
}

/// Taking the network of a VM down, as far as it is there.
#[derive(Clone, Copy, Debug, PartialEq, Eq, Structural)]
pub enum Cleanup {
    /// See whether the VM has a network.
    AskNetwork,
    /// Find the WAN interface, as recorded or by detection.
    FindWan,
    /// See whether the VM has an egress policy.
    AskEgress,
    /// Remove the egress rules.
    RemoveEgress,
    /// Remove the rules of the VM.
    RemoveNat,
    /// Delete the TAP device.
    DeleteTap,
    /// Release the address.
    Release,
    /// The network is down.
    Done,
}

impl Plan for Cleanup {
    open spec fn next(self, r: Reply) -> Self {
        match self {
            Cleanup::AskNetwork => match r {
                Reply::Yes => Cleanup::FindWan,
                _ => Cleanup::Done,
            },
            Cleanup::FindWan => match r {
                Reply::Yes => Cleanup::AskEgress,
                _ => Cleanup::DeleteTap,
            },
            Cleanup::AskEgress => match r {
                Reply::Yes => Cleanup::RemoveEgress,
                _ => Cleanup::RemoveNat,
            },
            Cleanup::RemoveEgress => Cleanup::RemoveNat,
            Cleanup::RemoveNat => Cleanup::DeleteTap,
            Cleanup::DeleteTap => Cleanup::Release,
            Cleanup::Release => Cleanup::Done,
            Cleanup::Done => Cleanup::Done,
        }
    }

    open spec fn lenient(self) -> bool {
        self == Cleanup::AskNetwork || self == Cleanup::FindWan || self == Cleanup::AskEgress
            || self == Cleanup::RemoveEgress || self == Cleanup::RemoveNat
            || self == Cleanup::DeleteTap || self == Cleanup::Release
    }

    open spec fn ended(self) -> bool {
        self == Cleanup::Done
    }

    open spec fn doomed(self) -> bool {
        false
    }

    open spec fn left(self) -> nat {
        match self {
            Cleanup::AskNetwork => 7,
            Cleanup::FindWan => 6,
            Cleanup::AskEgress => 5,
            Cleanup::RemoveEgress => 4,
            Cleanup::RemoveNat => 3,
            Cleanup::DeleteTap => 2,
            Cleanup::Release => 1,
            _ => 0,
        }
    }

    fn step(self, r: Reply) -> (p: Self) {
        match self {
            Cleanup::AskNetwork => match r {
                Reply::Yes => Cleanup::FindWan,
                _ => Cleanup::Done,
            },
            Cleanup::FindWan => match r {
                Reply::Yes => Cleanup::AskEgress,
                _ => Cleanup::DeleteTap,
            },
            Cleanup::AskEgress => match r {
                Reply::Yes => Cleanup::RemoveEgress,
                _ => Cleanup::RemoveNat,
            },
            Cleanup::RemoveEgress => Cleanup::RemoveNat,
            Cleanup::RemoveNat => Cleanup::DeleteTap,
            Cleanup::DeleteTap => Cleanup::Release,
            Cleanup::Release => Cleanup::Done,
            Cleanup::Done => Cleanup::Done,
        }
    }

    fn is_lenient(self) -> (b: bool) {
        match self {
            Cleanup::AskNetwork | Cleanup::FindWan | Cleanup::AskEgress | Cleanup::RemoveEgress
            | Cleanup::RemoveNat | Cleanup::DeleteTap | Cleanup::Release => true,
            _ => false,
        }
    }

    proof fn lemma_ends(self, r: Reply) {
    }
}

/// Cleaning up never fails, and a VM with a network always has its device deleted
/// and its address released, whatever happens before.
pub proof fn law_cleanup_releases(replies: Seq<Reply>)
    ensures
        forall|p: Cleanup| !p.ended() ==> p.lenient(),
        ({
            let p = Cleanup::AskNetwork;
            plan::reached(p, replies).ended() && plan::gets(p, replies, p, Reply::Yes)
                ==> plan::does(p, replies, Cleanup::DeleteTap) && plan::does(
                p,
                replies,
                Cleanup::Release,
            )
        }),
{
    let p = Cleanup::AskNetwork;
    plan::lemma_way_out(
        p,
        replies,
        plan::getting(p, Reply::Yes),
        |x: Cleanup| x != Cleanup::AskNetwork && x != Cleanup::Done,
        plan::doing(Cleanup::Release),
    );
    plan::lemma_way_out(
        p,
        replies,
        plan::getting(p, Reply::Yes),
        |x: Cleanup|
            x != Cleanup::AskNetwork && x != Cleanup::Done && x != Cleanup::Release,
        plan::doing(Cleanup::DeleteTap),
    );
}

/// The subnet that a VM gets its address from: its own, else that of the
/// installation.
pub fn subnet_for(vm: &VmMetadata, config: &GlobalConfig) -> (r: String)
    ensures
        r@ == (match vm.subnet {
            Some(s) => s@,
            None => config.ip_subnet@,
        }),
{
    match &vm.subnet {
        Some(s) => s.clone(),
        None => config.ip_subnet.clone(),
    }
}

/// Name of the TAP device of a VM.
pub fn tap_name(vm: &VmMetadata, config: &GlobalConfig) -> (r: String)
    ensures
        r@ == tap::device_text(
            tap::prefix_text(crate::config::namespace_of(config.instance_id@)),
            vm.id,
        ),
{
    let p = tap::prefix(config.instance_namespace());
    tap::device_name(p.as_str(), vm.id)
}

/// The address of the host side, with the prefix of the link.
pub fn host_cidr(host_ip: &str) -> (r: String)
    ensures
        r@ == host_ip@ + "/30"@,
        text_laws::free_of(host_ip@, '/') ==> (text::halves(r@, '/') matches Some((ip, prefix))
            && ip == host_ip@ && text::parse_uint(prefix, 255) == Ok::<nat, text::IntError>(30)),
{
    proof {
        reveal_strlit("/30");
        reveal_with_fuel(text::dec, 2);
        if text_laws::free_of(host_ip@, '/') {
            assert(text::dec(30) =~= seq!['3', '0']);
            assert(host_ip@ + "/30"@ =~= host_ip@.push('/') + text::dec(30));
            text_laws::law_halves(host_ip@, text::dec(30), '/');
            text::lemma_parse_of_dec(30, 255);
        }
    }
    text::cat2(host_ip, "/30")
}

/// The network of a VM that was set up.
pub fn network_info(a: IpAllocation, tap_device: String, wan_iface: String) -> (r: NetworkInfo)
    ensures
        r.tap_device == tap_device,
        r.host_ip == a.host_ip,
        r.guest_ip == a.guest_ip,
        r.netmask == a.netmask,
        r.guest_mac is None,
        r.wan_iface == Some(wan_iface),
{
    NetworkInfo {
        tap_device,
        host_ip: a.host_ip,
        guest_ip: a.guest_ip,
        netmask: a.netmask,
        guest_mac: None,
        wan_iface: Some(wan_iface),
    }
}

} // verus!
