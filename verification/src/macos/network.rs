//! Addresses of guests on the shared network of a macOS host.
//!
//! The host owns one `/24` and translates addresses by itself. Guests get static
//! addresses from it, handed to their kernels at boot.
use crate::command;
use crate::command::{Cmd, Outcome};
use crate::config::GlobalConfig;
use crate::deeds;
use crate::deeds::Deed;
use crate::error::Error;
use crate::network::ip;
use crate::network::ip::NetworkTable;
use crate::state::vm::{NetworkInfo, VmMetadata};
use crate::text;
use std::collections::HashSet;
use vstd::prelude::*;

verus! {

/// Gateway of the shared network.
pub const VMNET_GATEWAY: &'static str = "192.168.64.1";

/// Netmask of the shared network.
pub const VMNET_NETMASK: &'static str = "255.255.255.0";

/// The shared network. Installations without a namespace allocate from all of it.
pub const VMNET_SUBNET: &'static str = "192.168.64.0/24";

/// Address of the shared network.
pub const VMNET_BASE: u32 = 0xc0a8_4000;

/// The addresses that no guest may get: the network, the router, the broadcast.
pub const VMNET_RESERVED: [u32; 3] = [0xc0a8_4000, 0xc0a8_4001, 0xc0a8_40ff];

/// The number that an installation id stands for: up to 16 bits in hexadecimal.
pub open spec fn id_number(instance_id: Seq<char>) -> Option<nat> {
    text::parse_hex(instance_id, 0xffff)
}

/// The number that an installation id stands for.
pub fn instance_number(instance_id: &str) -> (r: Option<u32>)
    ensures
        match r {
            Some(n) => id_number(instance_id@) == Some(n as nat),
            None => id_number(instance_id@) is None,
        },
{
    text::parse_hex_str(instance_id, 0xffff)
}

/// Where the slice of an installation starts: one of eight slots of 32 addresses,
/// by the low three bits of its id.
pub open spec fn slot_base(n: nat) -> nat {
    32 * (n % 8)
}

/// The slice of the shared network that an installation allocates from.
pub open spec fn vmnet_subnet(n: nat) -> Seq<char> {
    "192.168.64."@ + text::dec(slot_base(n)) + "/27"@
}

/// The slice of the shared network that an installation allocates from.
pub fn derive_vmnet_subnet(instance_id: &str) -> (r: String)
    requires
        id_number(instance_id@) is Some,
    ensures
        r@ == vmnet_subnet(id_number(instance_id@)->0),
{
    let n: u32 = match instance_number(instance_id) {
        Some(n) => n,
        None => 0,
    };
    let base: u32 = 32 * (n % 8);
    text::cat3("192.168.64.", text::dec_u64(base as u64).as_str(), "/27")
}

/// The slice of an installation can be allocated from, and lies in the shared
/// network.
pub proof fn law_vmnet_subnet_parses(n: nat)
    ensures
        ip::cidr(vmnet_subnet(n)) == Ok::<(u32, u8), Seq<char>>(
            ((VMNET_BASE + slot_base(n)) as u32, 27u8),
        ),
        VMNET_BASE + slot_base(n) + ip::cidr_size(27) <= VMNET_BASE + 256,
{
    let slot = slot_base(n);
    let a = (VMNET_BASE + slot) as u32;
    lemma_slot_octets(slot);
    assert(vstd::arithmetic::power2::pow2(5) == 32) by {
        vstd::arithmetic::power2::lemma2_to64();
    }
    crate::network::ip_laws::law_cidr_round_trip(a, 27);
    assert(vmnet_subnet(n) == ip::ip_text(a) + "/"@ + text::dec(27)) by {
        lemma_parts(text::dec(slot));
    }
}

proof fn lemma_slot_octets(slot: nat)
    requires
        slot <= 224,
        slot % 32 == 0,
    ensures
        ({
            let a = (0xc0a8_4000 + slot) as u32;
            a / 0x100_0000 == 192 && a / 0x1_0000 % 0x100 == 168 && a / 0x100 % 0x100 == 64 && a % 0x100
                == slot && a as nat % 32 == 0
        }),
{
}

proof fn lemma_parts(slot: Seq<char>)
    ensures
        "192.168.64."@ + slot + "/27"@ == text::dec(192) + "."@ + text::dec(168) + "."@ + text::dec(64)
            + "."@ + slot + "/"@ + text::dec(27),
{
    reveal_strlit("192.168.64.");
    reveal_strlit("/27");
    reveal_strlit(".");
    reveal_strlit("/");
    reveal_with_fuel(text::dec, 3);
    assert(text::dec(192) =~= seq!['1', '9', '2']);
    assert(text::dec(168) =~= seq!['1', '6', '8']);
    assert(text::dec(64) =~= seq!['6', '4']);
    assert(text::dec(27) =~= seq!['2', '7']);
    assert("192.168.64."@ =~= text::dec(192) + "."@ + text::dec(168) + "."@ + text::dec(64) + "."@);
    assert("/27"@ =~= "/"@ + text::dec(27));
    assert("192.168.64."@ + slot + "/27"@ =~= text::dec(192) + "."@ + text::dec(168) + "."@ + text::dec(
        64,
    ) + "."@ + slot + "/"@ + text::dec(27));
}

/// Two ids that agree in their low three bits get one slice, and two that do not
/// get slices that share no address.
pub proof fn law_slices_are_shared_or_disjoint(m: nat, n: nat)
    ensures
        m % 8 == n % 8 ==> vmnet_subnet(m) == vmnet_subnet(n),
        m % 8 != n % 8 ==> slot_base(m) + 32 <= slot_base(n) || slot_base(n) + 32 <= slot_base(m),
{
}

/// The network backend of a macOS host.
#[derive(Clone, Copy, Debug, PartialEq, Eq)]
pub struct MacosNetwork;

/// The subnet that a VM gets its address from: its own, else that of the
/// installation, else the whole shared network.
pub open spec fn subnet_text(vm: VmMetadata, config: GlobalConfig) -> Seq<char> {
    match vm.subnet {
        Some(s) => s@,
        None => if crate::config::namespace_of(config.instance_id@) is None {
            VMNET_SUBNET@
        } else {
            config.ip_subnet@
        },
    }
}

/// Whether `n` is the network of a guest with the given address.
pub open spec fn is_guest_network(n: NetworkInfo, guest_ip: Seq<char>) -> bool {
    n.tap_device@.len() == 0 && n.host_ip@ == VMNET_GATEWAY@ && n.guest_ip@ == guest_ip && n.netmask@
        == VMNET_NETMASK@ && n.guest_mac is None && n.wan_iface is None
}

/// Whether `r` is what a VM is told of the allocation `a`.
pub open spec fn answers(a: Result<ip::IpAllocation, Error>, r: Result<NetworkInfo, Error>) -> bool {
    match (a, r) {
        (Ok(x), Ok(n)) => is_guest_network(n, x.guest_ip@),
        (Err(e), Err(f)) => e == f,
        _ => false,
    }
}

/// Everything that [`MacosNetwork::setup_excluding`] promises: installations
/// without a namespace hand out `/30` blocks, others single addresses.
pub open spec fn set_up(
    before: Seq<ip::Row>,
    after: Seq<ip::Row>,
    vm: VmMetadata,
    config: GlobalConfig,
    exclude: Set<u32>,
    r: Result<NetworkInfo, Error>,
) -> bool {
    exists|a: Result<ip::IpAllocation, Error>|
        {
            &&& if crate::config::namespace_of(config.instance_id@) is None {
                ip::allocated(
                    before,
                    after,
                    subnet_text(vm, config),
                    vm.name@,
                    exclude,
                    a,
                )
            } else {
                ip::allocated_single(
                    before,
                    after,
                    subnet_text(vm, config),
                    vm.name@,
                    VMNET_GATEWAY@,
                    VMNET_NETMASK@,
                    VMNET_RESERVED@,
                    exclude,
                    a,
                )
            }
            &&& #[trigger] answers(a, r)
        }
}

/// In an installation with a namespace, no guest gets the address of the shared
/// network, of its router, or of its broadcast, and none gets an address in an
/// excluded slot.
pub proof fn law_no_guest_gets_a_reserved_address(
    before: Seq<ip::Row>,
    after: Seq<ip::Row>,
    vm: VmMetadata,
    config: GlobalConfig,
    exclude: Set<u32>,
    r: Result<NetworkInfo, Error>,
)
    requires
        set_up(before, after, vm, config, exclude, r),
        r is Ok,
        crate::config::namespace_of(config.instance_id@) is Some,
    ensures
        ip::cidr(subnet_text(vm, config)) is Ok,
        ({
            let (base, _) = ip::cidr(subnet_text(vm, config))->Ok_0;
            exists|i: u32|
                r->Ok_0.guest_ip@ == #[trigger] ip::ip_text((base + i) as u32) && !exclude.contains(i)
                    && !VMNET_RESERVED@.contains((base + i) as u32)
        }),
{
    let a = choose|a: Result<ip::IpAllocation, Error>|
        ip::allocated_single(
            before,
            after,
            subnet_text(vm, config),
            vm.name@,
            VMNET_GATEWAY@,
            VMNET_NETMASK@,
            VMNET_RESERVED@,
            exclude,
            a,
        ) && #[trigger] answers(a, r);
    let (base, prefix) = ip::cidr(subnet_text(vm, config))->Ok_0;
    let i = a->Ok_0.block_index;
    assert(ip::usable(
        ip::used_slots(before, subnet_text(vm, config)),
        exclude,
        VMNET_RESERVED@,
        base,
        i,
    ));
    assert(r->Ok_0.guest_ip@ == ip::ip_text((base + i) as u32));
}

impl MacosNetwork {
    /// Gives a VM an address.
    pub fn setup(table: &mut NetworkTable, vm: &VmMetadata, config: &GlobalConfig) -> (r: Result<
        NetworkInfo,
        Error,
    >)
        requires
            crate::config::namespace_of(config.instance_id@) is Some ==> (ip::cidr(
                subnet_text(*vm, *config),
            ) matches Ok((_, prefix)) ==> prefix > 0),
        ensures
            set_up(old(table)@, final(table)@, *vm, *config, Set::empty(), r),
    {
        let none: HashSet<u32> = HashSet::new();
        Self::setup_excluding(table, vm, config, &none)
    }

    /// Gives a VM an address that is in none of the given slots.
    pub fn setup_excluding(
        table: &mut NetworkTable,
        vm: &VmMetadata,
        config: &GlobalConfig,
        exclude: &HashSet<u32>,
    ) -> (r: Result<NetworkInfo, Error>)
        requires
            crate::config::namespace_of(config.instance_id@) is Some ==> (ip::cidr(
                subnet_text(*vm, *config),
            ) matches Ok((_, prefix)) ==> prefix > 0),
        ensures
            set_up(old(table)@, final(table)@, *vm, *config, exclude@, r),
    {
        let legacy = config.instance_namespace().is_none();
        let subnet = match &vm.subnet {
            Some(s) => s.clone(),
            None => if legacy {
                VMNET_SUBNET.to_owned()
            } else {
                config.ip_subnet.clone()
            },
        };
        let a = if legacy {
            ip::allocate(table, subnet.as_str(), vm.name.as_str(), exclude)
        } else {
            let reserved = VMNET_RESERVED;
            ip::allocate_single(
                table,
                subnet.as_str(),
                vm.name.as_str(),
                VMNET_GATEWAY,
                VMNET_NETMASK,
                &reserved,
                exclude,
            )
        };
        let ghost ga = a;
        let r = match a {
            Ok(x) => {
                let tap = String::new();
                assert(tap@ =~= Seq::<char>::empty());
                Ok(
                    NetworkInfo {
                        tap_device: tap,
                        host_ip: VMNET_GATEWAY.to_owned(),
                        guest_ip: x.guest_ip,
                        netmask: VMNET_NETMASK.to_owned(),
                        guest_mac: None,
                        wan_iface: None,
                    },
                )
            },
            Err(e) => Err(e),
        };
        assert(answers(ga, r));
        r
    }

    /// Takes the address of a VM back.
    pub fn teardown(table: &mut NetworkTable, vm: &VmMetadata)
        ensures
            final(table)@ == ip::without(old(table)@, vm.name@),
    {
        ip::release(table, vm.name.as_str());
    }
}

/// The interface that one line of the output names, where it names one.
pub open spec fn named_interface(line: Seq<char>) -> Option<Seq<char>> {
    match text::without_prefix(text::trim(line), "interface:"@) {
        Some(rest) => if text::trim(rest).len() > 0 {
            Some(text::trim(rest))
        } else {
            None
        },
        None => None,
    }
}

/// The interface that the first line to name one names.
pub open spec fn first_interface(lines: Seq<Seq<char>>) -> Option<Seq<char>>
    decreases lines.len(),
{
    if lines.len() == 0 {
        None
    } else {
        match named_interface(lines[0]) {
            Some(i) => Some(i),
            None => first_interface(lines.skip(1)),
        }
    }
}

/// The interface in the output of `route get`.
pub fn parse_interface_from_route(output: &str) -> (r: Option<String>)
    ensures
        match r {
            Some(i) => first_interface(text::lines(output@)) == Some(i@),
            None => first_interface(text::lines(output@)) is None,
        },
{
    let lines = text::split_lines(output);
    let ghost v = text::views(lines@);
    let mut i: usize = 0;
    assert(v.skip(0) =~= v);
    while i < lines.len()
        invariant
            i <= lines.len(),
            v == text::views(lines@),
            v == text::lines(output@),
            first_interface(v.skip(i as int)) == first_interface(v),
        decreases lines.len() - i,
    {
        proof {
            assert(v.skip(i as int)[0] == lines@[i as int]@);
            assert(v.skip(i as int).skip(1) =~= v.skip(i + 1));
        }
        let line = text::trimmed(lines[i].as_str());
        if let Some(rest) = text::strip_prefix(line.as_str(), "interface:") {
            let name = text::trimmed(rest.as_str());
            if !name.as_str().is_empty() {
                return Some(name);
            }
        }
        i += 1;
    }
    assert(v.skip(v.len() as int) =~= Seq::<Seq<char>>::empty());
    None
}

/// The command that tells how the outside world is reached.
pub fn route_command() -> (r: Cmd)
    ensures
        r@ == command::cmd("route"@, seq!["get"@, "8.8.8.8"@], "route"@, "route get 8.8.8.8"@),
        deeds::route(r@) == Some(Deed::ShowRoute { address: "8.8.8.8"@ }),
{
    let r = command::command("route", &["get", "8.8.8.8"], "route", "route get 8.8.8.8");
    assert(r@.args =~= seq!["get"@, "8.8.8.8"@]);
    r
}

/// What is said where no interface leads to the outside world.
pub open spec fn no_interface_text() -> Seq<char> {
    "could not detect default network interface — is the host connected to the internet?\nHint: specify the interface manually with: ember init --wan-iface <iface>"@
}

/// The interface through which the outside world is reached, from how the command
/// ended.
pub fn detect_wan_iface(c: &Cmd, o: Outcome) -> (r: Result<String, Error>)
    ensures
        match r {
            Ok(i) => o matches Outcome::Exited(out) && out.success() && first_interface(
                text::lines(text::utf8_lossy(out.stdout@)),
            ) == Some(i@),
            Err(e) => if o.ok() {
                first_interface(text::lines(text::utf8_lossy(o->Exited_0.stdout@))) is None
                    && crate::error::is_network(e, no_interface_text())
            } else {
                command::is_error_of(e, c@, o)
            },
        },
{
    match command::finish(c, o) {
        Err(e) => Err(e),
        Ok(out) => {
            match parse_interface_from_route(text::from_utf8_lossy(&out.stdout).as_str()) {
                Some(i) => Ok(i),
                None => Err(
                    Error::Network(
                        "could not detect default network interface — is the host connected to the internet?\nHint: specify the interface manually with: ember init --wan-iface <iface>".to_owned(),
                    ),
                ),
            }
        },
    }
}

} // verus!
