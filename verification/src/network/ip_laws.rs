//! What holds of the IP allocator as a whole.
use crate::error::Error;
use crate::network::ip;
use crate::network::ip::{IpAllocation, Listed, Row};
use crate::text;
use vstd::prelude::*;

verus! {

/// Neither allocator ever records a slot or a VM name twice.
pub proof fn law_allocation_keeps_unique(
    before: Seq<Row>,
    after: Seq<Row>,
    subnet: Seq<char>,
    vm_name: Seq<char>,
    host_ip: Seq<char>,
    netmask: Seq<char>,
    reserved: Seq<u32>,
    exclude: Set<u32>,
    r: Result<IpAllocation, Error>,
)
    requires
        ip::unique(before),
        ip::allocated(before, after, subnet, vm_name, exclude, r) || ip::allocated_single(
            before,
            after,
            subnet,
            vm_name,
            host_ip,
            netmask,
            reserved,
            exclude,
            r,
        ),
    ensures
        ip::unique(after),
{
    if r is Ok {
        let a = r->Ok_0;
        ip::lemma_used_slots(before, subnet, a.block_index);
        let n = before.len();
        assert(after.len() == n + 1);
        assert(forall|i: int| 0 <= i < n ==> after[i] == before[i]);
        assert(after[n as int].vm_name == vm_name);
        assert forall|i: int, j: int| 0 <= i < j < after.len() implies !(#[trigger] after[i].subnet
            == #[trigger] after[j].subnet && after[i].block_index == after[j].block_index) by {
            if j < n {
                assert(before[i].subnet == after[i].subnet && before[j].subnet == after[j].subnet);
            } else {
                assert(before[i].subnet == after[i].subnet);
            }
        }
        assert forall|i: int, j: int| 0 <= i < j < after.len() implies #[trigger] after[i].vm_name
            != #[trigger] after[j].vm_name by {
            if j < n {
                assert(before[i].vm_name == after[i].vm_name && before[j].vm_name
                    == after[j].vm_name);
            } else {
                assert(before[i].vm_name == after[i].vm_name);
            }
        }
    }
}

/// An allocation either changes nothing and fails, or adds one row for the VM,
/// which is the row it reports.
pub proof fn law_allocation_adds_its_row(
    before: Seq<Row>,
    after: Seq<Row>,
    subnet: Seq<char>,
    vm_name: Seq<char>,
    exclude: Set<u32>,
    r: Result<IpAllocation, Error>,
)
    requires
        ip::allocated(before, after, subnet, vm_name, exclude, r),
    ensures
        r is Err ==> after == before,
        r matches Ok(a) ==> ip::slot_of(after, vm_name) == Some(a.block_index),
        forall|other: Seq<char>|
            other != vm_name ==> #[trigger] ip::slot_of(after, other) == ip::slot_of(before, other),
{
    if r is Ok {
        let row = after.last();
        assert(after.drop_last() =~= before);
        lemma_slot_of_push(before, row, vm_name);
        assert forall|other: Seq<char>| other != vm_name implies #[trigger] ip::slot_of(after, other)
            == ip::slot_of(before, other) by {
            lemma_slot_of_push(before, row, other);
        }
    }
}

proof fn lemma_slot_of_push(t: Seq<Row>, row: Row, name: Seq<char>)
    ensures
        ip::slot_of(t.push(row), name) == (if ip::has_vm(t, name) {
            ip::slot_of(t, name)
        } else if row.vm_name == name {
            Some(row.block_index)
        } else {
            None
        }),
        !ip::has_vm(t, name) ==> ip::slot_of(t, name) is None,
    decreases t.len(),
{
    let u = t.push(row);
    if t.len() == 0 {
        assert(u.skip(1) =~= Seq::<Row>::empty());
        reveal_with_fuel(ip::slot_of, 2);
    } else {
        let s = t.skip(1);
        assert(u.skip(1) =~= s.push(row));
        lemma_slot_of_push(s, row, name);
        if ip::has_vm(s, name) {
            let i = choose|i: int| 0 <= i < s.len() && #[trigger] s[i].vm_name == name;
            assert(t[i + 1].vm_name == name);
        }
        if ip::has_vm(t, name) && t[0].vm_name != name {
            let i = choose|i: int| 0 <= i < t.len() && #[trigger] t[i].vm_name == name;
            assert(s[i - 1].vm_name == name);
        }
    }
}

/// The lowest free slot goes to the VM, and a slot that was released can be
/// handed out again: what an allocation reports is no higher than any slot that
/// it could have used.
pub proof fn law_lowest_free_slot(
    before: Seq<Row>,
    after: Seq<Row>,
    subnet: Seq<char>,
    vm_name: Seq<char>,
    exclude: Set<u32>,
    r: Result<IpAllocation, Error>,
    free: u32,
)
    requires
        ip::allocated(before, after, subnet, vm_name, exclude, r),
        r is Ok,
        !ip::used_slots(before, subnet).contains(free),
        !exclude.contains(free),
    ensures
        r->Ok_0.block_index <= free,
        !exclude.contains(r->Ok_0.block_index),
        !ip::used_slots(before, subnet).contains(r->Ok_0.block_index),
{
    let base = ip::cidr(subnet)->Ok_0.0;
    assert(ip::usable(ip::used_slots(before, subnet), exclude, Seq::empty(), base, free));
}

/// Releasing removes the rows of the VM and no other row, so every other VM
/// keeps its slot; releasing again changes nothing.
pub proof fn law_release(t: Seq<Row>, vm_name: Seq<char>)
    ensures
        !ip::has_vm(ip::without(t, vm_name), vm_name),
        ip::slot_of(ip::without(t, vm_name), vm_name) is None,
        ip::without(ip::without(t, vm_name), vm_name) == ip::without(t, vm_name),
        !ip::has_vm(t, vm_name) ==> ip::without(t, vm_name) == t,
        forall|other: Seq<char>|
            other != vm_name ==> #[trigger] ip::slot_of(ip::without(t, vm_name), other)
                == ip::slot_of(t, other),
{
    lemma_without(t, vm_name);
    let w = ip::without(t, vm_name);
    if ip::has_vm(w, vm_name) {
        let i = choose|i: int| 0 <= i < w.len() && #[trigger] w[i].vm_name == vm_name;
        assert(w[i].vm_name != vm_name);
    }
    lemma_without_absent(w, vm_name);
    if !ip::has_vm(t, vm_name) {
        assert forall|i: int| 0 <= i < t.len() implies (#[trigger] t[i]).vm_name != vm_name by {}
        lemma_without_absent(t, vm_name);
    }
    lemma_slot_absent(w, vm_name);
    assert forall|other: Seq<char>| other != vm_name implies #[trigger] ip::slot_of(w, other)
        == ip::slot_of(t, other) by {
        lemma_slot_without(t, vm_name, other);
    }
}

proof fn lemma_slot_absent(t: Seq<Row>, name: Seq<char>)
    requires
        !ip::has_vm(t, name),
    ensures
        ip::slot_of(t, name) is None,
    decreases t.len(),
{
    if t.len() > 0 {
        assert(t[0].vm_name != name);
        let s = t.skip(1);
        if ip::has_vm(s, name) {
            let i = choose|i: int| 0 <= i < s.len() && #[trigger] s[i].vm_name == name;
            assert(t[i + 1].vm_name == name);
        }
        lemma_slot_absent(s, name);
    }
}

proof fn lemma_without(t: Seq<Row>, name: Seq<char>)
    ensures
        forall|i: int|
            0 <= i < ip::without(t, name).len() ==> (#[trigger] ip::without(t, name)[i]).vm_name
                != name,
    decreases t.len(),
{
    if t.len() > 0 {
        let b = ip::without(t.drop_last(), name);
        let w = ip::without(t, name);
        lemma_without(t.drop_last(), name);
        assert forall|i: int| 0 <= i < w.len() implies (#[trigger] w[i]).vm_name != name by {
            if i < b.len() {
                assert(w[i] == b[i]);
            }
        }
    }
}

proof fn lemma_without_absent(t: Seq<Row>, name: Seq<char>)
    requires
        forall|i: int| 0 <= i < t.len() ==> (#[trigger] t[i]).vm_name != name,
    ensures
        ip::without(t, name) == t,
    decreases t.len(),
{
    if t.len() > 0 {
        let b = t.drop_last();
        assert forall|i: int| 0 <= i < b.len() implies (#[trigger] b[i]).vm_name != name by {
            assert(b[i] == t[i]);
        }
        lemma_without_absent(b, name);
        assert(t[t.len() - 1].vm_name != name);
        assert(b.push(t.last()) =~= t);
    } else {
        assert(ip::without(t, name) =~= t);
    }
}

proof fn lemma_slot_without(t: Seq<Row>, name: Seq<char>, other: Seq<char>)
    requires
        other != name,
    ensures
        ip::slot_of(ip::without(t, name), other) == ip::slot_of(t, other),
        ip::has_vm(ip::without(t, name), other) == ip::has_vm(t, other),
    decreases t.len(),
{
    if t.len() > 0 {
        let b = t.drop_last();
        let w = ip::without(b, name);
        lemma_slot_without(b, name, other);
        assert(b.push(t.last()) =~= t);
        lemma_slot_of_push(b, t.last(), other);
        lemma_slot_of_push(w, t.last(), other);
        lemma_has_push(b, t.last(), other);
        lemma_has_push(w, t.last(), other);
        if !ip::has_vm(b, other) {
            lemma_slot_absent(b, other);
        }
    } else {
        assert(ip::without(t, name) =~= t);
    }
}

proof fn lemma_has_push(t: Seq<Row>, row: Row, name: Seq<char>)
    ensures
        ip::has_vm(t.push(row), name) == (ip::has_vm(t, name) || row.vm_name == name),
{
    let u = t.push(row);
    if ip::has_vm(t, name) {
        let i = choose|i: int| 0 <= i < t.len() && #[trigger] t[i].vm_name == name;
        assert(u[i].vm_name == name);
    }
    if row.vm_name == name {
        assert(u[t.len() as int].vm_name == name);
    }
    if ip::has_vm(u, name) {
        let i = choose|i: int| 0 <= i < u.len() && #[trigger] u[i].vm_name == name;
        if i < t.len() {
            assert(t[i].vm_name == name);
        }
    }
}

/// A slot that only the released VM held is free afterwards.
pub proof fn law_released_slot_is_free(t: Seq<Row>, vm_name: Seq<char>, k: int)
    requires
        ip::unique(t),
        0 <= k < t.len(),
        t[k].vm_name == vm_name,
    ensures
        !ip::used_slots(ip::without(t, vm_name), t[k].subnet).contains(t[k].block_index),
{
    let w = ip::without(t, vm_name);
    let subnet = t[k].subnet;
    let b = t[k].block_index;
    ip::lemma_used_slots(w, subnet, b);
    if ip::used_slots(w, subnet).contains(b) {
        let i = choose|i: int|
            0 <= i < w.len() && #[trigger] w[i].subnet == subnet && w[i].block_index == b;
        lemma_without(t, vm_name);
        assert(w[i].vm_name != vm_name);
        lemma_without_from(t, vm_name, i);
        let j = choose|j: int| 0 <= j < t.len() && #[trigger] t[j] == w[i];
        assert(j != k);
        if j < k {
            assert(!(t[j].subnet == t[k].subnet && t[j].block_index == t[k].block_index));
        } else {
            assert(!(t[k].subnet == t[j].subnet && t[k].block_index == t[j].block_index));
        }
    }
}

proof fn lemma_without_from(t: Seq<Row>, name: Seq<char>, i: int)
    requires
        0 <= i < ip::without(t, name).len(),
    ensures
        exists|j: int| 0 <= j < t.len() && #[trigger] t[j] == ip::without(t, name)[i],
    decreases t.len(),
{
    let b = t.drop_last();
    let w = ip::without(b, name);
    if i < w.len() {
        lemma_without_from(b, name, i);
        let j = choose|j: int| 0 <= j < b.len() && #[trigger] b[j] == w[i];
        assert(t[j] == ip::without(t, name)[i]);
    } else {
        assert(t[t.len() - 1] == ip::without(t, name)[i]);
    }
}

/// An installation keeps to one subnet and one strategy: where all rows agree,
/// they still agree after an allocation.
pub proof fn law_one_subnet_one_strategy(
    before: Seq<Row>,
    after: Seq<Row>,
    subnet: Seq<char>,
    vm_name: Seq<char>,
    exclude: Set<u32>,
    r: Result<IpAllocation, Error>,
    recorded_subnet: Seq<char>,
    strategy: i64,
)
    requires
        ip::singleton(before, recorded_subnet, strategy),
        ip::allocated(before, after, subnet, vm_name, exclude, r),
    ensures
        before.len() > 0 ==> ip::singleton(after, recorded_subnet, strategy),
        r is Ok ==> ip::singleton(after, subnet, ip::STRATEGY_P2P),
{
    if before.len() > 0 {
        assert(before[0].subnet == recorded_subnet);
    }
    assert forall|i: int| r is Ok && 0 <= i < after.len() implies #[trigger] after[i].subnet
        == subnet && after[i].single_address == ip::STRATEGY_P2P by {
        if i < before.len() {
            assert(before[i].subnet == recorded_subnet);
            assert(before[0].subnet == recorded_subnet);
        }
    }
}

/// Every row that an allocation adds can be listed.
pub proof fn law_allocated_rows_are_addressable(
    before: Seq<Row>,
    after: Seq<Row>,
    subnet: Seq<char>,
    vm_name: Seq<char>,
    exclude: Set<u32>,
    r: Result<IpAllocation, Error>,
)
    requires
        ip::allocated(before, after, subnet, vm_name, exclude, r),
        forall|i: int| 0 <= i < before.len() ==> ip::addressable(#[trigger] before[i]),
    ensures
        forall|i: int| 0 <= i < after.len() ==> ip::addressable(#[trigger] after[i]),
{
    if r is Ok {
        let (base, prefix) = ip::cidr(subnet)->Ok_0;
        ip::lemma_cidr_fits(subnet);
        ip::lemma_blocks_in(prefix);
        assert forall|i: int| 0 <= i < after.len() implies ip::addressable(#[trigger] after[i]) by {
            if i < before.len() {
                assert(after[i] == before[i]);
            }
        }
    }
}

/// Every row that an allocation of a single address adds can be listed, unless the
/// subnet is the very last address: there is no host address above it.
pub proof fn law_single_rows_are_addressable(
    before: Seq<Row>,
    after: Seq<Row>,
    subnet: Seq<char>,
    vm_name: Seq<char>,
    host_ip: Seq<char>,
    netmask: Seq<char>,
    reserved: Seq<u32>,
    exclude: Set<u32>,
    r: Result<IpAllocation, Error>,
)
    requires
        ip::allocated_single(
            before,
            after,
            subnet,
            vm_name,
            host_ip,
            netmask,
            reserved,
            exclude,
            r,
        ),
        !is_last_address(subnet),
        forall|i: int| 0 <= i < before.len() ==> ip::addressable(#[trigger] before[i]),
    ensures
        forall|i: int| 0 <= i < after.len() ==> ip::addressable(#[trigger] after[i]),
{
    if r is Ok {
        let (base, prefix) = ip::cidr(subnet)->Ok_0;
        ip::lemma_cidr_fits(subnet);
        assert forall|i: int| 0 <= i < after.len() implies ip::addressable(#[trigger] after[i]) by {
            if i < before.len() {
                assert(after[i] == before[i]);
            }
        }
    }
}

/// Whether a subnet is made of the last address alone.
pub open spec fn is_last_address(subnet: Seq<char>) -> bool {
    ip::cidr(subnet) matches Ok((base, _)) && base == u32::MAX
}

/// Something that happens to the allocation table.
pub enum Event {
    /// [`ip::allocate`] was called.
    Allocate {
        subnet: Seq<char>,
        vm_name: Seq<char>,
        exclude: Set<u32>,
        r: Result<IpAllocation, Error>,
    },
    /// [`ip::allocate_single`] was called.
    AllocateSingle {
        subnet: Seq<char>,
        vm_name: Seq<char>,
        host_ip: Seq<char>,
        netmask: Seq<char>,
        reserved: Seq<u32>,
        exclude: Set<u32>,
        r: Result<IpAllocation, Error>,
    },
    /// [`ip::release`] was called.
    Release { vm_name: Seq<char> },
}

/// What an event makes of the table.
pub open spec fn happened(before: Seq<Row>, e: Event, after: Seq<Row>) -> bool {
    match e {
        Event::Allocate { subnet, vm_name, exclude, r } => ip::allocated(
            before,
            after,
            subnet,
            vm_name,
            exclude,
            r,
        ),
        Event::AllocateSingle { subnet, vm_name, host_ip, netmask, reserved, exclude, r } =>
            ip::allocated_single(
                before,
                after,
                subnet,
                vm_name,
                host_ip,
                netmask,
                reserved,
                exclude,
                r,
            ) && !is_last_address(subnet),
        Event::Release { vm_name } => after == ip::without(before, vm_name),
    }
}

/// Whether a table that was empty went through the given states by the given events.
pub open spec fn went_through(tables: Seq<Seq<Row>>, events: Seq<Event>) -> bool {
    &&& tables.len() == events.len() + 1
    &&& tables[0] == Seq::<Row>::empty()
    &&& forall|k: int|
        0 <= k < events.len() ==> happened(tables[k], #[trigger] events[k], tables[k + 1])
}

/// What an event makes of who holds what.
pub open spec fn holding(before: Map<Seq<char>, Listed>, e: Event) -> Map<Seq<char>, Listed> {
    match e {
        Event::Allocate { subnet, vm_name, exclude: _, r } => match r {
            Ok(a) => before.insert(
                vm_name,
                Listed {
                    block_index: a.block_index,
                    subnet,
                    vm_name,
                    host_ip: a.host_ip@,
                    guest_ip: a.guest_ip@,
                    single_address: false,
                },
            ),
            Err(_) => before,
        },
        Event::AllocateSingle {
            subnet,
            vm_name,
            host_ip: _,
            netmask: _,
            reserved: _,
            exclude: _,
            r,
        } => match r {
            Ok(a) => before.insert(
                vm_name,
                Listed {
                    block_index: a.block_index,
                    subnet,
                    vm_name,
                    host_ip: ip::ip_text((ip::cidr(subnet)->Ok_0.0 + 1) as u32),
                    guest_ip: a.guest_ip@,
                    single_address: true,
                },
            ),
            Err(_) => before,
        },
        Event::Release { vm_name } => before.remove(vm_name),
    }
}

/// Who holds what after the given events: for each VM, what its last successful
/// allocation returned, unless it was released since. The host of a single address
/// is shown as the first address above the base.
pub open spec fn held(events: Seq<Event>) -> Map<Seq<char>, Listed>
    decreases events.len(),
{
    if events.len() == 0 {
        Map::empty()
    } else {
        holding(held(events.drop_last()), events.last())
    }
}

/// Whether a table says who holds what, each once.
pub open spec fn records(t: Seq<Row>, h: Map<Seq<char>, Listed>) -> bool {
    &&& ip::unique(t)
    &&& forall|i: int|
        0 <= i < t.len() ==> {
            &&& ip::cidr((#[trigger] t[i]).subnet) is Ok
            &&& ip::addressable(t[i])
            &&& h.dom().contains(t[i].vm_name)
            &&& h[t[i].vm_name] == ip::resolved(t[i])
        }
    &&& forall|vm: Seq<char>| #[trigger] h.dom().contains(vm) ==> ip::has_vm(t, vm)
}

proof fn lemma_without_keeps(t: Seq<Row>, name: Seq<char>, other: Seq<char>)
    requires
        ip::has_vm(t, other),
        other != name,
    ensures
        ip::has_vm(ip::without(t, name), other),
    decreases t.len(),
{
    let b = t.drop_last();
    let w = ip::without(b, name);
    let u = ip::without(t, name);
    if t.last().vm_name == other {
        assert(u[u.len() - 1].vm_name == other);
    } else {
        let i = choose|i: int| 0 <= i < t.len() && #[trigger] t[i].vm_name == other;
        assert(b[i].vm_name == other);
        lemma_without_keeps(b, name, other);
        let k = choose|k: int| 0 <= k < w.len() && #[trigger] w[k].vm_name == other;
        assert(u[k].vm_name == other);
    }
}

/// Whether two rows are of different VMs and slots.
spec fn differ(a: Row, b: Row) -> bool {
    a.vm_name != b.vm_name && !(a.subnet == b.subnet && a.block_index == b.block_index)
}

proof fn lemma_without_unique(t: Seq<Row>, name: Seq<char>)
    requires
        ip::unique(t),
    ensures
        ip::unique(ip::without(t, name)),
    decreases t.len(),
{
    if t.len() > 0 {
        let b = t.drop_last();
        let w = ip::without(b, name);
        let u = ip::without(t, name);
        assert(ip::unique(b)) by {
            assert forall|i: int, j: int| 0 <= i < j < b.len() implies !(#[trigger] b[i].subnet
                == #[trigger] b[j].subnet && b[i].block_index == b[j].block_index) by {
                assert(b[i] == t[i] && b[j] == t[j]);
            }
            assert forall|i: int, j: int| 0 <= i < j < b.len() implies #[trigger] b[i].vm_name
                != #[trigger] b[j].vm_name by {
                assert(b[i] == t[i] && b[j] == t[j]);
            }
        }
        lemma_without_unique(b, name);
        assert forall|i: int, j: int| 0 <= i < j < u.len() implies differ(
            #[trigger] u[i],
            #[trigger] u[j],
        ) by {
            assert(u[i] == w[i]);
            if j < w.len() {
                assert(u[j] == w[j]);
                assert(w[i].vm_name != w[j].vm_name);
                assert(!(w[i].subnet == w[j].subnet && w[i].block_index == w[j].block_index));
            } else {
                lemma_without_from(b, name, i);
                let k = choose|k: int| 0 <= k < b.len() && #[trigger] b[k] == w[i];
                assert(t[k] == w[i]);
                assert(u[j] == t[t.len() - 1]);
                assert(t[k].vm_name != t[t.len() - 1].vm_name);
                assert(!(t[k].subnet == t[t.len() - 1].subnet && t[k].block_index == t[t.len()
                    - 1].block_index));
            }
        }
        assert forall|i: int, j: int| 0 <= i < j < u.len() implies !(#[trigger] u[i].subnet
            == #[trigger] u[j].subnet && u[i].block_index == u[j].block_index) by {
            assert(differ(u[i], u[j]));
        }
        assert forall|i: int, j: int| 0 <= i < j < u.len() implies #[trigger] u[i].vm_name
            != #[trigger] u[j].vm_name by {
            assert(differ(u[i], u[j]));
        }
    }
}

proof fn lemma_released(before: Seq<Row>, h: Map<Seq<char>, Listed>, vm_name: Seq<char>)
    requires
        records(before, h),
    ensures
        records(ip::without(before, vm_name), h.remove(vm_name)),
{
    let t = ip::without(before, vm_name);
    let g = h.remove(vm_name);
    lemma_without_unique(before, vm_name);
    lemma_without(before, vm_name);
    assert forall|i: int| 0 <= i < t.len() implies {
        &&& ip::cidr((#[trigger] t[i]).subnet) is Ok
        &&& ip::addressable(t[i])
        &&& g.dom().contains(t[i].vm_name)
        &&& g[t[i].vm_name] == ip::resolved(t[i])
    } by {
        lemma_without_from(before, vm_name, i);
        let k = choose|k: int| 0 <= k < before.len() && #[trigger] before[k] == t[i];
        assert(h.dom().contains(before[k].vm_name));
        assert(t[i].vm_name != vm_name);
    }
    assert forall|vm: Seq<char>| #[trigger] g.dom().contains(vm) implies ip::has_vm(t, vm) by {
        assert(h.dom().contains(vm));
        lemma_without_keeps(before, vm_name, vm);
    }
}

proof fn lemma_allocated(
    before: Seq<Row>,
    t: Seq<Row>,
    h: Map<Seq<char>, Listed>,
    subnet: Seq<char>,
    vm_name: Seq<char>,
    exclude: Set<u32>,
    r: Result<IpAllocation, Error>,
)
    requires
        records(before, h),
        ip::allocated(before, t, subnet, vm_name, exclude, r),
    ensures
        records(t, holding(h, Event::Allocate { subnet, vm_name, exclude, r })),
{
    let none = Seq::<char>::empty();
    law_allocation_keeps_unique(before, t, subnet, vm_name, none, none, Seq::empty(), exclude, r);
    assert forall|i: int| 0 <= i < before.len() implies ip::addressable(#[trigger] before[i]) by {}
    law_allocated_rows_are_addressable(before, t, subnet, vm_name, exclude, r);
    if r is Ok {
        lemma_added(
            before,
            t,
            h,
            holding(h, Event::Allocate { subnet, vm_name, exclude, r }),
            vm_name,
        );
    }
}

proof fn lemma_allocated_single(
    before: Seq<Row>,
    t: Seq<Row>,
    h: Map<Seq<char>, Listed>,
    subnet: Seq<char>,
    vm_name: Seq<char>,
    host_ip: Seq<char>,
    netmask: Seq<char>,
    reserved: Seq<u32>,
    exclude: Set<u32>,
    r: Result<IpAllocation, Error>,
)
    requires
        records(before, h),
        ip::allocated_single(
            before,
            t,
            subnet,
            vm_name,
            host_ip,
            netmask,
            reserved,
            exclude,
            r,
        ),
        !is_last_address(subnet),
    ensures
        records(
            t,
            holding(
                h,
                Event::AllocateSingle { subnet, vm_name, host_ip, netmask, reserved, exclude, r },
            ),
        ),
{
    law_allocation_keeps_unique(
        before,
        t,
        subnet,
        vm_name,
        host_ip,
        netmask,
        reserved,
        exclude,
        r,
    );
    assert forall|i: int| 0 <= i < before.len() implies ip::addressable(#[trigger] before[i]) by {}
    law_single_rows_are_addressable(
        before,
        t,
        subnet,
        vm_name,
        host_ip,
        netmask,
        reserved,
        exclude,
        r,
    );
    if r is Ok {
        let e = Event::AllocateSingle { subnet, vm_name, host_ip, netmask, reserved, exclude, r };
        lemma_added(before, t, h, holding(h, e), vm_name);
    }
}

proof fn lemma_history(tables: Seq<Seq<Row>>, events: Seq<Event>, n: int)
    requires
        went_through(tables, events),
        0 <= n <= events.len(),
    ensures
        records(tables[n], held(events.take(n))),
    decreases n,
{
    if n > 0 {
        lemma_history(tables, events, n - 1);
        let h = held(events.take(n - 1));
        assert(events.take(n).drop_last() =~= events.take(n - 1));
        assert(events.take(n).last() == events[n - 1]);
        assert(happened(tables[n - 1], events[n - 1], tables[n - 1 + 1]));
        let (before, t) = (tables[n - 1], tables[n]);
        match events[n - 1] {
            Event::Allocate { subnet, vm_name, exclude, r } => {
                lemma_allocated(before, t, h, subnet, vm_name, exclude, r);
            },
            Event::AllocateSingle { subnet, vm_name, host_ip, netmask, reserved, exclude, r } => {
                lemma_allocated_single(
                    before,
                    t,
                    h,
                    subnet,
                    vm_name,
                    host_ip,
                    netmask,
                    reserved,
                    exclude,
                    r,
                );
            },
            Event::Release { vm_name } => {
                lemma_released(before, h, vm_name);
            },
        }
    }
}

proof fn lemma_added(
    before: Seq<Row>,
    after: Seq<Row>,
    h: Map<Seq<char>, Listed>,
    g: Map<Seq<char>, Listed>,
    vm_name: Seq<char>,
)
    requires
        records(before, h),
        !ip::has_vm(before, vm_name),
        after == before.push(after.last()),
        after.last().vm_name == vm_name,
        ip::unique(after),
        ip::cidr(after.last().subnet) is Ok,
        forall|i: int| 0 <= i < after.len() ==> ip::addressable(#[trigger] after[i]),
        g == h.insert(vm_name, ip::resolved(after.last())),
    ensures
        records(after, g),
{
    let n = before.len() as int;
    assert forall|i: int| 0 <= i < after.len() implies {
        &&& ip::cidr((#[trigger] after[i]).subnet) is Ok
        &&& g.dom().contains(after[i].vm_name)
        &&& g[after[i].vm_name] == ip::resolved(after[i])
    } by {
        if i < n {
            assert(after[i] == before[i]);
            assert(before[i].vm_name != vm_name);
        }
    }
    assert forall|vm: Seq<char>| #[trigger] g.dom().contains(vm) implies ip::has_vm(after, vm) by {
        if vm == vm_name {
            assert(after[n].vm_name == vm_name);
        } else {
            assert(h.dom().contains(vm));
            let k = choose|k: int| 0 <= k < before.len() && #[trigger] before[k].vm_name == vm;
            assert(after[k].vm_name == vm);
        }
    }
}

/// Whether a listed row is that of some row of a table.
pub open spec fn shown_in(t: Seq<Row>, x: Listed) -> bool {
    exists|k: int| 0 <= k < t.len() && ip::resolved(#[trigger] t[k]) == x
}

/// However a table came about, it can be listed, and the list has exactly one row
/// for each VM that holds an allocation, with what its allocation returned, strictly
/// in the order of subnet and slot. `v` is what [`ip::list_allocations`] gives.
pub proof fn law_list_shows_who_holds_what(
    tables: Seq<Seq<Row>>,
    events: Seq<Event>,
    v: Seq<Listed>,
)
    requires
        went_through(tables, events),
        ip::in_order(v),
        v.to_multiset() == ip::resolved_rows(tables.last()).to_multiset(),
    ensures
        forall|i: int|
            0 <= i < tables.last().len() ==> ip::addressable(#[trigger] tables.last()[i]),
        forall|i: int|
            0 <= i < tables.last().len() ==> ip::cidr((#[trigger] tables.last()[i]).subnet) is Ok,
        forall|i: int|
            0 <= i < v.len() ==> held(events).dom().contains((#[trigger] v[i]).vm_name)
                && held(events)[v[i].vm_name] == v[i],
        forall|vm: Seq<char>| #[trigger]
            held(events).dom().contains(vm) ==> v.contains(held(events)[vm]),
        forall|i: int, j: int|
            0 <= i < j < v.len() ==> (#[trigger] v[i]).vm_name != (#[trigger] v[j]).vm_name,
        forall|i: int, j: int|
            0 <= i < j < v.len() ==> ip::listed_before(#[trigger] v[i], #[trigger] v[j]),
{
    broadcast use vstd::seq_lib::group_to_multiset_ensures;

    let t = tables.last();
    lemma_history(tables, events, events.len() as int);
    assert(events.take(events.len() as int) =~= events);
    let h = held(events);
    let w = ip::resolved_rows(t);
    assert forall|i: int, j: int| 0 <= i < w.len() && 0 <= j < w.len() && i != j implies w[i]
        != w[j] by {
        assert(w[i].vm_name == t[i].vm_name && w[j].vm_name == t[j].vm_name);
        if i < j {
            assert(t[i].vm_name != t[j].vm_name);
        } else {
            assert(t[j].vm_name != t[i].vm_name);
        }
    }
    assert(w.no_duplicates());
    w.lemma_multiset_has_no_duplicates();
    v.lemma_multiset_has_no_duplicates_conv();
    assert forall|i: int| 0 <= i < v.len() implies shown_in(t, #[trigger] v[i]) by {
        assert(v.contains(v[i]));
        assert(w.to_multiset().count(v[i]) > 0);
        let k = choose|k: int| 0 <= k < w.len() && w[k] == v[i];
        assert(ip::resolved(t[k]) == v[i]);
    }
    assert forall|i: int| 0 <= i < v.len() implies h.dom().contains((#[trigger] v[i]).vm_name)
        && h[v[i].vm_name] == v[i] by {
        assert(shown_in(t, v[i]));
        let k = choose|k: int| 0 <= k < t.len() && ip::resolved(#[trigger] t[k]) == v[i];
        assert(t[k].vm_name == v[i].vm_name);
    }
    assert forall|vm: Seq<char>| #[trigger] h.dom().contains(vm) implies v.contains(h[vm]) by {
        let k = choose|k: int| 0 <= k < t.len() && #[trigger] t[k].vm_name == vm;
        assert(w[k] == h[vm]);
        assert(w.contains(h[vm]));
        assert(v.to_multiset().count(h[vm]) > 0);
    }
    assert forall|i: int, j: int| 0 <= i < j < v.len() implies (#[trigger] v[i]).vm_name != (
    #[trigger] v[j]).vm_name && ip::listed_before(v[i], v[j]) by {
        assert(shown_in(t, v[i]) && shown_in(t, v[j]));
        let a = choose|k: int| 0 <= k < t.len() && ip::resolved(#[trigger] t[k]) == v[i];
        let b = choose|k: int| 0 <= k < t.len() && ip::resolved(#[trigger] t[k]) == v[j];
        assert(v[i] != v[j]);
        assert(a != b);
        if a < b {
            assert(t[a].vm_name != t[b].vm_name);
            assert(!(t[a].subnet == t[b].subnet && t[a].block_index == t[b].block_index));
        } else {
            assert(t[b].vm_name != t[a].vm_name);
            assert(!(t[b].subnet == t[a].subnet && t[b].block_index == t[a].block_index));
        }
        assert(!ip::listed_before(v[j], v[i]));
        text::lemma_str_less_total(v[i].subnet, v[j].subnet);
    }
}

/// [`check_invariants`] finds nothing exactly where no slot and no name occurs twice.
pub proof fn law_no_anomaly_iff_unique(t: Seq<Row>)
    ensures
        (ip::slot_reports(t, t.len() as int) + ip::name_reports(t, t.len() as int)).len() == 0
            <==> ip::unique(t),
{
    lemma_slot_reports(t, t.len() as int);
    lemma_name_reports(t, t.len() as int);
    let n = t.len() as int;
    if ip::unique(t) {
        assert forall|i: int| 0 <= i < n implies ip::slot_names(
            t,
            (#[trigger] t[i]).subnet,
            t[i].block_index,
        ).len() <= 1 by {
            lemma_slot_names_at_most_one(t, n, t[i].subnet, t[i].block_index);
            assert(t.take(n) =~= t);
        }
        assert forall|i: int| 0 <= i < n implies ip::name_count(t, (#[trigger] t[i]).vm_name)
            <= 1 by {
            lemma_name_count_at_most_one(t, n, t[i].vm_name);
            assert(t.take(n) =~= t);
        }
    } else {
        if !(forall|i: int, j: int|
            0 <= i < j < t.len() ==> !(#[trigger] t[i].subnet == #[trigger] t[j].subnet
                && t[i].block_index == t[j].block_index)) {
            let (i, j) = choose|i: int, j: int|
                0 <= i < j < t.len() && (#[trigger] t[i].subnet == #[trigger] t[j].subnet
                    && t[i].block_index == t[j].block_index);
            lemma_slot_names_two(t, n, i, j);
            assert(t.take(n) =~= t);
            assert(ip::slot_names(t, t[i].subnet, t[i].block_index).len() > 1);
        } else {
            let (i, j) = choose|i: int, j: int|
                0 <= i < j < t.len() && #[trigger] t[i].vm_name == #[trigger] t[j].vm_name;
            lemma_name_count_two(t, n, i, j);
            assert(t.take(n) =~= t);
            assert(ip::name_count(t, t[i].vm_name) > 1);
        }
    }
}

proof fn lemma_slot_reports(t: Seq<Row>, n: int)
    requires
        0 <= n <= t.len(),
    ensures
        ip::slot_reports(t, n).len() == 0 <==> forall|i: int|
            0 <= i < n ==> ip::slot_names(t, (#[trigger] t[i]).subnet, t[i].block_index).len() <= 1,
    decreases n,
{
    if n > 0 {
        lemma_slot_reports(t, n - 1);
        let row = t[n - 1];
        let names = ip::slot_names(t, row.subnet, row.block_index);
        if names.len() > 1 && !ip::first_in_slot(t, n - 1) {
            lemma_slot_names_witness(t.take(n - 1), row.subnet, row.block_index);
            let k = choose|k: int|
                0 <= k < n - 1 && ip::in_slot(
                    #[trigger] t.take(n - 1)[k],
                    row.subnet,
                    row.block_index,
                );
            assert(t[k] == t.take(n - 1)[k]);
            assert(ip::slot_names(t, t[k].subnet, t[k].block_index).len() > 1);
            assert(ip::slot_reports(t, n - 1).len() != 0);
        }
    }
}

proof fn lemma_name_reports(t: Seq<Row>, n: int)
    requires
        0 <= n <= t.len(),
    ensures
        ip::name_reports(t, n).len() == 0 <==> forall|i: int|
            0 <= i < n ==> ip::name_count(t, (#[trigger] t[i]).vm_name) <= 1,
    decreases n,
{
    if n > 0 {
        lemma_name_reports(t, n - 1);
        let row = t[n - 1];
        if ip::name_count(t, row.vm_name) > 1 && !ip::first_of_name(t, n - 1) {
            lemma_name_count_witness(t.take(n - 1), row.vm_name);
            let k = choose|k: int|
                0 <= k < n - 1 && (#[trigger] t.take(n - 1)[k]).vm_name == row.vm_name;
            assert(t[k] == t.take(n - 1)[k]);
            assert(ip::name_count(t, t[k].vm_name) > 1);
        }
    }
}

proof fn lemma_slot_names_witness(t: Seq<Row>, subnet: Seq<char>, b: u32)
    requires
        ip::slot_names(t, subnet, b).len() > 0,
    ensures
        exists|k: int| 0 <= k < t.len() && ip::in_slot(#[trigger] t[k], subnet, b),
    decreases t.len(),
{
    if ip::in_slot(t.last(), subnet, b) {
        assert(ip::in_slot(t[t.len() - 1], subnet, b));
    } else {
        let d = t.drop_last();
        lemma_slot_names_witness(d, subnet, b);
        let k = choose|k: int| 0 <= k < d.len() && ip::in_slot(#[trigger] d[k], subnet, b);
        assert(ip::in_slot(t[k], subnet, b));
    }
}

proof fn lemma_name_count_witness(t: Seq<Row>, name: Seq<char>)
    requires
        ip::name_count(t, name) > 0,
    ensures
        exists|k: int| 0 <= k < t.len() && (#[trigger] t[k]).vm_name == name,
    decreases t.len(),
{
    if t.last().vm_name == name {
        assert(t[t.len() - 1].vm_name == name);
    } else {
        let d = t.drop_last();
        lemma_name_count_witness(d, name);
        let k = choose|k: int| 0 <= k < d.len() && (#[trigger] d[k]).vm_name == name;
        assert(t[k].vm_name == name);
    }
}

proof fn lemma_slot_names_at_most_one(t: Seq<Row>, n: int, subnet: Seq<char>, b: u32)
    requires
        ip::unique(t),
        0 <= n <= t.len(),
    ensures
        ip::slot_names(t.take(n), subnet, b).len() <= 1,
    decreases n,
{
    if n > 0 {
        assert(t.take(n).drop_last() =~= t.take(n - 1));
        lemma_slot_names_at_most_one(t, n - 1, subnet, b);
        let last = t.take(n).last();
        assert(last == t[n - 1]);
        if ip::in_slot(last, subnet, b) && ip::slot_names(t.take(n - 1), subnet, b).len() > 0 {
            lemma_slot_names_witness(t.take(n - 1), subnet, b);
            let k = choose|k: int|
                0 <= k < n - 1 && ip::in_slot(#[trigger] t.take(n - 1)[k], subnet, b);
            assert(t[k] == t.take(n - 1)[k]);
            assert(!(t[k].subnet == t[n - 1].subnet && t[k].block_index == t[n - 1].block_index));
        }
    }
}

proof fn lemma_name_count_at_most_one(t: Seq<Row>, n: int, name: Seq<char>)
    requires
        ip::unique(t),
        0 <= n <= t.len(),
    ensures
        ip::name_count(t.take(n), name) <= 1,
    decreases n,
{
    if n > 0 {
        assert(t.take(n).drop_last() =~= t.take(n - 1));
        lemma_name_count_at_most_one(t, n - 1, name);
        assert(t.take(n).last() == t[n - 1]);
        if t[n - 1].vm_name == name && ip::name_count(t.take(n - 1), name) > 0 {
            lemma_name_count_witness(t.take(n - 1), name);
            let k = choose|k: int| 0 <= k < n - 1 && (#[trigger] t.take(n - 1)[k]).vm_name == name;
            assert(t[k] == t.take(n - 1)[k]);
            assert(t[k].vm_name != t[n - 1].vm_name);
        }
    }
}

proof fn lemma_slot_names_two(t: Seq<Row>, n: int, i: int, j: int)
    requires
        0 <= i < t.len(),
        0 <= j < t.len(),
        i < j,
        0 <= n <= t.len(),
        t[i].subnet == t[j].subnet,
        t[i].block_index == t[j].block_index,
    ensures
        i < n ==> ip::slot_names(t.take(n), t[i].subnet, t[i].block_index).len() >= 1,
        j < n ==> ip::slot_names(t.take(n), t[i].subnet, t[i].block_index).len() >= 2,
    decreases n,
{
    if n > 0 {
        assert(t.take(n).drop_last() =~= t.take(n - 1));
        assert(t.take(n).last() == t[n - 1]);
        lemma_slot_names_two(t, n - 1, i, j);
    }
}

proof fn lemma_name_count_two(t: Seq<Row>, n: int, i: int, j: int)
    requires
        0 <= i < t.len(),
        0 <= j < t.len(),
        i < j,
        0 <= n <= t.len(),
        t[i].vm_name == t[j].vm_name,
    ensures
        i < n ==> ip::name_count(t.take(n), t[i].vm_name) >= 1,
        j < n ==> ip::name_count(t.take(n), t[i].vm_name) >= 2,
    decreases n,
{
    if n > 0 {
        assert(t.take(n).drop_last() =~= t.take(n - 1));
        assert(t.take(n).last() == t[n - 1]);
        lemma_name_count_two(t, n - 1, i, j);
    }
}

proof fn lemma_four_parts(w: Seq<char>, x: Seq<char>, y: Seq<char>, z: Seq<char>)
    requires
        forall|i: int| 0 <= i < w.len() ==> w[i] != '.',
        forall|i: int| 0 <= i < x.len() ==> x[i] != '.',
        forall|i: int| 0 <= i < y.len() ==> y[i] != '.',
        forall|i: int| 0 <= i < z.len() ==> z[i] != '.',
    ensures
        text::split_char(w + "."@ + x + "."@ + y + "."@ + z, '.') == seq![w, x, y, z],
{
    reveal_strlit(".");
    assert("."@ =~= seq!['.']);
    text::lemma_split_none(w, '.');
    text::lemma_split_append(w, x, '.');
    text::lemma_split_append(w.push('.') + x, y, '.');
    text::lemma_split_append((w.push('.') + x).push('.') + y, z, '.');
    assert(w + "."@ + x + "."@ + y + "."@ + z =~= ((w.push('.') + x).push('.') + y).push('.') + z);
    assert(seq![w].push(x).push(y).push(z) =~= seq![w, x, y, z]);
}

proof fn lemma_recompose(a: u32)
    ensures
        (a / 0x100_0000) * 0x100_0000 + (a / 0x1_0000 % 0x100) * 0x1_0000 + (a / 0x100 % 0x100)
            * 0x100 + a % 0x100 == a,
        a / 0x100_0000 < 256,
{
    let b = a / 0x100;
    let c = b / 0x100;
    assert(a / 0x1_0000 == c);
    assert(a / 0x100_0000 == c / 0x100);
}

/// The dotted form of an address is read back as that address.
pub proof fn law_ip_text_round_trip(a: u32)
    ensures
        ip::ipv4(ip::ip_text(a)) == Some(a),
{
    let w = (a / 0x100_0000) as nat;
    let x = (a / 0x1_0000 % 0x100) as nat;
    let y = (a / 0x100 % 0x100) as nat;
    let z = (a % 0x100) as nat;
    lemma_recompose(a);
    lemma_octet(w);
    lemma_octet(x);
    lemma_octet(y);
    lemma_octet(z);
    lemma_four_parts(text::dec(w), text::dec(x), text::dec(y), text::dec(z));
    let p = text::split_char(ip::ip_text(a), '.');
    assert(p.len() == 4);
    assert(ip::octet(p[0]) == Some(w) && ip::octet(p[1]) == Some(x) && ip::octet(p[2]) == Some(y)
        && ip::octet(p[3]) == Some(z));
}

proof fn lemma_octet(n: nat)
    requires
        n < 256,
    ensures
        ip::octet(text::dec(n)) == Some(n),
        forall|i: int| 0 <= i < text::dec(n).len() ==> text::dec(n)[i] != '.',
{
    text::lemma_value_of_dec(n);
    reveal_with_fuel(text::dec, 3);
    let s = text::dec(n);
    assert(s.len() <= 3);
    assert(s.len() == 1 || s[0] != '0');
    assert forall|i: int| 0 <= i < s.len() implies s[i] != '.' by {
        assert(text::is_digit(s[i]));
    }
}

/// The dotted form of an address has no slash.
pub proof fn lemma_ip_text_chars(a: u32, i: int)
    requires
        0 <= i < ip::ip_text(a).len(),
    ensures
        ip::ip_text(a)[i] != '/',
{
    reveal_strlit(".");
    let w = text::dec((a / 0x100_0000) as nat);
    let x = text::dec((a / 0x1_0000 % 0x100) as nat);
    let y = text::dec((a / 0x100 % 0x100) as nat);
    let z = text::dec((a % 0x100) as nat);
    text::lemma_value_of_dec((a / 0x100_0000) as nat);
    text::lemma_value_of_dec((a / 0x1_0000 % 0x100) as nat);
    text::lemma_value_of_dec((a / 0x100 % 0x100) as nat);
    text::lemma_value_of_dec((a % 0x100) as nat);
    let s = ip::ip_text(a);
    let p = w.len() as int;
    let q = p + 1 + x.len();
    let r = q + 1 + y.len();
    if i < p {
        assert(s[i] == w[i]);
    } else if i == p {
        assert(s[i] == '.');
    } else if i < q {
        assert(s[i] == x[i - p - 1]);
    } else if i == q {
        assert(s[i] == '.');
    } else if i < r {
        assert(s[i] == y[i - q - 1]);
    } else if i == r {
        assert(s[i] == '.');
    } else {
        assert(s[i] == z[i - r - 1]);
    }
}

/// A base address without host bits and a prefix, written down, are read back as
/// they are.
pub proof fn law_cidr_round_trip(a: u32, p: u8)
    requires
        p <= 32,
        a as nat % ip::cidr_size(p) == 0,
    ensures
        ip::cidr(ip::ip_text(a) + "/"@ + text::dec(p as nat)) == Ok::<(u32, u8), Seq<char>>((a, p)),
{
    let head = ip::ip_text(a);
    let d = text::dec(p as nat);
    let s = head + "/"@ + d;
    reveal_strlit("/");
    assert forall|i: int| 0 <= i < head.len() implies s[i] != '/' by {
        lemma_ip_text_chars(a, i);
        assert(s[i] == head[i]);
    }
    text::lemma_first_of(s, '/', head.len() as int);
    assert(s.take(head.len() as int) =~= head);
    assert(s.skip(head.len() as int + 1) =~= d);
    law_ip_text_round_trip(a);
    text::lemma_parse_of_dec(p as nat, 255);
}

/// Two slots of one subnet never share an address: the hosts and guests of two
/// `/30` blocks are four different addresses.
pub proof fn law_blocks_do_not_overlap(base: u32, i: u32, j: u32)
    requires
        i != j,
        base + 4 * i + 2 <= u32::MAX,
        base + 4 * j + 2 <= u32::MAX,
    ensures
        ip::ip_text(ip::block_guest(base, i)) != ip::ip_text(ip::block_guest(base, j)),
        ip::ip_text(ip::block_host(base, i)) != ip::ip_text(ip::block_host(base, j)),
        ip::ip_text(ip::block_host(base, i)) != ip::ip_text(ip::block_guest(base, j)),
        ip::ip_text(ip::block_host(base, i)) != ip::ip_text(ip::block_guest(base, i)),
{
    law_ip_text_round_trip(ip::block_guest(base, i));
    law_ip_text_round_trip(ip::block_guest(base, j));
    law_ip_text_round_trip(ip::block_host(base, i));
    law_ip_text_round_trip(ip::block_host(base, j));
}

/// Two VMs of a table that the allocators made never get the same guest address.
pub proof fn law_guests_get_different_addresses(t: Seq<Row>, subnet: Seq<char>, i: int, j: int)
    requires
        ip::unique(t),
        ip::singleton(t, subnet, ip::STRATEGY_P2P) || ip::singleton(t, subnet, ip::STRATEGY_SINGLE),
        ip::cidr(subnet) is Ok,
        0 <= i < j < t.len(),
        ip::addressable(t[i]),
        ip::addressable(t[j]),
    ensures
        ip::resolved(t[i]).guest_ip != ip::resolved(t[j]).guest_ip,
{
    let base = ip::cidr(subnet)->Ok_0.0;
    assert(t[i].subnet == subnet && t[j].subnet == subnet);
    assert(t[i].block_index != t[j].block_index);
    if ip::singleton(t, subnet, ip::STRATEGY_SINGLE) {
        law_ip_text_round_trip((base + t[i].block_index) as u32);
        law_ip_text_round_trip((base + t[j].block_index) as u32);
    } else {
        law_blocks_do_not_overlap(base, t[i].block_index, t[j].block_index);
    }
}

} // verus!
