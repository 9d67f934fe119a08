//! Bringing the records in line with what is really there, before a command runs.
//!
//! A VM whose process is gone is marked as stopped, and its network is taken
//! down. TAP devices of this installation that belong to no live VM are deleted.
use crate::state::vm::{VmMetadata, VmStatus};
use crate::text;
use vstd::prelude::*;

verus! {

/// What to do about a VM.
#[derive(Clone, Copy, Debug, PartialEq, Eq, Structural)]
pub enum Verdict {
    /// Its record says that it does not run.
    Ignore,
    /// It runs; its TAP device is in use.
    Keep,
    /// Its record names no process; mark it as stopped.
    StopWithoutPid,
    /// Its process is gone; mark it as stopped.
    Stop,
    /// Its process is gone; take its network down and mark it as stopped.
    CleanUpAndStop,
}

/// What to do about a VM, given whether its process is alive and whether the
/// configuration is known.
pub open spec fn verdict_on(vm: VmMetadata, alive: bool, has_config: bool) -> Verdict {
    if vm.status != VmStatus::Running && vm.status != VmStatus::Paused {
        Verdict::Ignore
    } else if vm.pid is None {
        Verdict::StopWithoutPid
    } else if alive {
        Verdict::Keep
    } else if vm.network is Some && has_config {
        Verdict::CleanUpAndStop
    } else {
        Verdict::Stop
    }
}

/// What to do about a VM.
pub fn verdict(vm: &VmMetadata, alive: bool, has_config: bool) -> (r: Verdict)
    ensures
        r == verdict_on(*vm, alive, has_config),
{
    match vm.status {
        VmStatus::Running | VmStatus::Paused => {},
        _ => return Verdict::Ignore,
    }
    if vm.pid.is_none() {
        Verdict::StopWithoutPid
    } else if alive {
        Verdict::Keep
    } else if vm.network.is_some() && has_config {
        Verdict::CleanUpAndStop
    } else {
        Verdict::Stop
    }
}

/// What to tell the user about a VM that is marked as stopped.
pub open spec fn warning_text(vm: VmMetadata) -> Seq<char> {
    match vm.pid {
        None => "Warning: VM '"@ + vm.name@ + "' is "@ + vm.status.text()
            + " but has no PID, marking stopped"@,
        Some(pid) => "Warning: VM '"@ + vm.name@ + "' process (pid "@ + text::dec(pid as nat)
            + ") is dead, marking stopped"@,
    }
}

/// What to tell the user about a VM that is marked as stopped.
pub fn warning(vm: &VmMetadata) -> (r: String)
    ensures
        r@ == warning_text(*vm),
{
    match vm.pid {
        None => text::cat5(
            "Warning: VM '",
            vm.name.as_str(),
            "' is ",
            vm.status.name(),
            " but has no PID, marking stopped",
        ),
        Some(pid) => text::cat5(
            "Warning: VM '",
            vm.name.as_str(),
            "' process (pid ",
            text::dec_u64(pid as u64).as_str(),
            ") is dead, marking stopped",
        ),
    }
}

/// Marks a VM as stopped: it has no process and no network any more. Nothing else
/// of its record changes.
pub fn mark_stopped(vm: &mut VmMetadata)
    ensures
        final(vm).status == VmStatus::Stopped,
        final(vm).pid is None,
        final(vm).network is None,
        *final(vm) == (VmMetadata {
            status: VmStatus::Stopped,
            pid: None,
            network: None,
            ..*old(vm)
        }),
{
    vm.status = VmStatus::Stopped;
    vm.pid = None;
    vm.network = None;
}

/// The TAP devices that live VMs use.
pub open spec fn active_taps(vms: Seq<VmMetadata>, alive: Seq<bool>) -> Seq<Seq<char>>
    decreases vms.len(),
{
    if vms.len() == 0 {
        Seq::empty()
    } else {
        let before = active_taps(vms.drop_last(), alive);
        if verdict_on(vms.last(), alive[vms.len() - 1], true) == Verdict::Keep
            && vms.last().network is Some {
            before.push(vms.last().network->0.tap_device@)
        } else {
            before
        }
    }
}

/// The TAP devices that live VMs use.
pub fn collect_active(vms: &Vec<VmMetadata>, alive: &Vec<bool>) -> (r: Vec<String>)
    requires
        vms@.len() == alive@.len(),
    ensures
        text::views(r@) == active_taps(vms@, alive@),
{
    let mut out: Vec<String> = Vec::new();
    let mut i: usize = 0;
    assert(vms@.take(0) =~= Seq::<VmMetadata>::empty());
    assert(text::views(out@) =~= Seq::<Seq<char>>::empty());
    while i < vms.len()
        invariant
            i <= vms.len(),
            vms@.len() == alive@.len(),
            text::views(out@) == active_taps(vms@.take(i as int), alive@),
        decreases vms.len() - i,
    {
        proof {
            assert(vms@.take(i + 1).drop_last() =~= vms@.take(i as int));
            assert(vms@.take(i + 1).last() == vms@[i as int]);
        }
        match verdict(&vms[i], alive[i], true) {
            Verdict::Keep => {
                if let Some(net) = &vms[i].network {
                    let s = net.tap_device.clone();
                    proof {
                        text::lemma_views_push(out@, s);
                    }
                    out.push(s);
                }
            },
            _ => {},
        }
        i += 1;
    }
    assert(vms@.take(vms@.len() as int) =~= vms@);
    out
}

/// The devices of a list that are not in another one.
pub open spec fn others(devices: Seq<Seq<char>>, active: Seq<Seq<char>>) -> Seq<Seq<char>>
    decreases devices.len(),
{
    if devices.len() == 0 {
        Seq::empty()
    } else {
        let before = others(devices.drop_last(), active);
        if active.contains(devices.last()) {
            before
        } else {
            before.push(devices.last())
        }
    }
}

/// The devices to delete: those of this installation that no live VM uses. Without
/// a configuration there are none: a device might be that of another installation.
pub fn run(
    vms: &Vec<VmMetadata>,
    alive: &Vec<bool>,
    devices: &Vec<String>,
    has_config: bool,
) -> (r: Vec<String>)
    requires
        vms@.len() == alive@.len(),
    ensures
        text::views(r@) == (if has_config {
            others(text::views(devices@), active_taps(vms@, alive@))
        } else {
            Seq::empty()
        }),
{
    if !has_config {
        let none: Vec<String> = Vec::new();
        assert(text::views(none@) =~= Seq::<Seq<char>>::empty());
        return none;
    }
    let active = collect_active(vms, alive);
    let ghost d = text::views(devices@);
    let mut out: Vec<String> = Vec::new();
    let mut i: usize = 0;
    assert(d.take(0) =~= Seq::<Seq<char>>::empty());
    assert(text::views(out@) =~= Seq::<Seq<char>>::empty());
    while i < devices.len()
        invariant
            i <= devices.len(),
            d == text::views(devices@),
            text::views(out@) == others(d.take(i as int), text::views(active@)),
        decreases devices.len() - i,
    {
        proof {
            assert(d.take(i + 1).drop_last() =~= d.take(i as int));
            assert(d.take(i + 1).last() == devices@[i as int]@);
        }
        if !text::list_has(&active, devices[i].as_str()) {
            let s = devices[i].clone();
            proof {
                text::lemma_views_push(out@, s);
            }
            out.push(s);
        }
        i += 1;
    }
    assert(d.take(d.len() as int) =~= d);
    out
}

proof fn lemma_active_has(vms: Seq<VmMetadata>, alive: Seq<bool>, k: int)
    requires
        0 <= k < vms.len(),
        vms.len() <= alive.len(),
        verdict_on(vms[k], alive[k], true) == Verdict::Keep,
        vms[k].network is Some,
    ensures
        active_taps(vms, alive).contains(vms[k].network->0.tap_device@),
    decreases vms.len(),
{
    let d = vms.drop_last();
    let b = active_taps(d, alive);
    let a = active_taps(vms, alive);
    if k == vms.len() - 1 {
        assert(a[a.len() - 1] == vms[k].network->0.tap_device@);
    } else {
        assert(d[k] == vms[k]);
        lemma_active_has(d, alive, k);
        let i = choose|i: int| 0 <= i < b.len() && b[i] == vms[k].network->0.tap_device@;
        assert(a[i] == b[i]);
    }
}

/// Everything that is deleted is a device that no live VM uses, and every such
/// device is deleted.
pub proof fn law_orphans(devices: Seq<Seq<char>>, active: Seq<Seq<char>>, x: Seq<char>)
    ensures
        others(devices, active).contains(x) <==> devices.contains(x) && !active.contains(x),
    decreases devices.len(),
{
    if devices.len() > 0 {
        let d = devices.drop_last();
        let b = others(d, active);
        let o = others(devices, active);
        law_orphans(d, active, x);
        assert(d.push(devices.last()) =~= devices);
        if o.contains(x) {
            let i = choose|i: int| 0 <= i < o.len() && o[i] == x;
            if i < b.len() {
                assert(b[i] == x);
                assert(b.contains(x));
                let j = choose|j: int| 0 <= j < d.len() && d[j] == x;
                assert(devices[j] == x);
            } else {
                assert(devices[devices.len() - 1] == x);
            }
        }
        if devices.contains(x) && !active.contains(x) {
            let j = choose|j: int| 0 <= j < devices.len() && devices[j] == x;
            if j < d.len() {
                assert(d[j] == x);
                let i = choose|i: int| 0 <= i < b.len() && b[i] == x;
                assert(o[i] == x);
            } else {
                assert(o[o.len() - 1] == x);
            }
        }
    }
}

/// The TAP device of a live VM is never deleted.
pub proof fn law_live_devices_survive(
    vms: Seq<VmMetadata>,
    alive: Seq<bool>,
    devices: Seq<Seq<char>>,
    k: int,
)
    requires
        0 <= k < vms.len(),
        vms.len() <= alive.len(),
        vms[k].status == VmStatus::Running || vms[k].status == VmStatus::Paused,
        vms[k].pid is Some,
        alive[k],
        vms[k].network is Some,
    ensures
        !others(devices, active_taps(vms, alive)).contains(vms[k].network->0.tap_device@),
{
    lemma_active_has(vms, alive, k);
    law_orphans(devices, active_taps(vms, alive), vms[k].network->0.tap_device@);
}

} // verus!
