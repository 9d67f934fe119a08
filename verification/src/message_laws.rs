//! What messages tell, whatever they are about.
use crate::dm_thin::pool;
use crate::dm_thin::storage as thin_storage;
use crate::emberd::checkpoint;
use crate::emberd::checkpoint::{Checkpointing, Restoring};
use crate::emberd::reset;
use crate::kernel;
use crate::kernel::ImageProbe;
use crate::linux::reconcile;
use crate::macos::storage;
use crate::macos::vm;
use crate::macos::vm::HelperSignal;
use crate::network::ip;
use crate::state::vm::VmMetadata;
use crate::text;
use vstd::prelude::*;

verus! {

proof fn lemma_inside(a: Seq<char>, m: Seq<char>, b: Seq<char>)
    ensures
        text::contains_text(a + m + b, m),
{
    let i = a.len() as int;
    assert((a + m + b).subrange(i, i + m.len()) =~= m);
    assert(text::occurs_at(a + m + b, m, i));
}

proof fn lemma_end(a: Seq<char>, b: Seq<char>)
    ensures
        b.is_suffix_of(a + b),
{
    assert((a + b).skip(a.len() as int) =~= b);
}

/// A failure to make a checkpoint ends with what went wrong.
pub proof fn law_checkpoint_faults_tell_why(p: Checkpointing, why: Seq<char>)
    ensures
        why.is_suffix_of(checkpoint::checkpoint_fault(p, why)),
{
    let s = checkpoint::checkpoint_fault(p, why);
    assert(s.skip(s.len() - why.len()) =~= why);
}

/// A failure to restore one ends with what went wrong, but for a workspace that is in
/// no directory and a clone that did not work, which say that themselves.
pub proof fn law_restore_faults_tell_why(p: Restoring, why: Seq<char>)
    requires
        p != Restoring::AskParent && p != Restoring::CowCopy,
    ensures
        why.is_suffix_of(checkpoint::restore_fault(p, why)),
{
    let s = checkpoint::restore_fault(p, why);
    assert(s.skip(s.len() - why.len()) =~= why);
}

/// A path that may not be deleted is named by the refusal.
pub proof fn law_refused_paths_are_named(path: Seq<char>)
    ensures
        reset::path_fault(path) matches Some(m) ==> path.is_suffix_of(m),
{
    lemma_end("path must be absolute: "@, path);
    lemma_end("path must not contain '..': "@, path);
    lemma_end("path outside allowed roots (/home/ubuntu/, /tmp/): "@, path);
}

/// A clone that fails is told with both files and what the tool said; where the
/// volume is at fault, with what the tool said and what a volume must be.
pub proof fn law_failed_clones_are_told(src: Seq<char>, dest: Seq<char>, stderr: Seq<char>)
    ensures
        ({
            let m = storage::clone_failed_text(src, dest, stderr);
            let volume = text::contains_text(stderr, "Cross-device link"@) || text::contains_text(
                stderr,
                "Not supported"@,
            );
            &&& text::contains_text(m, text::trim(stderr))
            &&& volume ==> "APFS clone failed: "@.is_prefix_of(m)
            &&& !volume ==> text::contains_text(m, src + " → "@ + dest)
        }),
{
    let t = text::trim(stderr);
    let tail = ". VM storage must be on an APFS volume. The state directory may be on a non-APFS filesystem or the source and destination are on different volumes."@;
    lemma_inside("APFS clone failed: "@, t, tail);
    let v = "APFS clone failed: "@ + t + tail;
    assert(v.take("APFS clone failed: "@.len() as int) =~= "APFS clone failed: "@);
    let both = src + " → "@ + dest;
    let head = "cp -c "@ + both + " failed: "@;
    let m = "cp -c "@ + src + " → "@ + dest + " failed: "@ + t;
    assert(m =~= head + t + Seq::empty());
    lemma_inside(head, t, Seq::empty());
    assert(m =~= "cp -c "@ + both + (" failed: "@ + t));
    lemma_inside("cp -c "@, both, " failed: "@ + t);
}

/// A subnet that is used up is named, and so is how many of its slots are taken.
pub proof fn law_full_subnets_are_named(
    subnet: Seq<char>,
    max: nat,
    used: nat,
    reserved: nat,
    excluded: Set<u32>,
)
    ensures
        text::contains_text(ip::no_block_text(subnet, max, used, excluded), subnet),
        text::contains_text(ip::no_address_text(subnet, used, reserved, excluded), subnet),
        excluded.is_empty() ==> text::contains_text(
            ip::no_block_text(subnet, max, used, excluded),
            "all "@ + text::dec(max) + " blocks"@,
        ),
{
    let m = ip::no_block_text(subnet, max, used, excluded);
    if excluded.is_empty() {
        let rest = " (all "@ + text::dec(max) + " blocks allocated)"@;
        lemma_inside("no free /30 blocks in "@, subnet, rest);
        assert(m =~= "no free /30 blocks in "@ + subnet + rest);
        reveal_strlit(" (all ");
        reveal_strlit(" (");
        reveal_strlit("all ");
        reveal_strlit(" blocks allocated)");
        reveal_strlit(" blocks");
        reveal_strlit(" allocated)");
        let a = "no free /30 blocks in "@ + subnet + " ("@;
        let b = "all "@ + text::dec(max) + " blocks"@;
        lemma_inside(a, b, " allocated)"@);
        assert(m =~= a + b + " allocated)"@);
        let n = ip::no_address_text(subnet, used, reserved, excluded);
        let end = " ("@ + text::dec(used) + " allocated, "@ + text::dec(reserved) + " reserved)"@;
        lemma_inside("no free addresses in "@, subnet, end);
        assert(n =~= "no free addresses in "@ + subnet + end);
    } else {
        let hint = " poisoned (transient VZ start failures) — try 'ember network reset' or reboot"@;
        let rest = ": "@ + text::dec(used) + " allocated, "@ + text::dec(excluded.len()) + hint;
        lemma_inside("no usable /30 blocks in "@, subnet, rest);
        assert(m =~= "no usable /30 blocks in "@ + subnet + rest);
        let n = ip::no_address_text(subnet, used, reserved, excluded);
        let end = ": "@ + text::dec(used) + " allocated, "@ + text::dec(reserved) + " reserved, "@
            + text::dec(excluded.len()) + hint;
        lemma_inside("no usable addresses in "@, subnet, end);
        assert(n =~= "no usable addresses in "@ + subnet + end);
    }
}

/// A kernel that is refused is named; one that cannot be read with the reason, and
/// one of the wrong kind with its size.
pub proof fn law_refused_kernels_are_named(path: Seq<char>, why: String, size: u64, header: Vec<u8>)
    ensures
        ("kernel '"@ + path + "'"@).is_prefix_of(
            kernel::image_fault(path, ImageProbe::Unreadable(why)),
        ),
        why@.is_suffix_of(kernel::image_fault(path, ImageProbe::Unreadable(why))),
        ("kernel '"@ + path + "'"@).is_prefix_of(
            kernel::image_fault(path, ImageProbe::Read { size, header }),
        ),
        size > 0 ==> text::contains_text(
            kernel::image_fault(path, ImageProbe::Read { size, header }),
            text::dec(size as nat),
        ),
{
    reveal_strlit("'");
    reveal_strlit("': ");
    reveal_strlit("' (");
    reveal_strlit("' is 0 bytes — refusing to record an unbootable kernel.\nHint: restore a known-good kernel image, or run `ember kernel build` to compile one.");
    let h = "kernel '"@ + path + "'"@;
    let u = kernel::image_fault(path, ImageProbe::Unreadable(why));
    assert(u.take(h.len() as int) =~= h);
    assert(u.skip(u.len() - why@.len()) =~= why@);
    let r = kernel::image_fault(path, ImageProbe::Read { size, header });
    assert(r.take(h.len() as int) =~= h);
    if size > 0 {
        let a = "kernel '"@ + path + "' ("@;
        let d = text::dec(size as nat);
        let i = a.len() as int;
        assert(r.subrange(i, i + d.len()) =~= d);
        assert(text::occurs_at(r, d, i));
    }
}

/// The bytes that a file starts with are shown one by one, each by its two digits.
pub proof fn law_first_bytes_are_shown(h: Seq<u8>, n: int, i: int)
    requires
        0 <= i < n <= h.len(),
    ensures
        kernel::hex_list(h, n).len() == n,
        kernel::hex_list(h, n)[i] == text::hex_fixed(h[i] as nat, 2),
    decreases n,
{
    if i < n - 1 {
        law_first_bytes_are_shown(h, n - 1, i);
    } else if n > 1 {
        law_first_bytes_are_shown(h, n - 1, 0);
    } else {
        reveal_with_fuel(kernel::hex_list, 2);
    }
}

/// The user is told which VM was found dead, and by which process where it had one.
pub proof fn law_dead_vms_are_named(vm: VmMetadata)
    ensures
        ("Warning: VM '"@ + vm.name@ + "'"@).is_prefix_of(reconcile::warning_text(vm)),
        vm.pid matches Some(p) ==> text::contains_text(
            reconcile::warning_text(vm),
            "pid "@ + text::dec(p as nat),
        ),
{
    reveal_strlit("'");
    reveal_strlit("' is ");
    reveal_strlit("' process (pid ");
    reveal_strlit("pid ");
    let s = reconcile::warning_text(vm);
    let h = "Warning: VM '"@ + vm.name@ + "'"@;
    assert(s.take(h.len() as int) =~= h);
    if vm.pid is Some {
        let d = "pid "@ + text::dec(vm.pid->0 as nat);
        let i = "Warning: VM '"@.len() + vm.name@.len() as int + 11;
        assert(s.subrange(i, i + d.len()) =~= d);
        assert(text::occurs_at(s, d, i));
    }
}

/// A signal that could not be sent is told by its name, the process and the reason;
/// no two signals have the same name.
pub proof fn law_unsent_signals_are_told(a: HelperSignal, b: HelperSignal, pid: u32, why: Seq<char>)
    ensures
        ("failed to send "@ + a.text()).is_prefix_of(vm::signal_error_text(a, pid, why)),
        text::contains_text(vm::signal_error_text(a, pid, why), text::dec(pid as nat)),
        why.is_suffix_of(vm::signal_error_text(a, pid, why)),
        a.text() == b.text() ==> a == b,
{
    let s = vm::signal_error_text(a, pid, why);
    let h = "failed to send "@ + a.text();
    assert(s.take(h.len() as int) =~= h);
    assert(s.skip(s.len() - why.len()) =~= why);
    let d = text::dec(pid as nat);
    lemma_inside(h + " to ember-vz (pid "@, d, "): "@ + why);
    assert(s =~= h + " to ember-vz (pid "@ + d + ("): "@ + why));
    reveal_strlit("SIGTERM");
    reveal_strlit("SIGKILL");
    reveal_strlit("SIGUSR1 (pause)");
    reveal_strlit("SIGUSR2 (resume)");
    assert("SIGTERM"@.len() == 7 && "SIGKILL"@.len() == 7 && "SIGUSR1 (pause)"@.len() == 15);
    assert("SIGUSR2 (resume)"@.len() == 16 && "SIGTERM"@[3] == 'T' && "SIGKILL"@[3] == 'K');
}

/// A pool that cannot be used is named.
pub proof fn law_sick_pools_are_named(name: Seq<char>, s: pool::PoolStatus)
    ensures
        ("dm-thin pool '"@ + name).is_prefix_of(thin_storage::sick_text(name, s)),
{
    let m = thin_storage::sick_text(name, s);
    let h = "dm-thin pool '"@ + name;
    assert(m.take(h.len() as int) =~= h);
}

} // verus!
