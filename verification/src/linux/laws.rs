//! What holds of what a Linux host shows and decides, whatever it is about.
use crate::config::{DmThinMode, GlobalConfig, StorageKind};
use crate::dm_thin::pool;
use crate::linux::platform;
use crate::linux::reconcile;
use crate::linux::reconcile::Verdict;
use crate::linux::vm;
use crate::linux::vsock;
use crate::state::vm::{VmMetadata, VmStatus};
use crate::text;
use crate::text_laws;
use vstd::prelude::*;

verus! {

/// Whether a VM really runs: its record says so and names a process that is alive.
pub open spec fn really_runs(vm: VmMetadata, alive: bool) -> bool {
    (vm.status == VmStatus::Running || vm.status == VmStatus::Paused) && vm.pid is Some && alive
}

/// Whether a record says that a VM runs though it does not.
pub open spec fn claims_to_run(vm: VmMetadata, alive: bool) -> bool {
    (vm.status == VmStatus::Running || vm.status == VmStatus::Paused) && !(vm.pid is Some && alive)
}

/// A VM is marked as stopped exactly where its record says that it runs though it
/// does not. Its network is taken down where it has one, its process is gone and
/// the configuration is known, and never that of a VM that runs.
pub proof fn law_only_dead_vms_are_stopped(vm: VmMetadata, alive: bool, has_config: bool)
    ensures
        ({
            let v = reconcile::verdict_on(vm, alive, has_config);
            &&& really_runs(vm, alive) <==> v == Verdict::Keep
            &&& claims_to_run(vm, alive) <==> v == Verdict::Stop || v == Verdict::StopWithoutPid || v
                == Verdict::CleanUpAndStop
            &&& v == Verdict::CleanUpAndStop <==> claims_to_run(vm, alive) && vm.pid is Some
                && vm.network is Some && has_config
            &&& v == Verdict::StopWithoutPid <==> claims_to_run(vm, alive) && vm.pid is None
        }),
{
}

/// A device is in use exactly where it is that of a VM that really runs.
pub proof fn law_devices_in_use(vms: Seq<VmMetadata>, alive: Seq<bool>, x: Seq<char>)
    requires
        vms.len() <= alive.len(),
    ensures
        reconcile::active_taps(vms, alive).contains(x) <==> exists|k: int|
            0 <= k < vms.len() && #[trigger] really_runs(vms[k], alive[k]) && vms[k].network is Some
                && vms[k].network->0.tap_device@ == x,
    decreases vms.len(),
{
    let a = reconcile::active_taps(vms, alive);
    if vms.len() > 0 {
        let d = vms.drop_last();
        let n = vms.len() - 1;
        let b = reconcile::active_taps(d, alive);
        law_devices_in_use(d, alive, x);
        if a.contains(x) {
            let i = choose|i: int| 0 <= i < a.len() && a[i] == x;
            if i < b.len() {
                assert(b[i] == x);
                assert(b.contains(x));
                let k = choose|k: int|
                    0 <= k < d.len() && #[trigger] really_runs(d[k], alive[k]) && d[k].network is Some
                        && d[k].network->0.tap_device@ == x;
                assert(d[k] == vms[k]);
                assert(really_runs(vms[k], alive[k]));
            } else {
                assert(really_runs(vms[n], alive[n]));
            }
        }
        if exists|k: int|
            0 <= k < vms.len() && #[trigger] really_runs(vms[k], alive[k]) && vms[k].network is Some
                && vms[k].network->0.tap_device@ == x {
            let k = choose|k: int|
                0 <= k < vms.len() && #[trigger] really_runs(vms[k], alive[k])
                    && vms[k].network is Some && vms[k].network->0.tap_device@ == x;
            if k < n {
                assert(d[k] == vms[k]);
                assert(really_runs(d[k], alive[k]));
                let i = choose|i: int| 0 <= i < b.len() && b[i] == x;
                assert(a[i] == x);
            } else {
                assert(a[a.len() - 1] == x);
            }
        }
    }
}

proof fn lemma_untrimmed_number(n: nat)
    ensures
        text::trim(text::dec(n)) == text::dec(n),
{
    let s = text::dec(n);
    text_laws::lemma_numbers_are_digits(n, ' ');
    assert(!text::is_white(s[0]));
    assert(!text::is_white(s[s.len() - 1]));
}

/// The user and the group that are given are the ones that get the socket. Root is
/// no such user, and neither is anyone where one of the numbers is missing.
pub proof fn law_invoking_user(uid: u32, gid: u32, some: Option<Seq<char>>)
    ensures
        uid > 0 ==> vsock::sudo_user(Some(text::dec(uid as nat)), Some(text::dec(gid as nat)))
            == Some((uid, gid)),
        vsock::sudo_user(Some(text::dec(0)), Some(text::dec(gid as nat))) is None,
        vsock::sudo_user(None, some) is None,
        vsock::sudo_user(some, None) is None,
{
    lemma_untrimmed_number(uid as nat);
    lemma_untrimmed_number(gid as nat);
    lemma_untrimmed_number(0);
    text::lemma_parse_of_dec(uid as nat, u32::MAX as nat);
    text::lemma_parse_of_dec(gid as nat, u32::MAX as nat);
    text::lemma_parse_of_dec(0, u32::MAX as nat);
}

/// No one but its owner can use the socket.
pub proof fn law_socket_is_its_owners(bit: u32)
    requires
        bit < 9,
    ensures
        vsock::SOCKET_MODE & (1u32 << bit) != 0 <==> bit == 7 || bit == 8,
{
    assert(bit < 9 ==> (0o600u32 & (1u32 << bit) != 0 <==> bit == 7 || bit == 8)) by (bit_vector);
}

/// A time span of whole seconds is shown in seconds, and one of less than a second
/// in milliseconds.
pub proof fn law_spans(secs: u64, ms: u64)
    requires
        0 < secs <= 1_000_000,
        0 < ms < 1000,
    ensures
        vsock::span_text((secs * 1000) as u64) == text::dec(secs as nat) + "s"@,
        vsock::span_text(ms) == text::dec(ms as nat) + "ms"@,
{
    let s = (secs * 1000) as u64;
    assert(s / 1000 == secs && s % 1000 == 0);
    assert(vsock::span_text(s) =~= text::dec(secs as nat) + "s"@);
}

/// The fraction of a second has no more digits than it needs, and each of them
/// counts: as thousandths it is the milliseconds that are left.
pub proof fn law_fractions(ms: u64)
    requires
        0 < ms < 1000,
    ensures
        ({
            let f = vsock::fraction_text(ms);
            let d = f.skip(1);
            &&& 2 <= f.len() <= 4
            &&& f[0] == '.'
            &&& text::value(d) * (if d.len() == 1 {
                100int
            } else if d.len() == 2 {
                10
            } else {
                1
            }) == ms
            &&& f.last() != '0'
        }),
{
    reveal_strlit(".");
    let f = vsock::fraction_text(ms);
    let d = f.skip(1);
    text::lemma_dec_fixed((ms / 100) as nat, 1);
    text::lemma_dec_fixed((ms / 10) as nat, 2);
    text::lemma_dec_fixed(ms as nat, 3);
    assert(vstd::arithmetic::power::pow(10, 1) == 10 && vstd::arithmetic::power::pow(10, 2) == 100
        && vstd::arithmetic::power::pow(10, 3) == 1000) by {
        reveal_with_fuel(vstd::arithmetic::power::pow, 4);
    }
    if ms % 100 == 0 {
        assert(d =~= text::dec_fixed((ms / 100) as nat, 1));
    } else if ms % 10 == 0 {
        assert(d =~= text::dec_fixed((ms / 10) as nat, 2));
    } else {
        assert(d =~= text::dec_fixed(ms as nat, 3));
    }
    assert(d.last() == f.last());
    if d.last() == '0' {
        assert(d.drop_last().push('0') =~= d);
        assert(text::value(d) % 10 == 0);
    }
}

/// The memory of a host is the number on the line that starts with `MemTotal:`;
/// lines before it that start otherwise are passed over.
pub proof fn law_memory_is_read(kib: u64, line: Seq<char>, rest: Seq<Seq<char>>)
    ensures
        platform::mem_total(
            seq!["MemTotal:"@ + seq![' '] + text::dec(kib as nat) + seq![' '] + "kB"@] + rest,
        ) == Ok::<u64, Seq<char>>(kib),
        !"MemTotal:"@.is_prefix_of(line) ==> platform::mem_total(seq![line] + rest)
            == platform::mem_total(rest),
        platform::mem_total(Seq::empty()) is Err,
{
    reveal_strlit("MemTotal:");
    reveal_strlit("kB");
    let n = text::dec(kib as nat);
    let s = "MemTotal:"@ + seq![' '] + n + seq![' '] + "kB"@;
    let lines = seq![s] + rest;
    text_laws::lemma_numbers_are_digits(kib as nat, ' ');
    let one = Seq::<char>::empty().push(' ') + n;
    let two = one.push(' ') + "kB"@;
    assert("MemTotal:"@.is_prefix_of(s));
    assert(s.skip(9) =~= two);
    text_laws::law_no_words();
    text_laws::law_words_append(Seq::empty(), n, ' ');
    text_laws::law_words_append(one, "kB"@, ' ');
    assert(text::words(two)[0] == n);
    text::lemma_parse_of_dec(kib as nat, u64::MAX as nat);
    assert(lines[0] == s);
    assert((seq![line] + rest)[0] == line);
    assert((seq![line] + rest).skip(1) =~= rest);
}

/// The values that are shown under a label.
pub open spec fn shown(rows: Seq<(Seq<char>, Seq<char>)>, label: Seq<char>) -> Seq<Seq<char>>
    decreases rows.len(),
{
    if rows.len() == 0 {
        Seq::empty()
    } else if rows.last().0 == label {
        shown(rows.drop_last(), label).push(rows.last().1)
    } else {
        shown(rows.drop_last(), label)
    }
}

/// One value where there is one.
pub open spec fn one_or_none(v: Option<Seq<char>>) -> Seq<Seq<char>> {
    match v {
        Some(x) => seq![x],
        None => Seq::empty(),
    }
}

proof fn lemma_shown_append(
    a: Seq<(Seq<char>, Seq<char>)>,
    b: Seq<(Seq<char>, Seq<char>)>,
    label: Seq<char>,
)
    ensures
        shown(a + b, label) == shown(a, label) + shown(b, label),
    decreases b.len(),
{
    if b.len() == 0 {
        assert(a + b =~= a);
        assert(shown(a, label) + shown(b, label) =~= shown(a, label));
    } else {
        lemma_shown_append(a, b.drop_last(), label);
        assert((a + b).drop_last() =~= a + b.drop_last());
        assert((a + b).last() == b.last());
        assert(shown(a + b, label) =~= shown(a, label) + shown(b, label));
    }
}

proof fn lemma_shown_one(l: Seq<char>, v: Seq<char>, label: Seq<char>)
    ensures
        shown(seq![(l, v)], label) == (if l == label {
            seq![v]
        } else {
            Seq::empty()
        }),
{
    let r = seq![(l, v)];
    assert(r.drop_last() =~= Seq::<(Seq<char>, Seq<char>)>::empty());
    assert(shown(r.drop_last(), label) =~= Seq::<Seq<char>>::empty());
    assert(shown(r, label) =~= (if l == label {
        seq![v]
    } else {
        Seq::empty()
    }));
}

proof fn lemma_shown_opt(l: Seq<char>, v: Option<Seq<char>>, label: Seq<char>)
    ensures
        shown(platform::opt_rows(l, v), label) == (if l == label {
            one_or_none(v)
        } else {
            Seq::empty()
        }),
{
    if v is Some {
        lemma_shown_one(l, v->0, label);
    } else {
        assert(shown(platform::opt_rows(l, v), label) =~= Seq::<Seq<char>>::empty());
    }
}

proof fn lemma_disk(path: Seq<char>, thin_id: Option<u64>, label: Seq<char>)
    ensures
        shown(platform::disk_rows(path, thin_id), label) == (match thin_id {
            Some(id) => (if label == "Thin device"@ {
                seq![path]
            } else {
                Seq::empty()
            }) + (if label == "Thin id"@ {
                seq![text::dec(id as nat)]
            } else {
                Seq::empty()
            }),
            None => if label == "ZFS zvol"@ {
                seq![path]
            } else {
                Seq::empty()
            },
        }),
{
    match thin_id {
        Some(id) => {
            let a = seq![("Thin device"@, path)];
            let b = seq![("Thin id"@, text::dec(id as nat))];
            lemma_shown_one("Thin device"@, path, label);
            lemma_shown_one("Thin id"@, text::dec(id as nat), label);
            lemma_shown_append(a, b, label);
            assert(platform::disk_rows(path, thin_id) =~= a + b);
        },
        None => {
            lemma_shown_one("ZFS zvol"@, path, label);
        },
    }
}

/// What is shown of a VM under each label is what the VM has: its disk under the
/// label of its kind of storage, its API socket, and its TAP device where it has one.
pub proof fn law_vm_is_shown(vm: VmMetadata)
    ensures
        ({
            let r = platform::vm_rows(vm);
            &&& vm.thin_id matches Some(id) ==> shown(r, "Thin device"@) == seq![vm.disk_path@]
                && shown(r, "Thin id"@) == seq![text::dec(id as nat)] && shown(r, "ZFS zvol"@).len() == 0
            &&& vm.thin_id is None ==> shown(r, "ZFS zvol"@) == seq![vm.disk_path@] && shown(
                r,
                "Thin device"@,
            ).len() == 0
            &&& shown(r, "API socket"@) == seq![vm.api_socket@]
            &&& shown(r, "TAP device"@) == one_or_none(
                match vm.network {
                    Some(n) => Some(n.tap_device@),
                    None => None,
                },
            )
        }),
{
    reveal_strlit("Thin device");
    reveal_strlit("Thin id");
    reveal_strlit("ZFS zvol");
    reveal_strlit("API socket");
    reveal_strlit("TAP device");
    assert("API socket"@[0] == 'A' && "TAP device"@[0] == 'T');
    assert("API socket"@.len() == 10 && "TAP device"@.len() == 10 && "Thin device"@.len() == 11);
    assert("Thin id"@.len() == 7 && "ZFS zvol"@.len() == 8);
    lemma_disk(vm.disk_path@, vm.thin_id, "Thin device"@);
    lemma_disk(vm.disk_path@, vm.thin_id, "Thin id"@);
    lemma_disk(vm.disk_path@, vm.thin_id, "ZFS zvol"@);
    lemma_disk(vm.disk_path@, vm.thin_id, "API socket"@);
    lemma_disk(vm.disk_path@, vm.thin_id, "TAP device"@);
    lemma_vm_rows(vm, "Thin device"@);
    lemma_vm_rows(vm, "Thin id"@);
    lemma_vm_rows(vm, "ZFS zvol"@);
    lemma_vm_rows(vm, "API socket"@);
    lemma_vm_rows(vm, "TAP device"@);
    let r = platform::vm_rows(vm);
    assert(shown(r, "API socket"@) =~= seq![vm.api_socket@]);
    assert(vm.thin_id is Some ==> shown(r, "Thin device"@) =~= seq![vm.disk_path@]);
    assert(vm.thin_id matches Some(id) ==> shown(r, "Thin id"@) =~= seq![text::dec(id as nat)]);
    assert(vm.network matches Some(n) ==> shown(r, "TAP device"@) =~= seq![n.tap_device@]);
    assert(vm.network is None ==> shown(r, "TAP device"@) =~= Seq::<Seq<char>>::empty());
}

proof fn lemma_vm_rows(vm: VmMetadata, label: Seq<char>)
    ensures
        ({
            let d = shown(platform::disk_rows(vm.disk_path@, vm.thin_id), label);
            let a = if label == "API socket"@ {
                d.push(vm.api_socket@)
            } else {
                d
            };
            shown(platform::vm_rows(vm), label) == (if vm.network is Some && label == "TAP device"@ {
                a.push(vm.network->0.tap_device@)
            } else {
                a
            })
        }),
{
    lemma_disk(vm.disk_path@, vm.thin_id, label);
    let d = platform::disk_rows(vm.disk_path@, vm.thin_id);
    let a = d.push(("API socket"@, vm.api_socket@));
    assert(a.drop_last() =~= d);
    assert(a.last() == ("API socket"@, vm.api_socket@));
    assert(shown(a, label) == (if label == "API socket"@ {
        shown(d, label).push(vm.api_socket@)
    } else {
        shown(d, label)
    }));
    if vm.network is Some {
        let t = a.push(("TAP device"@, vm.network->0.tap_device@));
        assert(t.drop_last() =~= a);
        assert(t.last() == ("TAP device"@, vm.network->0.tap_device@));
    }
}

proof fn lemma_thin_rows(config: GlobalConfig, label: Seq<char>)
    requires
        config.storage_backend == StorageKind::DmThin,
    ensures
        ({
            let none = Seq::<Seq<char>>::empty();
            shown(platform::config_rows(config), label) == (if label == "dm-thin pool"@ {
                seq![pool::pool_text(crate::config::namespace_of(config.instance_id@))]
            } else {
                none
            }) + (if label == "Storage path"@ {
                one_or_none(
                    match config.storage_path {
                        Some(p) => Some(p@),
                        None => None,
                    },
                )
            } else {
                none
            }) + (if label == "Block size"@ {
                one_or_none(
                    match config.dm_thin_block_size {
                        Some(b) => Some(platform::block_size_text(b)),
                        None => None,
                    },
                )
            } else {
                none
            }) + (if label == "Layout"@ {
                one_or_none(
                    match config.dm_thin_mode {
                        Some(m) => Some(platform::layout_text(m)),
                        None => None,
                    },
                )
            } else {
                none
            }) + (if label == "WAN iface"@ {
                one_or_none(
                    match config.wan_iface {
                        Some(w) => Some(w@),
                        None => None,
                    },
                )
            } else {
                none
            })
        }),
{
    let name = pool::pool_text(crate::config::namespace_of(config.instance_id@));
    let path = match config.storage_path {
        Some(p) => Some(p@),
        None => None,
    };
    let block = match config.dm_thin_block_size {
        Some(b) => Some(platform::block_size_text(b)),
        None => None,
    };
    let layout = match config.dm_thin_mode {
        Some(m) => Some(platform::layout_text(m)),
        None => None,
    };
    let wan = match config.wan_iface {
        Some(w) => Some(w@),
        None => None,
    };
    let a = seq![("dm-thin pool"@, name)];
    let b = platform::opt_rows("Storage path"@, path);
    let c = platform::opt_rows("Block size"@, block);
    let d = platform::opt_rows("Layout"@, layout);
    let e = platform::opt_rows("WAN iface"@, wan);
    lemma_shown_one("dm-thin pool"@, name, label);
    lemma_shown_opt("Storage path"@, path, label);
    lemma_shown_opt("Block size"@, block, label);
    lemma_shown_opt("Layout"@, layout, label);
    lemma_shown_opt("WAN iface"@, wan, label);
    lemma_shown_append(a, b, label);
    lemma_shown_append(a + b, c, label);
    lemma_shown_append(a + b + c, d, label);
    lemma_shown_append(a + b + c + d, e, label);
}

/// What is shown of a dm-thin installation under each label is what its
/// configuration says, and nothing where it says nothing.
pub proof fn law_thin_installation_is_shown(config: GlobalConfig)
    requires
        config.storage_backend == StorageKind::DmThin,
    ensures
        ({
            let r = platform::config_rows(config);
            &&& shown(r, "dm-thin pool"@) == seq![
                pool::pool_text(crate::config::namespace_of(config.instance_id@)),
            ]
            &&& shown(r, "Storage path"@) == one_or_none(
                match config.storage_path {
                    Some(p) => Some(p@),
                    None => None,
                },
            )
            &&& shown(r, "Layout"@) == one_or_none(
                match config.dm_thin_mode {
                    Some(DmThinMode::File) => Some("file-backed"@),
                    Some(DmThinMode::RawDevice) => Some("raw device"@),
                    None => None,
                },
            )
            &&& shown(r, "Block size"@).len() == (if config.dm_thin_block_size is Some {
                1nat
            } else {
                0
            })
            &&& shown(r, "WAN iface"@) == one_or_none(
                match config.wan_iface {
                    Some(w) => Some(w@),
                    None => None,
                },
            )
        }),
{
    lemma_labels();
    lemma_thin_rows(config, "dm-thin pool"@);
    lemma_thin_rows(config, "Storage path"@);
    lemma_thin_rows(config, "Block size"@);
    lemma_thin_rows(config, "Layout"@);
    lemma_thin_rows(config, "WAN iface"@);
}

/// A block size is shown in sectors and in KiB, two of the former to one of the
/// latter.
pub proof fn law_block_size_is_shown(kib: u32)
    requires
        2 * kib <= u32::MAX,
    ensures
        platform::block_size_text((2 * kib) as u32) == text::dec((2 * kib) as nat) + " sectors ("@
            + text::dec(kib as nat) + " KiB)"@,
{
    let b = (2 * kib) as u32;
    assert(b * 512 / 1024 == kib);
}

proof fn lemma_labels()
    ensures
        "dm-thin pool"@ != "Storage path"@,
        "dm-thin pool"@ != "Block size"@,
        "dm-thin pool"@ != "Layout"@,
        "dm-thin pool"@ != "WAN iface"@,
        "Storage path"@ != "Block size"@,
        "Storage path"@ != "Layout"@,
        "Storage path"@ != "WAN iface"@,
        "Block size"@ != "Layout"@,
        "Block size"@ != "WAN iface"@,
        "Layout"@ != "WAN iface"@,
{
    reveal_strlit("dm-thin pool");
    reveal_strlit("Storage path");
    reveal_strlit("Block size");
    reveal_strlit("Layout");
    reveal_strlit("WAN iface");
    assert("dm-thin pool"@[0] == 'd' && "Storage path"@[0] == 'S');
    assert("dm-thin pool"@.len() == 12 && "Storage path"@.len() == 12);
    assert("Block size"@.len() == 10 && "Layout"@.len() == 6 && "WAN iface"@.len() == 9);
}

/// What is shown of a ZFS installation is its pool and the dataset in it, and the
/// interface to the outside where there is one.
pub proof fn law_zfs_installation_is_shown(config: GlobalConfig)
    requires
        config.storage_backend == StorageKind::Zfs,
    ensures
        ({
            let r = platform::config_rows(config);
            &&& shown(r, "ZFS pool"@) == seq![config.pool@]
            &&& shown(r, "Dataset"@) == seq![config.pool@ + "/"@ + config.dataset@]
            &&& shown(r, "WAN iface"@) == one_or_none(
                match config.wan_iface {
                    Some(w) => Some(w@),
                    None => None,
                },
            )
        }),
{
    reveal_strlit("ZFS pool");
    reveal_strlit("Dataset");
    reveal_strlit("WAN iface");
    assert("ZFS pool"@.len() == 8 && "Dataset"@.len() == 7 && "WAN iface"@.len() == 9);
    lemma_zfs_rows(config, "ZFS pool"@);
    lemma_zfs_rows(config, "Dataset"@);
    lemma_zfs_rows(config, "WAN iface"@);
}

proof fn lemma_zfs_rows(config: GlobalConfig, label: Seq<char>)
    requires
        config.storage_backend == StorageKind::Zfs,
    ensures
        ({
            let none = Seq::<Seq<char>>::empty();
            shown(platform::config_rows(config), label) == (if label == "ZFS pool"@ {
                seq![config.pool@]
            } else {
                none
            }) + (if label == "Dataset"@ {
                seq![config.pool@ + "/"@ + config.dataset@]
            } else {
                none
            }) + (if label == "WAN iface"@ {
                one_or_none(
                    match config.wan_iface {
                        Some(w) => Some(w@),
                        None => None,
                    },
                )
            } else {
                none
            })
        }),
{
    let set = config.pool@ + "/"@ + config.dataset@;
    let wan = match config.wan_iface {
        Some(w) => Some(w@),
        None => None,
    };
    let a = seq![("ZFS pool"@, config.pool@)];
    let b = seq![("Dataset"@, set)];
    let e = platform::opt_rows("WAN iface"@, wan);
    lemma_shown_one("ZFS pool"@, config.pool@, label);
    lemma_shown_one("Dataset"@, set, label);
    lemma_shown_opt("WAN iface"@, wan, label);
    lemma_shown_append(a, b, label);
    lemma_shown_append(a + b, e, label);
    assert(platform::storage_rows(config) =~= a + b);
}

/// A VM has ten seconds to shut down before it is killed, and a killed one five to be
/// gone; its socket has five seconds to appear, and is looked for many times in them.
pub proof fn law_waits()
    ensures
        vm::GRACEFUL_SHUTDOWN_TIMEOUT_MS == 10 * 1000,
        vm::FORCE_KILL_TIMEOUT_MS == 5 * 1000,
        vsock::SOCKET_TIMEOUT_MS == 5 * 1000,
        100 * vsock::SOCKET_POLL_INTERVAL_MS <= vsock::SOCKET_TIMEOUT_MS,
{
}

} // verus!
