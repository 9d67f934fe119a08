//! A Linux host: sockets, records, processes, and what is shown.
use ember::config::{DmThinMode, GlobalConfig, StorageKind};
use ember::error::Error;
use ember::linux::platform::LinuxPlatform;
use ember::linux::reconcile::{collect_active, mark_stopped, run, verdict, warning, Verdict};
use ember::linux::vm::{configure_and_boot, dns_iface, require_network, require_pid};
use ember::linux::vsock::{
    ensure_dir_searchable, late_socket, parse_invoking_user, root_only_note, socket_missing, span, wait_for_socket_within, Waiting,
    SOCKET_MODE,
};
use ember::linux::{create_storage, init_storage, InitKind, Storage};
use ember::state::vm::{NetworkInfo, VmMetadata, VmStatus, VsockInfo};

#[test]
fn parse_invoking_user_accepts_normal_sudo() {
    assert_eq!(parse_invoking_user(Some("1000"), Some("1000")), Some((1000, 1000)));
}

#[test]
fn parse_invoking_user_tolerates_whitespace() {
    assert_eq!(parse_invoking_user(Some(" 1000\n"), Some("1000")), Some((1000, 1000)));
}

#[test]
fn parse_invoking_user_rejects_root_target() {
    assert_eq!(parse_invoking_user(Some("0"), Some("0")), None);
}

#[test]
fn parse_invoking_user_fails_closed_on_missing_vars() {
    assert_eq!(parse_invoking_user(None, None), None);
    assert_eq!(parse_invoking_user(Some("1000"), None), None);
    assert_eq!(parse_invoking_user(None, Some("1000")), None);
}

#[test]
fn parse_invoking_user_fails_closed_on_garbage() {
    assert_eq!(parse_invoking_user(Some("nobody"), Some("1000")), None);
    assert_eq!(parse_invoking_user(Some("-1"), Some("1000")), None);
    assert_eq!(parse_invoking_user(Some(""), Some("")), None);
}

#[test]
fn secure_host_socket_narrows_mode() {
    assert_eq!(SOCKET_MODE, 0o600);
    assert_eq!(
        root_only_note("/v.sock"),
        "note: vsock socket /v.sock left root-only (no SUDO_UID in environment)"
    );
    assert_eq!(SOCKET_MODE & 0o077, 0, "group/other must not retain any access");
}

#[test]
fn secure_host_socket_times_out_when_socket_never_appears() {
    assert_eq!(wait_for_socket_within(0, 50, false), Waiting::Sleep);
    assert_eq!(wait_for_socket_within(20, 50, true), Waiting::Found);
    assert_eq!(wait_for_socket_within(50, 50, false), Waiting::TimedOut);
    let err = socket_missing("/tmp/nope.sock", 50);
    assert!(err.to_string().contains("did not appear"), "{}", err.to_string());
    assert_eq!(
        err.to_string(),
        "vsock: vsock socket did not appear at /tmp/nope.sock within 50ms"
    );
    assert_eq!(
        late_socket("/s", "1s").to_string(),
        "vsock: vsock socket did not appear at /s within 1s"
    );
    assert!(socket_missing("/s", 5000).to_string().ends_with("within 5s"));
}

#[test]
fn ensure_dir_searchable_adds_only_the_search_bit() {
    assert_eq!(ensure_dir_searchable(0o40700), Some(0o701), "must grant search only");
}

#[test]
fn ensure_dir_searchable_is_a_noop_when_already_traversable() {
    assert_eq!(ensure_dir_searchable(0o40755), None);
}

fn network() -> NetworkInfo {
    NetworkInfo {
        tap_device: "em-0123456".to_string(),
        host_ip: "10.0.0.1".to_string(),
        guest_ip: "10.0.0.2".to_string(),
        netmask: "255.255.255.252".to_string(),
        guest_mac: None,
        wan_iface: Some("eth9".to_string()),
    }
}

fn vm(name: &str, status: VmStatus, pid: Option<u32>) -> VmMetadata {
    VmMetadata {
        name: name.to_string(),
        id: 1,
        status,
        pid,
        network: Some(network()),
        disk_path: "/dev/zvol/tank/vm".to_string(),
        disk_size_gib: 2,
        thin_id: None,
        api_socket: "/run/vm.sock".to_string(),
        subnet: None,
        egress: None,
        vsock: Some(VsockInfo { uds_path: "/run/v.sock".to_string(), guest_cid: 3 }),
        kernel_path: "/k".to_string(),
        boot_args: Some("quiet".to_string()),
        cpus: 2,
        memory_mib: 512,
        ssh_user: "root".to_string(),
        ssh_key: None,
    }
}

#[test]
fn dead_vms_are_marked_as_stopped() {
    let dead = vm("a", VmStatus::Running, Some(7));
    assert_eq!(verdict(&dead, false, true), Verdict::CleanUpAndStop);
    assert_eq!(verdict(&dead, false, false), Verdict::Stop);
    assert_eq!(verdict(&dead, true, true), Verdict::Keep);
    assert_eq!(verdict(&vm("b", VmStatus::Paused, None), true, true), Verdict::StopWithoutPid);
    assert_eq!(verdict(&vm("c", VmStatus::Stopped, Some(1)), true, true), Verdict::Ignore);
    assert_eq!(warning(&dead), "Warning: VM 'a' process (pid 7) is dead, marking stopped");
    assert_eq!(
        warning(&vm("b", VmStatus::Paused, None)),
        "Warning: VM 'b' is paused but has no PID, marking stopped"
    );
    let mut v = dead;
    mark_stopped(&mut v);
    assert_eq!(v.status, VmStatus::Stopped);
    assert_eq!(v.pid, None);
}

#[test]
fn devices_of_live_vms_are_kept() {
    let vms = vec![vm("a", VmStatus::Running, Some(7)), vm("b", VmStatus::Stopped, None)];
    let devices = vec!["em-0123456".to_string(), "em-7654321".to_string()];
    assert_eq!(collect_active(&vms, &vec![true, false]), vec!["em-0123456"]);
    assert_eq!(run(&vms, &vec![true, false], &devices, true), vec!["em-7654321"]);
    assert_eq!(run(&vms, &vec![false, false], &devices, true), devices);
    // Without a configuration a device might be that of another installation.
    assert!(run(&vms, &vec![false, false], &devices, false).is_empty());
}

#[test]
fn vms_are_booted_with_their_record() {
    let v = vm("a", VmStatus::Running, Some(7));
    assert_eq!(require_pid(&v), Ok(7));
    assert!(require_network(&v).is_ok());
    let mut w = vm("b", VmStatus::Stopped, None);
    w.network = None;
    assert_eq!(require_pid(&w).unwrap_err().to_string(), "firecracker: vm 'b' has no PID");
    assert!(require_network(&w).is_err());
    let b = configure_and_boot(&v, "/dev/disk", &network(), vec!["1.1.1.1".to_string()]);
    assert_eq!(b.rootfs_path, "/dev/disk");
    assert_eq!(b.guest_ip, "10.0.0.2");
    assert_eq!(b.vsock, Some(("/run/v.sock".to_string(), 3)));
    assert_eq!(b.boot_args, Some("quiet".to_string()));
    assert_eq!(dns_iface(&network()), "eth9");
}

fn config(kind: StorageKind) -> GlobalConfig {
    GlobalConfig {
        storage_backend: kind,
        state_dir: "/s".to_string(),
        instance_id: "".to_string(),
        pool: "tank".to_string(),
        dataset: "ember".to_string(),
        storage_path: Some("/p".to_string()),
        dm_thin_mode: Some(DmThinMode::File),
        dm_thin_block_size: Some(128),
        wan_iface: Some("eth0".to_string()),
        ip_subnet: "10.0.0.0/16".to_string(),
    }
}

#[test]
fn storage_follows_the_configuration() {
    assert!(matches!(create_storage(&config(StorageKind::Zfs), false, false), Storage::Zfs(_)));
    assert!(matches!(
        create_storage(&config(StorageKind::DmThin), false, false),
        Storage::DmThin(_)
    ));
    assert_eq!(init_storage(StorageKind::Zfs), Ok(InitKind::Zfs));
    assert_eq!(
        init_storage(StorageKind::Btrfs).unwrap_err(),
        Error::Config("btrfs storage backend is not yet implemented".to_string())
    );
}

#[test]
fn the_platform_shows_what_it_has() {
    let rows = LinuxPlatform::info_extra(&config(StorageKind::DmThin));
    let shown: Vec<(&str, &str)> = rows.iter().map(|r| (r.label, r.value.as_str())).collect();
    assert_eq!(
        shown,
        vec![
            ("dm-thin pool", "ember-pool"),
            ("Storage path", "/p"),
            ("Block size", "128 sectors (64 KiB)"),
            ("Layout", "file-backed"),
            ("WAN iface", "eth0"),
        ]
    );
    assert_eq!(LinuxPlatform::inspect_vm_extra(&vm("a", VmStatus::Running, None)).len(), 3);
    assert_eq!(LinuxPlatform::host_ram_mib("MemFree: 1 kB\nMemTotal:  2048 kB\n"), Ok(2));
    assert_eq!(
        LinuxPlatform::host_ram_mib("x\n"),
        Err("MemTotal not found in /proc/meminfo".to_string())
    );
    assert_eq!(
        LinuxPlatform::host_ram_mib("MemTotal: x\n"),
        Err("malformed MemTotal line: MemTotal: x".to_string())
    );
    let (iface, said) = LinuxPlatform::detect_wan_iface(None, Err("nothing".to_string()));
    assert_eq!(iface, None);
    assert_eq!(said.len(), 2);
    assert!(LinuxPlatform::pre_pause_check(&vm("a", VmStatus::Running, None), false).is_err());
}

/// Time spans are shown as the standard library shows them for debugging.
#[test]
fn spans_are_shown_as_usual() {
    for ms in (0..12_000).chain([59_990, 60_000, 123_456, 1_000_001, u64::MAX]) {
        assert_eq!(span(ms), format!("{:?}", std::time::Duration::from_millis(ms)));
    }
}

#[test]
fn thin_storage_is_that_of_the_configuration() {
    match create_storage(&config(StorageKind::DmThin), false, false) {
        Storage::DmThin(s) => {
            assert_eq!(s.mode, DmThinMode::File);
            assert_eq!(s.block_size_sectors, 128);
            assert_eq!(s.storage_path, "/p");
            assert_eq!(s.state_dir, "/s");
            assert_ne!(s.image_prefix, s.vm_prefix);
            assert!(s.image_prefix.contains("img") && s.vm_prefix.contains("vm"));
        }
        other => panic!("{:?}", other),
    }
}
