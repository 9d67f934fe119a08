//! A macOS host: the shared network, disk images, and the helper process.
use ember::command::{finish, Outcome};
use ember::config::{ByteSize, GlobalConfig, StorageKind};
use ember::error::{CommandOutput, Error};
use ember::macos::network::{
    derive_vmnet_subnet, detect_wan_iface, instance_number, parse_interface_from_route,
    route_command, MacosNetwork,
};
use ember::macos::platform::MacosPlatform;
use ember::macos::storage::{
    apfs_clone, check_apfs_volume, clone_command, clone_warning, find_e2fsprogs_tool, has_ubuntu,
    hosts_content, is_apfs, key_owner, key_script, key_verified, parse_debugfs_uid_gid,
    plist_value_in_order, read_passwd_uid_gid, require_disk, require_growth, verify_key, CloneDisk,
    Deinit, Import, InjectKey, MacosStorage, Missed, Resize,
};
use ember::macos::vm::{
    build_boot_args, control_signal, ending_signal, format_exit, polled, preserve_ember_vz_log,
    preserved_dir, read_last_lines, read_mac_from_ready_fd, resolve_ember_vz, start_command,
    start_error, start_failure, started, wait_for_exit, Exit, ExitWait, HelperSignal, Polled, Sent, Start, Stop,
};
use ember::network::ip::NetworkTable;
use ember::plan::Run;
use ember::state::vm::{NetworkInfo, VmMetadata, VmStatus, VsockInfo};

fn output(code: i32, stdout: &str, stderr: &str) -> CommandOutput {
    CommandOutput {
        exit_code: Some(code),
        stdout: stdout.as_bytes().to_vec(),
        stderr: stderr.as_bytes().to_vec(),
    }
}

fn exited(code: i32, stdout: &str, stderr: &str) -> Outcome {
    Outcome::Exited(output(code, stdout, stderr))
}

#[test]
fn parse_route_typical_output() {
    let output = "\
   route to: dns.google
destination: default
       mask: default
    gateway: 192.168.0.1
  interface: en0
      flags: <UP,GATEWAY,DONE,STATIC,PRCLONING,GLOBAL>
 recvpipe  sendpipe  ssthresh  rtt,msec    rttvar  hopcount      mtu     expire
       0         0         0         0         0         0      1500         0
";
    assert_eq!(parse_interface_from_route(output), Some("en0".to_string()));
}

#[test]
fn parse_route_wifi_interface() {
    let output = "  interface: en1\n";
    assert_eq!(parse_interface_from_route(output), Some("en1".to_string()));
}

#[test]
fn parse_route_no_interface_line() {
    let output = "route to: dns.google\ndestination: default\n";
    assert_eq!(parse_interface_from_route(output), None);
}

#[test]
fn parse_route_empty() {
    assert_eq!(parse_interface_from_route(""), None);
}

#[test]
fn vmnet_subnet_lands_in_192_168_64_slash_24() {
    for id in ["0000", "a3f4", "ffff", "dead", "beef"] {
        let subnet = derive_vmnet_subnet(id);
        assert!(
            subnet.starts_with("192.168.64."),
            "instance id {id} produced subnet outside vmnet's /24: {subnet}"
        );
        assert!(
            subnet.ends_with("/27"),
            "instance id {id} produced non-/27 subnet: {subnet}"
        );
    }
}

#[test]
fn vmnet_subnet_uses_low_three_bits_of_id() {
    assert_eq!(derive_vmnet_subnet("0007"), "192.168.64.224/27");
    assert_eq!(derive_vmnet_subnet("ffff"), "192.168.64.224/27");
    assert_eq!(derive_vmnet_subnet("0000"), "192.168.64.0/27");
    assert_eq!(derive_vmnet_subnet("0008"), "192.168.64.0/27");
}

#[test]
fn vmnet_subnet_is_stable() {
    assert_eq!(derive_vmnet_subnet("a3f4"), derive_vmnet_subnet("a3f4"));
}

#[test]
fn ids_that_are_not_hexadecimal_are_told_apart() {
    assert_eq!(instance_number("zzzz"), None);
    assert_eq!(instance_number(""), None);
    assert_eq!(instance_number("a3f4"), Some(0xa3f4));
}

#[test]
fn interfaces_are_read_off_the_route_command() {
    let c = route_command();
    assert_eq!(c.args, vec!["get", "8.8.8.8"]);
    let r = detect_wan_iface(&c, exited(0, "  interface: en1\n", ""));
    assert_eq!(r, Ok("en1".to_string()));
    assert!(detect_wan_iface(&c, exited(0, "", "")).is_err());
    assert!(matches!(
        detect_wan_iface(&c, exited(1, "", "no route")),
        Err(Error::Command { .. })
    ));
}

fn network() -> NetworkInfo {
    NetworkInfo {
        tap_device: "".to_string(),
        host_ip: "192.168.64.1".to_string(),
        guest_ip: "192.168.64.34".to_string(),
        netmask: "255.255.255.0".to_string(),
        guest_mac: None,
        wan_iface: None,
    }
}

fn vm(name: &str) -> VmMetadata {
    VmMetadata {
        name: name.to_string(),
        id: 1,
        status: VmStatus::Stopped,
        pid: None,
        network: Some(network()),
        disk_path: "/s/vms/a/rootfs.img".to_string(),
        disk_size_gib: 2,
        thin_id: None,
        api_socket: "".to_string(),
        subnet: None,
        egress: None,
        vsock: Some(VsockInfo { uds_path: "/s/v.sock".to_string(), guest_cid: 3 }),
        kernel_path: "/k".to_string(),
        boot_args: None,
        cpus: 2,
        memory_mib: 512,
        ssh_user: "root".to_string(),
        ssh_key: None,
    }
}

fn config(subnet: &str) -> GlobalConfig {
    GlobalConfig {
        storage_backend: StorageKind::Zfs,
        state_dir: "/s".to_string(),
        instance_id: "a3f4".to_string(),
        pool: "".to_string(),
        dataset: "".to_string(),
        storage_path: None,
        dm_thin_mode: None,
        dm_thin_block_size: None,
        wan_iface: None,
        ip_subnet: subnet.to_string(),
    }
}

#[test]
fn guests_get_addresses_of_the_shared_network() {
    let mut table = NetworkTable { rows: vec![] };
    let c = config("192.168.64.0/27");
    let a = MacosNetwork::setup(&mut table, &vm("a"), &c).unwrap();
    let b = MacosNetwork::setup(&mut table, &vm("b"), &c).unwrap();
    assert_eq!(a.guest_ip, "192.168.64.2");
    assert_eq!(b.guest_ip, "192.168.64.3");
    assert_eq!(a.host_ip, "192.168.64.1");
    assert_eq!(a.netmask, "255.255.255.0");
    MacosNetwork::teardown(&mut table, &vm("a"));
    assert_eq!(table.rows.len(), 1);
    let again = MacosNetwork::setup(&mut table, &vm("c"), &c).unwrap();
    assert_eq!(again.guest_ip, "192.168.64.2");
}

#[test]
fn read_last_lines_returns_empty_when_file_missing() {
    assert_eq!(read_last_lines(None, 10), Vec::<String>::new());
}

#[test]
fn read_last_lines_returns_all_when_fewer_than_n() {
    assert_eq!(read_last_lines(Some("a\nb\nc\n"), 10), vec!["a", "b", "c"]);
}

#[test]
fn read_last_lines_returns_last_n_in_order() {
    let content: String = (1..=20).map(|i| format!("line {i}\n")).collect();
    let last5 = read_last_lines(Some(&content), 5);
    assert_eq!(last5, vec!["line 16", "line 17", "line 18", "line 19", "line 20"]);
}

#[test]
fn read_last_lines_handles_empty_file() {
    assert_eq!(read_last_lines(Some(""), 10), Vec::<String>::new());
}

#[test]
fn format_exit_renders_clean_exit_code() {
    assert_eq!(format_exit(Exit { code: Some(7), signal: None }), "exit code 7");
}

#[test]
fn format_exit_renders_signal_kills() {
    assert_eq!(format_exit(Exit { code: None, signal: Some(15) }), "killed by signal 15");
    assert_eq!(format_exit(Exit { code: None, signal: None }), "unknown exit");
}

#[test]
fn preserve_ember_vz_log_copies_existing_log() {
    let dest = preserve_ember_vz_log("/state", "vm1", 1716000000, 5);
    assert!(dest.starts_with("/state/failed-starts/vm1-"));
    assert_eq!(dest, "/state/failed-starts/vm1-1716000000-000000005.log");
    assert_eq!(preserved_dir("/state"), "/state/failed-starts");
}

#[test]
fn preserve_ember_vz_log_subsec_avoids_collisions() {
    let d1 = preserve_ember_vz_log("/state", "vm1", 7, 1);
    let d2 = preserve_ember_vz_log("/state", "vm1", 7, 2);
    assert_ne!(d1, d2, "consecutive calls must produce distinct dest paths");
}

#[test]
fn preserve_ember_vz_log_distinct_vm_names_get_distinct_paths() {
    let a = preserve_ember_vz_log("/state", "vm-alpha", 7, 1);
    let b = preserve_ember_vz_log("/state", "vm-beta", 7, 1);
    assert!(a.starts_with("/state/failed-starts/vm-alpha-"));
    assert!(b.starts_with("/state/failed-starts/vm-beta-"));
    assert_ne!(a, b);
}

#[test]
fn the_helper_is_started_with_the_record() {
    assert_eq!(
        build_boot_args(&vm("a")),
        "console=hvc0 root=/dev/vda rw ip=192.168.64.34::192.168.64.1:255.255.255.0:a:eth0:off"
    );
    let c = start_command("/bin/ember-vz", &vm("a"), "/s", 9);
    assert_eq!(c.program, "/bin/ember-vz");
    assert_eq!(c.args[0], "start");
    assert_eq!(c.args[c.args.len() - 2..], ["--vsock-path", "/s/v.sock"]);
    assert!(c.args.contains(&"/s/vms/a/console.log".to_string()));
    assert_eq!(resolve_ember_vz(Some("/e"), Some("/x")), "/e");
    assert_eq!(resolve_ember_vz(None, Some("/x")), "/x");
    assert_eq!(resolve_ember_vz(None, None), "ember-vz");
    let s = started(&vm("a"), 7, "aa:bb".to_string());
    assert_eq!(s.pid, 7);
    assert_eq!(s.network.guest_mac, Some("aa:bb".to_string()));
    assert_eq!(s.network.guest_ip, "192.168.64.34");
}

#[test]
fn a_helper_that_reports_nothing_has_failed() {
    assert_eq!(read_mac_from_ready_fd(Ok("aa:bb\n".to_string())), Ok("aa:bb".to_string()));
    assert!(read_mac_from_ready_fd(Ok("\n".to_string())).is_err());
    assert!(read_mac_from_ready_fd(Err("eof".to_string())).is_err());
    assert!(polled(&Polled::Ready, 30).is_ok());
    let e = polled(&Polled::TimedOut, 30).unwrap_err();
    assert!(e.to_string().contains("(30s)"), "{}", e.to_string());
    assert!(polled(&Polled::Failed("x".to_string()), 30).is_err());
    let e = start_failure(
        Error::Vm("no mac".to_string()),
        vec!["boom".to_string()],
        Some(Exit { code: Some(1), signal: None }),
        Some("/p.log".to_string()),
    );
    let shown = e.to_string();
    assert!(shown.contains("no mac") && shown.contains("boom"), "{shown}");
    assert!(shown.contains("exit code 1") && shown.contains("/p.log"), "{shown}");
    let mut run: Run<Start, Error> = Run::start(Start::ReadMac);
    run.advance(Err(Error::Vm("first".to_string())));
    run.advance(Ok(false));
    assert_eq!(run.phase, Start::Kill);
    run.advance(Err(Error::Vm("second".to_string())));
    assert_eq!(run.phase, Start::Reap);
    assert_eq!(run.error, Some(Error::Vm("first".to_string())));
}

#[test]
fn a_helper_is_asked_before_it_is_killed() {
    let mut run: Run<Stop, Error> = Run::start(Stop::Terminate);
    run.advance(Ok(true));
    assert_eq!(run.phase, Stop::WaitExit);
    run.advance(Ok(false));
    assert_eq!(run.phase, Stop::Kill);
    run.advance(Ok(true));
    run.advance(Ok(true));
    assert_eq!(run.phase, Stop::Stopped);
    assert_eq!(wait_for_exit(0, 100, false), ExitWait::Gone);
    assert_eq!(wait_for_exit(0, 100, true), ExitWait::Sleep);
    assert_eq!(wait_for_exit(100, 100, true), ExitWait::StillThere);
    let gone = Sent::NoProcess("ESRCH".to_string());
    assert_eq!(ending_signal(HelperSignal::Terminate, 7, &gone), Ok(false));
    assert_eq!(ending_signal(HelperSignal::Terminate, 7, &Sent::Delivered), Ok(true));
    let e = control_signal(HelperSignal::Pause, 7, &gone).unwrap_err();
    assert!(e.to_string().contains("SIGUSR1 (pause)"), "{}", e.to_string());
}

#[test]
fn disks_only_grow() {
    assert!(require_growth(10, ByteSize { count: 11 }).is_ok());
    let e = require_growth(10, ByteSize { count: 9 }).unwrap_err();
    assert!(e.to_string().contains("cannot shrink disk from 10 to 9 bytes"));
    let mut run: Run<Resize, Error> = Run::start(Resize::RequireGrowth);
    run.advance(Err(e));
    assert_eq!(run.phase, Resize::Failed);
    assert_eq!(require_disk(true, Missed::Vm, "/d"), Ok(true));
    let e = require_disk(false, Missed::BaseImage, "/d").unwrap_err();
    assert!(e.to_string().contains("base image not found: /d"));
}

#[test]
fn images_are_kept_under_the_state_directory() {
    let s = MacosStorage::new(&config(""));
    assert_eq!(s.image_path("alpine"), "/s/images/data/alpine.img");
    assert_eq!(s.vm_rootfs("a"), "/s/vms/a/rootfs.img");
    assert_eq!(s.create_image_volume("x").disk_path, "/s/images/data/x.img");
    let mut run: Run<Import, Error> = Run::start(Import::Rename);
    run.advance(Err(Error::Image("cross device".to_string())));
    assert_eq!(run.phase, Import::Copy);
    assert_eq!(run.error, None);
    let mut run: Run<Deinit, Error> = Run::start(Deinit::AskPurge);
    run.advance(Ok(false));
    assert_eq!(run.phase, Deinit::Done);
    let mut run: Run<CloneDisk, Error> = Run::start(CloneDisk::RequireSource);
    run.advance(Err(Error::Image("x".to_string())));
    assert_eq!(run.phase, CloneDisk::Failed);
}

#[test]
fn clones_need_an_apfs_volume() {
    let c = clone_command("/a", "/b");
    assert_eq!(apfs_clone(&c, "/a", "/b", exited(0, "", "")), Ok(true));
    let e = apfs_clone(&c, "/a", "/b", exited(1, "", "cp: Not supported\n")).unwrap_err();
    assert!(e.to_string().contains("APFS clone failed: cp: Not supported."));
    let e = apfs_clone(&c, "/a", "/b", exited(1, "", "full\n")).unwrap_err();
    assert!(e.to_string().contains("cp -c /a"), "{}", e.to_string());
    assert_eq!(clone_warning(0, "0.4"), None);
    assert!(clone_warning(2, "2.1").unwrap().contains("took 2.1s"));
    let apfs = "<key>FilesystemType</key>\n<string>apfs</string>";
    let hfs = "<key>FilesystemType</key>\n<string>hfs</string>";
    assert!(plist_value_in_order(apfs) && plist_value_in_order(hfs));
    assert!(is_apfs(apfs));
    assert!(!is_apfs(hfs));
    assert_eq!(check_apfs_volume("/s", apfs), None);
    assert!(check_apfs_volume("/s", hfs).is_some());
}

#[test]
fn keys_go_to_the_user_of_the_image() {
    let passwd = "root:x:0:0::/root:/bin/sh\nubuntu:x:1001:1002::/home/ubuntu:/bin/sh\n";
    assert_eq!(read_passwd_uid_gid(passwd, "ubuntu"), Some((1001, 1002)));
    assert_eq!(read_passwd_uid_gid(passwd, "nobody"), None);
    let stat = "Inode: 12   Type: directory\nUser:  1000   Group:  1000   Size: 4096\n";
    assert_eq!(parse_debugfs_uid_gid(stat), Some((1000, 1000)));
    let found = output(0, stat, "debugfs 1.47\n");
    assert!(has_ubuntu(&found));
    let owner = key_owner(&found, &Some(passwd.as_bytes().to_vec()));
    assert_eq!((owner.user, owner.home, owner.uid, owner.gid), ("ubuntu", "/home/ubuntu", 1001, 1002));
    let missing = output(0, "", "stat: File not found by ext2_lookup\n");
    let root = key_owner(&missing, &None);
    assert_eq!((root.user, root.home, root.uid, root.gid), ("root", "/root", 0, 0));
    let script = key_script(&root, "/tmp/key.pub");
    assert!(script.contains("write /tmp/key.pub /root/.ssh/authorized_keys\n"), "{script}");
    let c = verify_key("debugfs", "/root", "/d.img");
    let written = output(0, "", "oops");
    assert!(key_verified(&c, &exited(0, "Inode: 1", ""), &written).is_ok());
    assert!(key_verified(&c, &exited(0, "", "File not found by ext2_lookup"), &written).is_err());
    let mut run: Run<InjectKey, Error> = Run::start(InjectKey::Verify);
    run.advance(Err(Error::Image("gone".to_string())));
    assert_eq!(run.phase, InjectKey::Failed);
    assert_eq!(
        hosts_content("vm1"),
        "127.0.0.1\tlocalhost vm1\n::1\t\tlocalhost ip6-localhost ip6-loopback vm1\n"
    );
    assert_eq!(
        find_e2fsprogs_tool("debugfs", true, true),
        "/opt/homebrew/opt/e2fsprogs/sbin/debugfs"
    );
    assert_eq!(find_e2fsprogs_tool("debugfs", false, false), "debugfs");
}

#[test]
fn the_host_has_memory() {
    assert_eq!(MacosPlatform::host_ram_mib(&exited(0, "17179869184\n", "")), Ok(16384));
    assert!(MacosPlatform::host_ram_mib(&exited(1, "", "denied")).is_err());
    assert!(MacosPlatform::host_ram_mib(&exited(0, "many\n", "")).is_err());
    let broken = Outcome::Exited(CommandOutput {
        exit_code: Some(0),
        stdout: vec![0xff],
        stderr: vec![],
    });
    let e = MacosPlatform::host_ram_mib(&broken).unwrap_err();
    assert!(e.contains("invalid utf-8 sequence"), "{e}");
    assert_eq!(MacosPlatform::install_hint("gtar"), "`brew install gnu-tar`");
    assert_eq!(
        MacosPlatform::default_state_dir(Some("/Users/a")),
        "/Users/a/Library/Application Support/ember"
    );
    assert!(finish(&route_command(), Outcome::NotSpawned("x".to_string())).is_err());
}

#[test]
fn only_a_silent_helper_shows_its_log() {
    let cause = || Error::Vm("x".to_string());
    assert_eq!(start_error(Start::Spawn, cause(), vec![], None, None), cause());
    assert_eq!(start_error(Start::MakePipe, cause(), vec![], None, None), cause());
    assert_eq!(
        start_error(Start::ReadMac, cause(), vec!["a".to_string()], None, None),
        start_failure(cause(), vec!["a".to_string()], None, None)
    );
}
