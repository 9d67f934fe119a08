//! The commands that are run, and how their answers are read.
use ember::backend::{ImageToolConfig, InitConfig, ResolvConfMode, VolumeHandle};
use ember::command::{Cmd, Outcome};
use ember::config::{ByteSize, DmThinMode, GlobalConfig, StorageKind};
use ember::dm_thin::pool::{PoolMode, PoolStatus};
use ember::dm_thin::storage::{
    ask_metadata_size, create_sparse_file, dd_image, device_sectors, e2fsck, fsck_passed,
    grow_report, image_size_sectors, init_layout, init_report, init_storage_path, measure_device,
    metadata_refused, mount_command, require_data_file, require_image_thin_id, require_loop, require_pool_growth,
    require_vm_thin_id, resize2fs, storage_path_of, vm_size_sectors, zero_head, DmThinStorage,
};
use ember::dm_thin::{loop_device, pool, thin, tools};
use ember::emberd::checkpoint;
use ember::error::{CommandOutput, Error};
use ember::image::registry::ImageEntry;
use ember::linux::platform::LinuxPlatform;
use ember::macos::platform::{memory_command, MacosPlatform};
use ember::macos::storage::{
    arm_tool_path, check_filesystem, expand_filesystem, filesystem_checked, hosts_script,
    hosts_script_ran, intel_tool_path, key_script_ran, keys_path, read_users, run_script,
    stat_home, truncate, volume_info, MacosStorage,
};
use ember::macos::vm::{signal_error, HelperSignal};
use ember::network::backend::{host_cidr, network_info, subnet_for, tap_name};
use ember::network::ip::{
    all_addressable, verify_singleton_subnet, IpAllocation, NetworkRow, NetworkTable, STRATEGY_P2P,
    STRATEGY_SINGLE,
};
use ember::network::{masquerade, tap};
use ember::state::vm::{VmMetadata, VmStatus};
use ember::text::IntError;
use ember::zfs::snapshot;
use ember::zfs::storage::{destroy_pool, grow, init_datasets, require_device, LinuxStorage};

fn line(c: &Cmd) -> String {
    format!("{} {}", c.program, c.args.join(" "))
}

fn exited(code: i32, stderr: &str) -> Outcome {
    Outcome::Exited(CommandOutput {
        exit_code: Some(code),
        stdout: vec![],
        stderr: stderr.as_bytes().to_vec(),
    })
}

fn not_spawned() -> Outcome {
    Outcome::NotSpawned("no such file".to_string())
}

fn config(instance_id: &str) -> GlobalConfig {
    GlobalConfig {
        storage_backend: StorageKind::DmThin,
        state_dir: "/s".to_string(),
        instance_id: instance_id.to_string(),
        pool: "tank".to_string(),
        dataset: "ember".to_string(),
        storage_path: None,
        dm_thin_mode: Some(DmThinMode::File),
        dm_thin_block_size: None,
        wan_iface: None,
        ip_subnet: "10.100.0.0/16".to_string(),
    }
}

fn init_config() -> InitConfig {
    InitConfig {
        storage_backend: StorageKind::DmThin,
        state_dir: "/s".to_string(),
        instance_id: "a3f4".to_string(),
        pool: "tank".to_string(),
        dataset: "ember".to_string(),
        device: None,
        storage_path: Some("/p".to_string()),
        btrfs_size: None,
        dm_thin_size: Some(ByteSize { count: 4096 }),
        dm_thin_metadata_size: None,
        dm_thin_block_size: None,
        dm_thin_mode: Some(DmThinMode::File),
    }
}

fn vm(thin_id: Option<u64>, subnet: Option<&str>) -> VmMetadata {
    VmMetadata {
        name: "a b".to_string(),
        id: 0x1234,
        status: VmStatus::Stopped,
        pid: None,
        network: None,
        disk_path: "/d".to_string(),
        disk_size_gib: 2,
        thin_id,
        api_socket: "".to_string(),
        subnet: subnet.map(|s| s.to_string()),
        egress: None,
        vsock: None,
        kernel_path: "/k".to_string(),
        boot_args: None,
        cpus: 1,
        memory_mib: 128,
        ssh_user: "root".to_string(),
        ssh_key: None,
    }
}

fn image(thin_id: Option<u64>) -> ImageEntry {
    ImageEntry {
        reference: "docker.io/library/alpine:latest".to_string(),
        local_name: "alpine".to_string(),
        disk_path: "/images/alpine.img".to_string(),
        size_mib: 10,
        pulled_at: "now".to_string(),
        thin_id,
    }
}

#[test]
fn thin_volume_commands() {
    assert_eq!(line(&thin::activate("v", "p", 7, 2048)), "dmsetup create v --table 0 2048 thin /dev/mapper/p 7");
    assert_eq!(line(&thin::reload_size("v", "p", 7, 4096)), "dmsetup load v --table 0 4096 thin /dev/mapper/p 7");
    assert_eq!(line(&thin::deactivate("v")), "dmsetup remove v");
    assert_eq!(line(&thin::suspend("v")), "dmsetup suspend v");
    assert_eq!(line(&thin::resume("v")), "dmsetup resume v");
    assert_eq!(line(&thin::is_active("v")), "dmsetup info --noheadings v");
    assert_eq!(line(&thin::delete("p", 7)), "dmsetup message p 0 delete 7");
    assert_eq!(thin::device_path("v"), "/dev/mapper/v");
}

#[test]
fn pool_commands() {
    assert_eq!(line(&pool::load_target()), "modprobe dm-thin-pool");
    assert_eq!(line(&pool::list_targets()), "dmsetup targets");
    assert_eq!(line(&pool::list_devices()), "dmsetup ls");
    assert_eq!(line(&pool::suspend("p")), "dmsetup suspend p");
    assert_eq!(line(&pool::resume("p")), "dmsetup resume p");
    assert_eq!(line(&pool::query_status("p")), "dmsetup status p");
    assert_eq!(pool::device_path("p"), "/dev/mapper/p");
    assert_eq!(
        pool::invalid_field("used", "\"x\"", IntError::InvalidDigit).to_string(),
        "dmsetup status thin-pool failed (exit code 0): invalid used field \"x\": invalid digit found in string"
    );
}

#[test]
fn loop_device_commands() {
    assert_eq!(line(&loop_device::attach("/f")), "losetup -f --show /f");
    assert_eq!(line(&loop_device::detach("/dev/loop0")), "losetup -d /dev/loop0");
    assert_eq!(line(&loop_device::refresh_size("/dev/loop0")), "losetup -c /dev/loop0");
    assert_eq!(line(&loop_device::find_for("/f")), "losetup -j /f");
}

#[test]
fn metadata_tool_commands() {
    assert_eq!(
        line(&tools::metadata_size(1_000_000, 65_536, 10)),
        "thin_metadata_size --block-size 65536 --pool-size 1000000 --max-thins 10 --numeric-only --unit b"
    );
    assert_eq!(
        line(&ask_metadata_size(1_000_000, 128)),
        "thin_metadata_size --block-size 65536 --pool-size 1000000 --max-thins 1024 --numeric-only --unit b"
    );
    assert_eq!(line(&tools::repair("/a", "/b")), "thin_repair -i /a -o /b");
    assert_eq!(line(&tools::dump("/a")), "thin_dump /a");
    assert_eq!(tools::parse_number("prog", "size", " 12\n"), Ok(12));
    assert_eq!(
        tools::parse_number("prog", "size", "1\u{7}\n").unwrap_err(),
        tools::not_a_number("prog", "size", "\"1\\u{7}\"", IntError::InvalidDigit)
    );
    assert_eq!(
        tools::not_a_number("prog", "size", "\"\"", IntError::Empty).to_string(),
        "prog failed (exit code 0): non-numeric size \"\": cannot parse integer from empty string"
    );
}

#[test]
fn disk_commands() {
    assert_eq!(line(&create_sparse_file("/f", 4096)), "truncate -s 4096 /f");
    assert_eq!(line(&zero_head("/f")), "dd if=/dev/zero of=/f bs=4K count=1 conv=notrunc status=none");
    assert_eq!(line(&dd_image("/i", "/d")), "dd if=/i of=/d bs=1M conv=fsync status=none");
    assert_eq!(line(&measure_device("/d")), "blockdev --getsize64 /d");
    assert_eq!(line(&e2fsck("/d")), "e2fsck -f -p /d");
    assert_eq!(line(&resize2fs("/d")), "resize2fs /d");
    assert_eq!(line(&mount_command("/d", "/m")), "mount /d /m");
    assert_eq!(device_sectors(1025), 2);
    assert_eq!(vm_size_sectors(&vm(None, None)), 4_194_304);
    assert_eq!(image_size_sectors(3), 6144);
}

#[test]
fn corrected_filesystems_pass_the_check() {
    let c = e2fsck("/d");
    assert_eq!(fsck_passed(&c, exited(0, "")), Ok(()));
    assert_eq!(fsck_passed(&c, exited(1, "")), Ok(()));
    assert_eq!(
        fsck_passed(&c, exited(4, " bad \n")),
        Err(Error::Command { command: "e2fsck".to_string(), exit_code: 4, stderr: "bad".to_string() })
    );
    assert_eq!(
        fsck_passed(&c, not_spawned()),
        Err(Error::CommandExec { command: "e2fsck".to_string(), source: "no such file".to_string() })
    );
    let m = check_filesystem("/opt/e2fsck", "/d");
    assert_eq!(line(&m), "/opt/e2fsck -f -y /d");
    assert_eq!(filesystem_checked(&m, exited(1, "")), Ok(true));
    assert!(filesystem_checked(&m, exited(2, "")).is_err());
    assert!(filesystem_checked(&m, not_spawned()).is_err());
}

#[test]
fn sick_pools_are_refused() {
    let s = DmThinStorage::new(&config("a3f4"), true, true);
    let status = |mode| PoolStatus {
        used_metadata_blocks: 1,
        total_metadata_blocks: 2,
        used_data_blocks: 3,
        total_data_blocks: 4,
        mode,
    };
    assert_eq!(s.assert_pool_healthy(&status(PoolMode::ReadWrite)), Ok(()));
    let why = |mode| match s.assert_pool_healthy(&status(mode)) {
        Err(Error::Pool(m)) => m,
        other => panic!("{other:?}"),
    };
    assert!(why(PoolMode::ReadOnly).starts_with("dm-thin pool 'ember-a3f4-pool' is read-only"));
    assert!(why(PoolMode::OutOfDataSpace).contains("(3/4 blocks used)"));
    assert!(why(PoolMode::Failed).contains("has failed"));
    assert_eq!(
        s.image_handle("x:y", 9),
        VolumeHandle {
            disk_path: format!("/dev/mapper/{}", thin::image_dm_name("ember-a3f4-img-", "x:y")),
            thin_id: Some(9)
        }
    );
    assert_eq!(s.vm_handle("v", 8).thin_id, Some(8));
    assert_eq!(s.vm_handle("v", 8).disk_path, "/dev/mapper/ember-a3f4-vm-v");
    assert_eq!(storage_path_of(&config("")), "/var/lib/ember/dm-thin");
}

#[test]
fn volumes_must_be_recorded() {
    assert_eq!(require_vm_thin_id(&vm(Some(3), None)), Ok(3));
    assert_eq!(
        require_vm_thin_id(&vm(None, None)),
        Err(Error::Vm(
            "vm 'a b' has no dm-thin id recorded — was the pool re-initialized?".to_string()
        ))
    );
    assert_eq!(require_image_thin_id(&image(Some(3))), Ok(3));
    assert_eq!(
        require_image_thin_id(&image(None)),
        Err(Error::Image(
            "image 'alpine' has no dm-thin id recorded — was the pool re-initialized?".to_string()
        ))
    );
}

#[test]
fn pool_layout_follows_the_configuration() {
    let c = init_config();
    assert_eq!(init_storage_path(&c), Ok("/p".to_string()));
    let l = init_layout(&c, "/p").unwrap();
    assert_eq!(l.pool_name, "ember-a3f4-pool");
    assert_eq!(l.metadata_path, "/p/metadata.img");
    assert_eq!(l.data_path, "/p/data.img");
    assert_eq!((l.pool_size_bytes, l.metadata_size_bytes), (Some(4096), None));

    let mut c = init_config();
    c.dm_thin_size = None;
    assert!(matches!(init_layout(&c, "/p"), Err(Error::Config(m)) if m.contains("--size is required")));
    c.dm_thin_mode = Some(DmThinMode::RawDevice);
    let l = init_layout(&c, "/dev/sdb").unwrap();
    assert_eq!(l.metadata_path, "/s/dm-thin-metadata.img");
    assert_eq!(l.data_path, "/dev/sdb");
    assert_eq!(l.pool_size_bytes, None);
    c.dm_thin_mode = None;
    assert!(matches!(init_layout(&c, "/p"), Err(Error::Config(m)) if m.contains("layout mode")));
    c.storage_path = None;
    assert!(matches!(init_storage_path(&c), Err(Error::Config(m)) if m.contains("--storage-path")));
}

#[test]
fn pool_growth_needs_a_file() {
    assert_eq!(require_data_file("/p/data.img", true), Ok(true));
    assert!(matches!(require_data_file("/dev/sdb", false), Err(Error::Config(m)) if m.contains("/dev/sdb is a raw block device")));
    assert_eq!(require_loop("data", "/f", Some("/dev/loop1".to_string())), Ok("/dev/loop1".to_string()));
    assert_eq!(
        require_loop("metadata", "/f", None),
        Err(Error::Config("metadata device /f is not attached to a loop device".to_string()))
    );
    assert_eq!(require_pool_growth(4096, ByteSize { count: 4096 }), Ok(true));
    assert_eq!(require_pool_growth(4096, ByteSize { count: 8192 }), Ok(true));
    assert_eq!(
        require_pool_growth(4096, ByteSize { count: 4095 }),
        Err(Error::Config(
            "cannot shrink dm-thin pool data device from 4096 to 4095 bytes".to_string()
        ))
    );
    let cause = Error::Vm("x".to_string());
    assert_eq!(
        metadata_refused("/dev/loop0", &cause).to_string(),
        format!(
            "thin_check failed (exit code 1): metadata device /dev/loop0 failed thin_check; run thin_repair manually: {}",
            cause.to_string()
        )
    );
    assert_eq!(init_report("p", 1 << 30, 128), "dm-thin pool 'p' active (1.0 GiB data, 65536 B block size).");
    assert_eq!(grow_report(1 << 30), "Grew dm-thin pool data device to 1.0 GiB.");
}

#[test]
fn network_commands() {
    assert_eq!(line(&tap::assign_address("t", "10.0.0.1/30")), "ip addr add 10.0.0.1/30 dev t");
    assert_eq!(line(&tap::bring_up("t")), "ip link set t up");
    assert_eq!(line(&tap::delete("t")), "ip link delete t");
    assert_eq!(line(&tap::list_devices()), "ip -o link show type tun");
    assert_eq!(line(&masquerade::enable_ip_forwarding()), "sysctl -w net.ipv4.ip_forward=1");
}

#[test]
fn vm_network_follows_the_configuration() {
    assert_eq!(subnet_for(&vm(None, None), &config("")), "10.100.0.0/16");
    assert_eq!(subnet_for(&vm(None, Some("10.9.0.0/24")), &config("")), "10.9.0.0/24");
    assert_eq!(
        tap_name(&vm(None, None), &config("a3f4")),
        tap::device_name(&tap::prefix(Some("a3f4")), 0x1234)
    );
    assert_ne!(tap_name(&vm(None, None), &config("a3f4")), tap_name(&vm(None, None), &config("")));
    assert_eq!(host_cidr("10.0.0.1"), "10.0.0.1/30");
    let a = IpAllocation {
        block_index: 0,
        host_ip: "10.0.0.1".to_string(),
        guest_ip: "10.0.0.2".to_string(),
        netmask: "255.255.255.252".to_string(),
    };
    let n = network_info(a, "t".to_string(), "eth0".to_string());
    assert_eq!((n.host_ip.as_str(), n.guest_ip.as_str()), ("10.0.0.1", "10.0.0.2"));
    assert_eq!((n.guest_mac, n.wan_iface), (None, Some("eth0".to_string())));
}

#[test]
fn tables_are_checked() {
    let table = |subnet: &str, block_index, single_address| NetworkTable {
        rows: vec![NetworkRow {
            block_index,
            subnet: subnet.to_string(),
            vm_name: "a".to_string(),
            single_address,
        }],
    };
    let t = table("10.0.0.0/24", 3, STRATEGY_P2P);
    assert_eq!(verify_singleton_subnet(&t, "10.0.0.0/24", STRATEGY_P2P), Ok(()));
    assert_eq!(
        verify_singleton_subnet(&t, "10.1.0.0/24", STRATEGY_P2P),
        Err(Error::Network("subnet mismatch: state has '10.0.0.0/24', requested '10.1.0.0/24'".to_string()))
    );
    assert!(matches!(
        verify_singleton_subnet(&t, "10.0.0.0/24", STRATEGY_SINGLE),
        Err(Error::Network(m)) if m.starts_with("allocation strategy mismatch")
    ));
    assert_eq!(
        verify_singleton_subnet(&NetworkTable { rows: vec![] }, "10.1.0.0/24", STRATEGY_SINGLE),
        Ok(())
    );
    assert!(all_addressable(&t));
    assert!(!all_addressable(&table("255.255.255.0/24", 64, STRATEGY_P2P)));
    assert!(all_addressable(&table("255.255.255.0/24", 255, STRATEGY_SINGLE)));
    assert!(!all_addressable(&table("255.255.255.0/24", 256, STRATEGY_SINGLE)));
}

#[test]
fn zfs_commands() {
    assert_eq!(line(&snapshot::rollback("tank/v", "s")), "zfs rollback -r tank/v@s");
    assert_eq!(
        line(&snapshot::list_command("tank/v")),
        "zfs list -Hp -r -t snapshot -o name,used,refer,creation tank/v"
    );
    assert_eq!(line(&destroy_pool("tank")), "zpool destroy -f tank");
    assert_eq!(init_datasets(&init_config()), ["tank/ember", "tank/ember/images", "tank/ember/vms"]);
    let mut c = init_config();
    assert_eq!(
        require_device(&c),
        Err(Error::Zfs("pool 'tank' does not exist — provide --device to create it".to_string()))
    );
    c.device = Some("/dev/sdb".to_string());
    assert_eq!(require_device(&c), Ok("/dev/sdb".to_string()));
    let s = LinuxStorage::new(&config(""));
    assert_eq!(config("").images_dataset(), "tank/ember/images");
    assert_eq!(config("").vms_dataset(), "tank/ember/vms");
    assert_eq!(s.image_zvol("i"), "tank/ember/images/i");
    assert_eq!(s.vm_zvol("v"), "tank/ember/vms/v");
    assert_eq!(s.base_snapshot("i"), "tank/ember/images/i@base");
    assert_eq!(s.require_base("i", true), Ok(true));
    assert!(matches!(s.require_base("i", false), Err(Error::Zfs(m)) if m.contains("has no @base snapshot")));
    assert!(matches!(grow(), Error::Zfs(m) if m.contains("zpool online -e")));
}

#[test]
fn macos_commands() {
    assert_eq!(line(&truncate(ByteSize { count: 4096 }, "/r")), "truncate -s 4096 /r");
    assert_eq!(line(&expand_filesystem("/opt/resize2fs", "/r")), "/opt/resize2fs /r");
    assert_eq!(arm_tool_path("e2fsck"), "/opt/homebrew/opt/e2fsprogs/sbin/e2fsck");
    assert_eq!(intel_tool_path("e2fsck"), "/usr/local/opt/e2fsprogs/sbin/e2fsck");
    assert_eq!(line(&stat_home("debugfs", "/i")), "debugfs -R stat /home/ubuntu /i");
    assert_eq!(line(&read_users("debugfs", "/i")), "debugfs -R cat /etc/passwd /i");
    assert_eq!(keys_path("/root"), "/root/.ssh/authorized_keys");
    assert_eq!(hosts_script("/t"), "rm /etc/hosts\nwrite /t /etc/hosts\n");
    assert_eq!(line(&volume_info("/s")), "diskutil info -plist /s");
    assert_eq!(line(&memory_command()), "sysctl -n hw.memsize");
    let c = run_script("debugfs", "/t", "/i", "debugfs");
    assert_eq!(line(&c), "debugfs -w -f /t /i");
    assert_eq!(key_script_ran(&c, &exited(0, ""), "exit status: 0"), Ok(true));
    assert_eq!(
        key_script_ran(&c, &exited(1, "bad"), "exit status: 1"),
        Err(Error::Image("debugfs exited with exit status: 1: bad".to_string()))
    );
    assert!(matches!(key_script_ran(&c, &not_spawned(), ""), Err(Error::CommandExec { .. })));
    assert_eq!(hosts_script_ran(&c, &exited(0, ""), "exit status: 0"), Ok(true));
    assert_eq!(
        hosts_script_ran(&c, &exited(1, "bad"), "exit status: 1"),
        Err(Error::Image("debugfs /etc/hosts injection exited with exit status: 1: bad".to_string()))
    );
    assert!(matches!(hosts_script_ran(&c, &not_spawned(), ""), Err(Error::CommandExec { .. })));
    assert_eq!(
        signal_error(HelperSignal::Terminate, 7, "denied").to_string(),
        Error::Vm("failed to send SIGTERM to ember-vz (pid 7): denied".to_string()).to_string()
    );
}

#[test]
fn macos_disks_are_below_the_state_directory() {
    assert_eq!(MacosStorage::init(&init_config()), ["/s/images/data", "/s/vms", "/s/kernels", "/s/network"]);
    let s = MacosStorage::new(&config(""));
    assert_eq!(s.images_dir(), "/s/images/data");
    assert_eq!(s.vms_dir(), "/s/vms");
    assert_eq!(s.vm_dir("v"), "/s/vms/v");
    assert_eq!(s.cloned_volume("v"), VolumeHandle::from_path("/s/vms/v/rootfs.img"));
    assert_eq!(s.disk_device_path(&vm(None, None)), "/s/vms/a b/rootfs.img");
    assert!(matches!(MacosStorage::grow(), Error::Image(m) if m.contains("no pool concept")));
    assert!(matches!(MacosStorage::mount(), Error::Image(m) if m.contains("mounting is not supported")));
    assert!(matches!(MacosStorage::unmount(), Error::Image(m) if m.contains("unmounting is not supported")));
}

#[test]
fn hosts_differ() {
    assert!(LinuxPlatform::requires_root() && !MacosPlatform::requires_root());
    assert_eq!(LinuxPlatform::console_device(), "ttyS0");
    assert_eq!(MacosPlatform::console_device(), "hvc0");
    assert_eq!(
        LinuxPlatform::image_tool_config(),
        ImageToolConfig { tar_command: "tar", needs_fakeroot: false, override_os: None }
    );
    assert_eq!(
        MacosPlatform::image_tool_config(false),
        ImageToolConfig { tar_command: "gtar", needs_fakeroot: true, override_os: Some("linux") }
    );
    assert!(matches!(LinuxPlatform::resolv_conf_mode(), ResolvConfMode::Symlink(_)));
    assert!(matches!(MacosPlatform::resolv_conf_mode(), ResolvConfMode::StaticContent(_)));
    assert_eq!(MacosPlatform::init_hint(), "Run: ember init");
    assert_ne!(LinuxPlatform::init_hint(), MacosPlatform::init_hint());
    let rows = MacosPlatform::inspect_image_extra(&image(None));
    assert_eq!((rows[0].label, rows[0].value.as_str()), ("Disk image", "/images/alpine.img"));
    assert!(!LinuxPlatform::inspect_image_extra(&image(Some(5))).is_empty());
    assert!(MacosPlatform::default_ip_subnet("a3f4").starts_with("192.168."));
    assert!(LinuxPlatform::default_ip_subnet("a3f4").starts_with("10."));
}

#[test]
fn checkpoints_have_their_places() {
    assert_eq!(checkpoint::staging_dir("/c", "id"), "/c/.staging-id");
    assert_eq!(checkpoint::checkpoint_dir("/c", "id"), "/c/id");
    assert_eq!(checkpoint::stage_path("/w", "id", "repo"), "/w/.emberd-restore-id-repo");
    assert_eq!(checkpoint::old_path("/w", "id", "repo"), "/w/.emberd-old-id-repo");
    assert_eq!(checkpoint::tmp_dir("/c/id"), "/c/id/tmp");
    assert_eq!(checkpoint::untar_name("repo"), "repo.untar");
    assert_eq!(checkpoint::untar_name("a.b.c"), "a.b.untar");
    assert_eq!(checkpoint::untar_name(".hidden"), ".hidden.untar");
    assert_eq!(checkpoint::file_name_str("/w/repo"), "repo");
    assert_eq!(checkpoint::file_name_str("/"), "workspace");
    assert_eq!(checkpoint::copy_fault("/t", "denied"), "copy /t: denied");
    assert_eq!(line(&checkpoint::cow_copy("/a", "/b")), "cp --reflink=always -a /a /b");
    assert_eq!(line(&checkpoint::tar_extract("/a", "/b")), "tar -xzf /a -C /b");
    assert!(checkpoint::removable("/tmp/x"));
    assert!(!checkpoint::removable("/tmp/"));
    assert!(!checkpoint::removable("/tmp/../etc"));
    assert!(!checkpoint::removable("/etc/x"));
}
