//! Thin volumes and their pool.
use ember::command::Outcome;
use ember::config::{ByteSize, DmThinMode, GlobalConfig, StorageKind};
use ember::dm_thin::pool::{
    ensure_target_loaded, list_with_prefix, name, parse_fraction, parse_status, pool_table,
    PoolMode,
};
use ember::dm_thin::storage::{
    clamp_metadata_size, device_size_bytes, format_bytes, resolve_init_paths, DmThinStorage,
};
use ember::dm_thin::thin::{
    after_allocation, allocate, allocate_snap, fresh_thin_id, image_dm_name, image_prefix,
    image_staging_dm_name, sanitize_dm_name, thin_id_from, thin_table, vm_dm_name, vm_prefix,
    Allocated, MAX_DEV_ID,
};
use ember::dm_thin::{bytes_to_sectors, device_found, dm_device_exists, is_already_exists, loop_device, tools};
use ember::error::{CommandOutput, Error};
use std::collections::HashSet;

#[test]
fn matches_dmsetup_eexist_message() {
    let err = Error::Command {
        command: "dmsetup".to_string(),
        exit_code: 1,
        stderr: "device-mapper: message ioctl on ember-pool failed: File exists\n".to_string(),
    };
    assert!(is_already_exists(&err));
}

#[test]
fn rejects_unrelated_errors() {
    let err = Error::Command {
        command: "dmsetup".to_string(),
        exit_code: 1,
        stderr: "device-mapper: reload ioctl on ember-pool failed: Invalid argument\n".to_string(),
    };
    assert!(!is_already_exists(&err));
}

#[test]
fn rejects_non_command_errors() {
    let err = Error::Vm("File exists somewhere else in the system".to_string());
    assert!(!is_already_exists(&err));
}

#[test]
fn parse_status_rw() {
    let s = "0 209715200 thin-pool 12 1234/2048 5678/100000 - rw \
             discard_passdown queue_if_no_space - 1024";
    let st = parse_status(s).unwrap();
    assert_eq!(st.used_metadata_blocks, 1234);
    assert_eq!(st.total_metadata_blocks, 2048);
    assert_eq!(st.used_data_blocks, 5678);
    assert_eq!(st.total_data_blocks, 100_000);
    assert_eq!(st.mode, PoolMode::ReadWrite);
}

#[test]
fn parse_status_out_of_data_space() {
    let s = "0 209715200 thin-pool 7 100/2048 100000/100000 - out_of_data_space \
             no_discard_passdown error_if_no_space needs_check 1024";
    let st = parse_status(s).unwrap();
    assert_eq!(st.mode, PoolMode::OutOfDataSpace);
    assert_eq!(st.used_data_blocks, st.total_data_blocks);
}

#[test]
fn parse_status_failed() {
    let s = "0 209715200 thin-pool 0 0/0 0/0 - Fail";
    let st = parse_status(s).unwrap();
    assert_eq!(st.mode, PoolMode::Failed);
}

#[test]
fn parse_status_rejects_bad_target() {
    let s = "0 100 linear 0 0/0 0/0 - rw";
    assert!(parse_status(s).is_err());
}

#[test]
fn fractions_are_quoted_where_they_are_wrong() {
    assert_eq!(parse_fraction("3/4").unwrap(), (3, 4));
    // What is wrong is shown as a quoted string.
    let shown = |s: &str| parse_fraction(s).unwrap_err().to_string();
    assert!(shown("3-4").contains("got: 3-4"), "{}", shown("3-4"));
    assert!(shown("a\n/4").contains("\"a\\n\""), "{}", shown("a\n/4"));
    assert!(shown("3/").contains("cannot parse integer from empty string"));
    assert!(shown("3/18446744073709551616").contains("number too large"));
}

#[test]
fn pool_table_format() {
    let t = pool_table("/dev/loop0", "/dev/loop1", 1_048_576, 128, 32_768);
    assert_eq!(t, "0 1048576 thin-pool /dev/loop0 /dev/loop1 128 32768");
}

#[test]
fn name_for_new_install_embeds_namespace() {
    assert_eq!(name(Some("a3f4")), "ember-a3f4-pool");
}

#[test]
fn name_for_legacy_install_is_unprefixed() {
    assert_eq!(name(None), "ember-pool");
}

#[test]
fn fresh_thin_id_is_nonzero_and_in_range() {
    for _ in 0..1000 {
        let id = fresh_thin_id();
        assert_ne!(id, 0);
        assert!(id <= MAX_DEV_ID, "id {id} exceeds kernel max {MAX_DEV_ID}");
    }
}

#[test]
fn fresh_thin_id_distribution() {
    let ids: HashSet<u64> = (0..100).map(|_| fresh_thin_id()).collect();
    assert_eq!(ids.len(), 100);
}

#[test]
fn thin_ids_are_the_low_bits() {
    assert_eq!(thin_id_from(0), None);
    assert_eq!(thin_id_from(0xff00_0000), None);
    assert_eq!(thin_id_from(0xab12_3456), Some(0x12_3456));
    assert_eq!(thin_id_from(u32::MAX), Some(MAX_DEV_ID));
    let a = allocate("p");
    assert!(a.ask.args.contains(&format!("create_thin {}", a.id)));
    let b = allocate_snap("p", 7);
    assert!(b.ask.args.contains(&format!("create_snap {} 7", b.id)));
    assert_eq!(after_allocation(5, Ok(())), Allocated::Yes(5));
    let taken = Error::Command {
        command: "dmsetup".to_string(),
        exit_code: 1,
        stderr: "File exists".to_string(),
    };
    assert_eq!(after_allocation(5, Err(taken)), Allocated::Collision);
    assert_eq!(
        after_allocation(5, Err(Error::RootRequired)),
        Allocated::No(Error::RootRequired)
    );
}

#[test]
fn thin_table_shape() {
    let t = thin_table("ember-a3f4-pool", 42, 16_777_216);
    assert_eq!(t, "0 16777216 thin /dev/mapper/ember-a3f4-pool 42");
}

#[test]
fn dm_names() {
    assert_eq!(vm_dm_name("ember-a3f4-vm-", "myvm"), "ember-a3f4-vm-myvm");
    assert_eq!(
        image_dm_name("ember-a3f4-img-", "library-alpine-latest"),
        "ember-a3f4-img-library-alpine-latest"
    );
    assert_eq!(
        image_staging_dm_name("ember-a3f4-img-", "foo"),
        "ember-a3f4-img-foo-staging"
    );
}

#[test]
fn prefixes_for_new_install_embed_namespace() {
    assert_eq!(image_prefix(Some("a3f4")), "ember-a3f4-img-");
    assert_eq!(vm_prefix(Some("a3f4")), "ember-a3f4-vm-");
}

#[test]
fn prefixes_for_legacy_install_match_pre_instance_id_literals() {
    assert_eq!(image_prefix(None), "ember-img-");
    assert_eq!(vm_prefix(None), "ember-vm-");
}

#[test]
fn sanitize_keeps_safe_chars() {
    assert_eq!(sanitize_dm_name("alpine_3.18-edge"), "alpine_3_18-edge");
    assert_eq!(sanitize_dm_name("my/vm:1"), "my_vm_1");
}

#[test]
fn format_bytes_units() {
    assert_eq!(format_bytes(0), "0 B");
    assert_eq!(format_bytes(2 * 1024 * 1024), "2.0 MiB");
    assert_eq!(format_bytes(3u64 * 1024 * 1024 * 1024), "3.0 GiB");
}

#[test]
fn format_bytes_agrees_with_floating_point() {
    let by_float = |bytes: u64| {
        let units = [(40, "TiB"), (30, "GiB"), (20, "MiB")];
        match units.iter().find(|u| bytes >> u.0 > 0) {
            Some(u) => format!("{:.1} {}", bytes as f64 / (1u64 << u.0) as f64, u.1),
            None => format!("{bytes} B"),
        }
    };
    for b in [
        1, 1023, 1024, 1025, 1075, 1076, 1126, 1127, 1_048_575, 1_048_576, 1_572_864, 5_000_000_000,
        1_099_511_627_775, 1_099_511_627_776, 123_456_789_012_345,
        (1 << 63) + 1, u64::MAX, u64::MAX - 1024,
    ] {
        assert_eq!(format_bytes(b), by_float(b), "{b}");
    }
}

#[test]
fn devices_are_looked_up() {
    let c = dm_device_exists("x");
    assert_eq!(c.program, "dmsetup");
    let exited = |code: i32| {
        Outcome::Exited(CommandOutput { exit_code: Some(code), stdout: vec![], stderr: vec![] })
    };
    assert_eq!(device_found(&c, exited(0)), Ok(true));
    assert_eq!(device_found(&c, exited(1)), Ok(false));
    assert!(device_found(&c, Outcome::NotSpawned("gone".to_string())).is_err());
    assert_eq!(bytes_to_sectors(1024), 2);
}

#[test]
fn listings_are_read() {
    let listing = "ember-vm-a\t(253:1)\nember-img-b\t(253:2)\nother\t(253:3)\n";
    assert_eq!(list_with_prefix(listing, "ember-"), vec!["ember-vm-a", "ember-img-b"]);
    assert!(list_with_prefix("No devices found\n", "ember-").is_empty());
    assert!(ensure_target_loaded("thin-pool        v1.22.0\nthin             v1.22.0\n").is_ok());
    assert!(ensure_target_loaded("linear v1.4.0\n").is_err());
    assert_eq!(loop_device::attached("/f", "/dev/loop3\n").unwrap(), "/dev/loop3");
    assert!(loop_device::attached("/f", "\n").is_err());
    assert_eq!(
        loop_device::parse_found("/dev/loop7: [2049]:12 (/f)\n"),
        Some("/dev/loop7".to_string())
    );
    assert_eq!(loop_device::parse_found(""), None);
    assert_eq!(device_size_bytes(" 4096\n").unwrap(), 4096);
    assert!(device_size_bytes("x").is_err());
    assert!(tools::parse_metadata_size("abc").is_err());
}

fn config() -> GlobalConfig {
    GlobalConfig {
        storage_backend: StorageKind::DmThin,
        state_dir: "/var/lib/ember".to_string(),
        instance_id: "a3f4".to_string(),
        pool: "tank".to_string(),
        dataset: "ember".to_string(),
        storage_path: None,
        dm_thin_mode: None,
        dm_thin_block_size: None,
        wan_iface: None,
        ip_subnet: "10.100.0.0/16".to_string(),
    }
}

#[test]
fn storage_finds_its_files() {
    let s = DmThinStorage::new(&config(), true, true);
    assert_eq!(s.pool_name, "ember-a3f4-pool");
    assert!(s.metadata_file().starts_with("/var/lib/ember"));
    assert_ne!(s.metadata_file(), s.data_file());
    assert!(s.vm_device("vm1").starts_with("ember-a3f4-vm-"), "{}", s.vm_device("vm1"));
    let (m, d) = resolve_init_paths("/dev/sdb", "/state", DmThinMode::RawDevice);
    assert_eq!(d, "/dev/sdb");
    assert!(m.starts_with("/state"));
    assert_eq!(ByteSize { count: 7 }.bytes(), 7);
    assert!(clamp_metadata_size(0) > 0);
    assert_eq!(clamp_metadata_size(u64::MAX), clamp_metadata_size(u64::MAX - 1));
}
