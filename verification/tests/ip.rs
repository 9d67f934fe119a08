//! Address allocation.
use ember::error::Error;
use ember::network::ip::{
    allocate, allocate_single, allocated_block, block_ips, check_invariants, ip_to_string,
    list_allocations, max_blocks, parse_cidr, parse_ipv4, release, strategy_name, Anomaly,
    AnomalyKind, NetworkRow, NetworkTable, STRATEGY_P2P, STRATEGY_SINGLE,
};
use ember::network::subnet::{derive_default_subnet, fnv1a_32};
use std::collections::HashSet;

fn no_exclude() -> HashSet<u32> {
    HashSet::new()
}

fn addr(a: u32, b: u32, c: u32, d: u32) -> u32 {
    (a << 24) | (b << 16) | (c << 8) | d
}

fn test_store() -> NetworkTable {
    NetworkTable { rows: vec![] }
}

#[test]
fn parse_cidr_valid() {
    let (ip, prefix) = parse_cidr("10.100.0.0/16").unwrap();
    assert_eq!(ip, addr(10, 100, 0, 0));
    assert_eq!(prefix, 16);
}

#[test]
fn parse_cidr_slash_30() {
    let (ip, prefix) = parse_cidr("192.168.1.0/30").unwrap();
    assert_eq!(ip, addr(192, 168, 1, 0));
    assert_eq!(prefix, 30);
}

#[test]
fn parse_cidr_accepts_up_to_slash_32() {
    assert!(parse_cidr("10.0.0.0/31").is_ok());
    assert!(parse_cidr("192.168.64.0/27").is_ok());
    assert!(parse_cidr("10.0.0.5/32").is_ok());
}

#[test]
fn parse_cidr_rejects_slash_above_32() {
    assert!(parse_cidr("10.0.0.0/33").is_err());
}

#[test]
fn parse_cidr_rejects_host_bits() {
    assert!(parse_cidr("10.100.0.1/16").is_err());
}

#[test]
fn parse_cidr_rejects_no_slash() {
    assert!(parse_cidr("10.100.0.0").is_err());
}

#[test]
fn addresses_read_back() {
    for a in [0u32, 1, addr(10, 100, 0, 2), addr(192, 168, 64, 255), u32::MAX] {
        assert_eq!(parse_ipv4(&ip_to_string(a)), Some(a));
    }
    for s in ["", "1.2.3", "1.2.3.4.5", "256.0.0.1", "01.2.3.4", "1.2.3.a", " 1.2.3.4"] {
        assert_eq!(parse_ipv4(s), None, "{s:?}");
    }
}

#[test]
fn max_blocks_slash_16() {
    assert_eq!(max_blocks(16), 16384);
}

#[test]
fn max_blocks_slash_24() {
    assert_eq!(max_blocks(24), 64);
}

#[test]
fn max_blocks_slash_30() {
    assert_eq!(max_blocks(30), 1);
}

#[test]
fn block_ips_first() {
    let alloc = block_ips(addr(10, 100, 0, 0), 0);
    assert_eq!(alloc.host_ip, "10.100.0.1");
    assert_eq!(alloc.guest_ip, "10.100.0.2");
    assert_eq!(alloc.netmask, "255.255.255.252");
}

#[test]
fn block_ips_second() {
    let alloc = block_ips(addr(10, 100, 0, 0), 1);
    assert_eq!(alloc.host_ip, "10.100.0.5");
    assert_eq!(alloc.guest_ip, "10.100.0.6");
}

#[test]
fn block_ips_wraps_octet() {
    let alloc = block_ips(addr(10, 100, 0, 0), 64);
    assert_eq!(alloc.host_ip, "10.100.1.1");
    assert_eq!(alloc.guest_ip, "10.100.1.2");
}

#[test]
fn allocate_first_block() {
    let mut store = test_store();
    let alloc = allocate(&mut store, "10.100.0.0/16", "vm1", &no_exclude()).unwrap();
    assert_eq!(alloc.block_index, 0);
    assert_eq!(alloc.host_ip, "10.100.0.1");
    assert_eq!(alloc.guest_ip, "10.100.0.2");
}

#[test]
fn ip_allocate_sequential() {
    let mut store = test_store();
    let a1 = allocate(&mut store, "10.100.0.0/16", "vm1", &no_exclude()).unwrap();
    let a2 = allocate(&mut store, "10.100.0.0/16", "vm2", &no_exclude()).unwrap();
    let a3 = allocate(&mut store, "10.100.0.0/16", "vm3", &no_exclude()).unwrap();

    assert_eq!(a1.block_index, 0);
    assert_eq!(a2.block_index, 1);
    assert_eq!(a3.block_index, 2);

    assert_eq!(a1.host_ip, "10.100.0.1");
    assert_eq!(a2.host_ip, "10.100.0.5");
    assert_eq!(a3.host_ip, "10.100.0.9");
}

#[test]
fn allocate_reuses_released_block() {
    let mut store = test_store();
    allocate(&mut store, "10.100.0.0/16", "vm1", &no_exclude()).unwrap();
    allocate(&mut store, "10.100.0.0/16", "vm2", &no_exclude()).unwrap();
    allocate(&mut store, "10.100.0.0/16", "vm3", &no_exclude()).unwrap();

    release(&mut store, "vm2");

    let a4 = allocate(&mut store, "10.100.0.0/16", "vm4", &no_exclude()).unwrap();
    assert_eq!(a4.block_index, 1);
    assert_eq!(a4.host_ip, "10.100.0.5");
}

#[test]
fn allocate_exhausts_small_subnet() {
    let mut store = test_store();
    allocate(&mut store, "192.168.1.0/30", "vm1", &no_exclude()).unwrap();
    let err = allocate(&mut store, "192.168.1.0/30", "vm2", &no_exclude()).unwrap_err();
    assert!(err.to_string().contains("no free /30 blocks"));
    assert_eq!(
        err.to_string(),
        "network: no free /30 blocks in 192.168.1.0/30 (all 1 blocks allocated)"
    );
}

#[test]
fn allocate_rejects_too_narrow_subnet() {
    let mut store = test_store();
    let err = allocate(&mut store, "10.0.0.0/31", "vm1", &no_exclude()).unwrap_err();
    assert!(matches!(err, Error::Network(_)));
    assert!(store.rows.is_empty());
}

#[test]
fn allocate_skips_poisoned_slot() {
    let mut store = test_store();
    let poisoned = HashSet::from([0u32]);
    let alloc = allocate(&mut store, "10.100.0.0/16", "vm1", &poisoned).unwrap();
    assert_eq!(alloc.block_index, 1);
    assert_eq!(alloc.host_ip, "10.100.0.5");
}

#[test]
fn allocate_skips_multiple_poisoned_slots() {
    let mut store = test_store();
    let poisoned = HashSet::from([0u32, 1, 2]);
    let alloc = allocate(&mut store, "10.100.0.0/16", "vm1", &poisoned).unwrap();
    assert_eq!(alloc.block_index, 3);
}

#[test]
fn allocate_all_poisoned_errors_distinctly() {
    let mut store = test_store();
    let poisoned = HashSet::from([0u32]);
    let err = allocate(&mut store, "192.168.1.0/30", "vm1", &poisoned).unwrap_err();
    let msg = err.to_string();
    assert!(msg.contains("poisoned"), "got: {msg}");
    assert!(!msg.contains("all 1 blocks allocated"), "got: {msg}");
}

#[test]
fn allocated_block_reports_then_clears_on_release() {
    let mut store = test_store();
    allocate(&mut store, "10.100.0.0/16", "vm1", &no_exclude()).unwrap();
    let a2 = allocate(&mut store, "10.100.0.0/16", "vm2", &no_exclude()).unwrap();

    assert_eq!(allocated_block(&store, "vm2"), Some(a2.block_index));
    assert_eq!(allocated_block(&store, "nonexistent"), None);

    release(&mut store, "vm2");
    assert_eq!(allocated_block(&store, "vm2"), None);
}

#[test]
fn list_allocations_reports_rows_with_resolved_ips() {
    let mut store = test_store();
    allocate(&mut store, "10.100.0.0/16", "vm1", &no_exclude()).unwrap();
    allocate(&mut store, "10.100.0.0/16", "vm2", &no_exclude()).unwrap();
    release(&mut store, "vm1");

    let rows = list_allocations(&store).unwrap();
    assert_eq!(rows.len(), 1);
    assert_eq!(rows[0].vm_name, "vm2");
    assert_eq!(rows[0].block_index, 1);
    assert_eq!(rows[0].guest_ip, "10.100.0.6");
    assert_eq!(rows[0].host_ip, "10.100.0.5");
    assert!(!rows[0].single_address);
}

#[test]
fn list_allocations_empty_when_none() {
    let store = test_store();
    assert!(list_allocations(&store).unwrap().is_empty());
}

#[test]
fn poisoned_slot_release_and_retry_does_not_disturb_healthy_vms() {
    let mut store = test_store();
    let healthy1 = allocate(&mut store, "10.100.0.0/16", "healthy1", &no_exclude()).unwrap();
    let healthy2 = allocate(&mut store, "10.100.0.0/16", "healthy2", &no_exclude()).unwrap();

    let failed = allocate(&mut store, "10.100.0.0/16", "failing", &no_exclude()).unwrap();
    assert_eq!(failed.block_index, 2);
    release(&mut store, "failing");
    let poisoned = HashSet::from([failed.block_index]);
    let retry = allocate(&mut store, "10.100.0.0/16", "failing", &poisoned).unwrap();
    assert_eq!(retry.block_index, 3);

    assert_eq!(allocated_block(&store, "healthy1"), Some(healthy1.block_index));
    assert_eq!(allocated_block(&store, "healthy2"), Some(healthy2.block_index));
}

#[test]
fn allocate_rejects_subnet_mismatch() {
    let mut store = test_store();
    allocate(&mut store, "10.100.0.0/16", "vm1", &no_exclude()).unwrap();
    let err = allocate(&mut store, "10.200.0.0/16", "vm2", &no_exclude()).unwrap_err();
    assert!(err.to_string().contains("subnet mismatch"));
}

#[test]
fn ip_allocate_rejects_duplicate_vm_name() {
    let mut store = test_store();
    allocate(&mut store, "10.100.0.0/16", "vm1", &no_exclude()).unwrap();
    let err = allocate(&mut store, "10.100.0.0/16", "vm1", &no_exclude()).unwrap_err();
    assert!(err.to_string().contains("UNIQUE") || err.to_string().contains("sqlite"));
    assert_eq!(store.rows.len(), 1);
}

#[test]
fn ip_release_idempotent() {
    let mut store = test_store();
    release(&mut store, "nonexistent");

    allocate(&mut store, "10.100.0.0/16", "vm1", &no_exclude()).unwrap();
    release(&mut store, "vm1");
    release(&mut store, "vm1");
    assert!(store.rows.is_empty());
}

#[test]
fn ip_release_only_removes_target_vm() {
    let mut store = test_store();
    allocate(&mut store, "10.100.0.0/16", "vm1", &no_exclude()).unwrap();
    allocate(&mut store, "10.100.0.0/16", "vm2", &no_exclude()).unwrap();
    allocate(&mut store, "10.100.0.0/16", "vm3", &no_exclude()).unwrap();

    release(&mut store, "vm2");

    let rows: Vec<(u32, String)> =
        store.rows.iter().map(|r| (r.block_index, r.vm_name.clone())).collect();
    assert_eq!(rows, vec![(0, "vm1".to_string()), (2, "vm3".to_string())]);
}

fn vmnet_reserved() -> [u32; 3] {
    [addr(192, 168, 64, 0), addr(192, 168, 64, 1), addr(192, 168, 64, 255)]
}

fn single(
    store: &mut NetworkTable,
    subnet: &str,
    name: &str,
    exclude: &HashSet<u32>,
) -> Result<ember::network::ip::IpAllocation, Error> {
    allocate_single(
        store,
        subnet,
        name,
        "192.168.64.1",
        "255.255.255.0",
        &vmnet_reserved(),
        exclude,
    )
}

#[test]
fn allocate_single_skips_network_and_gateway_in_slot_zero() {
    let mut store = test_store();
    let alloc = single(&mut store, "192.168.64.0/27", "vm1", &no_exclude()).unwrap();
    assert_eq!(alloc.guest_ip, "192.168.64.2");
    assert_eq!(alloc.host_ip, "192.168.64.1");
    assert_eq!(alloc.netmask, "255.255.255.0");
    assert_eq!(alloc.block_index, 2);
}

#[test]
fn allocate_single_packs_addresses_one_per_vm() {
    let mut store = test_store();
    let mut last_octet = None;
    for i in 0..30 {
        let alloc =
            single(&mut store, "192.168.64.0/27", &format!("vm{i}"), &no_exclude()).unwrap();
        let octet: u8 = alloc.guest_ip.split('.').nth(3).unwrap().parse().unwrap();
        assert!(octet >= 2);
        if let Some(prev) = last_octet {
            assert!(octet > prev, "expected strictly monotonic guest IPs");
        }
        last_octet = Some(octet);
    }
}

#[test]
fn allocate_single_skips_broadcast_in_top_slot() {
    let mut store = test_store();
    for i in 0..31 {
        single(&mut store, "192.168.64.224/27", &format!("vm{i}"), &no_exclude()).unwrap();
    }
    let err = single(&mut store, "192.168.64.224/27", "overflow", &no_exclude()).unwrap_err();
    assert!(matches!(err, Error::Network(_)));
}

#[test]
fn allocate_single_reuses_released_addresses() {
    let mut store = test_store();
    let a1 = single(&mut store, "192.168.64.32/27", "vm1", &no_exclude()).unwrap();
    let a2 = single(&mut store, "192.168.64.32/27", "vm2", &no_exclude()).unwrap();
    let _a3 = single(&mut store, "192.168.64.32/27", "vm3", &no_exclude()).unwrap();
    assert_ne!(a1.guest_ip, a2.guest_ip);

    release(&mut store, "vm2");

    let a4 = single(&mut store, "192.168.64.32/27", "vm4", &no_exclude()).unwrap();
    assert_eq!(a4.guest_ip, a2.guest_ip);
}

#[test]
fn allocate_single_rejects_subnet_mismatch_on_reread() {
    let mut store = test_store();
    single(&mut store, "192.168.64.32/27", "vm1", &no_exclude()).unwrap();
    let err = single(&mut store, "192.168.64.64/27", "vm2", &no_exclude()).unwrap_err();
    assert!(matches!(err, Error::Network(msg) if msg.contains("subnet mismatch")));
}

#[test]
fn allocate_single_skips_poisoned_slot() {
    let mut store = test_store();
    let poisoned = HashSet::from([2u32]);
    let alloc = single(&mut store, "192.168.64.0/27", "vm1", &poisoned).unwrap();
    assert_eq!(alloc.guest_ip, "192.168.64.3");
    assert_eq!(alloc.block_index, 3);
}

#[test]
fn list_allocations_resolves_single_address_rows() {
    let mut store = test_store();
    single(&mut store, "192.168.64.0/27", "vm1", &no_exclude()).unwrap();
    let rows = list_allocations(&store).unwrap();
    assert_eq!(rows.len(), 1);
    assert_eq!(rows[0].vm_name, "vm1");
    assert_eq!(rows[0].guest_ip, "192.168.64.2");
    assert!(rows[0].single_address);
}

#[test]
fn strategy_mismatch_rejected_on_reread() {
    let mut store = test_store();
    allocate(&mut store, "10.100.0.0/16", "vm1", &no_exclude()).unwrap();
    let reserved: [u32; 0] = [];
    let err = allocate_single(
        &mut store,
        "10.100.0.0/16",
        "vm2",
        "10.100.0.1",
        "255.255.0.0",
        &reserved,
        &no_exclude(),
    )
    .unwrap_err();
    assert!(err.to_string().contains("strategy mismatch"), "got: {}", err.to_string());
    assert_eq!(strategy_name(STRATEGY_P2P), "/30 P2P (allocate)");
    assert_eq!(strategy_name(STRATEGY_SINGLE), "single-address (allocate_single)");
    assert_eq!(strategy_name(9), "unknown");
}

#[test]
fn check_invariants_clean_store() {
    let mut store = test_store();
    allocate(&mut store, "10.100.0.0/16", "vm1", &no_exclude()).unwrap();
    allocate(&mut store, "10.100.0.0/16", "vm2", &no_exclude()).unwrap();
    let anomalies = check_invariants(&store);
    assert!(anomalies.is_empty());
}

fn force_row(store: &mut NetworkTable, subnet: &str, block_index: u32, vm_name: &str) {
    store.rows.push(NetworkRow {
        block_index,
        subnet: subnet.to_string(),
        vm_name: vm_name.to_string(),
        single_address: 0,
    });
}

#[test]
fn check_invariants_duplicate_slot_attributes_all_vms() {
    let mut store = test_store();
    let alloc1 = allocate(&mut store, "10.100.0.0/16", "vm1", &no_exclude()).unwrap();
    force_row(&mut store, "10.100.0.0/16", alloc1.block_index, "vm2");

    let anomalies = check_invariants(&store);
    let dup_slot: Vec<&Anomaly> = anomalies
        .iter()
        .filter(|a| matches!(a.kind, AnomalyKind::DuplicateSlot { .. }))
        .collect();
    assert_eq!(dup_slot.len(), 1);
    let a = dup_slot[0];
    assert!(a.vm_names.contains(&"vm1".to_string()));
    assert!(a.vm_names.contains(&"vm2".to_string()));
    assert_eq!(a.vm_names.len(), 2);
    match &a.kind {
        AnomalyKind::DuplicateSlot { subnet, block_index, count } => {
            assert_eq!(subnet, "10.100.0.0/16");
            assert_eq!(*block_index, alloc1.block_index);
            assert_eq!(*count, 2);
        }
        other => panic!("expected DuplicateSlot, got {other:?}"),
    }
}

#[test]
fn check_invariants_duplicate_vm_name_lists_one_vm() {
    let mut store = test_store();
    allocate(&mut store, "10.100.0.0/16", "vm1", &no_exclude()).unwrap();
    force_row(&mut store, "10.100.0.0/16", 1, "vm1");

    let anomalies = check_invariants(&store);
    let dup_name: Vec<&Anomaly> = anomalies
        .iter()
        .filter(|a| matches!(a.kind, AnomalyKind::DuplicateVmName { .. }))
        .collect();
    assert_eq!(dup_name.len(), 1);
    let a = dup_name[0];
    assert_eq!(a.vm_names, vec!["vm1".to_string()]);
    match &a.kind {
        AnomalyKind::DuplicateVmName { vm_name, count } => {
            assert_eq!(vm_name, "vm1");
            assert_eq!(*count, 2);
        }
        other => panic!("expected DuplicateVmName, got {other:?}"),
    }
}

#[test]
fn no_two_vms_share_an_address() {
    let mut store = test_store();
    let mut seen = HashSet::new();
    for i in 0..64 {
        let a = allocate(&mut store, "10.7.0.0/24", &format!("vm{i}"), &no_exclude()).unwrap();
        assert!(seen.insert(a.guest_ip.clone()) && seen.insert(a.host_ip));
        if i % 5 == 0 {
            release(&mut store, &format!("vm{i}"));
            let b = allocate(&mut store, "10.7.0.0/24", &format!("x{i}"), &no_exclude()).unwrap();
            assert_eq!(a.guest_ip, b.guest_ip);
        }
    }
    assert!(check_invariants(&store).is_empty());
    assert!(allocate(&mut store, "10.7.0.0/24", "more", &no_exclude()).is_err());
}

// ----------------------------------------------------------- default subnet

#[test]
fn derived_subnet_lands_in_10_slash_8() {
    let subnet = derive_default_subnet("a3f4");
    assert!(subnet.starts_with("10."));
    assert!(subnet.ends_with(".0.0/16"));
}

#[test]
fn derivation_is_stable() {
    assert_eq!(derive_default_subnet("a3f4"), derive_default_subnet("a3f4"));
}

#[test]
fn default_subnet_can_be_allocated_from() {
    // Known values of the hash.
    assert_eq!(fnv1a_32(b""), 0x811c_9dc5);
    assert_eq!(fnv1a_32(b"a"), 0xe40c_292c);
    assert_eq!(fnv1a_32(b"foobar"), 0xbf9c_f968);
    assert_eq!(derive_default_subnet("foobar"), "10.191.0.0/16");
    for id in ["", "0000", "a3f4", "ffff"] {
        let (_, prefix) = parse_cidr(&derive_default_subnet(id)).unwrap();
        assert_eq!(prefix, 16);
    }
}

/// Whatever was allocated and released before, the list shows who holds what.
#[test]
fn the_list_shows_who_holds_what() {
    let mut table = test_store();
    let none = no_exclude();
    let a = allocate(&mut table, "10.0.0.0/24", "a", &none).unwrap();
    let b = allocate(&mut table, "10.0.0.0/24", "b", &none).unwrap();
    assert!(allocate(&mut table, "10.0.0.0/24", "b", &none).is_err());
    release(&mut table, "a");
    let c = allocate(&mut table, "10.0.0.0/24", "c", &none).unwrap();
    assert_eq!(c.block_index, a.block_index);
    let rows = list_allocations(&table).unwrap();
    assert_eq!(rows.len(), 2);
    assert_eq!(rows[0].vm_name, "c");
    assert_eq!((&rows[0].host_ip, &rows[0].guest_ip), (&c.host_ip, &c.guest_ip));
    assert_eq!(rows[1].vm_name, "b");
    assert_eq!((&rows[1].host_ip, &rows[1].guest_ip), (&b.host_ip, &b.guest_ip));
    assert!(rows.iter().all(|r| !r.single_address));

    let mut table = test_store();
    let s = allocate_single(
        &mut table,
        "192.168.64.0/27",
        "s",
        "192.168.64.1",
        "255.255.255.0",
        &[addr(192, 168, 64, 0), addr(192, 168, 64, 1)],
        &none,
    )
    .unwrap();
    let rows = list_allocations(&table).unwrap();
    assert_eq!(rows.len(), 1);
    assert!(rows[0].single_address);
    assert_eq!(rows[0].block_index, s.block_index);
    assert_eq!(rows[0].guest_ip, s.guest_ip);
    assert_eq!(rows[0].host_ip, "192.168.64.1");
    release(&mut table, "s");
    assert!(list_allocations(&table).unwrap().is_empty());
}
