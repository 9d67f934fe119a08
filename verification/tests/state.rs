//! The state database, and the allocation of context ids.
use ember::state::db::{db_path, SCHEMA};
use ember::state::vsock::{allocate, release, VsockRow, VsockTable, MAX_CID, MIN_CID};
use rusqlite::Connection;
use std::collections::HashSet;

fn open() -> Connection {
    let conn = Connection::open_in_memory().unwrap();
    conn.execute_batch(SCHEMA).unwrap();
    conn
}

fn columns(conn: &Connection, table: &str) -> Vec<String> {
    conn.prepare(&format!("SELECT name FROM pragma_table_info('{table}')"))
        .unwrap()
        .query_map([], |r| r.get::<_, String>(0))
        .unwrap()
        .collect::<std::result::Result<_, _>>()
        .unwrap()
}

fn insert_slot(conn: &Connection, block: u32, vm: &str) -> Result<usize, rusqlite::Error> {
    conn.execute(
        "INSERT INTO network_allocations (block_index, subnet, vm_name) VALUES (?1, ?2, ?3)",
        (block, "10.100.0.0/16", vm),
    )
}

fn insert_cid(conn: &Connection, cid: u32, vm: &str) -> Result<usize, rusqlite::Error> {
    conn.execute("INSERT INTO vsock_allocations (cid, vm_name) VALUES (?1, ?2)", (cid, vm))
}

#[test]
fn open_creates_database_and_schema() {
    let conn = open();
    let cols = columns(&conn, "network_allocations");
    assert!(cols.contains(&"block_index".to_string()));
    assert!(cols.contains(&"subnet".to_string()));
    assert!(cols.contains(&"vm_name".to_string()));
    assert!(cols.contains(&"single_address".to_string()));
    assert_eq!(db_path("/var/lib/ember"), "/var/lib/ember/state.db");
}

#[test]
fn open_is_idempotent() {
    let conn = open();
    conn.execute_batch(SCHEMA).unwrap();
}

#[test]
fn primary_key_rejects_duplicate_slot_in_same_subnet() {
    let conn = open();
    insert_slot(&conn, 0, "vm1").unwrap();
    let err = insert_slot(&conn, 0, "vm2").unwrap_err();
    let msg = err.to_string();
    assert!(msg.contains("UNIQUE") || msg.contains("PRIMARY KEY"), "got: {msg}");
}

#[test]
fn open_creates_vsock_allocations_table() {
    let conn = open();
    let cols = columns(&conn, "vsock_allocations");
    assert!(cols.contains(&"cid".to_string()));
    assert!(cols.contains(&"vm_name".to_string()));
}

#[test]
fn vsock_primary_key_rejects_duplicate_cid() {
    let conn = open();
    insert_cid(&conn, 3, "vm1").unwrap();
    let err = insert_cid(&conn, 3, "vm2").unwrap_err();
    let msg = err.to_string();
    assert!(msg.contains("UNIQUE") || msg.contains("PRIMARY KEY"), "got: {msg}");
}

#[test]
fn vsock_vm_name_unique_constraint_rejects_double_allocation() {
    let conn = open();
    insert_cid(&conn, 3, "vm1").unwrap();
    let err = insert_cid(&conn, 4, "vm1").unwrap_err();
    assert!(err.to_string().contains("UNIQUE"), "got: {err}");
}

#[test]
fn vm_name_unique_constraint_rejects_double_allocation() {
    let conn = open();
    insert_slot(&conn, 0, "vm1").unwrap();
    let err = insert_slot(&conn, 1, "vm1").unwrap_err();
    assert!(err.to_string().contains("UNIQUE"), "got: {err}");
}

#[test]
fn the_table_speaks_as_the_database_does() {
    let conn = open();
    insert_cid(&conn, 3, "vm1").unwrap();
    let said = insert_cid(&conn, 4, "vm1").unwrap_err().to_string();
    let mut table = VsockTable { rows: vec![] };
    allocate(&mut table, "vm1").unwrap();
    let err = allocate(&mut table, "vm1").unwrap_err();
    assert_eq!(err.to_string(), format!("sqlite: {said}"));
}

// --------------------------------------------------------------- vsock cids

fn test_store() -> VsockTable {
    VsockTable { rows: vec![] }
}

#[test]
fn allocate_starts_at_3() {
    let mut store = test_store();
    let cid = allocate(&mut store, "vm1").unwrap();
    assert_eq!(cid, 3);
}

#[test]
fn vsock_allocate_sequential() {
    let mut store = test_store();
    let c1 = allocate(&mut store, "vm1").unwrap();
    let c2 = allocate(&mut store, "vm2").unwrap();
    let c3 = allocate(&mut store, "vm3").unwrap();
    assert_eq!(c1, 3);
    assert_eq!(c2, 4);
    assert_eq!(c3, 5);
}

#[test]
fn allocate_reuses_released_cid() {
    let mut store = test_store();
    allocate(&mut store, "vm1").unwrap();
    allocate(&mut store, "vm2").unwrap();
    allocate(&mut store, "vm3").unwrap();

    release(&mut store, "vm2");

    let c4 = allocate(&mut store, "vm4").unwrap();
    assert_eq!(c4, 4);
}

#[test]
fn vsock_allocate_rejects_duplicate_vm_name() {
    let mut store = test_store();
    allocate(&mut store, "vm1").unwrap();
    let err = allocate(&mut store, "vm1").unwrap_err();
    assert!(err.to_string().contains("UNIQUE") || err.to_string().contains("sqlite"));
}

#[test]
fn vsock_release_idempotent() {
    let mut store = test_store();
    release(&mut store, "nonexistent");
    allocate(&mut store, "vm1").unwrap();
    release(&mut store, "vm1");
    release(&mut store, "vm1");
    assert!(store.rows.is_empty());
}

#[test]
fn vsock_release_only_removes_target_vm() {
    let mut store = test_store();
    allocate(&mut store, "vm1").unwrap();
    allocate(&mut store, "vm2").unwrap();
    allocate(&mut store, "vm3").unwrap();

    release(&mut store, "vm2");

    let mut rows: Vec<(u32, String)> =
        store.rows.iter().map(|r| (r.cid, r.vm_name.clone())).collect();
    rows.sort();
    assert_eq!(rows, vec![(3, "vm1".to_string()), (5, "vm3".to_string())]);
}

#[test]
fn cids_are_unique_and_start_above_the_reserved_ones() {
    let mut store = test_store();
    let mut seen = HashSet::new();
    for i in 0..50 {
        assert!(seen.insert(allocate(&mut store, &format!("vm{i}")).unwrap()));
    }
    assert!(seen.iter().all(|c| *c >= MIN_CID && *c <= MAX_CID));
    let row = VsockRow { cid: 3, vm_name: "vm0".to_string() };
    assert_eq!(store.rows[0], row);
}
