//! ZFS datasets and snapshots.
use ember::error::Error;
use ember::zfs::snapshot::{list, short_name, snapshot_name, SnapshotInfo};
use ember::zfs::storage::{fork_snapshot, fork_warning, storage_dependents};
use ember::zfs::{destroy, parse_u64, reports_missing_dataset, tolerate_missing, DestroyOutcome};

const ZVOL: &str = "manypool/ember/images/ubuntu-dev";

fn command_error(stderr: &str) -> Error {
    Error::Command {
        command: "zfs destroy".to_string(),
        exit_code: 1,
        stderr: stderr.to_string(),
    }
}

#[test]
fn missing_dataset_message_is_recognized() {
    let stderr = format!("cannot open '{ZVOL}': dataset does not exist");
    assert!(reports_missing_dataset(&stderr, ZVOL));
}

#[test]
fn missing_dataset_message_recognized_among_other_lines() {
    let stderr =
        format!("cannot open '{ZVOL}': dataset does not exist\ncould not find any snapshots to destroy; check snapshot names.");
    assert!(reports_missing_dataset(&stderr, ZVOL));
}

#[test]
fn busy_dataset_is_not_missing() {
    let stderr = format!("cannot destroy '{ZVOL}': dataset is busy");
    assert!(!reports_missing_dataset(&stderr, ZVOL));
}

#[test]
fn permission_denied_is_not_missing() {
    let stderr = format!("cannot destroy '{ZVOL}': permission denied");
    assert!(!reports_missing_dataset(&stderr, ZVOL));
}

#[test]
fn dependent_clones_are_not_missing() {
    let stderr = format!(
        "cannot destroy '{ZVOL}@base': snapshot has dependent clones\n\
         use '-R' to destroy the following datasets:\n\
         manypool/ember/vms/agent-1"
    );
    assert!(!reports_missing_dataset(&stderr, ZVOL));
}

#[test]
fn missing_message_about_another_dataset_is_not_missing() {
    let stderr = "cannot open 'manypool/ember/vms/agent-1': dataset does not exist";
    assert!(!reports_missing_dataset(stderr, ZVOL));
}

#[test]
fn no_such_pool_is_not_missing() {
    let stderr = "cannot open 'manypool': no such pool";
    assert!(!reports_missing_dataset(stderr, ZVOL));
}

#[test]
fn successful_destroy_reports_destroyed() {
    assert_eq!(tolerate_missing(ZVOL, Ok(()), true).unwrap(), DestroyOutcome::Destroyed);
}

#[test]
fn real_failure_propagates() {
    let err =
        tolerate_missing(ZVOL, Err(command_error("cannot destroy: dataset is busy")), false)
            .unwrap_err();
    assert!(err.to_string().contains("dataset is busy"));
}

#[test]
fn spawn_failure_propagates() {
    let err = tolerate_missing(
        ZVOL,
        Err(Error::CommandExec {
            command: "zfs destroy".to_string(),
            source: "entity not found".to_string(),
        }),
        false,
    )
    .unwrap_err();
    assert!(matches!(err, Error::CommandExec { .. }));
}

#[test]
fn absence_must_be_confirmed() {
    let said = || Err(command_error(&format!("cannot open '{ZVOL}': dataset does not exist")));
    assert_eq!(tolerate_missing(ZVOL, said(), false), Ok(DestroyOutcome::AlreadyAbsent));
    assert!(tolerate_missing(ZVOL, said(), true).is_err());
    assert_eq!(destroy("a/b", false, true).args, vec!["destroy", "-R", "a/b"]);
    assert_eq!(destroy("a/b", true, false).args, vec!["destroy", "-r", "a/b"]);
    assert_eq!(parse_u64("12", "used"), Ok(12));
    assert!(parse_u64("x", "used").is_err());
}

#[test]
fn snapshot_name_format() {
    let dataset = "tank/ember/images/library-alpine-latest";
    let name = "base";
    let snapshot = snapshot_name(dataset, name);
    assert_eq!(snapshot, "tank/ember/images/library-alpine-latest@base");
}

#[test]
fn parse_snapshot_info_line() {
    let line = "tank/ember/vms/myvm@snap1\t65536\t1048576\t1709337600";
    let infos = list(Some(line)).unwrap();
    assert_eq!(infos.len(), 1);
    let info: &SnapshotInfo = &infos[0];
    assert_eq!(info.name, "tank/ember/vms/myvm@snap1");
    assert_eq!(info.used, 65536);
    assert_eq!(info.referenced, 1048576);
    assert_eq!(info.creation, 1709337600);
    assert_eq!(info.short_name, "snap1");
}

#[test]
fn parse_list_output_multiple_snapshots() {
    let output = "tank/ember/vms/myvm@snap1\t65536\t1048576\t1709337600\ntank/ember/vms/myvm@snap2\t131072\t2097152\t1709424000\n";
    let snapshots = list(Some(output)).unwrap();
    assert_eq!(snapshots.len(), 2);
    assert_eq!(snapshots[0].name, "tank/ember/vms/myvm@snap1");
    assert_eq!(snapshots[1].name, "tank/ember/vms/myvm@snap2");
}

#[test]
fn short_name_extraction() {
    let cases = vec![
        ("tank/ember/vms/myvm@snap1", "snap1"),
        ("tank/ember/vms/myvm@base", "base"),
        ("pool/dataset@backup-2024-03-01", "backup-2024-03-01"),
    ];
    for (full, expected) in cases {
        let short = short_name(full);
        assert_eq!(short, expected, "failed for input: {full}");
    }
}

#[test]
fn forks_depend_on_their_source() {
    let fork = fork_snapshot("child");
    let line = format!("tank/ember/vms/myvm@{fork}\t1\t2\t3\ntank/ember/vms/myvm@other\t1\t2\t3\n");
    let infos = list(Some(&line)).unwrap();
    assert_eq!(storage_dependents(&infos), vec!["child"]);
    assert_eq!(
        fork_warning("tank/ember/vms/myvm", "child", "busy"),
        "Warning: failed to clean up fork snapshot 'tank/ember/vms/myvm@fork-child': busy"
    );
    assert!(list(None).unwrap().is_empty());
    assert!(list(Some("a\tb\n")).unwrap().is_empty());
    assert!(list(Some("a@b\tx\t1\t2\n")).is_err());
}
