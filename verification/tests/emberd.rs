//! The guest daemon: requests, processes, statistics, resets and checkpoints.
use base64::Engine;
use ember::command::Outcome;
use ember::emberd::answer::{shown, Member, Shown};
use ember::emberd::checkpoint::{
    archive_path, archived, clean_targets, collect_tmp_files, generate_id, manifest_contents, manifest_path, quota_guard, read_manifest, restored_count,
    stored_name, tar_create, tar_result, tar_spawned, tree_path, unpacked_entry, valid_id, write_manifest, Checkpointing,
    Config, Found, Manifest, Restoring, WorkspaceMethod, DEFAULT_QUOTA_BYTES,
};
use ember::emberd::processes::{
    cmdline_matches_claude, find_agent_pid, find_claude_pids, find_pids_with_cwd_under, reap_pids,
    reap_pids_with_grace, rss_kb, Entry, Reaping,
};
use ember::emberd::request::{
    agent_response, checkpoint_response, dispatch, exec_response, handle_line, op_task_restore,
    read_file_response, reap_response, reset_response, restore_response, write_file_response, write_job, Job, Request,
    Response,
};
use ember::emberd::reset::{
    decode_mount_field, is_at_or_below, mounts_under, removed, require_gone,
    umount, unmount_under, unmounted, validate_reset_path, Removal, Reset,
};
use ember::emberd::stats::{
    checked_sum, cpu_load, disk_used_bytes, parse_net_dev, read_counters, read_cpu_sample,
    read_memory_mb, vm_stats, CpuSample,
};
use ember::emberd::tree::{count_entries, dir_size, Tree};
use ember::error::CommandOutput;
use ember::plan::Run;

fn asked(line: &str) -> Job {
    dispatch(&Request::read(line))
}

fn error_of(j: Job) -> String {
    match j {
        Job::Answer(Response::Error(e)) => e,
        other => panic!("{:?}", other),
    }
}

fn output(code: Option<i32>, stdout: &str, stderr: &str) -> Outcome {
    Outcome::Exited(CommandOutput {
        exit_code: code,
        stdout: stdout.as_bytes().to_vec(),
        stderr: stderr.as_bytes().to_vec(),
    })
}

#[test]
fn valid_id_accepts_generated_ids() {
    assert!(valid_id(&generate_id(1716000000, 123456789, 42)));
    assert!(valid_id("cp-1716000000-abcd1234"));
}

#[test]
fn valid_id_rejects_traversal() {
    assert!(!valid_id(""));
    assert!(!valid_id(".."));
    assert!(!valid_id("../etc"));
    assert!(!valid_id("cp/../../etc"));
    assert!(!valid_id("cp-1716/passwd"));
}

#[test]
fn quota_guard_refuses_oversized_checkpoint() {
    let err = quota_guard(0, 4096, &vec![], 1024).unwrap_err();
    assert!(err.contains("disk-quota guard"), "got: {err}");
    assert!(quota_guard(0, 1000, &vec![24], 1024).is_ok());
    assert!(quota_guard(1, 1000, &vec![24], 1024).is_err());
}

#[test]
fn restore_unknown_id_errors() {
    let mut run: Run<Restoring, String> = Run::start(Restoring::AskDir);
    run.advance(Err(Restoring::AskDir.fault("cp-1-deadbeef")));
    assert_eq!(run.phase, Restoring::Failed);
    assert!(run.error.unwrap().contains("cp-1-deadbeef"));
}

#[test]
fn op_restore_rejects_missing_id() {
    let e = error_of(op_task_restore(&Request::read("{\"op\": \"task_restore\"}")));
    assert!(e.contains("checkpoint_id"));
}

#[test]
fn ping_returns_ok_and_uptime() {
    assert_eq!(asked("{\"op\": \"ping\"}"), Job::Answer(Response::Pong));
    let answer = shown(Response::Pong);
    assert_eq!(answer[0], Member { name: "ok", value: Shown::Flag(true) });
    assert_eq!(answer[1], Member { name: "uptime_seconds", value: Shown::Uptime });
    assert_eq!(answer.len(), 2);
}

#[test]
fn exec_echo() {
    assert_eq!(
        asked("{\"op\": \"exec\", \"command\": \"echo hello\"}"),
        Job::Exec { command: "echo hello".to_string(), env: vec![] }
    );
    assert_eq!(
        exec_response(&output(Some(0), "hello\n", "")),
        Response::Exec { exit_code: 0, stdout: "hello\n".to_string(), stderr: "".to_string() }
    );
}

#[test]
fn exec_with_env() {
    assert_eq!(
        asked(
            "{\"op\": \"exec\", \"command\": \"echo $TEST_VAR\", \
             \"env\": {\"TEST_VAR\": \"hello_from_env\", \"SKIPPED\": 3}}"
        ),
        Job::Exec {
            command: "echo $TEST_VAR".to_string(),
            env: vec![("TEST_VAR".to_string(), "hello_from_env".to_string())],
        }
    );
    let answer = shown(exec_response(&output(Some(0), "hello_from_env\n", "")));
    assert_eq!(answer[0], Member { name: "exit_code", value: Shown::Code(0) });
    assert_eq!(
        answer[1],
        Member { name: "stdout", value: Shown::Text("hello_from_env\n".to_string()) }
    );
}

#[test]
fn exec_nonzero_exit() {
    assert!(matches!(
        exec_response(&output(Some(42), "", "")),
        Response::Exec { exit_code: 42, .. }
    ));
    assert!(matches!(
        exec_response(&output(None, "", "")),
        Response::Exec { exit_code: -1, .. }
    ));
}

#[test]
fn exec_missing_command() {
    assert!(error_of(asked("{\"op\": \"exec\"}")).contains("command"));
}

#[test]
fn exec_stderr() {
    assert_eq!(
        exec_response(&output(Some(0), "", "err\n")),
        Response::Exec { exit_code: 0, stdout: "".to_string(), stderr: "err\n".to_string() }
    );
    let not_found = Outcome::NotSpawned("no such file".to_string());
    assert_eq!(
        exec_response(&not_found),
        Response::Exec {
            exit_code: -1,
            stdout: "".to_string(),
            stderr: "exec error: no such file".to_string(),
        }
    );
}

#[test]
fn read_write_file_roundtrip() {
    let original = b"hello world\xfe\xff";
    let encoded = base64::engine::general_purpose::STANDARD.encode(original);
    let line = format!(
        "{{\"op\": \"write_file\", \"path\": \"/tmp/test.txt\", \"data\": \"{encoded}\"}}"
    );
    let data = match asked(&line) {
        Job::WriteFile { path, data } => {
            assert_eq!(path, "/tmp/test.txt");
            data
        }
        other => panic!("{:?}", other),
    };
    assert_eq!(data, original);
    assert_eq!(write_file_response(&Ok(())), Response::Done);
    assert_eq!(
        asked("{\"op\": \"read_file\", \"path\": \"/tmp/test.txt\"}"),
        Job::ReadFile { path: "/tmp/test.txt".to_string() }
    );
    match read_file_response(&Ok(data)) {
        Response::Data(d) => {
            assert_eq!(d, encoded);
            let decoded = base64::engine::general_purpose::STANDARD.decode(d).unwrap();
            assert_eq!(decoded, original);
        }
        other => panic!("{:?}", other),
    }
}

#[test]
fn read_file_not_found() {
    match read_file_response(&Err("No such file".to_string())) {
        Response::Error(e) => assert!(e.contains("read_file")),
        other => panic!("{:?}", other),
    }
    match write_file_response(&Err("denied".to_string())) {
        Response::Error(e) => assert!(e.contains("write_file")),
        other => panic!("{:?}", other),
    }
}

#[test]
fn write_file_missing_path() {
    let e = error_of(asked("{\"op\": \"write_file\", \"data\": \"aGVsbG8=\"}"));
    assert!(e.contains("path"));
    let e = error_of(asked("{\"op\": \"write_file\", \"path\": \"/tmp/x\"}"));
    assert!(e.contains("data"));
}

#[test]
fn write_file_bad_base64() {
    let e = error_of(asked(
        "{\"op\": \"write_file\", \"path\": \"/tmp/bad.txt\", \"data\": \"not-valid-base64!!!\"}",
    ));
    assert!(e.contains("base64"));
    assert_eq!(
        write_job("/tmp/x".to_string(), Ok(vec![1])),
        Job::WriteFile { path: "/tmp/x".to_string(), data: vec![1] }
    );
    let refused = write_job("/tmp/x".to_string(), Err("odd".to_string()));
    assert_eq!(error_of(refused), "base64 decode: odd");
}

#[test]
fn agent_status_not_running() {
    assert_eq!(asked("{\"op\": \"agent_status\"}"), Job::AgentStatus);
    match agent_response(None, &None, 0, 0, 0) {
        Response::Agent(s) => assert_eq!(s.pid, None),
        other => panic!("{:?}", other),
    }
    match agent_response(Some(9), &Some("t".to_string()), 7, 5, 3) {
        Response::Agent(s) => {
            assert_eq!((s.pid, s.rss_kb), (Some(9), 7));
            assert_eq!(s.task_id, Some("t".to_string()));
            assert_eq!((s.stream_offset, s.result_mtime), (5, 3));
        }
        other => panic!("{:?}", other),
    }
}

#[test]
fn cmdline_matches_claude_positive() {
    assert!(cmdline_matches_claude("agent\0--model\0opus\0", "agent"));
    assert!(cmdline_matches_claude(
        "/usr/local/bin/agent\0--model\0sonnet\0--verbose\0",
        "agent"
    ));
}

#[test]
fn cmdline_matches_claude_negative() {
    assert!(!cmdline_matches_claude("", "agent"));
    assert!(!cmdline_matches_claude("bash\0-c\0echo hi\0", "agent"));
    assert!(!cmdline_matches_claude("agent\0--help\0", "agent"));
    assert!(!cmdline_matches_claude("python\0--model\0foo\0", "agent"));
    assert!(!cmdline_matches_claude("agentette\0--model\0x\0", "agent"));
    assert!(!cmdline_matches_claude("claudette\0--model\0x\0", "claud"));
    assert!(!cmdline_matches_claude("bash\0agent\0--model\0x\0", "agent"));
}

#[test]
fn reap_empty_is_noop() {
    assert_eq!(reap_pids(&[]), Reaping::Finished);
}

#[test]
fn reaping_terminates_and_then_kills() {
    assert_eq!(reap_pids(&[3]), Reaping::Terminate);
    assert_eq!(reap_pids_with_grace(vec![], false), Reaping::Finished);
    assert_eq!(reap_pids_with_grace(vec![3], false), Reaping::Sleep);
    assert_eq!(reap_pids_with_grace(vec![3], true), Reaping::Kill(vec![3]));
}

fn entry(name: &str, text: Option<&str>) -> Entry {
    Entry { name: name.to_string(), text: text.map(|t| t.to_string()) }
}

#[test]
fn processes_are_found_in_a_listing() {
    let agent = "agent\0--model\0opus\0";
    let all = vec![
        entry("self", Some(agent)),
        entry("12", Some(agent)),
        entry("13", None),
        entry("14", Some("bash\0/usr/bin/thermite-entrypoint\0")),
        entry("15", Some(agent)),
    ];
    assert_eq!(find_claude_pids(&all, 15, "agent"), vec![12]);
    assert_eq!(find_agent_pid(&all), Some(14));
    assert_eq!(find_agent_pid(&vec![]), None);
    let dirs = vec![
        entry("20", Some("/tmp/a")),
        entry("21", Some("/tmp/a/b")),
        entry("22", Some("/tmp/ab")),
        entry("23", Some("/tmp/a/c")),
    ];
    assert_eq!(find_pids_with_cwd_under(&dirs, 23, "/tmp/a"), vec![20, 21]);
    assert_eq!(rss_kb("Name: x\nVmRSS:\t  1234 kB\n"), 1234);
    assert_eq!(rss_kb("Name: x\n"), 0);
}

#[test]
fn validate_reset_path_accepts_under_roots() {
    assert!(validate_reset_path("/home/ubuntu/workspace").is_ok());
    assert!(validate_reset_path("/home/ubuntu/a/b/c").is_ok());
    assert!(validate_reset_path("/tmp/foo").is_ok());
    assert!(validate_reset_path("/tmp/foo/bar").is_ok());
}

#[test]
fn validate_reset_path_rejects_unsafe() {
    assert!(validate_reset_path("/etc/passwd").is_err());
    assert!(validate_reset_path("/var/lib").is_err());
    assert!(validate_reset_path("/home/ubuntu").is_err());
    assert!(validate_reset_path("/tmp").is_err());
    assert!(validate_reset_path("/").is_err());
    assert!(validate_reset_path("/home/ubuntuevil").is_err());
    assert!(validate_reset_path("/tmpfoo").is_err());
    assert!(validate_reset_path("/home/ubuntu/../etc").is_err());
    assert!(validate_reset_path("relative/path").is_err());
    assert!(validate_reset_path("/tmp//").is_err());
    assert!(validate_reset_path("/tmp/.").is_err());
}

#[test]
fn count_entries_counts_recursively() {
    let b = Tree::Dir(vec![Tree::File(1)]);
    let a = Tree::Dir(vec![b, Tree::File(1)]);
    let base = Tree::Dir(vec![a]);
    assert_eq!(count_entries(&base), 5);
    assert_eq!(dir_size(&base), 2);
    assert_eq!(dir_size(&Tree::Dir(vec![Tree::Link, Tree::File(7)])), 7);
}

#[test]
fn count_entries_missing_is_zero() {
    assert_eq!(count_entries(&Tree::Missing), 0);
    assert_eq!(dir_size(&Tree::Missing), 0);
    assert_eq!(count_entries(&Tree::Link), 1);
}

#[test]
fn workspace_reset_missing_path() {
    assert!(error_of(asked("{\"op\": \"workspace_reset\"}")).contains("path"));
}

#[test]
fn workspace_reset_rejects_unsafe_path() {
    let e = error_of(asked("{\"op\": \"workspace_reset\", \"path\": \"/etc\"}"));
    assert!(e.contains("workspace_reset"));
}

#[test]
fn workspace_reset_removes_tree_and_counts() {
    assert_eq!(
        asked("{\"op\": \"workspace_reset\", \"path\": \"/tmp/emberd-reset\"}"),
        Job::WorkspaceReset { path: "/tmp/emberd-reset".to_string() }
    );
    let mut run: Run<Reset, String> = Run::start(Reset::KillInside);
    let mut seen = vec![];
    while run.phase != Reset::Done {
        seen.push(run.phase);
        run.advance(Ok(true));
        assert!(seen.len() < 10);
    }
    assert_eq!(
        seen,
        vec![Reset::KillInside, Reset::Unmount, Reset::Count, Reset::Remove, Reset::AskGone]
    );
    assert_eq!(
        reset_response(Ok(5), 12),
        Response::Reset { removed_count: 5, duration_ms: 12 }
    );
    match reset_response(Err("x".to_string()), 12) {
        Response::Error(e) => assert!(e.contains('x')),
        other => panic!("{:?}", other),
    }
}

#[test]
fn workspace_reset_absent_path_is_ok() {
    assert!(removed("/tmp/x", &Removal::NotFound).is_ok());
    assert!(removed("/tmp/x", &Removal::Removed).is_ok());
    assert!(removed("/tmp/x", &Removal::Failed("busy".to_string())).is_err());
    assert!(require_gone("/tmp/x", false).is_ok());
    assert!(require_gone("/tmp/x", true).is_err());
    assert_eq!(
        reset_response(Ok(0), 0),
        Response::Reset { removed_count: 0, duration_ms: 0 }
    );
}

#[test]
fn decode_mount_field_decodes_octal_escapes() {
    assert_eq!(decode_mount_field("/mnt/foo"), "/mnt/foo");
    assert_eq!(decode_mount_field("/mnt/a\\040b"), "/mnt/a b");
    assert_eq!(decode_mount_field("/mnt/a\\011b"), "/mnt/a\tb");
}

#[test]
fn mount_fields_keep_other_characters() {
    assert_eq!(decode_mount_field("/mnt/\u{e9}\\040\u{1f525}"), "/mnt/\u{e9} \u{1f525}");
    assert_eq!(decode_mount_field("/a\\134b\\012c"), "/a\\b\nc");
    assert_eq!(decode_mount_field("\\134040"), "\\040");
    // What is no octal number of a byte is no escape.
    assert_eq!(decode_mount_field("/a\\04"), "/a\\04");
    assert_eq!(decode_mount_field("/a\\999"), "/a\\999");
    assert_eq!(decode_mount_field("/a\\777"), "/a\\777");
    assert_eq!(decode_mount_field("/a\\\u{e9}\u{e9}\u{e9}"), "/a\\\u{e9}\u{e9}\u{e9}");
}

#[test]
fn a_trailing_slash_changes_nothing() {
    for path in ["/tmp/ws", "/tmp/ws/", "/tmp//ws", "/tmp/./ws/."] {
        assert!(is_at_or_below("/tmp/ws", path), "{path}");
        assert!(is_at_or_below("/tmp/ws/a/b", path), "{path}");
        assert!(!is_at_or_below("/tmp/wsx", path), "{path}");
        assert!(!is_at_or_below("/tmp", path), "{path}");
        assert!(!is_at_or_below("tmp/ws", path), "{path}");
        let content = "a /tmp/ws ext4 rw 0 0\nb /tmp/ws/\u{e9} ext4 rw 0 0\nc /tmp/wsx x rw 0 0\n";
        assert_eq!(mounts_under(content, path), vec!["/tmp/ws/\u{e9}", "/tmp/ws"], "{path}");
        let dirs = vec![
            Entry { name: "7".to_string(), text: Some("/tmp/ws".to_string()) },
            Entry { name: "8".to_string(), text: Some("/tmp/ws/x".to_string()) },
            Entry { name: "9".to_string(), text: Some("/tmp/wsx".to_string()) },
            Entry { name: "10".to_string(), text: Some("/tmp/ws".to_string()) },
        ];
        assert_eq!(find_pids_with_cwd_under(&dirs, 10, path), vec![7, 8], "{path}");
    }
}

#[test]
fn unmounting_stops_at_the_first_failure() {
    let mounts = vec!["/tmp/w/x".to_string(), "/tmp/w".to_string()];
    assert_eq!(unmount_under(&mounts, 0, &output(Some(0), "", "")), Ok(Some(1)));
    assert_eq!(unmount_under(&mounts, 1, &output(Some(0), "", "")), Ok(None));
    assert_eq!(
        unmount_under(&mounts, 0, &output(Some(32), "", "target is busy\n")),
        Err("umount /tmp/w/x: target is busy".to_string())
    );
    assert_eq!(
        unmount_under(&mounts, 1, &Outcome::NotSpawned("none".to_string())),
        Err("umount /tmp/w: none".to_string())
    );
}

#[test]
fn answers_name_their_members() {
    let names = |r| shown(r).iter().map(|m| m.name).collect::<Vec<&str>>();
    assert_eq!(names(Response::Error("x".to_string())), vec!["error"]);
    assert_eq!(names(Response::Done), vec!["ok"]);
    assert_eq!(names(Response::Data("eA==".to_string())), vec!["data"]);
    assert_eq!(
        names(agent_response(None, &None, 0, 0, 0)),
        vec!["running", "alive", "pid", "task_id", "rss_kb", "stream_offset", "result_mtime"]
    );
    let reaped = shown(Response::Reaped(vec![3, 4]));
    assert_eq!(reaped[0], Member { name: "killed_pids", value: Shown::Counts(vec![3, 4]) });
    assert_eq!(reaped[1], Member { name: "process_count", value: Shown::Count(2) });
    assert_eq!(
        names(reset_response(Ok(5), 12)),
        vec!["ok", "removed_count", "duration_ms"]
    );
    assert_eq!(names(checkpoint_response(Ok("id".to_string()))), vec!["checkpoint_id"]);
    assert_eq!(names(restore_response(Ok(3))), vec!["ok", "restored_count"]);
    assert_eq!(names(Response::Removed(vec![])), vec!["removed"]);
    let stats = names(Response::Stats(vm_stats(None, None, None, None)));
    assert_eq!(
        stats,
        vec![
            "cpu_pct",
            "memory_used_mb",
            "memory_total_mb",
            "disk_used_gb",
            "net_rx_bytes",
            "net_tx_bytes"
        ]
    );
}

#[test]
fn agents_of_an_unknown_program_are_not_reaped() {
    assert_eq!(reap_response(Some(vec![3, 4])), Response::Reaped(vec![3, 4]));
    assert_eq!(
        reap_response(None),
        Response::Error("agent_reap: the agents' program is not known".to_string())
    );
}

#[test]
fn checkpoints_name_their_files() {
    assert_eq!(manifest_path("/c/id", "contents.json"), "/c/id/contents.json");
    assert_eq!(manifest_path("/c/id", "m.json"), "/c/id/m.json");
    assert_eq!(tree_path("/c/id"), "/c/id/workspace");
    assert_eq!(archive_path("/c/id"), "/c/id/workspace.tar.gz");
}

#[test]
fn deepest_mounts_come_first() {
    let content = "proc /proc proc rw 0 0\n\
                   a /tmp/w ext4 rw 0 0\n\
                   b /tmp/w/x/y ext4 rw 0 0\n\
                   c /tmp/w/x ext4 rw 0 0\n\
                   d /tmp/wide ext4 rw 0 0\n";
    assert_eq!(mounts_under(content, "/tmp/w"), vec!["/tmp/w/x/y", "/tmp/w/x", "/tmp/w"]);
    assert_eq!(umount("/tmp/w").args, vec!["-l", "/tmp/w"]);
    assert!(unmounted("/tmp/w", &output(Some(0), "", "")).is_ok());
    let e = unmounted("/tmp/w", &output(Some(32), "", "target is busy\n")).unwrap_err();
    assert!(e.contains("target is busy"), "{e}");
    assert!(unmounted("/tmp/w", &Outcome::NotSpawned("none".to_string())).is_err());
}

#[test]
fn unknown_op() {
    assert!(error_of(asked("{\"op\": \"foobar\"}")).contains("unknown op"));
}

#[test]
fn missing_op() {
    assert!(error_of(asked("{\"hello\": \"world\"}")).contains("unknown op"));
}

#[test]
fn parse_net_dev_sums_non_lo() {
    let content = "Inter-|   Receive                                                |  Transmit\n\
 face |bytes    packets errs drop fifo frame compressed multicast|bytes    packets errs drop fifo colls carrier compressed\n\
    lo:  1000      10    0    0    0     0          0         0  2000      20    0    0    0     0       0          0\n\
  eth0: 10000     100    0    0    0     0          0         0 20000     200    0    0    0     0       0          0\n\
  eth1:  5000      50    0    0    0     0          0         0  8000      80    0    0    0     0       0          0\n";
    let (rx, tx) = parse_net_dev(content);
    assert_eq!(rx, 15000);
    assert_eq!(tx, 28000);
}

#[test]
fn parse_net_dev_no_interfaces() {
    let content = "Inter-|   Receive                                                |  Transmit\n\
 face |bytes    packets errs drop fifo frame compressed multicast|bytes    packets errs drop fifo colls carrier compressed\n\
    lo:  1000      10    0    0    0     0          0         0  2000      20    0    0    0     0       0          0\n";
    let (rx, tx) = parse_net_dev(content);
    assert_eq!(rx, 0);
    assert_eq!(tx, 0);
}

#[test]
fn parse_net_dev_empty() {
    let (rx, tx) = parse_net_dev("Inter-|\n face |\n");
    assert_eq!(rx, 0);
    assert_eq!(tx, 0);
}

#[test]
fn vm_stats_dispatch_returns_expected_fields() {
    assert_eq!(asked("{\"op\": \"vm_stats\"}"), Job::VmStats);
    let s = vm_stats(Some((1, 2)), Some((300, 400)), Some(5000), Some((6, 7)));
    assert_eq!(s.cpu, Some((1, 2)));
    assert_eq!((s.memory_used_mb, s.memory_total_mb), (300, 400));
    assert_eq!(s.disk_used_bytes, 5000);
    assert_eq!((s.net_rx_bytes, s.net_tx_bytes), (6, 7));
    let none = vm_stats(None, None, None, None);
    assert_eq!(none.cpu, None);
    assert_eq!((none.memory_total_mb, none.disk_used_bytes, none.net_rx_bytes), (0, 0, 0));
}

#[test]
fn read_cpu_sample_parses_proc_stat() {
    let content = "cpu  10 20 30 400 50 6 7 0 0 0\ncpu0 1 2 3 4\n";
    let counters = read_counters(content).expect("should parse");
    assert_eq!(checked_sum(&counters), Some(523));
    let s = read_cpu_sample(content).expect("should parse /proc/stat");
    assert!(s.total > 0, "total CPU ticks should be > 0");
    assert_eq!(s, CpuSample { total: 523, idle: 450 });
    assert_eq!(read_cpu_sample("cpu0 1 2 3 4\n"), None);
    let later = CpuSample { total: 623, idle: 475 };
    assert_eq!(cpu_load(s, later), Some((75, 100)));
    assert_eq!(cpu_load(s, s), None);
    assert_eq!(checked_sum(&vec![u64::MAX, 1]), None);
}

#[test]
fn read_memory_mb_returns_positive() {
    let (used, total) =
        read_memory_mb("MemTotal: 2048 kB\nMemFree: 1 kB\nMemAvailable: 1024 kB\n")
            .expect("should parse /proc/meminfo");
    assert!(total > 0, "total memory should be > 0");
    assert!(used <= total, "used memory should be <= total");
    assert_eq!((used, total), (1, 2));
    assert_eq!(disk_used_bytes(100, 40, 4096), 60 * 4096);
    assert_eq!(disk_used_bytes(10, 40, 4096), 0);
}

#[test]
fn invalid_json_returns_error() {
    match handle_line("not json") {
        Some(j) => assert!(error_of(j).contains("invalid JSON")),
        None => panic!("a line that is not empty is answered"),
    }
    assert_eq!(handle_line("  \n"), None);
    assert_eq!(
        handle_line("{\"op\":\"ping\"}\n"),
        Some(Job::Answer(Response::Pong))
    );
}

#[test]
fn scratch_is_cleaned_below_tmp_only() {
    assert_eq!(
        asked("{\"op\": \"fs_clean\", \"globs\": [\"/tmp/agent-*\", 7]}"),
        Job::FsClean { globs: vec!["/tmp/agent-*".to_string()] }
    );
    assert!(error_of(asked("{\"op\": \"fs_clean\"}")).contains("globs"));
    let found = vec![
        Found { path: "/tmp/agent-1".to_string(), is_file: true },
        Found { path: "/etc/passwd".to_string(), is_file: true },
        Found { path: "/tmp/../etc/passwd".to_string(), is_file: true },
    ];
    assert_eq!(clean_targets(&found), vec!["/tmp/agent-1"]);
}

#[test]
fn checkpoints_are_configured_by_the_request() {
    let c = Config::default();
    assert_eq!(c.quota_bytes, DEFAULT_QUOTA_BYTES);
    match asked("{\"op\": \"task_checkpoint\", \"name\": \"before\", \"quota_bytes\": 9}") {
        Job::TaskCheckpoint { config, label } => {
            assert_eq!(label, Some("before".to_string()));
            assert_eq!(config.quota_bytes, 9);
            assert_eq!(config.workspace, c.workspace);
            assert_eq!(config.tmp_globs, c.tmp_globs);
        }
        other => panic!("{:?}", other),
    }
    match asked("{\"op\": \"task_restore\", \"checkpoint_id\": \"cp-1-ab\", \"workspace\": \"/w\"}")
    {
        Job::TaskRestore { config, id } => {
            assert_eq!(id, "cp-1-ab");
            assert_eq!(config.workspace, "/w");
        }
        other => panic!("{:?}", other),
    }
    assert!(error_of(asked("{\"op\": \"task_restore\", \"checkpoint_id\": \"../x\"}"))
        .contains("../x"));
    assert_eq!(
        checkpoint_response(Ok("cp-1-ab".to_string())),
        Response::Checkpoint("cp-1-ab".to_string())
    );
    assert_eq!(restore_response(Ok(3)), Response::Restored(3));
    assert!(matches!(restore_response(Err("x".to_string())), Response::Error(_)));
    assert_eq!(restored_count(3, 4), 7);
}

#[test]
fn manifests_are_read_back() {
    let m = Manifest {
        id: "cp-1-ab".to_string(),
        name: Some("with \"quotes\"".to_string()),
        created_secs: 17,
        method: WorkspaceMethod::Tar,
        workspace: "/home/ubuntu/workspace".to_string(),
        tmp_files: vec![("0-a".to_string(), "/tmp/agent-a\n".to_string())],
    };
    let raw = write_manifest(&m);
    assert!(raw.contains("\"workspace_method\""), "{raw}");
    let back = read_manifest(&raw).unwrap();
    assert_eq!(back.method, WorkspaceMethod::Tar);
    assert_eq!(back.tmp_files, m.tmp_files);
    assert!(read_manifest("{").is_err());
    let text = |s: &str| Some(s.to_string());
    let files = Some(vec![(text("/tmp/a"), text("0-a")), (text("/tmp/b"), None)]);
    let c = manifest_contents(None, text("cow"), files).unwrap();
    assert_eq!(c.method, WorkspaceMethod::Cow);
    assert_eq!(c.tmp_files, vec![("/tmp/a".to_string(), "0-a".to_string())]);
    assert_eq!(
        manifest_contents(None, text("zip"), None),
        Err("manifest missing/invalid workspace_method".to_string())
    );
    assert_eq!(
        manifest_contents(text("bad"), None, None),
        Err("parse manifest: bad".to_string())
    );
}

#[test]
fn scratch_files_keep_their_names_apart() {
    assert_ne!(stored_name(0, "/tmp/a/x"), stored_name(1, "/tmp/b/x"));
    let found = vec![
        Found { path: "/tmp/b".to_string(), is_file: true },
        Found { path: "/tmp/a".to_string(), is_file: true },
        Found { path: "/tmp/d".to_string(), is_file: false },
        Found { path: "/tmp/b".to_string(), is_file: true },
    ];
    assert_eq!(collect_tmp_files(&found), vec!["/tmp/a", "/tmp/b"]);
}

#[test]
fn an_archive_is_made_where_no_clone_can_be() {
    let mut run: Run<Checkpointing, String> = Run::start(Checkpointing::CowCopy);
    run.advance(Err("not supported".to_string()));
    assert_eq!(run.phase, Checkpointing::ClearPartial);
    assert_eq!(run.error, None);
    run.advance(Ok(true));
    assert_eq!(run.phase, Checkpointing::TarCreate);
    assert_eq!(run.phase.method(), WorkspaceMethod::Tar);
    run.advance(Err("disk full".to_string()));
    assert_eq!(run.phase, Checkpointing::Failed);
    assert_eq!(run.error, Some("disk full".to_string()));
    let (dir, name) = archived("/home/w").unwrap();
    assert_eq!((dir.as_str(), name.as_str()), ("/home", "w"));
    assert_eq!(archived("/"), Err("workspace has no parent".to_string()));
    let c = tar_create("/c/w.tar.gz", &dir, &name);
    assert_eq!(tar_spawned(&output(Some(2), "", "")), Ok(true));
    assert_eq!(
        tar_spawned(&Outcome::NotSpawned("no tar".to_string())),
        Err("spawn tar: no tar".to_string())
    );
    assert_eq!(c.program, "tar");
    assert_eq!(tar_result(&c, &output(Some(0), "", "")), Ok(true));
    assert!(tar_result(&c, &output(Some(2), "", "cannot stat")).unwrap_err().contains("cannot stat"));
}

#[test]
fn what_was_unpacked_is_dropped_where_the_archive_is_broken() {
    let mut run: Run<Restoring, String> = Run::start(Restoring::Unpack);
    run.advance(Ok(true));
    assert_eq!(run.phase, Restoring::CheckUnpacked);
    run.advance(Err("tar extract: broken".to_string()));
    assert_eq!(run.phase, Restoring::DropUntar);
    run.advance(Ok(true));
    assert_eq!(run.phase, Restoring::Failed);
    let mut run: Run<Restoring, String> = Run::start(Restoring::Unpack);
    run.advance(Err("spawn tar: none".to_string()));
    assert_eq!(run.phase, Restoring::Failed);
}

#[test]
fn the_live_tree_is_put_back_where_the_swap_fails() {
    let mut run: Run<Restoring, String> = Run::start(Restoring::AskLive);
    run.advance(Ok(true));
    assert_eq!(run.phase, Restoring::MoveAside);
    run.advance(Ok(true));
    assert_eq!(run.phase, Restoring::Swap);
    run.advance(Err("rename".to_string()));
    assert_eq!(run.phase, Restoring::RollBack);
    run.advance(Err("again".to_string()));
    assert_eq!(run.phase, Restoring::Failed);
    assert_eq!(run.error, Some("rename".to_string()));
    assert_eq!(unpacked_entry(&Ok(Some("/x".to_string()))), Ok("/x".to_string()));
    assert!(unpacked_entry(&Ok(None)).is_err());
}
