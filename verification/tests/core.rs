//! Configuration, errors, images and paths.
use ember::config::vm::VmEgressConfig;
use ember::error::{CommandOutput, Error};
use ember::image::inspect::{rootfs_has_ssh_server, ssh_server_candidates};
use ember::image::reference::ImageReference;
use ember::image::registry::{
    new_build_entry, new_entry, remove_image, ImageEntry, ImageRegistry,
};
use ember::paths;

// ------------------------------------------------------------------- config

#[test]
fn egress_empty_when_no_allow_no_deny() {
    let eg = VmEgressConfig::default();
    assert!(eg.is_empty());

    let eg = VmEgressConfig { allow: vec!["github.com".to_string()], deny_all_other: false };
    assert!(!eg.is_empty());

    let eg = VmEgressConfig { allow: vec![], deny_all_other: true };
    assert!(!eg.is_empty());
}

#[test]
fn expand_tilde_with_home() {
    let expanded = paths::expand_tilde("~/foo/bar", Some("/home/me"));
    assert!(!expanded.starts_with("~"));
    assert!(expanded.ends_with("foo/bar"));
    assert_eq!(expanded, "/home/me/foo/bar");
    assert_eq!(paths::expand_tilde("~", Some("/home/me")), "/home/me/");
    assert_eq!(paths::expand_tilde("~/foo", None), "~/foo");
    assert_eq!(paths::expand_tilde("~user/foo", Some("/home/me")), "~user/foo");
}

#[test]
fn expand_tilde_absolute_path_unchanged() {
    assert_eq!(paths::expand_tilde("/absolute/path", Some("/home/me")), "/absolute/path");
}

#[test]
fn expand_tilde_relative_path_unchanged() {
    assert_eq!(paths::expand_tilde("relative/path", Some("/home/me")), "relative/path");
}

#[test]
fn paths_join_and_split() {
    assert_eq!(paths::join("/a", "b"), "/a/b");
    assert_eq!(paths::join("/a/", "b"), "/a/b");
    assert_eq!(paths::join("", "b"), "b");
    assert_eq!(paths::join("/a", "/b"), "/b");
    assert_eq!(paths::split_components("/a/./b//c/"), vec!["a", "b", "c"]);
    assert_eq!(paths::file_name("/a/b/"), Some("b".to_string()));
    assert_eq!(paths::file_name("/a/.."), None);
    assert_eq!(paths::file_name("/"), None);
}

#[test]
fn paths_have_parents() {
    assert_eq!(paths::parent("/a/b"), Some("/a".to_string()));
    assert_eq!(paths::parent("/a/b/"), Some("/a".to_string()));
    assert_eq!(paths::parent("/a/./b"), Some("/a".to_string()));
    assert_eq!(paths::parent("/a"), Some("/".to_string()));
    assert_eq!(paths::parent("//a"), Some("/".to_string()));
    assert_eq!(paths::parent("a"), Some("".to_string()));
    assert_eq!(paths::parent("./a"), Some(".".to_string()));
    assert_eq!(paths::parent("a/.."), Some("a".to_string()));
    assert_eq!(paths::parent("."), Some("".to_string()));
    assert_eq!(paths::parent("/"), None);
    assert_eq!(paths::parent(""), None);
}

#[test]
fn paths_agree_with_the_standard_library() {
    for p in [
        "/", "//", "", ".", "..", "./", "a", "a/", "a/b", "/a", "/a/", "/a/b", "/a/b/", "//a//b//", "./a", "././a",
        "a/.", "a/./b", "a/..", "../a", "/.", "/./a", "/a/./", ".a", "a.b", "/a/.b/./",
    ] {
        let std_parent = std::path::Path::new(p).parent().map(|q| q.to_str().unwrap().to_string());
        assert_eq!(paths::parent(p), std_parent, "parent of {p:?}");
        let std_name =
            std::path::Path::new(p).file_name().map(|q| q.to_str().unwrap().to_string());
        assert_eq!(paths::file_name(p), std_name, "name of {p:?}");
        for q in ["", "x", "/x", "x/y", "./x"] {
            let joined = std::path::Path::new(p).join(q);
            assert_eq!(paths::join(p, q), joined.to_str().unwrap(), "{p:?} and {q:?}");
        }
    }
}

// ------------------------------------------------------------------- errors

#[test]
fn ember_vz_start_failed_preserves_source_variant() {
    let inner = Error::Vm("ready-fd timeout after 30s".to_string());
    let err = Error::EmberVzStartFailed {
        source: Box::new(inner),
        stderr_tail: vec!["panic: bad MAC".to_string()],
        preserved_log_path: Some("/var/lib/ember/failed-starts/x.log".to_string()),
    };
    match &err {
        Error::EmberVzStartFailed { source, .. } => match source.as_ref() {
            Error::Vm(s) => assert!(s.contains("ready-fd timeout")),
            other => panic!("expected inner Error::Vm, got {other:?}"),
        },
        other => panic!("expected EmberVzStartFailed, got {other:?}"),
    }
}

#[test]
fn ember_vz_start_failed_renders_multiline_diagnostic() {
    let err = Error::EmberVzStartFailed {
        source: Box::new(Error::Vm("ready-fd timeout".to_string())),
        stderr_tail: vec!["line one".to_string(), "line two".to_string()],
        preserved_log_path: Some("/tmp/preserved.log".to_string()),
    };
    let rendered = err.to_string();
    assert!(rendered.contains("ready-fd timeout"));
    assert!(rendered.contains("ember-vz.log (last 10 lines):"));
    assert!(rendered.contains("  line one"));
    assert!(rendered.contains("  line two"));
    assert!(rendered.contains("preserved at: /tmp/preserved.log"));
    assert_eq!(
        rendered,
        "vm: ready-fd timeout\nember-vz.log (last 10 lines):\n  line one\n  line two\npreserved at: /tmp/preserved.log"
    );
}

#[test]
fn ember_vz_start_failed_omits_log_tail_when_empty() {
    let err = Error::EmberVzStartFailed {
        source: Box::new(Error::Vm("ready-fd closed".to_string())),
        stderr_tail: vec![],
        preserved_log_path: None,
    };
    let rendered = err.to_string();
    assert_eq!(rendered, "vm: ready-fd closed");
}

#[test]
fn ember_vz_start_failed_source_is_set() {
    let err = Error::EmberVzStartFailed {
        source: Box::new(Error::Vm("inner".to_string())),
        stderr_tail: vec![],
        preserved_log_path: None,
    };
    let source = match &err {
        Error::EmberVzStartFailed { source, .. } => Some(source),
        _ => None,
    };
    assert!(source.is_some());
    assert_eq!(**source.unwrap(), Error::Vm("inner".to_string()));
}

#[test]
fn every_error_has_its_words() {
    let s = || "x".to_string();
    let cases = vec![
        (
            Error::Command { command: s(), exit_code: -1, stderr: "bad".to_string() },
            "x failed (exit code -1): bad",
        ),
        (
            Error::CommandExec { command: s(), source: "gone".to_string() },
            "failed to execute 'x' — is it installed and in PATH?",
        ),
        (Error::Zfs(s()), "zfs: x"),
        (Error::Firecracker(s()), "firecracker: x"),
        (Error::Network(s()), "network: x"),
        (Error::Vm(s()), "vm: x"),
        (Error::Image(s()), "image: x"),
        (Error::Vsock(s()), "vsock: x"),
        (Error::Ssh(s()), "ssh: x"),
        (Error::State(s()), "state: x"),
        (Error::Config(s()), "config: x"),
        (Error::VmNotFound { name: s() }, "vm 'x' not found — run 'ember vm list' to see available VMs"),
        (Error::ImageNotFound { name: s() }, "image 'x' not found"),
        (
            Error::VmWrongState {
                name: s(),
                actual: "stopped".to_string(),
                expected: "running".to_string(),
            },
            "vm 'x' is stopped, expected running",
        ),
        (Error::RootRequired, "this operation requires root privileges"),
        (Error::Io { path: "/p".to_string(), source: s() }, "/p: x"),
        (Error::Json(s()), "json: x"),
        (Error::Yaml(s()), "yaml: x"),
        (Error::Sqlite(s()), "sqlite: x"),
    ];
    for (e, want) in cases {
        assert_eq!(e.to_string(), want);
    }
}

#[test]
fn commands_are_checked_by_their_exit_code() {
    let out = |code: Option<i32>, stderr: &[u8]| CommandOutput {
        exit_code: code,
        stdout: b"out".to_vec(),
        stderr: stderr.to_vec(),
    };
    assert!(Error::check_command("c", out(Some(0), b"noise")).is_ok());
    // Bytes that are no text are replaced, not handed back.
    assert_eq!(
        Error::check_command("c", out(Some(3), b"  bad\xff \n")).unwrap_err(),
        Error::Command { command: "c".to_string(), exit_code: 3, stderr: "bad\u{fffd}".to_string() }
    );
    assert_eq!(
        Error::check_command("c", out(None, b"")).unwrap_err(),
        Error::Command { command: "c".to_string(), exit_code: -1, stderr: "".to_string() }
    );
}

// --------------------------------------------------------------- inspecting

fn has_ssh_server(rootfs: &[&str]) -> bool {
    let found: Vec<bool> = ssh_server_candidates("/rootfs")
        .iter()
        .map(|c| rootfs.iter().any(|p| format!("/rootfs/{p}") == *c))
        .collect();
    rootfs_has_ssh_server(&found)
}

#[test]
fn detects_usr_sbin_sshd() {
    assert!(has_ssh_server(&["usr/sbin/sshd"]));
}

#[test]
fn detects_usr_bin_sshd() {
    assert!(has_ssh_server(&["usr/bin/sshd"]));
}

#[test]
fn detects_usr_sbin_dropbear() {
    assert!(has_ssh_server(&["usr/sbin/dropbear"]));
}

#[test]
fn detects_usr_bin_dropbear() {
    assert!(has_ssh_server(&["usr/bin/dropbear"]));
}

#[test]
fn returns_false_when_no_ssh_server() {
    assert!(!has_ssh_server(&["usr/bin/sh", "usr/sbin/crond"]));
}

#[test]
fn returns_false_for_empty_rootfs() {
    assert!(!has_ssh_server(&[]));
}

// ----------------------------------------------------------------- registry

fn sample_entry(name: &str) -> ImageEntry {
    ImageEntry {
        reference: format!("docker.io/library/{name}:latest"),
        local_name: format!("library-{name}-latest"),
        disk_path: format!("tank/ember/images/library-{name}-latest"),
        size_mib: 64,
        pulled_at: "2026-01-01T00:00:00Z".to_string(),
        thin_id: None,
    }
}

#[test]
fn empty_registry_loads_when_no_file() {
    let reg = ImageRegistry::load(None);
    assert!(reg.is_empty());
    assert_eq!(reg.len(), 0);
}

#[test]
fn add_and_get() {
    let mut reg = ImageRegistry::default();
    let entry = sample_entry("alpine");
    reg.add(entry.clone());

    assert_eq!(reg.len(), 1);
    assert!(reg.contains("library-alpine-latest"));
    assert_eq!(reg.get("library-alpine-latest"), Some(&entry));
}

#[test]
fn add_replaces_existing() {
    let mut reg = ImageRegistry::default();
    let entry1 = ImageEntry { size_mib: 64, ..sample_entry("alpine") };
    let entry2 = ImageEntry { size_mib: 128, ..sample_entry("alpine") };

    reg.add(entry1);
    reg.add(entry2.clone());

    assert_eq!(reg.len(), 1);
    assert_eq!(reg.get("library-alpine-latest").unwrap().size_mib, 128);
}

#[test]
fn remove_returns_entry() {
    let mut reg = ImageRegistry::default();
    reg.add(sample_entry("alpine"));

    let removed = reg.remove("library-alpine-latest");
    assert!(removed.is_some());
    assert!(reg.is_empty());
}

#[test]
fn remove_nonexistent_returns_none() {
    let mut reg = ImageRegistry::default();
    assert!(reg.remove("nope").is_none());
}

#[test]
fn find_by_reference_parses_shorthand() {
    let mut reg = ImageRegistry::default();
    reg.add(sample_entry("alpine"));

    let found = reg.find_by_reference("alpine").unwrap();
    assert!(found.is_some());
    assert_eq!(found.unwrap().local_name, "library-alpine-latest");
}

#[test]
fn find_by_reference_missing() {
    let reg = ImageRegistry::default();
    let found = reg.find_by_reference("ubuntu").unwrap();
    assert!(found.is_none());
}

#[test]
fn round_trip_through_state_store() {
    let mut reg = ImageRegistry::default();
    reg.add(sample_entry("alpine"));
    reg.add(sample_entry("ubuntu"));
    let stored = reg.save();

    let loaded = ImageRegistry::load(Some(stored));
    assert_eq!(loaded, reg);
    assert_eq!(loaded.len(), 2);
}

#[test]
fn save_and_reload_preserves_data() {
    let mut reg = ImageRegistry::default();
    reg.add(sample_entry("alpine"));

    let mut reg2 = ImageRegistry::load(Some(reg.save()));
    reg2.add(sample_entry("ubuntu"));

    let final_reg = ImageRegistry::load(Some(reg2.save()));
    assert_eq!(final_reg.len(), 2);
    assert!(final_reg.contains("library-alpine-latest"));
    assert!(final_reg.contains("library-ubuntu-latest"));
}

#[test]
fn new_entry_builds_correctly() {
    let reference = ImageReference::parse("alpine:3.19").unwrap();
    let entry = new_entry(
        &reference,
        "tank/ember/images/library-alpine-3.19",
        96,
        None,
        "2026-01-01T00:00:00Z",
    );

    assert_eq!(entry.reference, "docker.io/library/alpine:3.19");
    assert_eq!(entry.local_name, "library-alpine-3.19");
    assert_eq!(entry.disk_path, "tank/ember/images/library-alpine-3.19");
    assert_eq!(entry.size_mib, 96);
    assert!(!entry.pulled_at.is_empty());
    assert_eq!(entry.thin_id, None);
}

#[test]
fn remove_image_from_store() {
    let mut reg = ImageRegistry::default();
    reg.add(sample_entry("alpine"));

    let removed = remove_image(&mut reg, "library-alpine-latest").unwrap();
    assert_eq!(removed.local_name, "library-alpine-latest");

    let loaded = ImageRegistry::load(Some(reg));
    assert!(loaded.is_empty());
}

#[test]
fn remove_image_not_found() {
    let mut reg = ImageRegistry::default();
    let result = remove_image(&mut reg, "nope");
    assert!(result.is_err());
    assert_eq!(result.unwrap_err(), Error::ImageNotFound { name: "nope".to_string() });
}

#[test]
fn built_images_are_marked_as_local() {
    let e = new_build_entry("dev", "local-dev", "/disk", 12, Some(7), "now");
    assert_eq!(e.reference, "local:dev");
    assert_eq!(e.local_name, "local-dev");
    assert_eq!(e.thin_id, Some(7));
    assert_eq!(e.pulled_at, "now");
}

#[test]
fn an_added_image_comes_last() {
    let mut reg = ImageRegistry::default();
    reg.add(sample_entry("a"));
    reg.add(sample_entry("b"));
    reg.add(ImageEntry { size_mib: 1, ..sample_entry("a") });
    let names: Vec<&str> = reg.images.iter().map(|e| e.local_name.as_str()).collect();
    assert_eq!(names, vec!["library-b-latest", "library-a-latest"]);
}
