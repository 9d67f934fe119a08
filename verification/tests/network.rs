//! Egress rules, address translation, and TAP devices.
use ember::command::Outcome;
use ember::config::vm::VmEgressConfig;
use ember::error::{CommandOutput, Error};
use ember::network::egress::{
    accept_rule, apply_rules, classify, drop_rule, generate_rules, remove_one, remove_rules,
    rules_for, AllowEntry, Applying, EgressRule, HostResolver,
};
use ember::network::masquerade;
use ember::network::masquerade::{comment, iptables_delete, with_comment, AfterDelete};
use ember::network::tap::{
    check_length, check_nul, deleted, device_name, list_devices_with_prefix, prefix, IFNAMSIZ,
};
use std::collections::HashMap;
use uuid::Uuid;

struct StubResolver {
    map: HashMap<String, Vec<String>>,
}

impl StubResolver {
    fn new(pairs: &[(&str, &[&str])]) -> Self {
        let mut map = HashMap::new();
        for (host, ips) in pairs {
            map.insert(host.to_string(), ips.iter().map(|s| s.to_string()).collect());
        }
        Self { map }
    }
}

impl HostResolver for StubResolver {
    fn resolve(&self, host: &str) -> Vec<String> {
        self.map.get(host).cloned().unwrap_or_default()
    }
}

fn rule_args(rules: &[EgressRule]) -> Vec<Vec<String>> {
    rules.iter().map(|r| r.args.clone()).collect()
}

#[test]
fn classify_handles_cidr() {
    assert_eq!(classify("10.0.0.0/8"), AllowEntry::Literal("10.0.0.0/8".to_string()));
    assert_eq!(
        classify("  192.168.1.0/24  "),
        AllowEntry::Literal("192.168.1.0/24".to_string())
    );
}

#[test]
fn classify_handles_bare_ipv4() {
    assert_eq!(classify("1.2.3.4"), AllowEntry::Literal("1.2.3.4/32".to_string()));
}

#[test]
fn classify_handles_hostname() {
    assert_eq!(
        classify("api.anthropic.com"),
        AllowEntry::Hostname("api.anthropic.com".to_string())
    );
    assert_eq!(classify("github.com"), AllowEntry::Hostname("github.com".to_string()));
}

#[test]
fn empty_policy_generates_no_rules() {
    let policy = VmEgressConfig::default();
    let resolver = StubResolver::new(&[]);
    let rules = generate_rules(&policy, "10.100.0.2", "eth0", "ember:a3f4", &resolver);
    assert!(rules.is_empty());
}

#[test]
fn allow_only_no_deny_generates_only_accepts() {
    let policy = VmEgressConfig { allow: vec!["10.0.0.0/8".into()], deny_all_other: false };
    let resolver = StubResolver::new(&[]);
    let rules = generate_rules(&policy, "10.100.0.2", "eth0", "ember:a3f4", &resolver);
    assert_eq!(rules.len(), 1);
    assert!(rules[0].args.contains(&"ACCEPT".to_string()));
    assert!(rules[0].args.iter().all(|s| s != "DROP"));
}

#[test]
fn deny_only_no_allow_generates_only_drop() {
    let policy = VmEgressConfig { allow: vec![], deny_all_other: true };
    let resolver = StubResolver::new(&[]);
    let rules = generate_rules(&policy, "10.100.0.2", "eth0", "ember:a3f4", &resolver);
    assert_eq!(rules.len(), 1);
    assert!(rules[0].args.contains(&"DROP".to_string()));
}

#[test]
fn allow_cidr_emits_expected_rule_shape() {
    let policy = VmEgressConfig { allow: vec!["10.0.0.0/8".into()], deny_all_other: false };
    let resolver = StubResolver::new(&[]);
    let rules = generate_rules(&policy, "10.100.0.2", "eth0", "ember:a3f4", &resolver);
    assert_eq!(
        rule_args(&rules),
        vec![vec![
            "-I",
            "FORWARD",
            "1",
            "-s",
            "10.100.0.2/32",
            "-d",
            "10.0.0.0/8",
            "-o",
            "eth0",
            "-m",
            "comment",
            "--comment",
            "ember:a3f4",
            "-j",
            "ACCEPT"
        ]
        .into_iter()
        .map(String::from)
        .collect::<Vec<_>>()]
    );
}

#[test]
fn empty_comment_omits_comment_match() {
    let policy = VmEgressConfig { allow: vec!["1.2.3.4".into()], deny_all_other: true };
    let resolver = StubResolver::new(&[]);
    let rules = generate_rules(&policy, "10.100.0.2", "eth0", "", &resolver);
    for r in &rules {
        assert!(
            !r.args.iter().any(|s| s == "-m" || s == "--comment"),
            "empty comment must not insert -m comment match: {:?}",
            r.args
        );
    }
}

#[test]
fn hostname_resolved_at_generation_one_rule_per_ip() {
    let policy = VmEgressConfig { allow: vec!["github.com".into()], deny_all_other: true };
    let resolver = StubResolver::new(&[("github.com", &["140.82.121.3", "140.82.121.4"])]);
    let rules = generate_rules(&policy, "10.100.0.2", "eth0", "ember:a3f4", &resolver);
    assert_eq!(rules.len(), 3);
    assert!(rules[0].args.windows(2).any(|w| w == ["-d", "140.82.121.3/32"]));
    assert!(rules[1].args.windows(2).any(|w| w == ["-d", "140.82.121.4/32"]));
    assert!(rules[2].args.contains(&"DROP".to_string()));
}

#[test]
fn unresolvable_hostname_produces_no_accept_but_keeps_drop() {
    let policy =
        VmEgressConfig { allow: vec!["does-not-exist.invalid".into()], deny_all_other: true };
    let resolver = StubResolver::new(&[]);
    let rules = generate_rules(&policy, "10.100.0.2", "eth0", "ember:a3f4", &resolver);
    assert_eq!(rules.len(), 1);
    assert!(rules[0].args.contains(&"DROP".to_string()));
}

#[test]
fn duplicate_destinations_deduplicated() {
    let policy = VmEgressConfig {
        allow: vec!["api.anthropic.com".into(), "api2.anthropic.com".into(), "1.2.3.4".into()],
        deny_all_other: false,
    };
    let resolver = StubResolver::new(&[
        ("api.anthropic.com", &["1.2.3.4"]),
        ("api2.anthropic.com", &["1.2.3.4"]),
    ]);
    let rules = generate_rules(&policy, "10.100.0.2", "eth0", "ember:a3f4", &resolver);
    assert_eq!(rules.len(), 1, "should dedupe to a single ACCEPT");
}

#[test]
fn order_is_accepts_then_drop() {
    let policy =
        VmEgressConfig { allow: vec!["10.0.0.0/8".into(), "1.2.3.4".into()], deny_all_other: true };
    let resolver = StubResolver::new(&[]);
    let rules = generate_rules(&policy, "10.100.0.2", "eth0", "ember:a3f4", &resolver);
    assert!(rules[0].args.contains(&"ACCEPT".to_string()));
    assert!(rules[1].args.contains(&"ACCEPT".to_string()));
    assert!(rules[2].args.contains(&"DROP".to_string()));
}

#[test]
fn whitespace_and_empty_entries_skipped() {
    let policy = VmEgressConfig {
        allow: vec!["".into(), "   ".into(), "1.2.3.4".into()],
        deny_all_other: false,
    };
    let resolver = StubResolver::new(&[]);
    let rules = generate_rules(&policy, "10.100.0.2", "eth0", "ember:a3f4", &resolver);
    assert_eq!(rules.len(), 1);
}

#[test]
fn delete_shape_strips_insert_position() {
    let r = accept_rule("10.100.0.2/32", "10.0.0.0/8", "eth0", "ember:a3f4");
    let del = remove_one(&r);
    assert_eq!(&del[..2], &["-D", "FORWARD"]);
    let orig = r.into_args();
    assert_eq!(&del[2..], &orig[3..]);
}

#[test]
fn delete_shape_converts_append_drop() {
    let r = drop_rule("10.100.0.2/32", "eth0", "ember:a3f4");
    let del = remove_one(&r);
    assert_eq!(&del[..2], &["-D", "FORWARD"]);
    let orig = r.into_args();
    assert_eq!(&del[2..], &orig[2..]);
}

#[test]
fn comment_appears_exactly_once_per_rule() {
    let policy = VmEgressConfig { allow: vec!["10.0.0.0/8".into()], deny_all_other: true };
    let resolver = StubResolver::new(&[]);
    let rules = generate_rules(&policy, "10.100.0.2", "eth0", "ember:a3f4", &resolver);
    for r in &rules {
        let n = r.args.iter().filter(|s| s.as_str() == "--comment").count();
        assert_eq!(n, 1, "rule should carry exactly one --comment: {:?}", r.args);
        assert!(r.args.contains(&"ember:a3f4".to_string()));
    }
}

#[test]
fn rules_follow_what_names_resolve_to() {
    let policy = VmEgressConfig { allow: vec!["a.b".into(), "9.9.9.9".into()], deny_all_other: true };
    let resolved = vec![vec!["1.1.1.1".to_string(), "9.9.9.9".to_string()], vec![]];
    let rules = rules_for(&policy, "10.0.0.2", "eth0", "", &resolved);
    let dests: Vec<&str> = rules[..2].iter().map(|r| r.args[6].as_str()).collect();
    assert_eq!(dests, vec!["1.1.1.1/32", "9.9.9.9/32"]);
    assert_eq!(rules.len(), 3);
    assert_eq!(rules[0].iptables_args()[0], "-I");
    assert_eq!(remove_rules(&rules).len(), 3);
    assert_eq!(apply_rules(3, 0, true), Applying::Apply(1));
    assert_eq!(apply_rules(3, 2, true), Applying::Applied);
    assert_eq!(apply_rules(3, 1, false), Applying::RollBack(1));
}

// ------------------------------------------------------ address translation

#[test]
fn comment_for_new_install_tags_namespace() {
    assert_eq!(comment(Some("a3f4")), "ember:a3f4");
}

#[test]
fn comment_for_legacy_install_is_empty() {
    assert_eq!(comment(None), "");
}

#[test]
fn with_comment_skips_match_when_empty() {
    let args = with_comment(&["-A", "FORWARD", "-i", "tap0"], "", &["-j", "ACCEPT"]);
    assert_eq!(args, vec!["-A", "FORWARD", "-i", "tap0", "-j", "ACCEPT"]);
}

#[test]
fn with_comment_inserts_comment_match_when_non_empty() {
    let args = with_comment(&["-A", "FORWARD", "-i", "tap0"], "ember:a3f4", &["-j", "ACCEPT"]);
    assert_eq!(
        args,
        vec![
            "-A",
            "FORWARD",
            "-i",
            "tap0",
            "-m",
            "comment",
            "--comment",
            "ember:a3f4",
            "-j",
            "ACCEPT"
        ]
    );
}

#[test]
fn every_rule_that_is_added_can_be_removed() {
    let add = masquerade::add_rules("tap0", "10.0.0.2", "eth0", "ember:a3f4");
    let remove = masquerade::remove_rules("tap0", "10.0.0.2", "eth0", "ember:a3f4");
    assert_eq!(add.len(), remove.len());
    for (a, r) in add.iter().zip(&remove) {
        let a: Vec<&String> = a.iter().filter(|s| *s != "-A").collect();
        let r: Vec<&String> = r.iter().filter(|s| *s != "-D").collect();
        assert_eq!(a, r);
    }
    let failed = |stderr: &str| {
        Outcome::Exited(CommandOutput {
            exit_code: Some(1),
            stdout: vec![],
            stderr: stderr.as_bytes().to_vec(),
        })
    };
    assert_eq!(
        iptables_delete(failed("Bad rule (does a matching rule exist in that chain?)")),
        AfterDelete::Done
    );
    assert_eq!(
        iptables_delete(failed(" locked \n")),
        AfterDelete::Failed(Error::Network("iptables failed: locked".to_string()))
    );
    let worked = CommandOutput { exit_code: Some(0), stdout: vec![], stderr: vec![] };
    assert_eq!(iptables_delete(Outcome::Exited(worked)), AfterDelete::Again);
}

// -------------------------------------------------------------- TAP devices

#[test]
fn device_name_format() {
    let id = Uuid::parse_str("550e8400-e29b-41d4-a716-446655440000").unwrap();
    let name = device_name("ema3f4-", id.as_u128());
    assert_eq!(name, "ema3f4-550e840");
    assert!(name.len() < IFNAMSIZ);
}

#[test]
fn device_name_fits_ifnamsiz() {
    let id = Uuid::new_v4();
    let name = device_name("emffff-", id.as_u128());
    assert!(name.len() < IFNAMSIZ);
}

#[test]
fn name_too_long_is_rejected() {
    let long_name = "a".repeat(IFNAMSIZ);
    let err = check_length(&long_name).unwrap_err();
    assert!(matches!(err, Error::Network(_)));
    let msg = err.to_string();
    assert!(msg.contains("too long"), "unexpected error: {msg}");
    assert!(check_length("em-0123456").is_ok());
    assert!(check_nul("a\0b").is_err());
    assert!(check_nul("ab").is_ok());
}

#[test]
fn prefix_for_new_install_embeds_namespace() {
    let p = prefix(Some("ffff"));
    assert_eq!(p, "emffff-");
    assert!(p.len() + 7 <= 15);
}

#[test]
fn prefix_for_legacy_install_is_three_chars() {
    assert_eq!(prefix(None), "em-");
}

#[test]
fn devices_of_the_installation_are_found() {
    let listing = "3: em-0123456: <UP> mtu 1500\n4: eth0: <UP>\n5: em-7654321@if2: <UP>\n";
    let found = list_devices_with_prefix(Some(listing), "em-");
    assert!(found.contains(&"em-0123456".to_string()), "{found:?}");
    assert!(!found.contains(&"eth0".to_string()));
    assert!(list_devices_with_prefix(None, "em-").is_empty());
    let failed = Outcome::Exited(CommandOutput {
        exit_code: Some(1),
        stdout: vec![],
        stderr: b"Operation not permitted".to_vec(),
    });
    assert!(deleted("em-0123456", failed).is_err());
}

/// Only the name itself is asked for, and only where there is one.
#[test]
fn the_resolver_is_asked_for_the_name() {
    let resolver = StubResolver::new(&[("a.example", &["1.1.1.1"]), ("", &["9.9.9.9"])]);
    let policy = VmEgressConfig {
        allow: vec!["  a.example ".to_string(), " ".to_string(), "2.2.2.2".to_string()],
        deny_all_other: false,
    };
    let rules = rule_args(&generate_rules(&policy, "10.0.0.2", "eth0", "", &resolver));
    let dests: Vec<&str> = rules.iter().map(|r| r[6].as_str()).collect();
    assert_eq!(dests, vec!["1.1.1.1/32", "2.2.2.2/32"]);
}

/// However often the rules were added, deleting each until it is gone leaves the
/// others alone.
#[test]
fn removing_clears_what_was_added() {
    let rule = |args: &Vec<String>| -> Vec<String> {
        args.iter().filter(|a| *a != "-A" && *a != "-D").cloned().collect()
    };
    let mut host: Vec<Vec<String>> = Vec::new();
    for tag in ["ember:a3f4", "ember:a3f4", "", "ember:b"] {
        for args in masquerade::add_rules("t", "10.0.0.2", "eth0", tag) {
            host.push(rule(&args));
        }
    }
    for _ in 0..2 {
        for args in masquerade::remove_rules("t", "10.0.0.2", "eth0", "ember:a3f4") {
            while let Some(k) = host.iter().position(|r| *r == rule(&args)) {
                host.remove(k);
            }
        }
        assert_eq!(host.len(), 6);
    }
    assert!(host.iter().all(|r| !r.contains(&"ember:a3f4".to_string())));
}

#[test]
fn device_names_fit_in_bytes() {
    let p = prefix(Some("\u{e9}\u{e9}"));
    let name = device_name(&p, u128::MAX);
    assert!(name.len() < IFNAMSIZ && name.starts_with(&p));
    assert!(check_length(&name).is_ok());
}
