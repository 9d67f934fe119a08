//! Masquerading and forwarding rules of a VM.
use crate::command;
use crate::command::{Cmd, CmdView, Outcome};
use crate::deeds;
use crate::deeds::Deed;
use crate::error;
use crate::error::Error;
use crate::network::packets;
use crate::text;
use vstd::multiset::Multiset;
use vstd::prelude::*;

verus! {

/// The comment that marks the rules of an installation.
pub open spec fn comment_text(ns: Option<Seq<char>>) -> Seq<char> {
    match ns {
        None => Seq::empty(),
        Some(id) => "ember:"@ + id,
    }
}

/// The comment that marks the rules of an installation; none for installations
/// without a namespace, whose rules never had one.
pub fn comment(instance_id: Option<&str>) -> (r: String)
    ensures
        r@ == comment_text(crate::config::opt_str(instance_id)),
{
    match instance_id {
        None => {
            let s = String::new();
            assert(s@ =~= Seq::<char>::empty());
            s
        },
        Some(id) => text::cat2("ember:", id),
    }
}

/// A rule with the comment, if there is one, between its head and its tail.
pub open spec fn commented(
    head: Seq<Seq<char>>,
    comment: Seq<char>,
    tail: Seq<Seq<char>>,
) -> Seq<Seq<char>> {
    if comment.len() == 0 {
        head + tail
    } else {
        head + seq!["-m"@, "comment"@, "--comment"@, comment] + tail
    }
}

fn extend(v: &mut Vec<String>, more: &[&str])
    ensures
        text::views(final(v)@) == text::views(old(v)@) + text::slice_views(more@),
{
    let mut i: usize = 0;
    assert(text::views(v@) + text::slice_views(more@).take(0) =~= text::views(v@));
    while i < more.len()
        invariant
            i <= more.len(),
            text::views(v@) =~= text::views(old(v)@) + text::slice_views(more@).take(i as int),
        decreases more.len() - i,
    {
        let s = more[i].to_owned();
        proof {
            text::lemma_views_push(v@, s);
        }
        v.push(s);
        i += 1;
    }
    assert(text::slice_views(more@).take(more@.len() as int) =~= text::slice_views(more@));
}

/// A rule with the comment, if there is one, between its head and its tail.
/// Deleting compares whole rules, so a rule without a comment gets no match for
/// one either.
pub fn with_comment(head: &[&str], comment: &str, tail: &[&str]) -> (r: Vec<String>)
    ensures
        text::views(r@) == commented(
            text::slice_views(head@),
            comment@,
            text::slice_views(tail@),
        ),
{
    let mut out: Vec<String> = Vec::new();
    extend(&mut out, head);
    assert(text::views(out@) =~= text::slice_views(head@));
    if !comment.is_empty() {
        extend(&mut out, &["-m", "comment", "--comment", comment]);
        assert(text::views(out@) =~= text::slice_views(head@) + seq![
            "-m"@,
            "comment"@,
            "--comment"@,
            comment@,
        ]);
    }
    extend(&mut out, tail);
    out
}

/// The three rules of a VM, each added with `-A` or deleted with `-D`.
pub open spec fn rules_text(
    verb: Seq<char>,
    tap_device: Seq<char>,
    guest_ip: Seq<char>,
    wan_iface: Seq<char>,
    comment: Seq<char>,
) -> Seq<Seq<Seq<char>>> {
    seq![
        commented(
            seq!["-t"@, "nat"@, verb, "POSTROUTING"@, "-s"@, guest_ip + "/32"@, "-o"@, wan_iface],
            comment,
            seq!["-j"@, "MASQUERADE"@],
        ),
        commented(
            seq![verb, "FORWARD"@, "-i"@, tap_device, "-o"@, wan_iface],
            comment,
            seq!["-j"@, "ACCEPT"@],
        ),
        commented(
            seq![
                verb,
                "FORWARD"@,
                "-i"@,
                wan_iface,
                "-o"@,
                tap_device,
                "-m"@,
                "conntrack"@,
                "--ctstate"@,
                "RELATED,ESTABLISHED"@,
            ],
            comment,
            seq!["-j"@, "ACCEPT"@],
        ),
    ]
}

/// The contents of a list of argument lists.
pub open spec fn arg_views(v: Seq<Vec<String>>) -> Seq<Seq<Seq<char>>> {
    Seq::new(v.len(), |i: int| text::views(v[i]@))
}

fn rules(verb: &str, tap_device: &str, guest_ip: &str, wan_iface: &str, comment: &str) -> (r: Vec<
    Vec<String>,
>)
    ensures
        arg_views(r@) == rules_text(verb@, tap_device@, guest_ip@, wan_iface@, comment@),
{
    let guest = text::cat2(guest_ip, "/32");
    let head1 = [
        "-t",
        "nat",
        verb,
        "POSTROUTING",
        "-s",
        guest.as_str(),
        "-o",
        wan_iface,
    ];
    let masquerade = ["-j", "MASQUERADE"];
    let accept = ["-j", "ACCEPT"];
    let a = with_comment(&head1, comment, &masquerade);
    assert(text::slice_views(head1@) =~= seq![
        "-t"@,
        "nat"@,
        verb@,
        "POSTROUTING"@,
        "-s"@,
        guest_ip@ + "/32"@,
        "-o"@,
        wan_iface@,
    ]);
    assert(text::slice_views(masquerade@) =~= seq!["-j"@, "MASQUERADE"@]);
    assert(text::slice_views(accept@) =~= seq!["-j"@, "ACCEPT"@]);
    let head2 = [verb, "FORWARD", "-i", tap_device, "-o", wan_iface];
    let b = with_comment(&head2, comment, &accept);
    assert(text::slice_views(head2@) =~= seq![
        verb@,
        "FORWARD"@,
        "-i"@,
        tap_device@,
        "-o"@,
        wan_iface@,
    ]);
    let head3 = [
        verb,
        "FORWARD",
        "-i",
        wan_iface,
        "-o",
        tap_device,
        "-m",
        "conntrack",
        "--ctstate",
        "RELATED,ESTABLISHED",
    ];
    let c = with_comment(&head3, comment, &accept);
    assert(text::slice_views(head3@) =~= seq![
        verb@,
        "FORWARD"@,
        "-i"@,
        wan_iface@,
        "-o"@,
        tap_device@,
        "-m"@,
        "conntrack"@,
        "--ctstate"@,
        "RELATED,ESTABLISHED"@,
    ]);
    let mut out: Vec<Vec<String>> = Vec::new();
    out.push(a);
    out.push(b);
    out.push(c);
    assert(arg_views(out@) =~= rules_text(verb@, tap_device@, guest_ip@, wan_iface@, comment@));
    out
}

/// Arguments of `iptables` that add the rules of a VM, to be run in order until
/// one fails.
pub fn add_rules(tap_device: &str, guest_ip: &str, wan_iface: &str, comment: &str) -> (r: Vec<
    Vec<String>,
>)
    ensures
        arg_views(r@) == rules_text("-A"@, tap_device@, guest_ip@, wan_iface@, comment@),
        packets::connects(arg_views(r@), "-A"@, tap_device@, guest_ip@, wan_iface@, comment@),
{
    proof {
        packets::law_rules_connect_the_guest(
            "-A"@,
            tap_device@,
            guest_ip@,
            wan_iface@,
            comment@,
        );
    }
    rules("-A", tap_device, guest_ip, wan_iface, comment)
}

/// Arguments of `iptables` that delete the rules of a VM. Each is to be run until
/// no copy of the rule is left; failures say nothing.
pub fn remove_rules(tap_device: &str, guest_ip: &str, wan_iface: &str, comment: &str) -> (r: Vec<
    Vec<String>,
>)
    ensures
        arg_views(r@) == rules_text("-D"@, tap_device@, guest_ip@, wan_iface@, comment@),
        packets::connects(arg_views(r@), "-D"@, tap_device@, guest_ip@, wan_iface@, comment@),
{
    proof {
        packets::law_rules_connect_the_guest(
            "-D"@,
            tap_device@,
            guest_ip@,
            wan_iface@,
            comment@,
        );
    }
    rules("-D", tap_device, guest_ip, wan_iface, comment)
}

/// What is deleted is what was added: the rules differ in the verb alone.
pub proof fn law_removal_mirrors_addition(
    tap: Seq<char>,
    ip: Seq<char>,
    wan: Seq<char>,
    comment: Seq<char>,
    k: int,
    j: int,
)
    requires
        0 <= k < 3,
        0 <= j < rules_text("-A"@, tap, ip, wan, comment)[k].len(),
    ensures
        rules_text("-A"@, tap, ip, wan, comment)[k].len() == rules_text(
            "-D"@,
            tap,
            ip,
            wan,
            comment,
        )[k].len(),
        j != (if k == 0 {
            2int
        } else {
            0
        }) ==> rules_text("-A"@, tap, ip, wan, comment)[k][j] == rules_text(
            "-D"@,
            tap,
            ip,
            wan,
            comment,
        )[k][j],
        j == (if k == 0 {
            2int
        } else {
            0
        }) ==> rules_text("-A"@, tap, ip, wan, comment)[k][j] == "-A"@ && rules_text(
            "-D"@,
            tap,
            ip,
            wan,
            comment,
        )[k][j] == "-D"@,
{
}

/// Makes the host forward packets. Doing it again changes nothing.
pub fn enable_ip_forwarding() -> (r: Cmd)
    ensures
        r@ == command::cmd("sysctl"@, seq!["-w"@, "net.ipv4.ip_forward=1"@], "sysctl"@, "sysctl"@),
        deeds::sysctl(r@) == Some(Deed::SetParameter { setting: "net.ipv4.ip_forward=1"@ }),
{
    proof {
        deeds::lemma_sysctl();
    }
    let r = command::command("sysctl", &["-w", "net.ipv4.ip_forward=1"], "sysctl", "sysctl");
    assert(r@.args =~= seq!["-w"@, "net.ipv4.ip_forward=1"@]);
    r
}

/// The command that runs `iptables` with the given arguments.
pub open spec fn iptables_view(args: Seq<Seq<char>>) -> CmdView {
    command::cmd("iptables"@, args, "iptables"@, "iptables"@)
}

/// The command that runs `iptables` with the given arguments.
pub fn iptables(args: Vec<String>) -> (r: Cmd)
    ensures
        r@ == iptables_view(text::views(args@)),
{
    Cmd {
        program: "iptables".to_owned(),
        args,
        spawn_label: "iptables".to_owned(),
        label: "iptables".to_owned(),
    }
}

/// What to do after a deletion.
#[derive(Debug, PartialEq, Eq)]
pub enum AfterDelete {
    /// One copy of the rule is gone; there may be more.
    Again,
    /// No copy of the rule is left.
    Done,
    /// The rule could not be deleted.
    Failed(Error),
}

/// Whether `iptables` says that there is no such rule.
pub open spec fn no_such_rule(stderr: Seq<char>) -> bool {
    text::contains_text(stderr, "does a matching rule exist"@) || text::contains_text(
        stderr,
        "No chain/target/match"@,
    )
}

/// What to do after a deletion: deleting removes one copy of a rule, so it is
/// repeated until there is none.
pub fn iptables_delete(o: Outcome) -> (r: AfterDelete)
    ensures
        match o {
            Outcome::NotSpawned(why) => r matches AfterDelete::Failed(e) && (
            e matches Error::CommandExec { command, source } && command@ == "iptables"@ && source@
                == why@),
            Outcome::Exited(out) => if out.success() {
                r == AfterDelete::Again
            } else if no_such_rule(text::utf8_lossy(out.stderr@)) {
                r == AfterDelete::Done
            } else {
                r matches AfterDelete::Failed(e) && error::is_network(
                    e,
                    "iptables failed: "@ + text::trim(text::utf8_lossy(out.stderr@)),
                )
            },
        },
{
    match o {
        Outcome::NotSpawned(why) => AfterDelete::Failed(
            Error::CommandExec { command: "iptables".to_owned(), source: why },
        ),
        Outcome::Exited(out) => {
            if out.succeeded() {
                return AfterDelete::Again;
            }
            let stderr = text::from_utf8_lossy(&out.stderr);
            if text::contains(stderr.as_str(), "does a matching rule exist") || text::contains(
                stderr.as_str(),
                "No chain/target/match",
            ) {
                return AfterDelete::Done;
            }
            let t = text::trimmed(stderr.as_str());
            AfterDelete::Failed(Error::Network(text::cat2("iptables failed: ", t.as_str())))
        },
    }
}

// ---------------------------------------------------------------- rules kept

/// The rule that arguments speak of: what is left without the verb, which stands
/// first or behind the name of a table.
pub open spec fn rule_in(args: Seq<Seq<char>>) -> Seq<Seq<char>> {
    if args.len() > 2 && args[0] == "-t"@ {
        args.remove(2)
    } else if args.len() > 0 {
        args.remove(0)
    } else {
        args
    }
}

/// The three rules of a VM.
pub open spec fn rules_of(
    tap: Seq<char>,
    ip: Seq<char>,
    wan: Seq<char>,
    comment: Seq<char>,
) -> Seq<Seq<Seq<char>>> {
    rules_text("-A"@, tap, ip, wan, comment).map_values(|args: Seq<Seq<char>>| rule_in(args))
}

/// The rules of a host after the given ones were added.
pub open spec fn with_rules(
    host: Multiset<Seq<Seq<char>>>,
    added: Seq<Seq<Seq<char>>>,
) -> Multiset<Seq<Seq<char>>>
    decreases added.len(),
{
    if added.len() == 0 {
        host
    } else {
        with_rules(host, added.drop_last()).insert(added.last())
    }
}

/// The rules of a host after [`add_rules`] of a VM was run so many times.
pub open spec fn with_added(
    host: Multiset<Seq<Seq<char>>>,
    added: Seq<Seq<Seq<char>>>,
    times: nat,
) -> Multiset<Seq<Seq<char>>>
    decreases times,
{
    if times == 0 {
        host
    } else {
        with_rules(with_added(host, added, (times - 1) as nat), added)
    }
}

/// The rules of a host after one of them was deleted until there was no copy: as
/// long as there is one, deleting removes one.
pub open spec fn cleared_of(
    host: Multiset<Seq<Seq<char>>>,
    rule: Seq<Seq<char>>,
) -> Multiset<Seq<Seq<char>>>
    decreases host.count(rule),
{
    if host.count(rule) == 0 {
        host
    } else {
        cleared_of(host.remove(rule), rule)
    }
}

/// The rules of a host after each of the given ones was deleted in turn.
pub open spec fn cleared(
    host: Multiset<Seq<Seq<char>>>,
    rules: Seq<Seq<Seq<char>>>,
) -> Multiset<Seq<Seq<char>>>
    decreases rules.len(),
{
    if rules.len() == 0 {
        host
    } else {
        cleared_of(cleared(host, rules.drop_last()), rules.last())
    }
}

proof fn lemma_cleared_of(host: Multiset<Seq<Seq<char>>>, rule: Seq<Seq<char>>, x: Seq<Seq<char>>)
    ensures
        cleared_of(host, rule).count(x) == (if x == rule {
            0
        } else {
            host.count(x)
        }),
    decreases host.count(rule),
{
    if host.count(rule) > 0 {
        lemma_cleared_of(host.remove(rule), rule, x);
    }
}

proof fn lemma_cleared(
    host: Multiset<Seq<Seq<char>>>,
    rules: Seq<Seq<Seq<char>>>,
    x: Seq<Seq<char>>,
)
    ensures
        cleared(host, rules).count(x) == (if rules.contains(x) {
            0
        } else {
            host.count(x)
        }),
    decreases rules.len(),
{
    if rules.len() > 0 {
        let d = rules.drop_last();
        lemma_cleared(host, d, x);
        lemma_cleared_of(cleared(host, d), rules.last(), x);
        assert(rules =~= d.push(rules.last()));
        if rules.contains(x) && x != rules.last() {
            let i = choose|i: int| 0 <= i < rules.len() && rules[i] == x;
            assert(d[i] == x);
        }
        if d.contains(x) {
            let i = choose|i: int| 0 <= i < d.len() && d[i] == x;
            assert(rules[i] == x);
        }
        assert(rules[rules.len() - 1] == rules.last());
    }
}

proof fn lemma_with_rules(
    host: Multiset<Seq<Seq<char>>>,
    added: Seq<Seq<Seq<char>>>,
    x: Seq<Seq<char>>,
)
    ensures
        !added.contains(x) ==> with_rules(host, added).count(x) == host.count(x),
    decreases added.len(),
{
    if added.len() > 0 {
        let d = added.drop_last();
        lemma_with_rules(host, d, x);
        if d.contains(x) {
            let i = choose|i: int| 0 <= i < d.len() && d[i] == x;
            assert(added[i] == x);
        }
        if !added.contains(x) {
            assert(added[added.len() - 1] != x);
        }
    }
}

proof fn lemma_with_added(
    host: Multiset<Seq<Seq<char>>>,
    added: Seq<Seq<Seq<char>>>,
    times: nat,
    x: Seq<Seq<char>>,
)
    ensures
        !added.contains(x) ==> with_added(host, added, times).count(x) == host.count(x),
    decreases times,
{
    if times > 0 {
        lemma_with_added(host, added, (times - 1) as nat, x);
        lemma_with_rules(with_added(host, added, (times - 1) as nat), added, x);
    }
}

/// The arguments that add the rules of a VM and those that delete them speak of the
/// same three rules.
pub proof fn law_same_rules_are_removed(
    tap: Seq<char>,
    ip: Seq<char>,
    wan: Seq<char>,
    comment: Seq<char>,
    k: int,
)
    requires
        0 <= k < 3,
    ensures
        rule_in(rules_text("-D"@, tap, ip, wan, comment)[k]) == rules_of(
            tap,
            ip,
            wan,
            comment,
        )[k],
{
    reveal_strlit("-t");
    reveal_strlit("-A");
    reveal_strlit("-D");
    assert("-t"@[1] == 't' && "-A"@[1] == 'A' && "-D"@[1] == 'D');
    let a = rules_text("-A"@, tap, ip, wan, comment)[k];
    let d = rules_text("-D"@, tap, ip, wan, comment)[k];
    assert(rule_in(a) =~= rule_in(d));
}

/// However often the rules of a VM were added, removing them leaves no copy of them
/// and every other rule as it was before; removing them again changes nothing.
pub proof fn law_removal_clears(
    host: Multiset<Seq<Seq<char>>>,
    tap: Seq<char>,
    ip: Seq<char>,
    wan: Seq<char>,
    comment: Seq<char>,
    times: nat,
)
    ensures
        ({
            let rules = rules_of(tap, ip, wan, comment);
            let after = cleared(with_added(host, rules, times), rules);
            &&& forall|x: Seq<Seq<char>>|
                #![trigger after.count(x)]
                after.count(x) == (if rules.contains(x) {
                    0
                } else {
                    host.count(x)
                })
            &&& cleared(after, rules) == after
        }),
{
    let rules = rules_of(tap, ip, wan, comment);
    let added = with_added(host, rules, times);
    let after = cleared(added, rules);
    assert forall|x: Seq<Seq<char>>|
        #![trigger after.count(x)]
        after.count(x) == (if rules.contains(x) {
            0
        } else {
            host.count(x)
        }) && cleared(after, rules).count(x) == after.count(x) by {
        lemma_cleared(added, rules, x);
        lemma_with_added(host, rules, times, x);
        lemma_cleared(after, rules, x);
    }
    assert(cleared(after, rules) =~= after);
}

/// A rule of the same VM with another comment, or with none, is another rule, so
/// removing leaves it alone.
pub proof fn law_other_comments_are_other_rules(
    tap: Seq<char>,
    ip: Seq<char>,
    wan: Seq<char>,
    comment: Seq<char>,
    other: Seq<char>,
    k: int,
)
    requires
        comment != other,
        0 <= k < 3,
    ensures
        !rules_of(tap, ip, wan, comment).contains(rules_of(tap, ip, wan, other)[k]),
{
    let a = rules_of(tap, ip, wan, comment);
    let b = rules_of(tap, ip, wan, other);
    reveal_strlit("-t");
    reveal_strlit("-A");
    reveal_strlit("-m");
    reveal_strlit("-j");
    reveal_strlit("FORWARD");
    reveal_strlit("comment");
    reveal_strlit("conntrack");
    assert("-t"@.len() == 2 && "FORWARD"@.len() == 7);
    assert("-A"@[1] == 'A' && "-t"@[1] == 't' && "-m"@[1] == 'm' && "-j"@[1] == 'j');
    assert("comment"@.len() == 7 && "conntrack"@.len() == 9);
    if comment.len() == 0 && other.len() == 0 {
        assert(comment =~= other);
    }
    assert forall|j: int| 0 <= j < 3 implies a[j] != b[k] by {
        if j == k {
            let at: int = if k == 0 {
                7
            } else if k == 1 {
                5
            } else {
                9
            };
            if comment.len() == 0 {
                assert(a[j][at] == "-j"@ && b[k][at] == "-m"@);
            } else if other.len() == 0 {
                assert(a[j][at] == "-m"@ && b[k][at] == "-j"@);
            } else {
                assert(a[j][at + 3] == comment && b[k][at + 3] == other);
            }
        } else if j == 0 {
            assert(a[j][0] == "-t"@ && b[k][0] == "FORWARD"@);
        } else if k == 0 {
            assert(a[j][0] == "FORWARD"@ && b[k][0] == "-t"@);
        } else if j == 1 {
            assert(b[k][5] == "-m"@ && b[k][6] == "conntrack"@);
            if comment.len() == 0 {
                assert(a[j][5] == "-j"@);
            } else {
                assert(a[j][6] == "comment"@);
            }
        } else {
            assert(a[j][5] == "-m"@ && a[j][6] == "conntrack"@);
            if other.len() == 0 {
                assert(b[k][5] == "-j"@);
            } else {
                assert(b[k][6] == "comment"@);
            }
        }
    }
}

} // verus!
