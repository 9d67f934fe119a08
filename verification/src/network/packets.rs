//! What the rules of a VM do to packets.
//!
//! A rule is read as `iptables` reads it: a table, a chain, matches that a packet has
//! to pass, each an option with its value, and a target.
use crate::command;
use crate::network::{egress, masquerade};
use vstd::prelude::*;

verus! {

/// A packet on its way through the host.
pub struct Packet {
    /// The address that it comes from.
    pub source: Seq<char>,
    /// The destinations, as they are written, that its address lies in.
    pub to: Set<Seq<char>>,
    /// The interface that it came in by.
    pub input: Seq<char>,
    /// The interface that it leaves by.
    pub output: Seq<char>,
    /// Whether it belongs to a connection that is known already.
    pub known: bool,
}

/// The table that a rule is in.
pub open spec fn table(args: Seq<Seq<char>>) -> Seq<char> {
    if args[0] == "-t"@ {
        args[1]
    } else {
        "filter"@
    }
}

/// What is done with a rule: it is added, inserted or deleted.
pub open spec fn verb(args: Seq<Seq<char>>) -> Seq<char> {
    if args[0] == "-t"@ {
        args[2]
    } else {
        args[0]
    }
}

/// The chain that a rule is in.
pub open spec fn chain(args: Seq<Seq<char>>) -> Seq<char> {
    if args[0] == "-t"@ {
        args[3]
    } else {
        args[1]
    }
}

/// Where the matches of a rule begin. An inserted rule has its position before them.
pub open spec fn matches_from(args: Seq<Seq<char>>) -> int {
    if args[0] == "-t"@ {
        4
    } else if args[0] == "-I"@ {
        3
    } else {
        2
    }
}

/// Whether the module that the match at `i` needs is named right before it.
pub open spec fn module_before(args: Seq<Seq<char>>, i: int, module: Seq<char>) -> bool {
    i >= 2 && args[i - 2] == "-m"@ && args[i - 1] == module
}

/// Whether a packet passes the match at `i`. Nothing passes a match that is not known.
pub open spec fn passes(args: Seq<Seq<char>>, i: int, pkt: Packet) -> bool {
    let name = args[i];
    let value = args[i + 1];
    if name == "-s"@ {
        value == pkt.source + "/32"@
    } else if name == "-d"@ {
        pkt.to.contains(value)
    } else if name == "-i"@ {
        value == pkt.input
    } else if name == "-o"@ {
        value == pkt.output
    } else if name == "--ctstate"@ {
        value == "RELATED,ESTABLISHED"@ && pkt.known && module_before(args, i, "conntrack"@)
    } else if name == "--comment"@ {
        module_before(args, i, "comment"@)
    } else {
        name == "-m"@ || name == "-j"@
    }
}

/// Whether a rule applies to a packet: the packet passes all its matches.
pub open spec fn applies(args: Seq<Seq<char>>, pkt: Packet) -> bool {
    let from = matches_from(args);
    &&& (args.len() - from) % 2 == 0
    &&& forall|i: int|
        from <= i < args.len() && (i - from) % 2 == 0 ==> #[trigger] passes(args, i, pkt)
}

/// Whether a rule stands where the given one does and has its target.
pub open spec fn is_rule(
    args: Seq<Seq<char>>,
    in_table: Seq<char>,
    done: Seq<char>,
    in_chain: Seq<char>,
    target: Seq<char>,
) -> bool {
    &&& table(args) == in_table
    &&& verb(args) == done
    &&& chain(args) == in_chain
    &&& command::option_is(args, matches_from(args), "-j"@, target)
}

/// Whether a rule has a comment, or none where the comment is empty.
pub open spec fn is_marked(args: Seq<Seq<char>>, comment: Seq<char>) -> bool {
    if comment.len() > 0 {
        command::option_is(args, matches_from(args), "--comment"@, comment)
    } else {
        command::option_absent(args, matches_from(args), "--comment"@)
    }
}

/// Whether rules connect a guest: what it sends out by `wan` gets the address of the
/// host, what goes from its device to `wan` is forwarded, and of what comes back by
/// `wan` only what belongs to a known connection is.
pub open spec fn connects(
    rules: Seq<Seq<Seq<char>>>,
    done: Seq<char>,
    tap: Seq<char>,
    guest_ip: Seq<char>,
    wan: Seq<char>,
    comment: Seq<char>,
) -> bool {
    &&& rules.len() == 3
    &&& is_rule(rules[0], "nat"@, done, "POSTROUTING"@, "MASQUERADE"@)
    &&& forall|pkt: Packet| #[trigger]
        applies(rules[0], pkt) <==> pkt.source == guest_ip && pkt.output == wan
    &&& is_rule(rules[1], "filter"@, done, "FORWARD"@, "ACCEPT"@)
    &&& forall|pkt: Packet| #[trigger]
        applies(rules[1], pkt) <==> pkt.input == tap && pkt.output == wan
    &&& is_rule(rules[2], "filter"@, done, "FORWARD"@, "ACCEPT"@)
    &&& forall|pkt: Packet| #[trigger]
        applies(rules[2], pkt) <==> pkt.input == wan && pkt.output == tap && pkt.known
    &&& forall|k: int| 0 <= k < 3 ==> is_marked(#[trigger] rules[k], comment)
}

/// Whether a rule lets what a guest sends out by `wan` to one destination through,
/// ahead of the rules that are there.
pub open spec fn lets_through(
    args: Seq<Seq<char>>,
    guest_ip: Seq<char>,
    dest: Seq<char>,
    wan: Seq<char>,
    comment: Seq<char>,
) -> bool {
    &&& is_rule(args, "filter"@, "-I"@, "FORWARD"@, "ACCEPT"@)
    &&& args[2] == "1"@
    &&& forall|pkt: Packet| #[trigger]
        applies(args, pkt) <==> pkt.source == guest_ip && pkt.to.contains(dest) && pkt.output == wan
    &&& is_marked(args, comment)
}

/// Whether a rule drops what a guest sends out by `wan`, behind the rules that are
/// there.
pub open spec fn drops_rest(
    args: Seq<Seq<char>>,
    guest_ip: Seq<char>,
    wan: Seq<char>,
    comment: Seq<char>,
) -> bool {
    &&& is_rule(args, "filter"@, "-A"@, "FORWARD"@, "DROP"@)
    &&& forall|pkt: Packet| #[trigger]
        applies(args, pkt) <==> pkt.source == guest_ip && pkt.output == wan
    &&& is_marked(args, comment)
}

proof fn lemma_same_host(a: Seq<char>, b: Seq<char>)
    ensures
        a + "/32"@ == b + "/32"@ <==> a == b,
{
    if a + "/32"@ == b + "/32"@ {
        let n = "/32"@.len();
        assert((a + "/32"@).take(a.len() as int) =~= a);
        assert((b + "/32"@).take(b.len() as int) =~= b);
        assert((a + "/32"@).len() == a.len() + n);
        assert((b + "/32"@).len() == b.len() + n);
    }
}

/// The literals that rules are read by differ.
proof fn lemma_literals()
    ensures
        "-t"@ != "-A"@,
        "-t"@ != "-D"@,
        "-t"@ != "-I"@,
        "-t"@ != "-s"@,
        "-t"@ != "-d"@,
        "-t"@ != "-i"@,
        "-t"@ != "-o"@,
        "-t"@ != "-m"@,
        "-t"@ != "-j"@,
        "-t"@ != "--ctstate"@,
        "-t"@ != "--comment"@,
        "-A"@ != "-D"@,
        "-A"@ != "-I"@,
        "-A"@ != "-s"@,
        "-A"@ != "-d"@,
        "-A"@ != "-i"@,
        "-A"@ != "-o"@,
        "-A"@ != "-m"@,
        "-A"@ != "-j"@,
        "-A"@ != "--ctstate"@,
        "-A"@ != "--comment"@,
        "-D"@ != "-I"@,
        "-D"@ != "-s"@,
        "-D"@ != "-d"@,
        "-D"@ != "-i"@,
        "-D"@ != "-o"@,
        "-D"@ != "-m"@,
        "-D"@ != "-j"@,
        "-D"@ != "--ctstate"@,
        "-D"@ != "--comment"@,
        "-I"@ != "-s"@,
        "-I"@ != "-d"@,
        "-I"@ != "-i"@,
        "-I"@ != "-o"@,
        "-I"@ != "-m"@,
        "-I"@ != "-j"@,
        "-I"@ != "--ctstate"@,
        "-I"@ != "--comment"@,
        "-s"@ != "-d"@,
        "-s"@ != "-i"@,
        "-s"@ != "-o"@,
        "-s"@ != "-m"@,
        "-s"@ != "-j"@,
        "-s"@ != "--ctstate"@,
        "-s"@ != "--comment"@,
        "-d"@ != "-i"@,
        "-d"@ != "-o"@,
        "-d"@ != "-m"@,
        "-d"@ != "-j"@,
        "-d"@ != "--ctstate"@,
        "-d"@ != "--comment"@,
        "-i"@ != "-o"@,
        "-i"@ != "-m"@,
        "-i"@ != "-j"@,
        "-i"@ != "--ctstate"@,
        "-i"@ != "--comment"@,
        "-o"@ != "-m"@,
        "-o"@ != "-j"@,
        "-o"@ != "--ctstate"@,
        "-o"@ != "--comment"@,
        "-m"@ != "-j"@,
        "-m"@ != "--ctstate"@,
        "-m"@ != "--comment"@,
        "-j"@ != "--ctstate"@,
        "-j"@ != "--comment"@,
        "--ctstate"@ != "--comment"@,
        "comment"@ != "conntrack"@,
{
    reveal_strlit("-t");
    reveal_strlit("-A");
    reveal_strlit("-D");
    reveal_strlit("-I");
    reveal_strlit("-s");
    reveal_strlit("-d");
    reveal_strlit("-i");
    reveal_strlit("-o");
    reveal_strlit("-m");
    reveal_strlit("-j");
    reveal_strlit("--ctstate");
    reveal_strlit("--comment");
    reveal_strlit("comment");
    reveal_strlit("conntrack");
    assert("-t"@.len() == 2 && "-A"@.len() == 2 && "-D"@.len() == 2 && "-I"@.len() == 2);
    assert("-s"@.len() == 2 && "-d"@.len() == 2 && "-i"@.len() == 2 && "-o"@.len() == 2);
    assert("-m"@.len() == 2 && "-j"@.len() == 2 && "--ctstate"@.len() == 9);
    assert("--comment"@.len() == 9 && "comment"@.len() == 7 && "conntrack"@.len() == 9);
    assert("-t"@[1] == 't' && "-A"@[1] == 'A' && "-D"@[1] == 'D' && "-I"@[1] == 'I');
    assert("-s"@[1] == 's' && "-d"@[1] == 'd' && "-i"@[1] == 'i' && "-o"@[1] == 'o');
    assert("-m"@[1] == 'm' && "-j"@[1] == 'j' && "--ctstate"@[3] == 't');
    assert("--comment"@[3] == 'o' && "conntrack"@[3] == 'n');
}

proof fn lemma_masquerading(verb: Seq<char>, tap: Seq<char>, guest_ip: Seq<char>, wan: Seq<char>, comment: Seq<char>)
    ensures
        ({
            let args = masquerade::rules_text(verb, tap, guest_ip, wan, comment)[0];
            &&& matches_from(args) == 4
            &&& command::option_is(args, 4, "-j"@, "MASQUERADE"@)
            &&& is_marked(args, comment)
            &&& forall|pkt: Packet| #[trigger] applies(args, pkt) <==> pkt.source == guest_ip && pkt.output == wan
        }),
{
    lemma_literals();
    let args = masquerade::rules_text(verb, tap, guest_ip, wan, comment)[0];
    let n: int = 8;
    assert(args[4] == "-s"@ && args[5] == guest_ip + "/32"@);
    assert(args[6] == "-o"@ && args[7] == wan);
    if comment.len() > 0 {
        assert(args[n] == "-m"@ && args[n + 1] == "comment"@);
        assert(args[n + 2] == "--comment"@ && args[n + 3] == comment);
        assert(args[n + 4] == "-j"@ && args[n + 5] == "MASQUERADE"@);
        assert(args.len() == n + 6);
        command::lemma_option(args, 4, n + 4, "-j"@, "MASQUERADE"@);
        command::lemma_option(args, 4, n + 2, "--comment"@, comment);
    } else {
        assert(args[n] == "-j"@ && args[n + 1] == "MASQUERADE"@);
        assert(args.len() == n + 2);
        command::lemma_option(args, 4, n, "-j"@, "MASQUERADE"@);
    }
    assert forall|pkt: Packet| #[trigger] applies(args, pkt) <==> pkt.source == guest_ip && pkt.output == wan by {
        lemma_same_host(pkt.source, guest_ip);
        if applies(args, pkt) {
            assert(passes(args, 4, pkt));
            assert(passes(args, 6, pkt));
        }
        if pkt.source == guest_ip && pkt.output == wan {
            assert forall|i: int| 4 <= i < args.len() && (i - 4) % 2 == 0 implies #[trigger] passes(
                args,
                i,
                pkt,
            ) by {
                assert(i == 4 || i == 6 || i == n || i == n + 2 || i == n + 4);
            }
        }
    }
}

proof fn lemma_outward(verb: Seq<char>, tap: Seq<char>, guest_ip: Seq<char>, wan: Seq<char>, comment: Seq<char>)
    requires
        verb == "-A"@ || verb == "-D"@,
    ensures
        ({
            let args = masquerade::rules_text(verb, tap, guest_ip, wan, comment)[1];
            &&& matches_from(args) == 2
            &&& command::option_is(args, 2, "-j"@, "ACCEPT"@)
            &&& is_marked(args, comment)
            &&& forall|pkt: Packet| #[trigger] applies(args, pkt) <==> pkt.input == tap && pkt.output == wan
        }),
{
    lemma_literals();
    let args = masquerade::rules_text(verb, tap, guest_ip, wan, comment)[1];
    let n: int = 6;
    assert(args[2] == "-i"@ && args[3] == tap);
    assert(args[4] == "-o"@ && args[5] == wan);
    if comment.len() > 0 {
        assert(args[n] == "-m"@ && args[n + 1] == "comment"@);
        assert(args[n + 2] == "--comment"@ && args[n + 3] == comment);
        assert(args[n + 4] == "-j"@ && args[n + 5] == "ACCEPT"@);
        assert(args.len() == n + 6);
        command::lemma_option(args, 2, n + 4, "-j"@, "ACCEPT"@);
        command::lemma_option(args, 2, n + 2, "--comment"@, comment);
    } else {
        assert(args[n] == "-j"@ && args[n + 1] == "ACCEPT"@);
        assert(args.len() == n + 2);
        command::lemma_option(args, 2, n, "-j"@, "ACCEPT"@);
    }
    assert forall|pkt: Packet| #[trigger] applies(args, pkt) <==> pkt.input == tap && pkt.output == wan by {
        if applies(args, pkt) {
            assert(passes(args, 2, pkt));
            assert(passes(args, 4, pkt));
        }
        if pkt.input == tap && pkt.output == wan {
            assert forall|i: int| 2 <= i < args.len() && (i - 2) % 2 == 0 implies #[trigger] passes(
                args,
                i,
                pkt,
            ) by {
                assert(i == 2 || i == 4 || i == n || i == n + 2 || i == n + 4);
            }
        }
    }
}

proof fn lemma_inward(verb: Seq<char>, tap: Seq<char>, guest_ip: Seq<char>, wan: Seq<char>, comment: Seq<char>)
    requires
        verb == "-A"@ || verb == "-D"@,
    ensures
        ({
            let args = masquerade::rules_text(verb, tap, guest_ip, wan, comment)[2];
            &&& matches_from(args) == 2
            &&& command::option_is(args, 2, "-j"@, "ACCEPT"@)
            &&& is_marked(args, comment)
            &&& forall|pkt: Packet| #[trigger] applies(args, pkt) <==> pkt.input == wan && pkt.output == tap && pkt.known
        }),
{
    lemma_literals();
    let args = masquerade::rules_text(verb, tap, guest_ip, wan, comment)[2];
    let n: int = 10;
    assert(args[2] == "-i"@ && args[3] == wan);
    assert(args[4] == "-o"@ && args[5] == tap);
    assert(args[6] == "-m"@ && args[7] == "conntrack"@);
    assert(args[8] == "--ctstate"@ && args[9] == "RELATED,ESTABLISHED"@);
    if comment.len() > 0 {
        assert(args[n] == "-m"@ && args[n + 1] == "comment"@);
        assert(args[n + 2] == "--comment"@ && args[n + 3] == comment);
        assert(args[n + 4] == "-j"@ && args[n + 5] == "ACCEPT"@);
        assert(args.len() == n + 6);
        command::lemma_option(args, 2, n + 4, "-j"@, "ACCEPT"@);
        command::lemma_option(args, 2, n + 2, "--comment"@, comment);
    } else {
        assert(args[n] == "-j"@ && args[n + 1] == "ACCEPT"@);
        assert(args.len() == n + 2);
        command::lemma_option(args, 2, n, "-j"@, "ACCEPT"@);
    }
    assert forall|pkt: Packet| #[trigger] applies(args, pkt) <==> pkt.input == wan && pkt.output == tap && pkt.known by {
        if applies(args, pkt) {
            assert(passes(args, 2, pkt));
            assert(passes(args, 4, pkt));
            assert(passes(args, 8, pkt));
        }
        if pkt.input == wan && pkt.output == tap && pkt.known {
            assert forall|i: int| 2 <= i < args.len() && (i - 2) % 2 == 0 implies #[trigger] passes(
                args,
                i,
                pkt,
            ) by {
                assert(i == 2 || i == 4 || i == 6 || i == 8 || i == n || i == n + 2 || i == n + 4);
            }
        }
    }
}

/// The rules of a VM connect it, and those that are deleted are the ones that connect
/// it.
pub proof fn law_rules_connect_the_guest(
    verb: Seq<char>,
    tap: Seq<char>,
    guest_ip: Seq<char>,
    wan: Seq<char>,
    comment: Seq<char>,
)
    requires
        verb == "-A"@ || verb == "-D"@,
    ensures
        connects(
            masquerade::rules_text(verb, tap, guest_ip, wan, comment),
            verb,
            tap,
            guest_ip,
            wan,
            comment,
        ),
{
    let rules = masquerade::rules_text(verb, tap, guest_ip, wan, comment);
    lemma_literals();
    lemma_masquerading(verb, tap, guest_ip, wan, comment);
    lemma_outward(verb, tap, guest_ip, wan, comment);
    lemma_inward(verb, tap, guest_ip, wan, comment);
    assert(rules[0][0] == "-t"@ && rules[0][1] == "nat"@ && rules[0][2] == verb);
    assert(rules[0][3] == "POSTROUTING"@);
    assert(rules[1][0] == verb && rules[1][1] == "FORWARD"@);
    assert(rules[2][0] == verb && rules[2][1] == "FORWARD"@);
}

proof fn lemma_accepting(guest_ip: Seq<char>, dest: Seq<char>, wan: Seq<char>, comment: Seq<char>)
    ensures
        ({
            let args = egress::accept_text(guest_ip + "/32"@, dest, wan, comment);
            &&& matches_from(args) == 3
            &&& command::option_is(args, 3, "-j"@, "ACCEPT"@)
            &&& is_marked(args, comment)
            &&& forall|pkt: Packet| #[trigger] applies(args, pkt) <==> pkt.source == guest_ip && pkt.to.contains(dest) && pkt.output == wan
        }),
{
    lemma_literals();
    let args = egress::accept_text(guest_ip + "/32"@, dest, wan, comment);
    let n: int = 9;
    assert(args[3] == "-s"@ && args[4] == guest_ip + "/32"@);
    assert(args[5] == "-d"@ && args[6] == dest);
    assert(args[7] == "-o"@ && args[8] == wan);
    if comment.len() > 0 {
        assert(args[n] == "-m"@ && args[n + 1] == "comment"@);
        assert(args[n + 2] == "--comment"@ && args[n + 3] == comment);
        assert(args[n + 4] == "-j"@ && args[n + 5] == "ACCEPT"@);
        assert(args.len() == n + 6);
        command::lemma_option(args, 3, n + 4, "-j"@, "ACCEPT"@);
        command::lemma_option(args, 3, n + 2, "--comment"@, comment);
    } else {
        assert(args[n] == "-j"@ && args[n + 1] == "ACCEPT"@);
        assert(args.len() == n + 2);
        command::lemma_option(args, 3, n, "-j"@, "ACCEPT"@);
    }
    assert forall|pkt: Packet| #[trigger] applies(args, pkt) <==> pkt.source == guest_ip && pkt.to.contains(dest) && pkt.output == wan by {
        lemma_same_host(pkt.source, guest_ip);
        if applies(args, pkt) {
            assert(passes(args, 3, pkt));
            assert(passes(args, 5, pkt));
            assert(passes(args, 7, pkt));
        }
        if pkt.source == guest_ip && pkt.to.contains(dest) && pkt.output == wan {
            assert forall|i: int| 3 <= i < args.len() && (i - 3) % 2 == 0 implies #[trigger] passes(
                args,
                i,
                pkt,
            ) by {
                assert(i == 3 || i == 5 || i == 7 || i == n || i == n + 2 || i == n + 4);
            }
        }
    }
}

proof fn lemma_dropping(guest_ip: Seq<char>, wan: Seq<char>, comment: Seq<char>)
    ensures
        ({
            let args = egress::drop_text(guest_ip + "/32"@, wan, comment);
            &&& matches_from(args) == 2
            &&& command::option_is(args, 2, "-j"@, "DROP"@)
            &&& is_marked(args, comment)
            &&& forall|pkt: Packet| #[trigger] applies(args, pkt) <==> pkt.source == guest_ip && pkt.output == wan
        }),
{
    lemma_literals();
    let args = egress::drop_text(guest_ip + "/32"@, wan, comment);
    let n: int = 6;
    assert(args[2] == "-s"@ && args[3] == guest_ip + "/32"@);
    assert(args[4] == "-o"@ && args[5] == wan);
    if comment.len() > 0 {
        assert(args[n] == "-m"@ && args[n + 1] == "comment"@);
        assert(args[n + 2] == "--comment"@ && args[n + 3] == comment);
        assert(args[n + 4] == "-j"@ && args[n + 5] == "DROP"@);
        assert(args.len() == n + 6);
        command::lemma_option(args, 2, n + 4, "-j"@, "DROP"@);
        command::lemma_option(args, 2, n + 2, "--comment"@, comment);
    } else {
        assert(args[n] == "-j"@ && args[n + 1] == "DROP"@);
        assert(args.len() == n + 2);
        command::lemma_option(args, 2, n, "-j"@, "DROP"@);
    }
    assert forall|pkt: Packet| #[trigger] applies(args, pkt) <==> pkt.source == guest_ip && pkt.output == wan by {
        lemma_same_host(pkt.source, guest_ip);
        if applies(args, pkt) {
            assert(passes(args, 2, pkt));
            assert(passes(args, 4, pkt));
        }
        if pkt.source == guest_ip && pkt.output == wan {
            assert forall|i: int| 2 <= i < args.len() && (i - 2) % 2 == 0 implies #[trigger] passes(
                args,
                i,
                pkt,
            ) by {
                assert(i == 2 || i == 4 || i == n || i == n + 2 || i == n + 4);
            }
        }
    }
}

/// What a policy allows is let through, and what it denies is dropped, for what its
/// guest sends and for nothing else.
pub proof fn law_policy_rules_do_what_they_say(
    guest_ip: Seq<char>,
    dest: Seq<char>,
    wan: Seq<char>,
    comment: Seq<char>,
)
    ensures
        lets_through(
            egress::accept_text(guest_ip + "/32"@, dest, wan, comment),
            guest_ip,
            dest,
            wan,
            comment,
        ),
        drops_rest(egress::drop_text(guest_ip + "/32"@, wan, comment), guest_ip, wan, comment),
{
    let a = egress::accept_text(guest_ip + "/32"@, dest, wan, comment);
    let d = egress::drop_text(guest_ip + "/32"@, wan, comment);
    lemma_literals();
    lemma_accepting(guest_ip, dest, wan, comment);
    lemma_dropping(guest_ip, wan, comment);
    assert(a[0] == "-I"@ && a[1] == "FORWARD"@ && a[2] == "1"@);
    assert(d[0] == "-A"@ && d[1] == "FORWARD"@);
}

/// Under the rules of a policy, a packet of the guest that leaves by `wan` is let
/// through by one of them exactly where some entry of the allow list stands for its
/// destination; every such packet is dropped by one of them exactly where the policy
/// denies the rest; and a packet of another sender is left alone.
pub proof fn law_policy_filters_the_guest(
    allow: Seq<Seq<char>>,
    deny_all_other: bool,
    guest_ip: Seq<char>,
    wan: Seq<char>,
    comment: Seq<char>,
    resolved: Seq<Seq<Seq<char>>>,
    pkt: Packet,
)
    requires
        resolved.len() >= allow.len(),
    ensures
        ({
            let rules = egress::policy_rules(
                allow,
                deny_all_other,
                guest_ip,
                wan,
                comment,
                resolved,
            );
            let sent = pkt.source == guest_ip && pkt.output == wan;
            &&& (exists|k: int|
                0 <= k < rules.len() && #[trigger] applies(rules[k], pkt) && command::option_is(
                    rules[k],
                    3,
                    "-j"@,
                    "ACCEPT"@,
                ) && verb(rules[k]) == "-I"@) <==> sent && exists|i: int, d: Seq<char>|
                0 <= i < allow.len() && pkt.to.contains(d) && #[trigger] egress::entry_dests(
                    allow[i],
                    resolved[i],
                ).contains(d)
            &&& (exists|k: int|
                0 <= k < rules.len() && #[trigger] applies(rules[k], pkt) && command::option_is(
                    rules[k],
                    2,
                    "-j"@,
                    "DROP"@,
                ) && verb(rules[k]) == "-A"@) <==> sent && deny_all_other
            &&& !sent ==> forall|k: int| 0 <= k < rules.len() ==> !#[trigger] applies(rules[k], pkt)
        }),
{
    let rules = egress::policy_rules(allow, deny_all_other, guest_ip, wan, comment, resolved);
    let dests = egress::allowed(allow, resolved);
    let sent = pkt.source == guest_ip && pkt.output == wan;
    let n = dests.len() as int;
    lemma_literals();
    assert forall|k: int| 0 <= k < n implies rules[k] == egress::accept_text(
        guest_ip + "/32"@,
        dests[k],
        wan,
        comment,
    ) && lets_through(#[trigger] rules[k], guest_ip, dests[k], wan, comment) by {
        law_policy_rules_do_what_they_say(guest_ip, dests[k], wan, comment);
    }
    if deny_all_other {
        law_policy_rules_do_what_they_say(guest_ip, guest_ip, wan, comment);
        assert(drops_rest(rules[n], guest_ip, wan, comment));
    }
    assert forall|k: int| 0 <= k < rules.len() && !sent implies !#[trigger] applies(
        rules[k],
        pkt,
    ) by {
        if k < n {
            assert(lets_through(rules[k], guest_ip, dests[k], wan, comment));
        }
    }
    if sent && exists|i: int, d: Seq<char>|
        0 <= i < allow.len() && pkt.to.contains(d) && #[trigger] egress::entry_dests(
            allow[i],
            resolved[i],
        ).contains(d) {
        let (i, d) = choose|i: int, d: Seq<char>|
            0 <= i < allow.len() && pkt.to.contains(d) && #[trigger] egress::entry_dests(
                allow[i],
                resolved[i],
            ).contains(d);
        egress::law_destinations_are_those_allowed(allow, resolved, d);
        let k = choose|k: int| 0 <= k < dests.len() && dests[k] == d;
        assert(lets_through(rules[k], guest_ip, dests[k], wan, comment));
        assert(applies(rules[k], pkt));
        assert(matches_from(rules[k]) == 3);
    }
    if exists|k: int|
        0 <= k < rules.len() && #[trigger] applies(rules[k], pkt) && verb(rules[k]) == "-I"@ {
        let k = choose|k: int|
            0 <= k < rules.len() && #[trigger] applies(rules[k], pkt) && verb(rules[k]) == "-I"@;
        assert(k < n);
        assert(lets_through(rules[k], guest_ip, dests[k], wan, comment));
        egress::law_destinations_are_those_allowed(allow, resolved, dests[k]);
        assert(dests.contains(dests[k]));
    }
    if sent && deny_all_other {
        assert(applies(rules[n], pkt));
        assert(matches_from(rules[n]) == 2);
    }
    if exists|k: int|
        0 <= k < rules.len() && #[trigger] applies(rules[k], pkt) && verb(rules[k]) == "-A"@ {
        let k = choose|k: int|
            0 <= k < rules.len() && #[trigger] applies(rules[k], pkt) && verb(rules[k]) == "-A"@;
        if k < n {
            assert(lets_through(rules[k], guest_ip, dests[k], wan, comment));
            assert(false);
        }
    }
}

} // verus!
