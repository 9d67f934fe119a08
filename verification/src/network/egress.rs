//! Egress rules of a VM.
//!
//! An [`VmEgressConfig`] becomes forwarding rules: one that accepts for each
//! destination it allows, and one that drops for the rest where it says so. Host
//! names are resolved once, when the rules are made.
use crate::config::vm::VmEgressConfig;
use crate::network::{ip, masquerade, packets};
use crate::text;
use vstd::prelude::*;

verus! {

/// One forwarding rule, as arguments of `iptables`.
#[derive(Clone, Debug, PartialEq, Eq)]
pub struct EgressRule {
    pub args: Vec<String>,
}

impl View for EgressRule {
    type V = Seq<Seq<char>>;

    open spec fn view(&self) -> Seq<Seq<char>> {
        text::views(self.args@)
    }
}

/// The contents of a list of rules.
pub open spec fn rule_views(v: Seq<EgressRule>) -> Seq<Seq<Seq<char>>> {
    Seq::new(v.len(), |i: int| v[i]@)
}

impl EgressRule {
    /// The arguments, borrowed.
    pub fn iptables_args(&self) -> (r: Vec<&str>)
        ensures
            text::slice_views(r@) == self@,
    {
        let mut out: Vec<&str> = Vec::new();
        let mut i: usize = 0;
        while i < self.args.len()
            invariant
                i <= self.args.len(),
                text::slice_views(out@) =~= self@.take(i as int),
            decreases self.args.len() - i,
        {
            let ghost before = out@;
            let s = self.args[i].as_str();
            out.push(s);
            assert(text::slice_views(out@) =~= text::slice_views(before).push(s@));
            i += 1;
        }
        assert(self@.take(self@.len() as int) =~= self@);
        out
    }

    /// The arguments.
    pub fn into_args(self) -> (r: Vec<String>)
        ensures
            r == self.args,
    {
        self.args
    }

    /// The arguments.
    pub fn args(&self) -> (r: &Vec<String>)
        ensures
            *r == self.args,
    {
        &self.args
    }
}

/// Finds the IPv4 addresses of a host.
pub trait HostResolver {
    /// Whether the resolver may answer with the given addresses when it is asked for
    /// a host. One that does not say may answer with any.
    open spec fn answers(&self, host: Seq<char>, ips: Seq<Seq<char>>) -> bool {
        true
    }

    /// The addresses of a host; none where it cannot be resolved.
    fn resolve(&self, host: &str) -> (r: Vec<String>)
        ensures
            self.answers(host@, text::views(r@)),
    ;
}

/// What an entry of the allow list is.
#[derive(Clone, Debug, PartialEq, Eq)]
pub enum AllowEntry {
    /// A destination as it stands.
    Literal(String),
    /// A name to be resolved.
    Hostname(String),
}

/// A single address, or none.
pub open spec fn literal_text(t: Seq<char>) -> Option<Seq<char>> {
    if t.contains('/') {
        Some(t)
    } else if ip::ipv4(t) is Some {
        Some(t + "/32"@)
    } else {
        None
    }
}

fn has_slash(s: &str) -> (r: bool)
    ensures
        r == s@.contains('/'),
{
    let v = text::to_chars(s);
    let mut i: usize = 0;
    while i < v.len()
        invariant
            i <= v.len(),
            v@ == s@,
            forall|j: int| 0 <= j < i ==> v@[j] != '/',
        decreases v.len() - i,
    {
        if v[i] == '/' {
            assert(s@[i as int] == '/');
            return true;
        }
        i += 1;
    }
    false
}

/// What an entry of the allow list is: something with a slash is a subnet, an
/// address is the subnet of that address, and anything else is a host name.
pub fn classify(entry: &str) -> (r: AllowEntry)
    ensures
        match literal_text(text::trim(entry@)) {
            Some(d) => r matches AllowEntry::Literal(s) && s@ == d,
            None => r matches AllowEntry::Hostname(s) && s@ == text::trim(entry@),
        },
{
    let trimmed = text::trimmed(entry);
    if has_slash(trimmed.as_str()) {
        return AllowEntry::Literal(trimmed);
    }
    if ip::parse_ipv4(trimmed.as_str()).is_some() {
        return AllowEntry::Literal(text::cat2(trimmed.as_str(), "/32"));
    }
    AllowEntry::Hostname(trimmed)
}

/// The given addresses as destinations.
pub open spec fn host_dests(ips: Seq<Seq<char>>) -> Seq<Seq<char>> {
    Seq::new(ips.len(), |i: int| ips[i] + "/32"@)
}

/// The destinations that an entry stands for, given what its name resolves to.
/// A blank entry stands for none.
pub open spec fn entry_dests(entry: Seq<char>, ips: Seq<Seq<char>>) -> Seq<Seq<char>> {
    let t = text::trim(entry);
    if t.len() == 0 {
        Seq::empty()
    } else {
        match literal_text(t) {
            Some(d) => seq![d],
            None => host_dests(ips),
        }
    }
}

/// A list with the destinations of another one that it does not hold yet.
pub open spec fn merged(seen: Seq<Seq<char>>, more: Seq<Seq<char>>) -> Seq<Seq<char>>
    decreases more.len(),
{
    if more.len() == 0 {
        seen
    } else {
        let before = merged(seen, more.drop_last());
        if before.contains(more.last()) {
            before
        } else {
            before.push(more.last())
        }
    }
}

/// The destinations of an allow list, each once, in the order of their first
/// mention.
pub open spec fn allowed(allow: Seq<Seq<char>>, resolved: Seq<Seq<Seq<char>>>) -> Seq<Seq<char>>
    decreases allow.len(),
{
    if allow.len() == 0 {
        Seq::empty()
    } else {
        merged(
            allowed(allow.drop_last(), resolved),
            entry_dests(allow.last(), resolved[allow.len() - 1]),
        )
    }
}

/// The rule that accepts a destination, ahead of all others.
pub open spec fn accept_text(
    guest: Seq<char>,
    dest: Seq<char>,
    wan_iface: Seq<char>,
    comment: Seq<char>,
) -> Seq<Seq<char>> {
    masquerade::commented(
        seq!["-I"@, "FORWARD"@, "1"@, "-s"@, guest, "-d"@, dest, "-o"@, wan_iface],
        comment,
        seq!["-j"@, "ACCEPT"@],
    )
}

/// The rule that drops the rest, behind all others.
pub open spec fn drop_text(guest: Seq<char>, wan_iface: Seq<char>, comment: Seq<char>) -> Seq<
    Seq<char>,
> {
    masquerade::commented(
        seq!["-A"@, "FORWARD"@, "-s"@, guest, "-o"@, wan_iface],
        comment,
        seq!["-j"@, "DROP"@],
    )
}

/// The rules of a policy, given what the names in its allow list resolve to.
pub open spec fn policy_rules(
    allow: Seq<Seq<char>>,
    deny_all_other: bool,
    tap_ip: Seq<char>,
    wan_iface: Seq<char>,
    comment: Seq<char>,
    resolved: Seq<Seq<Seq<char>>>,
) -> Seq<Seq<Seq<char>>> {
    let dests = allowed(allow, resolved);
    let accepts = Seq::new(
        dests.len(),
        |i: int| accept_text(tap_ip + "/32"@, dests[i], wan_iface, comment),
    );
    if deny_all_other {
        accepts.push(drop_text(tap_ip + "/32"@, wan_iface, comment))
    } else {
        accepts
    }
}

/// The rule that accepts a destination.
pub fn accept_rule(guest_cidr: &str, dest_cidr: &str, wan_iface: &str, comment: &str) -> (r:
    EgressRule)
    ensures
        r@ == accept_text(guest_cidr@, dest_cidr@, wan_iface@, comment@),
        forall|guest_ip: Seq<char>|
            guest_cidr@ == #[trigger] (guest_ip + "/32"@) ==> packets::lets_through(
                r@,
                guest_ip,
                dest_cidr@,
                wan_iface@,
                comment@,
            ),
{
    proof {
        assert forall|guest_ip: Seq<char>|
            guest_cidr@ == #[trigger] (guest_ip + "/32"@) implies packets::lets_through(
            accept_text(guest_cidr@, dest_cidr@, wan_iface@, comment@),
            guest_ip,
            dest_cidr@,
            wan_iface@,
            comment@,
        ) by {
            packets::law_policy_rules_do_what_they_say(
                guest_ip,
                dest_cidr@,
                wan_iface@,
                comment@,
            );
        }
    }
    let head = ["-I", "FORWARD", "1", "-s", guest_cidr, "-d", dest_cidr, "-o", wan_iface];
    let tail = ["-j", "ACCEPT"];
    assert(text::slice_views(head@) =~= seq![
        "-I"@,
        "FORWARD"@,
        "1"@,
        "-s"@,
        guest_cidr@,
        "-d"@,
        dest_cidr@,
        "-o"@,
        wan_iface@,
    ]);
    assert(text::slice_views(tail@) =~= seq!["-j"@, "ACCEPT"@]);
    EgressRule { args: masquerade::with_comment(&head, comment, &tail) }
}

/// The rule that drops the rest.
pub fn drop_rule(guest_cidr: &str, wan_iface: &str, comment: &str) -> (r: EgressRule)
    ensures
        r@ == drop_text(guest_cidr@, wan_iface@, comment@),
        forall|guest_ip: Seq<char>|
            guest_cidr@ == #[trigger] (guest_ip + "/32"@) ==> packets::drops_rest(
                r@,
                guest_ip,
                wan_iface@,
                comment@,
            ),
{
    proof {
        assert forall|guest_ip: Seq<char>|
            guest_cidr@ == #[trigger] (guest_ip + "/32"@) implies packets::drops_rest(
            drop_text(guest_cidr@, wan_iface@, comment@),
            guest_ip,
            wan_iface@,
            comment@,
        ) by {
            packets::law_policy_rules_do_what_they_say(
                guest_ip,
                guest_ip,
                wan_iface@,
                comment@,
            );
        }
    }
    let head = ["-A", "FORWARD", "-s", guest_cidr, "-o", wan_iface];
    let tail = ["-j", "DROP"];
    assert(text::slice_views(head@) =~= seq![
        "-A"@,
        "FORWARD"@,
        "-s"@,
        guest_cidr@,
        "-o"@,
        wan_iface@,
    ]);
    assert(text::slice_views(tail@) =~= seq!["-j"@, "DROP"@]);
    EgressRule { args: masquerade::with_comment(&head, comment, &tail) }
}

fn merge_one(seen: &mut Vec<String>, dest: String)
    ensures
        text::views(final(seen)@) == (if text::views(old(seen)@).contains(dest@) {
            text::views(old(seen)@)
        } else {
            text::views(old(seen)@).push(dest@)
        }),
{
    if !text::list_has(seen, dest.as_str()) {
        proof {
            text::lemma_views_push(seen@, dest);
        }
        seen.push(dest);
    }
}

fn add_entry(seen: &mut Vec<String>, entry: &str, ips: &Vec<String>)
    ensures
        text::views(final(seen)@) == merged(
            text::views(old(seen)@),
            entry_dests(entry@, text::views(ips@)),
        ),
{
    let ghost start = text::views(seen@);
    let t = text::trimmed(entry);
    if t.as_str().is_empty() {
        return;
    }
    proof {
        text::lemma_trim_twice(entry@);
    }
    match classify(t.as_str()) {
        AllowEntry::Literal(d) => {
            proof {
                reveal_with_fuel(merged, 2);
                let one = seq![d@];
                assert(one.drop_last() =~= Seq::<Seq<char>>::empty());
                assert(one.last() == d@);
            }
            merge_one(seen, d);
        },
        AllowEntry::Hostname(_) => {
            let ghost all = host_dests(text::views(ips@));
            let mut i: usize = 0;
            assert(all.take(0) =~= Seq::<Seq<char>>::empty());
            while i < ips.len()
                invariant
                    i <= ips.len(),
                    all == host_dests(text::views(ips@)),
                    text::views(seen@) == merged(start, all.take(i as int)),
                decreases ips.len() - i,
            {
                proof {
                    assert(all.take(i + 1).drop_last() =~= all.take(i as int));
                    assert(all.take(i + 1).last() == ips@[i as int]@ + "/32"@);
                }
                merge_one(seen, text::cat2(ips[i].as_str(), "/32"));
                i += 1;
            }
            assert(all.take(all.len() as int) =~= all);
        },
    }
}

/// The contents of a list of lists of strings.
pub open spec fn lists(v: Seq<Vec<String>>) -> Seq<Seq<Seq<char>>> {
    Seq::new(v.len(), |i: int| text::views(v[i]@))
}

/// The rules of a policy, given what each entry of its allow list resolves to:
/// the accepting ones first, each destination once, then the dropping one.
pub fn rules_for(
    policy: &VmEgressConfig,
    tap_ip: &str,
    wan_iface: &str,
    comment: &str,
    resolved: &Vec<Vec<String>>,
) -> (r: Vec<EgressRule>)
    requires
        resolved@.len() == policy.allow@.len(),
    ensures
        rule_views(r@) == policy_rules(
            text::views(policy.allow@),
            policy.deny_all_other,
            tap_ip@,
            wan_iface@,
            comment@,
            lists(resolved@),
        ),
{
    let guest = text::cat2(tap_ip, "/32");
    let ghost allow = text::views(policy.allow@);
    let mut dests: Vec<String> = Vec::new();
    let mut i: usize = 0;
    assert(allow.take(0) =~= Seq::<Seq<char>>::empty());
    assert(text::views(dests@) =~= Seq::<Seq<char>>::empty());
    while i < policy.allow.len()
        invariant
            i <= policy.allow.len(),
            resolved@.len() == policy.allow@.len(),
            allow == text::views(policy.allow@),
            text::views(dests@) == allowed(allow.take(i as int), lists(resolved@)),
        decreases policy.allow.len() - i,
    {
        proof {
            assert(allow.take(i + 1).drop_last() =~= allow.take(i as int));
            assert(allow.take(i + 1).last() == policy.allow@[i as int]@);
            assert(lists(resolved@)[i as int] == text::views(resolved@[i as int]@));
        }
        add_entry(&mut dests, policy.allow[i].as_str(), &resolved[i]);
        i += 1;
    }
    assert(allow.take(allow.len() as int) =~= allow);
    let ghost ds = text::views(dests@);
    let mut rules: Vec<EgressRule> = Vec::new();
    let mut k: usize = 0;
    while k < dests.len()
        invariant
            k <= dests.len(),
            ds == text::views(dests@),
            guest@ == tap_ip@ + "/32"@,
            rule_views(rules@) =~= Seq::new(
                k as nat,
                |j: int| accept_text(tap_ip@ + "/32"@, ds[j], wan_iface@, comment@),
            ),
        decreases dests.len() - k,
    {
        let ghost before = rule_views(rules@);
        let rule = accept_rule(guest.as_str(), dests[k].as_str(), wan_iface, comment);
        rules.push(rule);
        assert(rule_views(rules@) =~= before.push(rule@));
        k += 1;
    }
    if policy.deny_all_other {
        let ghost before = rule_views(rules@);
        let rule = drop_rule(guest.as_str(), wan_iface, comment);
        rules.push(rule);
        assert(rule_views(rules@) =~= before.push(rule@));
    }
    rules
}

/// Whether an entry of the allow list is a host name.
pub open spec fn is_hostname(entry: Seq<char>) -> bool {
    text::trim(entry).len() > 0 && literal_text(text::trim(entry)) is None
}

/// Whether each host name in an allow list was resolved to what the resolver says of
/// that very name.
pub open spec fn resolved_by<R: HostResolver>(
    resolver: &R,
    allow: Seq<Seq<char>>,
    resolved: Seq<Seq<Seq<char>>>,
) -> bool {
    &&& resolved.len() == allow.len()
    &&& forall|i: int|
        0 <= i < allow.len() && is_hostname(#[trigger] allow[i]) ==> resolver.answers(
            text::trim(allow[i]),
            resolved[i],
        )
}

/// The rules of a policy. Each host name in its allow list is resolved once; the
/// rules are those of [`rules_for`] for what the resolver said.
pub fn generate_rules<R: HostResolver>(
    policy: &VmEgressConfig,
    tap_ip: &str,
    wan_iface: &str,
    comment: &str,
    resolver: &R,
) -> (r: Vec<EgressRule>)
    ensures
        exists|resolved: Seq<Seq<Seq<char>>>|
            resolved_by(resolver, text::views(policy.allow@), resolved) && rule_views(r@)
                == #[trigger] policy_rules(
                text::views(policy.allow@),
                policy.deny_all_other,
                tap_ip@,
                wan_iface@,
                comment@,
                resolved,
            ),
{
    let ghost allow = text::views(policy.allow@);
    let mut resolved: Vec<Vec<String>> = Vec::new();
    let mut i: usize = 0;
    while i < policy.allow.len()
        invariant
            i <= policy.allow.len(),
            resolved.len() == i,
            allow == text::views(policy.allow@),
            forall|j: int|
                0 <= j < i && is_hostname(#[trigger] allow[j]) ==> resolver.answers(
                    text::trim(allow[j]),
                    lists(resolved@)[j],
                ),
        decreases policy.allow.len() - i,
    {
        let ghost before = resolved@;
        let t = text::trimmed(policy.allow[i].as_str());
        proof {
            assert(allow[i as int] == policy.allow@[i as int]@);
            text::lemma_trim_twice(policy.allow@[i as int]@);
        }
        let ips: Vec<String> = if t.as_str().is_empty() {
            Vec::new()
        } else {
            match classify(t.as_str()) {
                AllowEntry::Literal(_) => Vec::new(),
                AllowEntry::Hostname(host) => resolver.resolve(host.as_str()),
            }
        };
        resolved.push(ips);
        proof {
            assert forall|j: int| 0 <= j < i + 1 && is_hostname(#[trigger] allow[j]) implies
                resolver.answers(text::trim(allow[j]), lists(resolved@)[j]) by {
                if j < i {
                    assert(lists(resolved@)[j] == lists(before)[j]);
                }
            }
        }
        i += 1;
    }
    assert(resolved_by(resolver, allow, lists(resolved@)));
    rules_for(policy, tap_ip, wan_iface, comment, &resolved)
}

/// What to do while rules are being applied.
#[derive(Clone, Copy, Debug, PartialEq, Eq, Structural)]
pub enum Applying {
    /// Apply the rule at this position.
    Apply(usize),
    /// All rules are applied.
    Applied,
    /// Remove the rules before this position, and fail.
    RollBack(usize),
}

/// What to do after the rule at `position` of `count` rules was tried: a rule
/// that fails takes all rules before it with it.
pub fn apply_rules(count: usize, position: usize, ok: bool) -> (r: Applying)
    requires
        position < count,
    ensures
        r == (if !ok {
            Applying::RollBack(position)
        } else if position + 1 == count {
            Applying::Applied
        } else {
            Applying::Apply((position + 1) as usize)
        }),
{
    if !ok {
        Applying::RollBack(position)
    } else if position + 1 == count {
        Applying::Applied
    } else {
        Applying::Apply(position + 1)
    }
}

/// The arguments that delete a rule: without the position at which it was
/// inserted. No rule, no arguments.
pub open spec fn deletion(args: Seq<Seq<char>>) -> Seq<Seq<char>> {
    if args.len() > 0 && args[0] == "-I"@ {
        if args.len() > 2 {
            seq!["-D"@, args[1]] + args.skip(3)
        } else {
            seq!["-D"@] + args.skip(1)
        }
    } else if args.len() > 0 && args[0] == "-A"@ {
        seq!["-D"@] + args.skip(1)
    } else {
        args
    }
}

/// The arguments that delete a rule.
pub fn remove_one(rule: &EgressRule) -> (r: Vec<String>)
    ensures
        text::views(r@) == deletion(rule@),
{
    let n: usize = rule.args.len();
    let mut del: Vec<String> = Vec::new();
    let mut from: usize = 0;
    if n > 0 {
        assert(rule@[0] == rule.args@[0]@);
        if text::same(rule.args[0].as_str(), "-I") {
            del.push("-D".to_owned());
            from = 1;
            if n > 2 {
                del.push(rule.args[1].clone());
                from = 3;
            }
        } else if text::same(rule.args[0].as_str(), "-A") {
            del.push("-D".to_owned());
            from = 1;
        }
    }
    let ghost head = text::views(del@);
    let mut i: usize = from;
    assert(rule@.subrange(from as int, from as int) =~= Seq::<Seq<char>>::empty());
    while i < n
        invariant
            from <= i <= n,
            n == rule.args.len(),
            text::views(del@) =~= head + rule@.subrange(from as int, i as int),
        decreases n - i,
    {
        let s = rule.args[i].clone();
        proof {
            text::lemma_views_push(del@, s);
        }
        del.push(s);
        i += 1;
    }
    proof {
        assert(rule@.subrange(from as int, n as int) =~= rule@.skip(from as int));
        reveal_strlit("-I");
        reveal_strlit("-A");
        assert("-I"@[1] != "-A"@[1]);
        assert(text::views(del@) =~= deletion(rule@));
    }
    del
}

/// The arguments that delete each of the given rules.
pub fn remove_rules(rules: &Vec<EgressRule>) -> (r: Vec<Vec<String>>)
    ensures
        r@.len() == rules@.len(),
        forall|i: int| 0 <= i < rules@.len() ==> text::views((#[trigger] r@[i])@) == deletion(
            rules@[i]@,
        ),
{
    let mut out: Vec<Vec<String>> = Vec::new();
    let mut i: usize = 0;
    while i < rules.len()
        invariant
            i <= rules.len(),
            out.len() == i,
            forall|j: int| 0 <= j < i ==> text::views((#[trigger] out@[j])@) == deletion(
                rules@[j]@,
            ),
        decreases rules.len() - i,
    {
        out.push(remove_one(&rules[i]));
        i += 1;
    }
    out
}

/// Every rule that a policy makes is deleted by naming it without its position:
/// what follows the chain is the same.
pub proof fn law_deletion_matches_rule(
    guest: Seq<char>,
    dest: Seq<char>,
    wan: Seq<char>,
    comment: Seq<char>,
)
    ensures
        deletion(accept_text(guest, dest, wan, comment)) == seq!["-D"@, "FORWARD"@] + accept_text(
            guest,
            dest,
            wan,
            comment,
        ).skip(3),
        deletion(drop_text(guest, wan, comment)) == seq!["-D"@, "FORWARD"@] + drop_text(
            guest,
            wan,
            comment,
        ).skip(2),
{
    let a = accept_text(guest, dest, wan, comment);
    let d = drop_text(guest, wan, comment);
    reveal_strlit("-I");
    reveal_strlit("-A");
    assert("-I"@[1] != "-A"@[1]);
    assert(a[0] == "-I"@ && a[1] == "FORWARD"@);
    assert(d[0] == "-A"@ && d[1] == "FORWARD"@);
    assert(deletion(d) =~= seq!["-D"@, "FORWARD"@] + d.skip(2));
    assert(deletion(a) =~= seq!["-D"@, "FORWARD"@] + a.skip(3));
}

proof fn lemma_merged_distinct(seen: Seq<Seq<char>>, more: Seq<Seq<char>>)
    requires
        seen.no_duplicates(),
    ensures
        merged(seen, more).no_duplicates(),
        forall|d: Seq<char>| #[trigger]
            merged(seen, more).contains(d) <==> seen.contains(d) || more.contains(d),
    decreases more.len(),
{
    if more.len() > 0 {
        let m = more.drop_last();
        let b = merged(seen, m);
        let w = merged(seen, more);
        lemma_merged_distinct(seen, m);
        assert(m.push(more.last()) =~= more);
        assert forall|d: Seq<char>| #[trigger] w.contains(d) <==> seen.contains(d)
            || more.contains(d) by {
            lemma_push_contains(m, more.last(), d);
            lemma_push_contains(b, more.last(), d);
        }
    } else {
        assert forall|d: Seq<char>| #[trigger] merged(seen, more).contains(d) <==> seen.contains(d)
            || more.contains(d) by {
            assert(!more.contains(d));
        }
    }
}

proof fn lemma_push_contains(s: Seq<Seq<char>>, x: Seq<char>, d: Seq<char>)
    ensures
        s.push(x).contains(d) <==> s.contains(d) || x == d,
{
    let t = s.push(x);
    if s.contains(d) {
        let i = choose|i: int| 0 <= i < s.len() && s[i] == d;
        assert(t[i] == d);
    }
    if x == d {
        assert(t[s.len() as int] == d);
    }
    if t.contains(d) {
        let i = choose|i: int| 0 <= i < t.len() && t[i] == d;
        if i < s.len() {
            assert(s[i] == d);
        }
    }
}

/// Each destination gets one rule, and the destinations are exactly those that
/// some entry of the allow list stands for.
pub proof fn law_destinations_are_those_allowed(
    allow: Seq<Seq<char>>,
    resolved: Seq<Seq<Seq<char>>>,
    d: Seq<char>,
)
    requires
        resolved.len() >= allow.len(),
    ensures
        allowed(allow, resolved).no_duplicates(),
        allowed(allow, resolved).contains(d) <==> exists|i: int|
            0 <= i < allow.len() && #[trigger] entry_dests(allow[i], resolved[i]).contains(d),
    decreases allow.len(),
{
    if allow.len() > 0 {
        let a = allow.drop_last();
        let n = a.len() as int;
        law_destinations_are_those_allowed(a, resolved, d);
        lemma_merged_distinct(allowed(a, resolved), entry_dests(allow.last(), resolved[n]));
        if allowed(allow, resolved).contains(d) {
            if allowed(a, resolved).contains(d) {
                let i = choose|i: int|
                    0 <= i < a.len() && #[trigger] entry_dests(a[i], resolved[i]).contains(d);
                assert(entry_dests(allow[i], resolved[i]).contains(d));
            } else {
                assert(entry_dests(allow[n], resolved[n]).contains(d));
            }
        }
        if exists|i: int|
            0 <= i < allow.len() && #[trigger] entry_dests(allow[i], resolved[i]).contains(d) {
            let i = choose|i: int|
                0 <= i < allow.len() && #[trigger] entry_dests(allow[i], resolved[i]).contains(d);
            if i < n {
                assert(entry_dests(a[i], resolved[i]).contains(d));
            }
        }
    } else {
        assert(allowed(allow, resolved) =~= Seq::<Seq<char>>::empty());
        assert(!allowed(allow, resolved).contains(d));
    }
}

/// A policy that denies the rest always ends with the dropping rule, whatever the
/// names resolve to, and that rule is the only one that drops; an empty policy
/// has no rules.
pub proof fn law_denial_is_last(
    allow: Seq<Seq<char>>,
    deny_all_other: bool,
    tap_ip: Seq<char>,
    wan: Seq<char>,
    comment: Seq<char>,
    resolved: Seq<Seq<Seq<char>>>,
)
    ensures
        deny_all_other ==> policy_rules(allow, deny_all_other, tap_ip, wan, comment, resolved).len()
            > 0 && policy_rules(allow, deny_all_other, tap_ip, wan, comment, resolved).last()
            == drop_text(tap_ip + "/32"@, wan, comment),
        allow.len() == 0 && !deny_all_other ==> policy_rules(
            allow,
            deny_all_other,
            tap_ip,
            wan,
            comment,
            resolved,
        ).len() == 0,
        forall|i: int|
            0 <= i < allowed(allow, resolved).len() ==> #[trigger] policy_rules(
                allow,
                deny_all_other,
                tap_ip,
                wan,
                comment,
                resolved,
            )[i] == accept_text(tap_ip + "/32"@, allowed(allow, resolved)[i], wan, comment),
{
}

} // verus!
