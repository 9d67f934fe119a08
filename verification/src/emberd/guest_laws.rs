//! What the daemon makes of what it reads in the guest.
use crate::emberd::answer;
use crate::emberd::answer::Said;
use crate::emberd::checkpoint;
use crate::emberd::processes;
use crate::emberd::processes::Entry;
use crate::emberd::request::{AgentStatus, Response, VmStats};
use crate::emberd::reset;
use crate::emberd::stats;
use crate::emberd::tree;
use crate::emberd::tree::Tree;
use crate::paths;
use crate::text;
use crate::text_laws;
use vstd::prelude::*;

verus! {

// ------------------------------------------------------------------ numbers

/// The decimal forms of numbers.
pub open spec fn decs(v: Seq<u64>) -> Seq<Seq<char>> {
    Seq::new(v.len(), |i: int| text::dec(v[i] as nat))
}

/// Numbers that were written down are read back, all of them and in order.
pub proof fn law_numbers_read_back(v: Seq<u64>)
    ensures
        stats::numbers(decs(v)) == v,
    decreases v.len(),
{
    if v.len() > 0 {
        let d = v.drop_last();
        law_numbers_read_back(d);
        assert(decs(v).drop_last() =~= decs(d));
        text::lemma_parse_of_dec(v.last() as nat, u64::MAX as nat);
        assert(decs(v).last() == text::dec(v.last() as nat));
        assert(d.push(v.last()) =~= v);
    } else {
        assert(stats::numbers(decs(v)) =~= v);
    }
}

proof fn lemma_words_of_decs(v: Seq<u64>)
    requires
        v.len() > 0,
    ensures
        text::words(text_laws::strung(decs(v), ' ')) == decs(v),
{
    assert forall|k: int| 0 <= k < decs(v).len() implies text_laws::solid(#[trigger] decs(v)[k])
        && decs(v)[k].len() > 0 by {
        text_laws::lemma_numbers_are_digits(v[k] as nat, ' ');
    }
    text_laws::law_words(decs(v));
}

proof fn lemma_trim_solid(s: Seq<char>)
    requires
        text_laws::solid(s),
    ensures
        text::trim(s) == s,
{
    if s.len() > 0 {
        assert(!text::is_white(s[0]));
        assert(!text::is_white(s[s.len() - 1]));
    }
    assert(text::trim_start(s) == s);
    assert(text::trim_end(s) == s);
}

/// Of an interface, the first number is what it received and the ninth what it sent,
/// in bytes; the loopback interface counts for nothing.
pub proof fn law_interface_line(iface: Seq<char>, v: Seq<u64>)
    requires
        text_laws::free_of(iface, ':'),
        text_laws::solid(iface),
        v.len() > 8,
    ensures
        stats::traffic(iface.push(':') + text_laws::strung(decs(v), ' ')) == (if iface == "lo"@ {
            (0u64, 0u64)
        } else {
            (v[0], v[8])
        }),
{
    text_laws::law_halves(iface, text_laws::strung(decs(v), ' '), ':');
    lemma_words_of_decs(v);
    law_numbers_read_back(v);
    lemma_trim_solid(iface);
}

/// What was received and sent in all is the sum over all lines, as far as it fits.
pub proof fn law_traffic_adds_up(lines: Seq<Seq<char>>)
    ensures
        ({
            let rx = stats::sum(lines.map_values(|l: Seq<char>| stats::traffic(l).0));
            let tx = stats::sum(lines.map_values(|l: Seq<char>| stats::traffic(l).1));
            &&& rx <= u64::MAX ==> stats::total_traffic(lines).0 == rx
            &&& rx > u64::MAX ==> stats::total_traffic(lines).0 == u64::MAX
            &&& tx <= u64::MAX ==> stats::total_traffic(lines).1 == tx
            &&& tx > u64::MAX ==> stats::total_traffic(lines).1 == u64::MAX
        }),
    decreases lines.len(),
{
    if lines.len() > 0 {
        let d = lines.drop_last();
        law_traffic_adds_up(d);
        let f = |l: Seq<char>| stats::traffic(l).0;
        let g = |l: Seq<char>| stats::traffic(l).1;
        assert(lines.map_values(f).drop_last() =~= d.map_values(f));
        assert(lines.map_values(g).drop_last() =~= d.map_values(g));
    }
}

proof fn lemma_sum_split(v: Seq<u64>, k: int)
    requires
        0 <= k <= v.len(),
    ensures
        stats::sum(v) == stats::sum(v.take(k)) + stats::sum(v.skip(k)),
    decreases v.len(),
{
    if k < v.len() {
        lemma_sum_split(v.drop_last(), k);
        assert(v.drop_last().take(k) =~= v.take(k));
        assert(v.drop_last().skip(k) =~= v.skip(k).drop_last());
    } else {
        assert(v.take(k) =~= v);
        assert(v.skip(k) =~= Seq::<u64>::empty());
    }
}

/// The processor is idle in the fourth and the fifth of its counters and busy in all
/// others.
pub proof fn law_idle_is_not_busy(n: Seq<u64>)
    requires
        n.len() > 4,
    ensures
        stats::sample_of(n) matches Some((total, idle)) && total - idle == n[0] + n[1] + n[2]
            + stats::sum(n.skip(5)),
{
    lemma_sum_split(n, 5);
    let h = n.take(5);
    reveal_with_fuel(stats::sum, 6);
    assert(h.drop_last().drop_last().drop_last().drop_last().drop_last() =~= Seq::<u64>::empty());
    assert(stats::sum(h) == n[0] + n[1] + n[2] + n[3] + n[4]);
}

/// The counters are those behind the first word of the line for all processors.
pub proof fn law_counters_are_those_of_the_processor(v: Seq<u64>, rest: Seq<Seq<char>>)
    requires
        v.len() > 0,
    ensures
        stats::counters(
            seq!["cpu"@.push(' ') + text_laws::strung(decs(v), ' ')] + rest,
        ) == Some(v),
{
    let line = "cpu"@.push(' ') + text_laws::strung(decs(v), ' ');
    let all = seq![line] + rest;
    reveal_strlit("cpu");
    reveal_strlit("cpu ");
    assert("cpu "@ =~= "cpu"@.push(' '));
    assert("cpu "@ =~= line.subrange(0, 4));
    assert(all[0] == line);
    let parts = seq!["cpu"@] + decs(v);
    lemma_strung_front("cpu"@, decs(v));
    assert forall|k: int| 0 <= k < parts.len() implies text_laws::solid(#[trigger] parts[k])
        && parts[k].len() > 0 by {
        if k > 0 {
            assert(parts[k] == decs(v)[k - 1]);
            text_laws::lemma_numbers_are_digits(v[k - 1] as nat, ' ');
        }
    }
    text_laws::law_words(parts);
    assert(text::words(line).skip(1) =~= decs(v));
    law_numbers_read_back(v);
}

proof fn lemma_strung_front(a: Seq<char>, v: Seq<Seq<char>>)
    requires
        v.len() > 0,
    ensures
        text_laws::strung(seq![a] + v, ' ') == a.push(' ') + text_laws::strung(v, ' '),
    decreases v.len(),
{
    let w = seq![a] + v;
    if v.len() == 1 {
        assert(w =~= seq![a].push(v[0]));
        text_laws::lemma_strung_push(seq![a], v[0], ' ');
    } else {
        let d = v.drop_last();
        lemma_strung_front(a, d);
        assert(w =~= (seq![a] + d).push(v.last()));
        text_laws::lemma_strung_push(seq![a] + d, v.last(), ' ');
        assert(v =~= d.push(v.last()));
        text_laws::lemma_strung_push(d, v.last(), ' ');
        assert(text_laws::strung(w, ' ') =~= a.push(' ') + text_laws::strung(v, ' '));
    }
}

/// Memory that is not available is used, in whole MiB; so much memory as there is.
pub proof fn law_used_memory_is_not_available(total: u64, available: u64)
    ensures
        stats::memory_mb((Some(total), Some(available))) matches Some((used, all)) && all * 1024
            <= total < (all + 1) * 1024 && (if total >= available {
            used * 1024 <= total - available < (used + 1) * 1024
        } else {
            used == 0
        }),
        stats::memory_mb((None, Some(available))) is None,
        stats::memory_mb((Some(total), None)) is None,
{
}

proof fn lemma_first_number(n: u64, unit: Seq<char>)
    requires
        text_laws::solid(unit),
        unit.len() > 0,
    ensures
        stats::first_number(text::dec(n as nat).push(' ') + unit) == Some(n),
{
    let parts = seq![text::dec(n as nat)].push(unit);
    text_laws::lemma_strung_push(seq![text::dec(n as nat)], unit, ' ');
    text_laws::lemma_numbers_are_digits(n as nat, ' ');
    assert forall|k: int| 0 <= k < parts.len() implies text_laws::solid(#[trigger] parts[k])
        && parts[k].len() > 0 by {
        assert(k == 0 || k == 1);
    }
    text_laws::law_words(parts);
    text::lemma_parse_of_dec(n as nat, u64::MAX as nat);
}

/// A line for memory: its name, a number and a unit.
pub open spec fn memory_line(name: Seq<char>, n: u64) -> Seq<char> {
    name + (text::dec(n as nat).push(' ') + "kB"@)
}

/// All memory and available memory are read from the lines of these names, whatever
/// lines of other names stand between them.
pub proof fn law_memory_lines(
    total: u64,
    available: u64,
    before: Seq<Seq<char>>,
    between: Seq<Seq<char>>,
    rest: Seq<Seq<char>>,
)
    requires
        forall|k: int|
            0 <= k < before.len() ==> text::without_prefix(#[trigger] before[k], "MemTotal:"@) is None
                && text::without_prefix(before[k], "MemAvailable:"@) is None,
        forall|k: int|
            0 <= k < between.len() ==> text::without_prefix(
                #[trigger] between[k],
                "MemTotal:"@,
            ) is None && text::without_prefix(between[k], "MemAvailable:"@) is None,
    ensures
        stats::memory_in(
            before + seq![memory_line("MemTotal:"@, total)] + between + seq![
                memory_line("MemAvailable:"@, available),
            ] + rest,
            None,
            None,
        ) == (Some(total), Some(available)),
{
    let t = memory_line("MemTotal:"@, total);
    let a = memory_line("MemAvailable:"@, available);
    let tail = seq![a] + rest;
    let mid = between + tail;
    reveal_strlit("MemTotal:");
    reveal_strlit("MemAvailable:");
    reveal_strlit("kB");
    lemma_first_number(total, "kB"@);
    lemma_first_number(available, "kB"@);
    assert("MemTotal:"@.is_prefix_of(t)) by {
        assert("MemTotal:"@ =~= t.subrange(0, 9));
    }
    assert(t.skip(9) =~= text::dec(total as nat).push(' ') + "kB"@);
    assert("MemAvailable:"@.is_prefix_of(a)) by {
        assert("MemAvailable:"@ =~= a.subrange(0, 13));
    }
    assert(a.skip(13) =~= text::dec(available as nat).push(' ') + "kB"@);
    assert(a[3] == 'A' && "MemTotal:"@[3] == 'T');
    assert(!"MemTotal:"@.is_prefix_of(a)) by {
        if "MemTotal:"@.is_prefix_of(a) {
            assert(a.subrange(0, 9)[3] == a[3]);
        }
    }
    let all = before + (seq![t] + mid);
    assert(all =~= before + seq![t] + between + seq![a] + rest);
    lemma_memory_skips(before, seq![t] + mid, None, None);
    assert((seq![t] + mid).skip(1) =~= mid);
    lemma_memory_skips(between, tail, Some(total), None);
    assert(tail.skip(1) =~= rest);
    assert(stats::memory_in(rest, Some(total), Some(available)) == (
        Some(total),
        Some(available),
    ));
}

proof fn lemma_memory_skips(
    skipped: Seq<Seq<char>>,
    rest: Seq<Seq<char>>,
    total: Option<u64>,
    available: Option<u64>,
)
    requires
        total is None || available is None,
        forall|k: int|
            0 <= k < skipped.len() ==> text::without_prefix(
                #[trigger] skipped[k],
                "MemTotal:"@,
            ) is None && text::without_prefix(skipped[k], "MemAvailable:"@) is None,
    ensures
        stats::memory_in(skipped + rest, total, available) == stats::memory_in(
            rest,
            total,
            available,
        ),
    decreases skipped.len(),
{
    if skipped.len() > 0 {
        let s = skipped.skip(1);
        assert forall|k: int| 0 <= k < s.len() implies text::without_prefix(
            #[trigger] s[k],
            "MemTotal:"@,
        ) is None && text::without_prefix(s[k], "MemAvailable:"@) is None by {
            assert(s[k] == skipped[k + 1]);
        }
        lemma_memory_skips(s, rest, total, available);
        assert((skipped + rest)[0] == skipped[0]);
        assert((skipped + rest).skip(1) =~= s + rest);
    } else {
        assert(skipped + rest =~= rest);
    }
}

/// A process holds as much memory as the line for that says.
pub proof fn law_resident_line(n: u64, before: Seq<Seq<char>>, rest: Seq<Seq<char>>)
    requires
        forall|k: int|
            0 <= k < before.len() ==> text::without_prefix(#[trigger] before[k], "VmRSS:"@) is None,
    ensures
        processes::resident_kb(before + seq![memory_line("VmRSS:"@, n)] + rest) == n,
    decreases before.len(),
{
    let line = memory_line("VmRSS:"@, n);
    let all = before + seq![line] + rest;
    if before.len() > 0 {
        let s = before.skip(1);
        assert forall|k: int| 0 <= k < s.len() implies text::without_prefix(
            #[trigger] s[k],
            "VmRSS:"@,
        ) is None by {
            assert(s[k] == before[k + 1]);
        }
        law_resident_line(n, s, rest);
        assert(all[0] == before[0]);
        assert(all.skip(1) =~= s + seq![line] + rest);
    } else {
        reveal_strlit("VmRSS:");
        reveal_strlit("kB");
        assert(all[0] == line);
        assert("VmRSS:"@ =~= line.subrange(0, 6));
        assert(line.skip(6) =~= text::dec(n as nat).push(' ') + "kB"@);
        lemma_first_number(n, "kB"@);
        let parts = seq![text::dec(n as nat)].push("kB"@);
        text_laws::lemma_strung_push(seq![text::dec(n as nat)], "kB"@, ' ');
        text_laws::lemma_numbers_are_digits(n as nat, ' ');
        assert forall|k: int| 0 <= k < parts.len() implies text_laws::solid(#[trigger] parts[k])
            && parts[k].len() > 0 by {
            assert(k == 0 || k == 1);
        }
        text_laws::law_words(parts);
        text::lemma_parse_of_dec(n as nat, u64::MAX as nat);
    }
}

/// Blocks that are not free are used.
pub proof fn law_used_and_free_blocks_are_all(blocks: u64, free: u64)
    ensures
        free <= blocks ==> stats::used_blocks(blocks, free) + free == blocks,
        free > blocks ==> stats::used_blocks(blocks, free) == 0,
{
}

// ---------------------------------------------------------------- processes

/// The agent is the first process whose command line names its entry point.
pub proof fn law_agent_is_the_first_that_names_it(v: Seq<Entry>)
    ensures
        match processes::agent_among(v) {
            Some(p) => exists|i: int|
                0 <= i < v.len() && names_agent(#[trigger] v[i]) && is_about(v[i], p) && forall|k: int| 0 <= k < i ==> !names_agent(#[trigger] v[k]),
            None => forall|i: int| 0 <= i < v.len() ==> !names_agent(#[trigger] v[i]),
        },
    decreases v.len(),
{
    if v.len() > 0 {
        let s = v.skip(1);
        text::lemma_parse_bound(v[0].name@, u32::MAX as nat);
        law_agent_is_the_first_that_names_it(s);
        if names_agent(v[0]) {
        } else if processes::agent_among(v) is Some {
            let i = choose|i: int|
                0 <= i < s.len() && names_agent(#[trigger] s[i]) && is_about(
                    s[i],
                    processes::agent_among(s)->0,
                ) && forall|k: int|
                    0 <= k < i ==> !names_agent(#[trigger] s[k]);
            assert(v[i + 1] == s[i]);
            assert forall|k: int| 0 <= k < i + 1 implies !names_agent(#[trigger] v[k]) by {
                if k > 0 {
                    assert(s[k - 1] == v[k]);
                }
            }
        } else {
            assert forall|i: int| 0 <= i < v.len() implies !names_agent(#[trigger] v[i]) by {
                if i > 0 {
                    assert(s[i - 1] == v[i]);
                }
            }
        }
    }
}

/// Whether an entry is about a process.
pub open spec fn is_about(e: Entry, p: u32) -> bool {
    text::parse_uint(e.name@, u32::MAX as nat) == Ok::<nat, text::IntError>(p as nat)
}

/// Whether an entry is about a process whose command line names the entry point of an
/// agent.
pub open spec fn names_agent(e: Entry) -> bool {
    text::parse_uint(e.name@, u32::MAX as nat) is Ok && (e.text matches Some(t)
        && text::contains_text(t@, "thermite-entrypoint"@))
}

/// A command line is read back as its arguments, which end with a null character each.
pub proof fn law_arguments_read_back(args: Seq<Seq<char>>)
    requires
        args.len() > 0,
        forall|k: int|
            0 <= k < args.len() ==> text_laws::free_of(#[trigger] args[k], '\0') && args[k].len() > 0,
    ensures
        processes::arguments(text_laws::strung(args.push(Seq::empty()), '\0')) == args,
{
    let all = args.push(Seq::<char>::empty());
    assert forall|k: int| 0 <= k < all.len() implies text_laws::free_of(#[trigger] all[k], '\0') by {
        if k < args.len() {
            assert(text_laws::free_of(args[k], '\0'));
        }
    }
    text_laws::law_split_undoes_string(all, '\0');
    assert(all.drop_last() =~= args);
    text_laws::lemma_all_nonempty(args);
}

/// A program is known by what follows the last slash of its path.
pub proof fn law_program_name(dir: Seq<char>, name: Seq<char>)
    requires
        text_laws::free_of(name, '/'),
    ensures
        processes::base_name(dir.push('/') + name) == name,
        processes::base_name(name) == name,
{
    text::lemma_split_append(dir, name, '/');
    text::lemma_split_none(name, '/');
}

/// An agent is a run of the agents' program, from wherever, with a model chosen.
pub proof fn law_agent_runs_the_program(
    dir: Seq<char>,
    name: Seq<char>,
    more: Seq<Seq<char>>,
    program: Seq<char>,
)
    requires
        text_laws::free_of(name, '/'),
        text_laws::free_of(dir, '\0'),
        text_laws::free_of(name, '\0'),
        forall|k: int|
            0 <= k < more.len() ==> text_laws::free_of(#[trigger] more[k], '\0') && more[k].len() > 0,
    ensures
        processes::is_agent(
            text_laws::strung(
                (seq![dir.push('/') + name] + more).push(Seq::empty()),
                '\0',
            ),
            program,
        ) <==> name == program && (more.contains("--model"@) || dir.push('/') + name == "--model"@),
{
    let first = dir.push('/') + name;
    let args = seq![first] + more;
    assert forall|k: int| 0 <= k < args.len() implies text_laws::free_of(#[trigger] args[k], '\0')
        && args[k].len() > 0 by {
        if k > 0 {
            assert(args[k] == more[k - 1]);
        } else {
            assert forall|i: int| 0 <= i < first.len() implies #[trigger] first[i] != '\0' by {
                if i < dir.len() {
                    assert(first[i] == dir[i]);
                } else if i > dir.len() {
                    assert(first[i] == name[i - dir.len() - 1]);
                }
            }
        }
    }
    law_arguments_read_back(args);
    law_program_name(dir, name);
    if more.contains("--model"@) {
        let k = choose|k: int| 0 <= k < more.len() && more[k] == "--model"@;
        assert(args[k + 1] == "--model"@);
    }
    assert(args[0] == first);
    if args.contains("--model"@) {
        let k = choose|k: int| 0 <= k < args.len() && args[k] == "--model"@;
        if k > 0 {
            assert(more[k - 1] == "--model"@);
        }
    }
}

/// All agents are found, and nothing else; the daemon itself is spared.
pub proof fn law_agents_are_found(v: Seq<Entry>, self_pid: u32, program: Seq<char>, p: u32)
    ensures
        processes::agents_among(v, self_pid, program).contains(p) <==> p != self_pid && exists|i: int|
            0 <= i < v.len() && (processes::process(#[trigger] v[i]) matches Some((q, t)) && q == p
                && processes::is_agent(t, program)),
    decreases v.len(),
{
    if v.len() > 0 {
        let d = v.drop_last();
        let n = d.len() as int;
        let b = processes::agents_among(d, self_pid, program);
        let w = processes::agents_among(v, self_pid, program);
        law_agents_are_found(d, self_pid, program, p);
        if w.contains(p) {
            let i = choose|i: int| 0 <= i < w.len() && w[i] == p;
            if i < b.len() {
                assert(b[i] == p);
                let k = choose|i: int|
                    0 <= i < d.len() && (processes::process(#[trigger] d[i]) matches Some((q, t)) && q
                        == p && processes::is_agent(t, program));
                assert(v[k] == d[k]);
            } else {
                assert(v[n] == v.last());
            }
        }
        if p != self_pid && exists|i: int|
            0 <= i < v.len() && (processes::process(#[trigger] v[i]) matches Some((q, t)) && q == p
                && processes::is_agent(t, program)) {
            let k = choose|i: int|
                0 <= i < v.len() && (processes::process(#[trigger] v[i]) matches Some((q, t)) && q == p
                    && processes::is_agent(t, program));
            if k < n {
                assert(d[k] == v[k]);
                let i = choose|i: int| 0 <= i < b.len() && b[i] == p;
                assert(w[i] == p);
            } else {
                assert(w[w.len() - 1] == p);
            }
        }
    } else {
        assert(!processes::agents_among(v, self_pid, program).contains(p));
    }
}

/// All processes that work at or below a path are found, and nothing else; the daemon
/// itself is spared.
pub proof fn law_inhabitants_are_found(v: Seq<Entry>, self_pid: u32, path: Seq<char>, p: u32)
    ensures
        processes::inhabitants(v, self_pid, path).contains(p) <==> p != self_pid && exists|i: int|
            0 <= i < v.len() && (processes::process(#[trigger] v[i]) matches Some((q, t)) && q == p
                && reset::at_or_below(t, path)),
    decreases v.len(),
{
    if v.len() > 0 {
        let d = v.drop_last();
        let n = d.len() as int;
        let b = processes::inhabitants(d, self_pid, path);
        let w = processes::inhabitants(v, self_pid, path);
        law_inhabitants_are_found(d, self_pid, path, p);
        if w.contains(p) {
            let i = choose|i: int| 0 <= i < w.len() && w[i] == p;
            if i < b.len() {
                assert(b[i] == p);
                let k = choose|i: int|
                    0 <= i < d.len() && (processes::process(#[trigger] d[i]) matches Some((q, t)) && q
                        == p && reset::at_or_below(t, path));
                assert(v[k] == d[k]);
            } else {
                assert(v[n] == v.last());
            }
        }
        if p != self_pid && exists|i: int|
            0 <= i < v.len() && (processes::process(#[trigger] v[i]) matches Some((q, t)) && q == p
                && reset::at_or_below(t, path)) {
            let k = choose|i: int|
                0 <= i < v.len() && (processes::process(#[trigger] v[i]) matches Some((q, t)) && q == p
                    && reset::at_or_below(t, path));
            if k < n {
                assert(d[k] == v[k]);
                let i = choose|i: int| 0 <= i < b.len() && b[i] == p;
                assert(w[i] == p);
            } else {
                assert(w[w.len() - 1] == p);
            }
        }
    } else {
        assert(!processes::inhabitants(v, self_pid, path).contains(p));
    }
}

// -------------------------------------------------------------------- trees

/// A tree has as many entries and bytes as what is in it has together, and a directory
/// is an entry more.
pub proof fn law_trees_add_up(v: Vec<Tree>, k: int)
    requires
        0 <= k <= v@.len(),
    ensures
        tree::entries(Tree::Dir(v)) == 1 + tree::entries_of(v@.take(k)) + tree::entries_of(
            v@.skip(k),
        ),
        tree::bytes(Tree::Dir(v)) == tree::bytes_of(v@.take(k)) + tree::bytes_of(v@.skip(k)),
{
    lemma_tree_split(v@, k);
}

proof fn lemma_tree_split(v: Seq<Tree>, k: int)
    requires
        0 <= k <= v.len(),
    ensures
        tree::entries_of(v) == tree::entries_of(v.take(k)) + tree::entries_of(v.skip(k)),
        tree::bytes_of(v) == tree::bytes_of(v.take(k)) + tree::bytes_of(v.skip(k)),
    decreases v.len(),
{
    if k < v.len() {
        lemma_tree_split(v.drop_last(), k);
        assert(v.drop_last().take(k) =~= v.take(k));
        assert(v.drop_last().skip(k) =~= v.skip(k).drop_last());
        assert(v.skip(k)[v.len() - k - 1] == v[v.len() - 1]);
    } else {
        assert(v.take(k) =~= v);
        assert(v.skip(k) =~= Seq::<Tree>::empty());
    }
}

/// What is missing counts for nothing, a link for itself alone, and a file for itself
/// and its length.
pub proof fn law_leaves_count_for_themselves(n: u64)
    ensures
        tree::entries(Tree::Missing) == 0,
        tree::bytes(Tree::Missing) == 0,
        tree::entries(Tree::File(n)) == 1,
        tree::bytes(Tree::File(n)) == n,
        tree::entries(Tree::Link) == 1,
        tree::bytes(Tree::Link) == 0,
        tree::entries(Tree::Other) == 1,
        tree::bytes(Tree::Other) == 0,
{
}

/// A checkpoint needs room for the workspace and for each scratch file.
pub proof fn law_every_file_counts(workspace: nat, files: Seq<u64>, n: u64)
    ensures
        checkpoint::incoming(workspace, Seq::empty()) == workspace,
        checkpoint::incoming(workspace, files.push(n)) == checkpoint::incoming(workspace, files) + n,
{
    assert(files.push(n).drop_last() =~= files);
}

// ------------------------------------------------------------------- paths

/// Whatever lies below a directory of the user's, and does not lead upwards, may be
/// reset.
pub proof fn law_own_paths_may_be_reset(root: Seq<char>, rest: Seq<char>)
    requires
        root == "/home/ubuntu/"@ || root == "/tmp/"@,
        paths::components(root + rest).len() > paths::components(root).len(),
        !paths::components(root + rest).contains(".."@),
    ensures
        reset::path_fault(root + rest) is None,
{
    reveal_strlit("/home/ubuntu/");
    reveal_strlit("/tmp/");
    assert((root + rest)[0] == '/');
    assert(root =~= (root + rest).subrange(0, root.len() as int));
}

/// What may be removed is removed: all of it, and nothing else.
pub proof fn law_cleaning_spares_nothing_removable(v: Seq<Seq<char>>, x: Seq<char>)
    ensures
        checkpoint::cleanable(v).contains(x) <==> v.contains(x) && checkpoint::may_clean(x),
    decreases v.len(),
{
    if v.len() > 0 {
        let d = v.drop_last();
        let b = checkpoint::cleanable(d);
        let w = checkpoint::cleanable(v);
        law_cleaning_spares_nothing_removable(d, x);
        if w.contains(x) {
            let i = choose|i: int| 0 <= i < w.len() && w[i] == x;
            if i < b.len() {
                assert(b[i] == x);
                let k = choose|k: int| 0 <= k < d.len() && d[k] == x;
                assert(v[k] == x);
            } else {
                assert(v[v.len() - 1] == x);
            }
        }
        if v.contains(x) && checkpoint::may_clean(x) {
            let k = choose|k: int| 0 <= k < v.len() && v[k] == x;
            if k < d.len() {
                assert(d[k] == x);
                let i = choose|i: int| 0 <= i < b.len() && b[i] == x;
                assert(w[i] == x);
            } else {
                assert(w[w.len() - 1] == x);
            }
        }
    } else {
        assert(!v.contains(x));
        assert(!checkpoint::cleanable(v).contains(x));
    }
}

/// What lies below the directory of scratch files, and does not lead upwards, may be
/// removed.
pub proof fn law_scratch_files_may_be_removed(rest: Seq<char>)
    requires
        paths::components("/tmp/"@ + rest).len() > paths::components("/tmp/"@).len(),
        !paths::components("/tmp/"@ + rest).contains(".."@),
    ensures
        checkpoint::may_clean("/tmp/"@ + rest),
{
    assert("/tmp/"@ =~= ("/tmp/"@ + rest).subrange(0, "/tmp/"@.len() as int));
}

/// The directory that an archive is unpacked in is called as the one beside it, up to
/// the last dot of that name.
pub proof fn law_stem(name: Seq<char>, extension: Seq<char>)
    requires
        name.len() > 0,
        text_laws::free_of(extension, '.'),
    ensures
        checkpoint::stem(name.push('.') + extension) == name,
{
    let s = name.push('.') + extension;
    let p = text::split_char(name, '.');
    text::lemma_split_append(name, extension, '.');
    text_laws::law_string_undoes_split(name, '.');
    assert(text::split_char(s, '.').drop_last() =~= p);
    if p == seq![Seq::<char>::empty()] {
        assert(p.len() == 1);
        assert(text_laws::strung(p, '.') == p[0]);
    }
    lemma_join_is_strung(p);
}

proof fn lemma_join_is_strung(v: Seq<Seq<char>>)
    ensures
        text::join(v, "."@) == text_laws::strung(v, '.'),
    decreases v.len(),
{
    reveal_strlit(".");
    if v.len() > 1 {
        lemma_join_is_strung(v.drop_last());
        assert(text::join(v, "."@) =~= text_laws::strung(v, '.'));
    }
}

// ------------------------------------------------------------------ answers

/// Whether an answer has a member of that name, once, and that says so.
pub open spec fn says(r: Response, name: Seq<char>, value: Said) -> bool {
    let m = answer::members_of(r);
    &&& exists|i: int| 0 <= i < m.len() && #[trigger] m[i] == (name, value)
    &&& forall|i: int, j: int|
        0 <= i < m.len() && 0 <= j < m.len() && (#[trigger] m[i]).0 == name && (#[trigger] m[j]).0
            == name ==> i == j
}

proof fn lemma_says(r: Response, k: int)
    requires
        0 <= k < answer::members_of(r).len(),
        forall|i: int|
            0 <= i < answer::members_of(r).len() && i != k ==> (#[trigger] answer::members_of(r)[i]).0
                != answer::members_of(r)[k].0,
    ensures
        says(r, answer::members_of(r)[k].0, answer::members_of(r)[k].1),
{
    let m = answer::members_of(r);
    assert(m[k] == (m[k].0, m[k].1));
}

/// The answer to a command says how it ended and what it printed, each where it is
/// looked for.
pub proof fn law_exec_is_answered(exit_code: i32, stdout: String, stderr: String)
    ensures
        says((Response::Exec { exit_code, stdout, stderr }), "exit_code"@, Said::Code(exit_code)),
        says((Response::Exec { exit_code, stdout, stderr }), "stdout"@, Said::Text(stdout@)),
        says((Response::Exec { exit_code, stdout, stderr }), "stderr"@, Said::Text(stderr@)),
{
    reveal_strlit("exit_code");
    reveal_strlit("stdout");
    reveal_strlit("stderr");
    assert("exit_code"@.len() == 9 && "stdout"@.len() == 6 && "stderr"@.len() == 6);
    assert("stdout"@[3] == 'o' && "stderr"@[3] == 'e');
    let r = (Response::Exec { exit_code, stdout, stderr });
    let m = answer::members_of(r);
    assert(m.len() == 3);
    assert(m[0].0 == "exit_code"@);
    assert(m[1].0 == "stdout"@);
    assert(m[2].0 == "stderr"@);
    lemma_says(r, 0);
    lemma_says(r, 1);
    lemma_says(r, 2);
}

/// The answer about the agent says of each thing what is known of it.
pub proof fn law_agent_is_answered(a: AgentStatus)
    ensures
        says(Response::Agent(a), "running"@, Said::Flag(a.pid is Some)),
        says(Response::Agent(a), "alive"@, Said::Flag(a.pid is Some)),
        says(Response::Agent(a), "pid"@, match a.pid {
            Some(p) => Said::Count(p as u64),
            None => Said::Null,
        }),
        says(Response::Agent(a), "task_id"@, match a.task_id {
            Some(t) => Said::Text(t@),
            None => Said::Null,
        }),
        says(Response::Agent(a), "rss_kb"@, Said::Count(a.rss_kb)),
        says(Response::Agent(a), "stream_offset"@, Said::Count(a.stream_offset)),
        says(Response::Agent(a), "result_mtime"@, Said::Count(a.result_mtime)),
{
    reveal_strlit("running");
    reveal_strlit("alive");
    reveal_strlit("pid");
    reveal_strlit("task_id");
    reveal_strlit("rss_kb");
    reveal_strlit("stream_offset");
    reveal_strlit("result_mtime");
    assert("running"@.len() == 7 && "alive"@.len() == 5 && "pid"@.len() == 3);
    assert("task_id"@.len() == 7 && "rss_kb"@.len() == 6 && "stream_offset"@.len() == 13);
    assert("result_mtime"@.len() == 12 && "running"@[0] == 'r' && "task_id"@[0] == 't');
    let r = Response::Agent(a);
    let m = answer::members_of(r);
    assert(m.len() == 7);
    assert(m[0].0 == "running"@);
    assert(m[1].0 == "alive"@);
    assert(m[2].0 == "pid"@);
    assert(m[3].0 == "task_id"@);
    assert(m[4].0 == "rss_kb"@);
    assert(m[5].0 == "stream_offset"@);
    assert(m[6].0 == "result_mtime"@);
    lemma_says(r, 0);
    lemma_says(r, 1);
    lemma_says(r, 2);
    lemma_says(r, 3);
    lemma_says(r, 4);
    lemma_says(r, 5);
    lemma_says(r, 6);
}

/// The answer about the machine says of each thing what was measured of it.
pub proof fn law_stats_are_answered(s: VmStats)
    ensures
        says(Response::Stats(s), "cpu_pct"@, Said::Percentage(s.cpu)),
        says(Response::Stats(s), "memory_used_mb"@, Said::Count(s.memory_used_mb)),
        says(Response::Stats(s), "memory_total_mb"@, Said::Count(s.memory_total_mb)),
        says(Response::Stats(s), "disk_used_gb"@, Said::Gigabytes(s.disk_used_bytes)),
        says(Response::Stats(s), "net_rx_bytes"@, Said::Count(s.net_rx_bytes)),
        says(Response::Stats(s), "net_tx_bytes"@, Said::Count(s.net_tx_bytes)),
{
    reveal_strlit("cpu_pct");
    reveal_strlit("memory_used_mb");
    reveal_strlit("memory_total_mb");
    reveal_strlit("disk_used_gb");
    reveal_strlit("net_rx_bytes");
    reveal_strlit("net_tx_bytes");
    assert("cpu_pct"@.len() == 7 && "memory_used_mb"@.len() == 14);
    assert("memory_total_mb"@.len() == 15 && "disk_used_gb"@.len() == 12);
    assert("net_rx_bytes"@.len() == 12 && "net_tx_bytes"@.len() == 12);
    assert("disk_used_gb"@[4] == '_' && "net_rx_bytes"@[4] == 'r' && "net_tx_bytes"@[4] == 't');
    let r = Response::Stats(s);
    let m = answer::members_of(r);
    assert(m.len() == 6);
    assert(m[0].0 == "cpu_pct"@);
    assert(m[1].0 == "memory_used_mb"@);
    assert(m[2].0 == "memory_total_mb"@);
    assert(m[3].0 == "disk_used_gb"@);
    assert(m[4].0 == "net_rx_bytes"@);
    assert(m[5].0 == "net_tx_bytes"@);
    lemma_says(r, 0);
    lemma_says(r, 1);
    lemma_says(r, 2);
    lemma_says(r, 3);
    lemma_says(r, 4);
    lemma_says(r, 5);
}

/// The answer about processes that were ended says which and how many.
pub proof fn law_reaping_is_answered(pids: Vec<u32>)
    ensures
        says(Response::Reaped(pids), "killed_pids"@, Said::Counts(pids@)),
        says(Response::Reaped(pids), "process_count"@, Said::Count(pids@.len() as u64)),
{
    reveal_strlit("killed_pids");
    reveal_strlit("process_count");
    assert("killed_pids"@.len() == 11 && "process_count"@.len() == 13);
    let r = Response::Reaped(pids);
    let m = answer::members_of(r);
    assert(m.len() == 2);
    assert(m[0].0 == "killed_pids"@);
    assert(m[1].0 == "process_count"@);
    lemma_says(r, 0);
    lemma_says(r, 1);
}

/// The answer about a reset says how many entries went and how long it took.
pub proof fn law_reset_is_answered(removed_count: u64, duration_ms: u64)
    ensures
        says((Response::Reset { removed_count, duration_ms }), "ok"@, Said::Flag(true)),
        says((Response::Reset { removed_count, duration_ms }), "removed_count"@, Said::Count(removed_count)),
        says((Response::Reset { removed_count, duration_ms }), "duration_ms"@, Said::Count(duration_ms)),
{
    reveal_strlit("ok");
    reveal_strlit("removed_count");
    reveal_strlit("duration_ms");
    assert("ok"@.len() == 2 && "removed_count"@.len() == 13 && "duration_ms"@.len() == 11);
    let r = (Response::Reset { removed_count, duration_ms });
    let m = answer::members_of(r);
    assert(m.len() == 3);
    assert(m[0].0 == "ok"@);
    assert(m[1].0 == "removed_count"@);
    assert(m[2].0 == "duration_ms"@);
    lemma_says(r, 0);
    lemma_says(r, 1);
    lemma_says(r, 2);
}

/// The answer about a restore says that it worked and how many entries came back.
pub proof fn law_restore_is_answered(count: u64)
    ensures
        says(Response::Restored(count), "ok"@, Said::Flag(true)),
        says(Response::Restored(count), "restored_count"@, Said::Count(count)),
{
    reveal_strlit("ok");
    reveal_strlit("restored_count");
    assert("ok"@.len() == 2 && "restored_count"@.len() == 14);
    let r = Response::Restored(count);
    let m = answer::members_of(r);
    assert(m.len() == 2);
    assert(m[0].0 == "ok"@);
    assert(m[1].0 == "restored_count"@);
    lemma_says(r, 0);
    lemma_says(r, 1);
}

/// The answer to a ping says that the daemon is there, and since when.
pub proof fn law_ping_is_answered()
    ensures
        says(Response::Pong, "ok"@, Said::Flag(true)),
        says(Response::Pong, "uptime_seconds"@, Said::Uptime),
{
    reveal_strlit("ok");
    reveal_strlit("uptime_seconds");
    assert("ok"@.len() == 2 && "uptime_seconds"@.len() == 14);
    let r = Response::Pong;
    let m = answer::members_of(r);
    assert(m.len() == 2);
    assert(m[0].0 == "ok"@);
    assert(m[1].0 == "uptime_seconds"@);
    lemma_says(r, 0);
    lemma_says(r, 1);
}

/// An answer that is one thing says that thing: an error, what was done, contents, a
/// checkpoint, or what was removed.
pub proof fn law_single_answers(text: String, paths: Vec<String>)
    ensures
        says(Response::Error(text), "error"@, Said::Text(text@)),
        says(Response::Done, "ok"@, Said::Flag(true)),
        says(Response::Data(text), "data"@, Said::Text(text@)),
        says(Response::Checkpoint(text), "checkpoint_id"@, Said::Text(text@)),
        says(Response::Removed(paths), "removed"@, Said::Texts(text::views(paths@))),
{
    lemma_says(Response::Error(text), 0);
    lemma_says(Response::Done, 0);
    lemma_says(Response::Data(text), 0);
    lemma_says(Response::Checkpoint(text), 0);
    lemma_says(Response::Removed(paths), 0);
}

/// A line of the list of mounts names in its second field where something is mounted.
pub proof fn law_mounted_line(device: Seq<char>, point: Seq<char>, kind: Seq<char>)
    requires
        device.len() > 0 && text_laws::solid(device),
        reset::escaped(point).len() > 0 && text_laws::solid(reset::escaped(point)),
        text_laws::solid(kind),
    ensures
        reset::mount_point(
            (device.push(' ') + reset::escaped(point)).push(' ') + kind,
        ) == Some(point),
        reset::mount_point(device) is None,
{
    let e = reset::escaped(point);
    let a = device.push(' ') + e;
    text_laws::law_one_word(device);
    text_laws::law_words_append(device, e, ' ');
    text_laws::law_words_append(a, kind, ' ');
    reset::law_mount_fields_read_back(point);
    let w = text::words(a.push(' ') + kind);
    assert(w[1] == e);
}

/// The first two lines of the list of interfaces are headers; every other line counts.
pub proof fn law_headers_do_not_count(content: Seq<char>, k: int)
    ensures
        ({
            let all = text::lines(content);
            let kept = stats::without_headers(content);
            &&& all.len() >= 2 ==> kept.len() == all.len() - 2
            &&& all.len() < 2 ==> kept.len() == 0
            &&& 2 <= k < all.len() ==> kept[k - 2] == all[k]
        }),
{
}

/// Between two samples the processor was idle for as long as its idle counter grew,
/// and not at all where that went backwards.
pub proof fn law_idle_counter(before: stats::CpuSample, after: stats::CpuSample)
    ensures
        stats::idle_between(before, after) >= 0,
        after.idle >= before.idle ==> before.idle + stats::idle_between(before, after) == after.idle,
        after.idle < before.idle ==> stats::idle_between(before, after) == 0,
{
}

} // verus!
