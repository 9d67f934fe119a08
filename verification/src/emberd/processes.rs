//! Processes of the machine, as the process filesystem shows them.
use crate::emberd::reset;
use crate::text;
use vstd::prelude::*;

verus! {

/// How long processes that are to end have before they are killed, in seconds.
pub const REAP_GRACE_SECS: u64 = 5;

/// How long to wait before looking again whether they have ended, in milliseconds.
pub const REAP_POLL_MS: u64 = 100;

/// An entry of the process filesystem, with one of its texts where that could be
/// read.
#[derive(Debug, PartialEq, Eq)]
pub struct Entry {
    pub name: String,
    pub text: Option<String>,
}

/// The process that an entry is about and its text, where it is about one.
pub open spec fn process(e: Entry) -> Option<(u32, Seq<char>)> {
    match (text::parse_uint(e.name@, u32::MAX as nat), e.text) {
        (Ok(n), Some(t)) => Some((n as u32, t@)),
        _ => None,
    }
}

fn read_process(e: &Entry) -> (r: Option<(u32, &str)>)
    ensures
        match r {
            Some((p, t)) => process(*e) == Some((p, t@)),
            None => process(*e) is None,
        },
{
    proof {
        text::lemma_parse_bound(e.name@, u32::MAX as nat);
    }
    match (text::parse_uint_str(e.name.as_str(), u32::MAX as u64), &e.text) {
        (Ok(n), Some(t)) => Some((n as u32, t.as_str())),
        _ => None,
    }
}

/// The first process whose command line names the entry point of an agent.
pub open spec fn agent_among(v: Seq<Entry>) -> Option<u32>
    decreases v.len(),
{
    if v.len() == 0 {
        None
    } else {
        match process(v[0]) {
            Some((p, t)) => if text::contains_text(t, "thermite-entrypoint"@) {
                Some(p)
            } else {
                agent_among(v.skip(1))
            },
            None => agent_among(v.skip(1)),
        }
    }
}

/// The process of the agent, from the command lines of all processes.
pub fn find_agent_pid(entries: &Vec<Entry>) -> (r: Option<u32>)
    ensures
        r == agent_among(entries@),
{
    let mut i: usize = 0;
    assert(entries@.skip(0) =~= entries@);
    while i < entries.len()
        invariant
            i <= entries.len(),
            agent_among(entries@.skip(i as int)) == agent_among(entries@),
        decreases entries.len() - i,
    {
        proof {
            assert(entries@.skip(i as int)[0] == entries@[i as int]);
            assert(entries@.skip(i as int).skip(1) =~= entries@.skip(i + 1));
        }
        if let Some((p, t)) = read_process(&entries[i]) {
            if text::contains(t, "thermite-entrypoint") {
                return Some(p);
            }
        }
        i += 1;
    }
    None
}

/// The arguments in a command line.
pub open spec fn arguments(cmdline: Seq<char>) -> Seq<Seq<char>> {
    text::nonempty(text::split_char(cmdline, '\0'))
}

/// What follows the last slash.
pub open spec fn base_name(s: Seq<char>) -> Seq<char> {
    text::split_char(s, '/').last()
}

/// Whether a command line is that of an agent: the program has the name of the
/// agents' program, and a model is chosen.
pub open spec fn is_agent(cmdline: Seq<char>, program: Seq<char>) -> bool {
    let a = arguments(cmdline);
    a.len() > 0 && base_name(a[0]) == program && a.contains("--model"@)
}

/// Whether a command line is that of an agent, given the name of the agents' program.
pub fn cmdline_matches_claude(cmdline: &str, program: &str) -> (r: bool)
    ensures
        r == is_agent(cmdline@, program@),
{
    let args = text::keep_nonempty(text::split(cmdline, '\0'));
    assert(text::views(args@).len() == args.len());
    if args.len() == 0 {
        return false;
    }
    assert(text::views(args@)[0] == args@[0]@);
    let parts = text::split(args[0].as_str(), '/');
    proof {
        text::lemma_split_nonempty(args@[0]@, text::just('/'));
        assert(text::views(parts@).len() == parts.len());
        assert(text::views(parts@).last() == parts@.last()@);
    }
    text::same(parts[parts.len() - 1].as_str(), program) && text::list_has(&args, "--model")
}

/// The processes of agents, without this one.
pub open spec fn agents_among(v: Seq<Entry>, self_pid: u32, program: Seq<char>) -> Seq<u32>
    decreases v.len(),
{
    if v.len() == 0 {
        Seq::empty()
    } else {
        let before = agents_among(v.drop_last(), self_pid, program);
        match process(v.last()) {
            Some((p, t)) => if p != self_pid && is_agent(t, program) {
                before.push(p)
            } else {
                before
            },
            None => before,
        }
    }
}

/// The processes of agents, from the command lines of all processes.
pub fn find_claude_pids(entries: &Vec<Entry>, self_pid: u32, program: &str) -> (r: Vec<u32>)
    ensures
        r@ == agents_among(entries@, self_pid, program@),
{
    let mut out: Vec<u32> = Vec::new();
    let mut i: usize = 0;
    assert(entries@.take(0) =~= Seq::<Entry>::empty());
    while i < entries.len()
        invariant
            i <= entries.len(),
            out@ == agents_among(entries@.take(i as int), self_pid, program@),
        decreases entries.len() - i,
    {
        proof {
            assert(entries@.take(i + 1).drop_last() =~= entries@.take(i as int));
            assert(entries@.take(i + 1).last() == entries@[i as int]);
        }
        if let Some((p, t)) = read_process(&entries[i]) {
            if p != self_pid && cmdline_matches_claude(t, program) {
                out.push(p);
            }
        }
        i += 1;
    }
    assert(entries@.take(entries@.len() as int) =~= entries@);
    out
}

/// The processes that work at or below a path, without this one.
pub open spec fn inhabitants(v: Seq<Entry>, self_pid: u32, path: Seq<char>) -> Seq<u32>
    decreases v.len(),
{
    if v.len() == 0 {
        Seq::empty()
    } else {
        let before = inhabitants(v.drop_last(), self_pid, path);
        match process(v.last()) {
            Some((p, t)) => if p != self_pid && reset::at_or_below(t, path) {
                before.push(p)
            } else {
                before
            },
            None => before,
        }
    }
}

/// The processes that work at or below a path, from the working directories of all
/// processes.
pub fn find_pids_with_cwd_under(entries: &Vec<Entry>, self_pid: u32, path: &str) -> (r: Vec<u32>)
    ensures
        r@ == inhabitants(entries@, self_pid, path@),
{
    let mut out: Vec<u32> = Vec::new();
    let mut i: usize = 0;
    assert(entries@.take(0) =~= Seq::<Entry>::empty());
    while i < entries.len()
        invariant
            i <= entries.len(),
            out@ == inhabitants(entries@.take(i as int), self_pid, path@),
        decreases entries.len() - i,
    {
        proof {
            assert(entries@.take(i + 1).drop_last() =~= entries@.take(i as int));
            assert(entries@.take(i + 1).last() == entries@[i as int]);
        }
        if let Some((p, t)) = read_process(&entries[i]) {
            if p != self_pid && reset::is_at_or_below(t, path) {
                out.push(p);
            }
        }
        i += 1;
    }
    assert(entries@.take(entries@.len() as int) =~= entries@);
    out
}

/// The daemon never picks itself, neither as an agent nor as a process to end
/// before a workspace is deleted.
pub proof fn law_daemon_spares_itself(
    v: Seq<Entry>,
    self_pid: u32,
    program: Seq<char>,
    path: Seq<char>,
)
    ensures
        !agents_among(v, self_pid, program).contains(self_pid),
        !inhabitants(v, self_pid, path).contains(self_pid),
    decreases v.len(),
{
    if v.len() > 0 {
        law_daemon_spares_itself(v.drop_last(), self_pid, program, path);
        let a = agents_among(v.drop_last(), self_pid, program);
        let b = inhabitants(v.drop_last(), self_pid, path);
        assert forall|k: int| 0 <= k < agents_among(v, self_pid, program).len() implies agents_among(
            v,
            self_pid,
            program,
        )[k] != self_pid by {
            if k < a.len() {
                assert(a.contains(a[k]));
            }
        }
        assert forall|k: int| 0 <= k < inhabitants(v, self_pid, path).len() implies inhabitants(
            v,
            self_pid,
            path,
        )[k] != self_pid by {
            if k < b.len() {
                assert(b.contains(b[k]));
            }
        }
    }
}

/// What to do next about processes that are to end.
#[derive(Debug, PartialEq, Eq)]
pub enum Reaping {
    /// They are gone, or there are none.
    Finished,
    /// Ask each of them to end.
    Terminate,
    /// Wait a moment and look again.
    Sleep,
    /// Kill those that are left.
    Kill(Vec<u32>),
}

/// What to do first about processes that are to end.
pub fn reap_pids(pids: &[u32]) -> (r: Reaping)
    ensures
        r == (if pids@.len() == 0 {
            Reaping::Finished
        } else {
            Reaping::Terminate
        }),
{
    if pids.len() == 0 {
        Reaping::Finished
    } else {
        Reaping::Terminate
    }
}

/// What to do about the processes that are alive after they were asked to end.
pub fn reap_pids_with_grace(alive: Vec<u32>, grace_is_over: bool) -> (r: Reaping)
    ensures
        match r {
            Reaping::Finished => alive@.len() == 0,
            Reaping::Terminate => false,
            Reaping::Sleep => alive@.len() > 0 && !grace_is_over,
            Reaping::Kill(v) => alive@.len() > 0 && grace_is_over && v@ == alive@,
        },
{
    if alive.len() == 0 {
        Reaping::Finished
    } else if grace_is_over {
        Reaping::Kill(alive)
    } else {
        Reaping::Sleep
    }
}

/// Memory that a process holds, in KiB, by the first line that says so.
pub open spec fn resident_kb(lines: Seq<Seq<char>>) -> u64
    decreases lines.len(),
{
    if lines.len() == 0 {
        0
    } else {
        match text::without_prefix(lines[0], "VmRSS:"@) {
            Some(rest) => {
                let w = text::words(rest);
                if w.len() == 0 {
                    0
                } else {
                    match text::parse_uint(w[0], u64::MAX as nat) {
                        Ok(n) => n as u64,
                        Err(_) => 0,
                    }
                }
            },
            None => resident_kb(lines.skip(1)),
        }
    }
}

/// Memory that a process holds, in KiB, from its status; zero where the status does
/// not say.
pub fn rss_kb(status: &str) -> (r: u64)
    ensures
        r == resident_kb(text::lines(status@)),
{
    let lines = text::split_lines(status);
    let ghost v = text::views(lines@);
    let mut i: usize = 0;
    assert(v.skip(0) =~= v);
    while i < lines.len()
        invariant
            i <= lines.len(),
            v == text::views(lines@),
            v == text::lines(status@),
            resident_kb(v.skip(i as int)) == resident_kb(v),
        decreases lines.len() - i,
    {
        proof {
            assert(v.skip(i as int)[0] == lines@[i as int]@);
            assert(v.skip(i as int).skip(1) =~= v.skip(i + 1));
        }
        if let Some(rest) = text::strip_prefix(lines[i].as_str(), "VmRSS:") {
            let w = text::split_words(rest.as_str());
            assert(text::views(w@).len() == w.len());
            if w.len() == 0 {
                return 0;
            }
            assert(text::views(w@)[0] == w@[0]@);
            return match text::parse_uint_str(w[0].as_str(), u64::MAX) {
                Ok(n) => n,
                Err(_) => 0,
            };
        }
        i += 1;
    }
    assert(v.skip(v.len() as int) =~= Seq::<Seq<char>>::empty());
    0
}

} // verus!
