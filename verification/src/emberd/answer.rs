//! How answers are shown: as objects, with the names of their members.
use crate::emberd::request::Response;
use crate::text;
use vstd::prelude::*;

verus! {

/// What a member of an answer shows.
#[derive(Debug, PartialEq, Eq)]
pub enum Shown {
    Null,
    Flag(bool),
    Code(i32),
    Count(u64),
    Text(String),
    Counts(Vec<u32>),
    Texts(Vec<String>),
    /// How long the machine has been up, in seconds.
    Uptime,
    /// Busy ticks of all ticks, as a percentage; zero where that is not known.
    Percentage(Option<(u64, u64)>),
    /// So many bytes, in gigabytes.
    Gigabytes(u64),
}

/// What a [`Shown`] says.
pub enum Said {
    Null,
    Flag(bool),
    Code(i32),
    Count(u64),
    Text(Seq<char>),
    Counts(Seq<u32>),
    Texts(Seq<Seq<char>>),
    Uptime,
    Percentage(Option<(u64, u64)>),
    Gigabytes(u64),
}

impl View for Shown {
    type V = Said;

    open spec fn view(&self) -> Said {
        match *self {
            Shown::Null => Said::Null,
            Shown::Flag(b) => Said::Flag(b),
            Shown::Code(n) => Said::Code(n),
            Shown::Count(n) => Said::Count(n),
            Shown::Text(s) => Said::Text(s@),
            Shown::Counts(v) => Said::Counts(v@),
            Shown::Texts(v) => Said::Texts(text::views(v@)),
            Shown::Uptime => Said::Uptime,
            Shown::Percentage(p) => Said::Percentage(p),
            Shown::Gigabytes(n) => Said::Gigabytes(n),
        }
    }
}

/// A member of an answer.
#[derive(Debug, PartialEq, Eq)]
pub struct Member {
    pub name: &'static str,
    pub value: Shown,
}

/// The contents of a list of members.
pub open spec fn member_views(v: Seq<Member>) -> Seq<(Seq<char>, Said)> {
    Seq::new(v.len(), |i: int| (v[i].name@, v[i].value@))
}

/// The members of an answer.
pub open spec fn members_of(r: Response) -> Seq<(Seq<char>, Said)> {
    match r {
        Response::Error(e) => seq![("error"@, Said::Text(e@))],
        Response::Pong => seq![("ok"@, Said::Flag(true)), ("uptime_seconds"@, Said::Uptime)],
        Response::Done => seq![("ok"@, Said::Flag(true))],
        Response::Exec { exit_code, stdout, stderr } => seq![
            ("exit_code"@, Said::Code(exit_code)),
            ("stdout"@, Said::Text(stdout@)),
            ("stderr"@, Said::Text(stderr@)),
        ],
        Response::Data(data) => seq![("data"@, Said::Text(data@))],
        Response::Agent(a) => seq![
            ("running"@, Said::Flag(a.pid is Some)),
            ("alive"@, Said::Flag(a.pid is Some)),
            (
                "pid"@,
                match a.pid {
                    Some(p) => Said::Count(p as u64),
                    None => Said::Null,
                },
            ),
            (
                "task_id"@,
                match a.task_id {
                    Some(t) => Said::Text(t@),
                    None => Said::Null,
                },
            ),
            ("rss_kb"@, Said::Count(a.rss_kb)),
            ("stream_offset"@, Said::Count(a.stream_offset)),
            ("result_mtime"@, Said::Count(a.result_mtime)),
        ],
        Response::Reaped(pids) => seq![
            ("killed_pids"@, Said::Counts(pids@)),
            ("process_count"@, Said::Count(pids@.len() as u64)),
        ],
        Response::Stats(s) => seq![
            ("cpu_pct"@, Said::Percentage(s.cpu)),
            ("memory_used_mb"@, Said::Count(s.memory_used_mb)),
            ("memory_total_mb"@, Said::Count(s.memory_total_mb)),
            ("disk_used_gb"@, Said::Gigabytes(s.disk_used_bytes)),
            ("net_rx_bytes"@, Said::Count(s.net_rx_bytes)),
            ("net_tx_bytes"@, Said::Count(s.net_tx_bytes)),
        ],
        Response::Reset { removed_count, duration_ms } => seq![
            ("ok"@, Said::Flag(true)),
            ("removed_count"@, Said::Count(removed_count)),
            ("duration_ms"@, Said::Count(duration_ms)),
        ],
        Response::Checkpoint(id) => seq![("checkpoint_id"@, Said::Text(id@))],
        Response::Restored(count) => seq![
            ("ok"@, Said::Flag(true)),
            ("restored_count"@, Said::Count(count)),
        ],
        Response::Removed(paths) => seq![("removed"@, Said::Texts(text::views(paths@)))],
    }
}

fn add_member(v: &mut Vec<Member>, name: &'static str, value: Shown)
    ensures
        member_views(final(v)@) == member_views(old(v)@).push((name@, value@)),
{
    let ghost before = member_views(v@);
    v.push(Member { name, value });
    assert(member_views(v@) =~= before.push((name@, value@)));
}

/// The members of an answer.
pub fn shown(r: Response) -> (v: Vec<Member>)
    ensures
        member_views(v@) == members_of(r),
{
    let mut v: Vec<Member> = Vec::new();
    assert(member_views(v@) =~= Seq::<(Seq<char>, Said)>::empty());
    match r {
        Response::Error(e) => add_member(&mut v, "error", Shown::Text(e)),
        Response::Pong => {
            add_member(&mut v, "ok", Shown::Flag(true));
            add_member(&mut v, "uptime_seconds", Shown::Uptime);
        },
        Response::Done => add_member(&mut v, "ok", Shown::Flag(true)),
        Response::Exec { exit_code, stdout, stderr } => {
            add_member(&mut v, "exit_code", Shown::Code(exit_code));
            add_member(&mut v, "stdout", Shown::Text(stdout));
            add_member(&mut v, "stderr", Shown::Text(stderr));
        },
        Response::Data(data) => add_member(&mut v, "data", Shown::Text(data)),
        Response::Agent(a) => {
            let runs = a.pid.is_some();
            add_member(&mut v, "running", Shown::Flag(runs));
            add_member(&mut v, "alive", Shown::Flag(runs));
            let pid = match a.pid {
                Some(p) => Shown::Count(p as u64),
                None => Shown::Null,
            };
            add_member(&mut v, "pid", pid);
            let task = match a.task_id {
                Some(t) => Shown::Text(t),
                None => Shown::Null,
            };
            add_member(&mut v, "task_id", task);
            add_member(&mut v, "rss_kb", Shown::Count(a.rss_kb));
            add_member(&mut v, "stream_offset", Shown::Count(a.stream_offset));
            add_member(&mut v, "result_mtime", Shown::Count(a.result_mtime));
        },
        Response::Reaped(pids) => {
            let n: u64 = pids.len() as u64;
            add_member(&mut v, "killed_pids", Shown::Counts(pids));
            add_member(&mut v, "process_count", Shown::Count(n));
        },
        Response::Stats(s) => {
            add_member(&mut v, "cpu_pct", Shown::Percentage(s.cpu));
            add_member(&mut v, "memory_used_mb", Shown::Count(s.memory_used_mb));
            add_member(&mut v, "memory_total_mb", Shown::Count(s.memory_total_mb));
            add_member(&mut v, "disk_used_gb", Shown::Gigabytes(s.disk_used_bytes));
            add_member(&mut v, "net_rx_bytes", Shown::Count(s.net_rx_bytes));
            add_member(&mut v, "net_tx_bytes", Shown::Count(s.net_tx_bytes));
        },
        Response::Reset { removed_count, duration_ms } => {
            add_member(&mut v, "ok", Shown::Flag(true));
            add_member(&mut v, "removed_count", Shown::Count(removed_count));
            add_member(&mut v, "duration_ms", Shown::Count(duration_ms));
        },
        Response::Checkpoint(id) => add_member(&mut v, "checkpoint_id", Shown::Text(id)),
        Response::Restored(count) => {
            add_member(&mut v, "ok", Shown::Flag(true));
            add_member(&mut v, "restored_count", Shown::Count(count));
        },
        Response::Removed(paths) => add_member(&mut v, "removed", Shown::Texts(paths)),
    }
    assert(member_views(v@) =~= members_of(r));
    v
}

} // verus!
