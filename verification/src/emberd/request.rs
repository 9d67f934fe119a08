//! Requests, jobs and answers.
//!
//! A request is a line of JSON. It is either answered at once or asks for a job;
//! what comes of the job gives the answer.
use crate::command::Outcome;
use crate::emberd::checkpoint;
use crate::emberd::checkpoint::Config;
use crate::emberd::json;
use crate::emberd::request_laws;
use crate::emberd::reset;
use crate::text;
use vstd::prelude::*;

verus! {

/// What a request says.
#[derive(Debug, PartialEq, Eq)]
pub struct Request {
    /// What is asked for; empty where the request does not say.
    pub op: String,
    pub command: Option<String>,
    /// Variables to run the command with.
    pub env: Vec<(String, String)>,
    pub path: Option<String>,
    pub data: Option<String>,
    pub name: Option<String>,
    pub checkpoint_id: Option<String>,
    pub workspace: Option<String>,
    pub checkpoint_root: Option<String>,
    pub tmp_globs: Option<Vec<String>>,
    pub quota_bytes: Option<u64>,
    pub globs: Option<Vec<String>>,
}

/// The contents of an optional list of strings.
pub open spec fn opt_list(v: Option<Vec<String>>) -> Option<Seq<Seq<char>>> {
    match v {
        Some(l) => Some(text::views(l@)),
        None => None,
    }
}

/// The strings in a field that holds an array.
pub open spec fn list_in(line: Seq<char>, key: Seq<char>) -> Option<Seq<Seq<char>>> {
    match json::strings_in(line, key) {
        Some(v) => Some(json::present(v)),
        None => None,
    }
}

/// Whether `r` is what a line of JSON asks for.
pub open spec fn is_request(r: Request, line: Seq<char>) -> bool {
    &&& r.op@ == (match json::string_in(line, "op"@) {
        Some(s) => s,
        None => Seq::empty(),
    })
    &&& json::opt(r.command) == json::string_in(line, "command"@)
    &&& json::pairs(r.env@) == (match json::members_in(line, "env"@) {
        Some(m) => json::string_members(m),
        None => Seq::empty(),
    })
    &&& json::opt(r.path) == json::string_in(line, "path"@)
    &&& json::opt(r.data) == json::string_in(line, "data"@)
    &&& json::opt(r.name) == json::string_in(line, "name"@)
    &&& json::opt(r.checkpoint_id) == json::string_in(line, "checkpoint_id"@)
    &&& json::opt(r.workspace) == json::string_in(line, "workspace"@)
    &&& json::opt(r.checkpoint_root) == json::string_in(line, "checkpoint_root"@)
    &&& opt_list(r.tmp_globs) == list_in(line, "tmp_globs"@)
    &&& r.quota_bytes == json::number_in(line, "quota_bytes"@)
    &&& opt_list(r.globs) == list_in(line, "globs"@)
}

fn read_list(line: &str, key: &str) -> (r: Option<Vec<String>>)
    ensures
        opt_list(r) == list_in(line@, key@),
{
    match json::strings(line, key) {
        Some(v) => Some(json::keep_present(v)),
        None => None,
    }
}

impl Request {
    /// What a line of JSON asks for.
    pub fn read(line: &str) -> (r: Self)
        ensures
            is_request(r, line@),
    {
        let op = match json::string(line, "op") {
            Some(s) => s,
            None => {
                let s = String::new();
                assert(s@ =~= Seq::<char>::empty());
                s
            },
        };
        let env = match json::object(line, "env") {
            Some(m) => json::keep_strings(m),
            None => {
                let v: Vec<(String, String)> = Vec::new();
                assert(json::pairs(v@) =~= Seq::<(Seq<char>, Seq<char>)>::empty());
                v
            },
        };
        Request {
            op,
            command: json::string(line, "command"),
            env,
            path: json::string(line, "path"),
            data: json::string(line, "data"),
            name: json::string(line, "name"),
            checkpoint_id: json::string(line, "checkpoint_id"),
            workspace: json::string(line, "workspace"),
            checkpoint_root: json::string(line, "checkpoint_root"),
            tmp_globs: read_list(line, "tmp_globs"),
            quota_bytes: json::number(line, "quota_bytes"),
            globs: read_list(line, "globs"),
        }
    }
}

/// What is answered.
#[derive(Debug, PartialEq, Eq)]
pub enum Response {
    /// Something is wrong.
    Error(String),
    /// The daemon is alive; how long the machine has been up is added when the
    /// answer is sent.
    Pong,
    /// It is done.
    Done,
    /// How a command ended and what it printed.
    Exec { exit_code: i32, stdout: String, stderr: String },
    /// The contents of a file, in base64.
    Data(String),
    /// How the agent is doing.
    Agent(AgentStatus),
    /// The processes that were signalled.
    Reaped(Vec<u32>),
    /// How the machine is doing.
    Stats(VmStats),
    /// A workspace is gone.
    Reset { removed_count: u64, duration_ms: u64 },
    /// A checkpoint was made.
    Checkpoint(String),
    /// A checkpoint was restored.
    Restored(u64),
    /// The files that were removed.
    Removed(Vec<String>),
}

/// How the agent is doing.
#[derive(Clone, Debug, PartialEq, Eq)]
pub struct AgentStatus {
    /// The process of the agent, where it runs.
    pub pid: Option<u32>,
    /// The task that it works on.
    pub task_id: Option<String>,
    /// Memory of the process, in KiB.
    pub rss_kb: u64,
    /// Length of the stream that the agent writes.
    pub stream_offset: u64,
    /// When the result was last written, in seconds.
    pub result_mtime: u64,
}

/// How the machine is doing.
#[derive(Clone, Copy, Debug, PartialEq, Eq)]
pub struct VmStats {
    /// Busy ticks, of the given number of ticks.
    pub cpu: Option<(u64, u64)>,
    pub memory_used_mb: u64,
    pub memory_total_mb: u64,
    pub disk_used_bytes: u64,
    pub net_rx_bytes: u64,
    pub net_tx_bytes: u64,
}

/// What a request asks for.
#[derive(Debug, PartialEq, Eq)]
pub enum Job {
    /// Nothing: the answer is known.
    Answer(Response),
    /// Run a shell command.
    Exec { command: String, env: Vec<(String, String)> },
    ReadFile { path: String },
    WriteFile { path: String, data: Vec<u8> },
    AgentStatus,
    AgentReap,
    VmStats,
    WorkspaceReset { path: String },
    TaskCheckpoint { config: Config, label: Option<String> },
    TaskRestore { config: Config, id: String },
    FsClean { globs: Vec<String> },
}

/// Whether `j` is the answer that something is wrong in the given way.
pub open spec fn is_refusal(j: Job, msg: Seq<char>) -> bool {
    j matches Job::Answer(r) && is_error(r, msg)
}

/// Whether `r` says that something is wrong in the given way.
pub open spec fn is_error(r: Response, msg: Seq<char>) -> bool {
    r matches Response::Error(m) && m@ == msg
}

/// Whether `j` is what `op_exec` makes of a request.
pub open spec fn is_exec(req: Request, j: Job) -> bool {
    match req.command {
        None => is_refusal(j, "missing 'command' field"@),
        Some(c) => j matches Job::Exec { command, env } && command@ == c@ && json::pairs(env@)
            == json::pairs(req.env@),
    }
}

/// Whether `j` is what `op_read_file` makes of a request.
pub open spec fn is_read_file(req: Request, j: Job) -> bool {
    match req.path {
        None => is_refusal(j, "missing 'path' field"@),
        Some(p) => j matches Job::ReadFile { path } && path@ == p@,
    }
}

/// Whether `j` is what `op_write_file` makes of a request.
pub open spec fn is_write_file(req: Request, j: Job) -> bool {
    match (req.path, req.data) {
        (None, _) => is_refusal(j, "missing 'path' field"@),
        (Some(_), None) => is_refusal(j, "missing 'data' field"@),
        (Some(p), Some(d)) => match json::bytes_of(d@) {
            Err(e) => is_refusal(j, "base64 decode: "@ + e),
            Ok(b) => j matches Job::WriteFile { path, data } && path@ == p@ && data@ == b,
        },
    }
}

/// Whether `j` is what `op_workspace_reset` makes of a request.
pub open spec fn is_workspace_reset(req: Request, j: Job) -> bool {
    match req.path {
        None => is_refusal(j, "missing 'path' field"@),
        Some(p) => match reset::path_fault(p@) {
            Some(e) => is_refusal(j, "workspace_reset: "@ + e),
            None => j matches Job::WorkspaceReset { path } && path@ == p@,
        },
    }
}

/// Whether `j` is what `op_task_checkpoint` makes of a request.
pub open spec fn is_task_checkpoint(req: Request, j: Job) -> bool {
    j matches Job::TaskCheckpoint { config, label } && checkpoint::is_config(config, req)
        && json::opt(label) == json::opt(req.name)
}

/// Whether `j` is what `op_task_restore` makes of a request.
pub open spec fn is_task_restore(req: Request, j: Job) -> bool {
    match req.checkpoint_id {
        None => is_refusal(j, "task_restore: missing 'checkpoint_id' field"@),
        Some(i) => if checkpoint::is_valid_id(i@) {
            j matches Job::TaskRestore { config, id } && checkpoint::is_config(config, req) && id@
                == i@
        } else {
            is_refusal(j, "task_restore: invalid checkpoint id: "@ + i@)
        },
    }
}

/// Whether `j` is what `op_fs_clean` makes of a request.
pub open spec fn is_fs_clean(req: Request, j: Job) -> bool {
    match req.globs {
        None => is_refusal(j, "missing 'globs' field"@),
        Some(g) => j matches Job::FsClean { globs } && text::views(globs@) == text::views(g@),
    }
}

/// Whether `j` is what a request asks for.
pub open spec fn is_job(req: Request, j: Job) -> bool {
    if req.op@ == "ping"@ {
        j == Job::Answer(Response::Pong)
    } else if req.op@ == "exec"@ {
        is_exec(req, j)
    } else if req.op@ == "read_file"@ {
        is_read_file(req, j)
    } else if req.op@ == "write_file"@ {
        is_write_file(req, j)
    } else if req.op@ == "agent_status"@ {
        j == Job::AgentStatus
    } else if req.op@ == "agent_reap"@ {
        j == Job::AgentReap
    } else if req.op@ == "vm_stats"@ {
        j == Job::VmStats
    } else if req.op@ == "workspace_reset"@ {
        is_workspace_reset(req, j)
    } else if req.op@ == "task_checkpoint"@ {
        is_task_checkpoint(req, j)
    } else if req.op@ == "task_restore"@ {
        is_task_restore(req, j)
    } else if req.op@ == "fs_clean"@ {
        is_fs_clean(req, j)
    } else {
        is_refusal(j, "unknown op: "@ + req.op@)
    }
}

fn refuse(msg: String) -> (j: Job)
    ensures
        is_refusal(j, msg@),
{
    Job::Answer(Response::Error(msg))
}

fn copy_opt(s: &Option<String>) -> (r: Option<String>)
    ensures
        json::opt(r) == json::opt(*s),
{
    match s {
        Some(t) => Some(t.clone()),
        None => None,
    }
}

fn copy_pairs(v: &Vec<(String, String)>) -> (r: Vec<(String, String)>)
    ensures
        json::pairs(r@) == json::pairs(v@),
{
    let mut out: Vec<(String, String)> = Vec::new();
    let mut i: usize = 0;
    while i < v.len()
        invariant
            i <= v.len(),
            json::pairs(out@) =~= json::pairs(v@).take(i as int),
        decreases v.len() - i,
    {
        let ghost before = json::pairs(out@);
        let pair = (v[i].0.clone(), v[i].1.clone());
        out.push(pair);
        assert(json::pairs(out@) =~= before.push((pair.0@, pair.1@)));
        i += 1;
    }
    assert(json::pairs(v@).take(v@.len() as int) =~= json::pairs(v@));
    out
}

/// The given strings.
pub fn copy_strings(v: &Vec<String>) -> (r: Vec<String>)
    ensures
        text::views(r@) == text::views(v@),
{
    let mut out: Vec<String> = Vec::new();
    let mut i: usize = 0;
    while i < v.len()
        invariant
            i <= v.len(),
            text::views(out@) =~= text::views(v@).take(i as int),
        decreases v.len() - i,
    {
        let s = v[i].clone();
        proof {
            text::lemma_views_push(out@, s);
        }
        out.push(s);
        i += 1;
    }
    assert(text::views(v@).take(v@.len() as int) =~= text::views(v@));
    out
}

/// Runs a shell command.
pub fn op_exec(req: &Request) -> (j: Job)
    ensures
        is_exec(*req, j),
{
    match &req.command {
        None => refuse("missing 'command' field".to_owned()),
        Some(c) => Job::Exec { command: c.clone(), env: copy_pairs(&req.env) },
    }
}

/// Reads a file.
pub fn op_read_file(req: &Request) -> (j: Job)
    ensures
        is_read_file(*req, j),
{
    match &req.path {
        None => refuse("missing 'path' field".to_owned()),
        Some(p) => Job::ReadFile { path: p.clone() },
    }
}

/// The job of writing a file, given what its contents were decoded to.
pub fn write_job(path: String, decoded: Result<Vec<u8>, String>) -> (j: Job)
    ensures
        match decoded {
            Ok(b) => j == (Job::WriteFile { path, data: b }),
            Err(e) => is_refusal(j, "base64 decode: "@ + e@),
        },
{
    match decoded {
        Ok(b) => Job::WriteFile { path, data: b },
        Err(e) => refuse(text::cat2("base64 decode: ", e.as_str())),
    }
}

/// Writes a file.
pub fn op_write_file(req: &Request) -> (j: Job)
    ensures
        is_write_file(*req, j),
{
    let path = match &req.path {
        None => return refuse("missing 'path' field".to_owned()),
        Some(p) => p.clone(),
    };
    let data = match &req.data {
        None => return refuse("missing 'data' field".to_owned()),
        Some(d) => d.as_str(),
    };
    write_job(path, json::decode(data))
}

/// Resets a workspace. The path must be one that may be deleted.
pub fn op_workspace_reset(req: &Request) -> (j: Job)
    ensures
        is_workspace_reset(*req, j),
{
    match &req.path {
        None => refuse("missing 'path' field".to_owned()),
        Some(p) => match reset::validate_reset_path(p.as_str()) {
            Ok(_) => Job::WorkspaceReset { path: p.clone() },
            Err(e) => refuse(text::cat2("workspace_reset: ", e.as_str())),
        },
    }
}

/// Makes a checkpoint.
pub fn op_task_checkpoint(req: &Request) -> (j: Job)
    ensures
        is_task_checkpoint(*req, j),
{
    Job::TaskCheckpoint { config: Config::from_request(req), label: copy_opt(&req.name) }
}

/// Restores a checkpoint. Its id must be one that cannot lead elsewhere.
pub fn op_task_restore(req: &Request) -> (j: Job)
    ensures
        is_task_restore(*req, j),
{
    match &req.checkpoint_id {
        None => refuse("task_restore: missing 'checkpoint_id' field".to_owned()),
        Some(i) => {
            if checkpoint::valid_id(i.as_str()) {
                Job::TaskRestore { config: Config::from_request(req), id: i.clone() }
            } else {
                refuse(text::cat2("task_restore: invalid checkpoint id: ", i.as_str()))
            }
        },
    }
}

/// Removes scratch files.
pub fn op_fs_clean(req: &Request) -> (j: Job)
    ensures
        is_fs_clean(*req, j),
{
    match &req.globs {
        None => refuse("missing 'globs' field".to_owned()),
        Some(g) => Job::FsClean { globs: copy_strings(g) },
    }
}

/// What a request asks for.
pub fn dispatch(req: &Request) -> (j: Job)
    ensures
        is_job(*req, j),
{
    let op = req.op.as_str();
    if text::same(op, "ping") {
        Job::Answer(Response::Pong)
    } else if text::same(op, "exec") {
        op_exec(req)
    } else if text::same(op, "read_file") {
        op_read_file(req)
    } else if text::same(op, "write_file") {
        op_write_file(req)
    } else if text::same(op, "agent_status") {
        Job::AgentStatus
    } else if text::same(op, "agent_reap") {
        Job::AgentReap
    } else if text::same(op, "vm_stats") {
        Job::VmStats
    } else if text::same(op, "workspace_reset") {
        op_workspace_reset(req)
    } else if text::same(op, "task_checkpoint") {
        op_task_checkpoint(req)
    } else if text::same(op, "task_restore") {
        op_task_restore(req)
    } else if text::same(op, "fs_clean") {
        op_fs_clean(req)
    } else {
        refuse(text::cat2("unknown op: ", op))
    }
}

/// What to do about a line: `None` where it is blank.
pub fn handle_line(line: &str) -> (r: Option<Job>)
    ensures
        match r {
            None => text::trim(line@).len() == 0,
            Some(j) => {
                let said = text::trim(line@);
                said.len() > 0 && match json::fault_in(said) {
                    Some(e) => is_refusal(j, "invalid JSON: "@ + e),
                    None => exists|req: Request| is_request(req, said) && #[trigger] is_job(req, j),
                }
            },
        },
        r matches Some(j) ==> json::fault_in(text::trim(line@)) is None ==> request_laws::serves(
            text::trim(line@),
            j,
        ),
{
    let said = text::trimmed(line);
    if said.as_str().is_empty() {
        return None;
    }
    match json::fault(said.as_str()) {
        Some(e) => Some(refuse(text::cat2("invalid JSON: ", e.as_str()))),
        None => {
            let req = Request::read(said.as_str());
            let j = dispatch(&req);
            proof {
                assert(is_request(req, said@) && is_job(req, j));
                request_laws::law_lines_are_served(req, said@, j);
            }
            Some(j)
        },
    }
}

/// Nothing is deleted as a workspace that may not be, and no checkpoint is restored
/// whose id could lead elsewhere, whatever a request says.
pub proof fn law_unsafe_jobs_are_refused(req: Request, j: Job)
    requires
        is_job(req, j),
    ensures
        j matches Job::WorkspaceReset { path } ==> reset::path_fault(path@) is None,
        j matches Job::TaskRestore { id, .. } ==> checkpoint::is_valid_id(id@),
{
}

/// How a command ended and what it printed.
pub fn exec_response(o: &Outcome) -> (r: Response)
    ensures
        match *o {
            Outcome::Exited(out) => r matches Response::Exec { exit_code, stdout, stderr } && exit_code
                == out.code_or_minus_one() && stdout@ == text::utf8_lossy(out.stdout@) && stderr@
                == text::utf8_lossy(out.stderr@),
            Outcome::NotSpawned(why) => r matches Response::Exec { exit_code, stdout, stderr }
                && exit_code == -1 && stdout@.len() == 0 && stderr@ == "exec error: "@ + why@,
        },
{
    match o {
        Outcome::Exited(out) => Response::Exec {
            exit_code: match out.exit_code {
                Some(c) => c,
                None => -1,
            },
            stdout: text::from_utf8_lossy(&out.stdout),
            stderr: text::from_utf8_lossy(&out.stderr),
        },
        Outcome::NotSpawned(why) => Response::Exec {
            exit_code: -1,
            stdout: String::new(),
            stderr: text::cat2("exec error: ", why.as_str()),
        },
    }
}

/// The contents of a file, or why it could not be read.
pub fn read_file_response(contents: &Result<Vec<u8>, String>) -> (r: Response)
    requires
        contents matches Ok(b) ==> json::encodable(b@.len()),
    ensures
        match *contents {
            Ok(b) => r matches Response::Data(d) && d@ == json::base64_of(b@) && json::bytes_of(d@)
                == Ok::<Seq<u8>, Seq<char>>(b@),
            Err(e) => is_error(r, "read_file: "@ + e@),
        },
{
    match contents {
        Ok(b) => Response::Data(json::encode(b)),
        Err(e) => Response::Error(text::cat2("read_file: ", e.as_str())),
    }
}

/// Whether a file was written.
pub fn write_file_response(written: &Result<(), String>) -> (r: Response)
    ensures
        match *written {
            Ok(_) => r == Response::Done,
            Err(e) => is_error(r, "write_file: "@ + e@),
        },
{
    match written {
        Ok(_) => Response::Done,
        Err(e) => Response::Error(text::cat2("write_file: ", e.as_str())),
    }
}

/// What was read of one file and is sent back to be written to another gives that
/// other file the same contents.
pub proof fn law_read_then_write_copies(b: Seq<u8>, d: String, req: Request, j: Job)
    requires
        json::bytes_of(d@) == Ok::<Seq<u8>, Seq<char>>(b),
        req.op@ == "write_file"@,
        req.path is Some,
        req.data == Some(d),
        is_job(req, j),
    ensures
        j matches Job::WriteFile { path, data } && path@ == req.path->0@ && data@ == b,
{
    reveal_strlit("ping");
    reveal_strlit("exec");
    reveal_strlit("read_file");
    reveal_strlit("write_file");
    assert("write_file"@.len() != "ping"@.len());
    assert("write_file"@.len() != "exec"@.len());
    assert("write_file"@.len() != "read_file"@.len());
}

/// The answer about the agent. Where it does not run, its task and its memory are
/// not shown.
pub fn agent_response(
    pid: Option<u32>,
    task_id: &Option<String>,
    rss_kb: u64,
    stream_offset: u64,
    result_mtime: u64,
) -> (r: Response)
    ensures
        r matches Response::Agent(s) && s.pid == pid && s.stream_offset == stream_offset
            && s.result_mtime == result_mtime && match pid {
            Some(_) => json::opt(s.task_id) == task_in(json::opt(*task_id)) && s.rss_kb == rss_kb,
            None => s.task_id is None && s.rss_kb == 0,
        },
{
    let shown = match (pid, task_id) {
        (Some(_), Some(t)) => {
            let t = text::trimmed(t.as_str());
            if t.as_str().is_empty() {
                None
            } else {
                Some(t)
            }
        },
        _ => None,
    };
    Response::Agent(
        AgentStatus {
            pid,
            task_id: shown,
            rss_kb: match pid {
                Some(_) => rss_kb,
                None => 0,
            },
            stream_offset,
            result_mtime,
        },
    )
}

/// The task that a file names, where it names one.
pub open spec fn task_in(contents: Option<Seq<char>>) -> Option<Seq<char>> {
    match contents {
        Some(c) => if text::trim(c).len() > 0 {
            Some(text::trim(c))
        } else {
            None
        },
        None => None,
    }
}

/// Whether a checkpoint was made.
pub fn checkpoint_response(made: Result<String, String>) -> (r: Response)
    ensures
        match made {
            Ok(id) => r matches Response::Checkpoint(i) && i@ == id@,
            Err(e) => is_error(r, "task_checkpoint: "@ + e@),
        },
{
    match made {
        Ok(id) => Response::Checkpoint(id),
        Err(e) => Response::Error(text::cat2("task_checkpoint: ", e.as_str())),
    }
}

/// Which agents were ended; an error where the daemon does not know their program.
pub fn reap_response(killed: Option<Vec<u32>>) -> (r: Response)
    ensures
        match killed {
            Some(v) => r == Response::Reaped(v),
            None => is_error(r, "agent_reap: the agents' program is not known"@),
        },
{
    match killed {
        Some(v) => Response::Reaped(v),
        None => Response::Error("agent_reap: the agents' program is not known".to_owned()),
    }
}

/// Whether a checkpoint was restored.
pub fn restore_response(restored: Result<u64, String>) -> (r: Response)
    ensures
        match restored {
            Ok(n) => r == Response::Restored(n),
            Err(e) => is_error(r, "task_restore: "@ + e@),
        },
{
    match restored {
        Ok(n) => Response::Restored(n),
        Err(e) => Response::Error(text::cat2("task_restore: ", e.as_str())),
    }
}

/// Whether a workspace was reset.
pub fn reset_response(done: Result<u64, String>, duration_ms: u64) -> (r: Response)
    ensures
        match done {
            Ok(n) => r == (Response::Reset { removed_count: n, duration_ms }),
            Err(e) => is_error(r, "workspace_reset: "@ + e@),
        },
{
    match done {
        Ok(n) => Response::Reset { removed_count: n, duration_ms },
        Err(e) => Response::Error(text::cat2("workspace_reset: ", e.as_str())),
    }
}

} // verus!
