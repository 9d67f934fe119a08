//! What lines of JSON get done, by their members.
use crate::emberd::checkpoint;
use crate::emberd::checkpoint::Config;
use crate::emberd::json;
use crate::emberd::request;
use crate::emberd::request::{Job, Request, Response};
use crate::emberd::reset;
use crate::text;
use vstd::prelude::*;

verus! {

/// Whether a line has the member `op` with the given string.
pub open spec fn asks(line: Seq<char>, op: Seq<char>) -> bool {
    json::string_in(line, "op"@) == Some(op)
}

/// Whether the scratch patterns are those of a list: its strings, in order.
pub open spec fn are_strings_of(
    globs: Seq<Seq<char>>,
    list: Seq<Option<Seq<char>>>,
    places: Seq<int>,
) -> bool {
    &&& places.len() == globs.len()
    &&& forall|k: int|
        0 <= k < globs.len() ==> 0 <= #[trigger] places[k] < list.len() && list[places[k]] == Some(
            globs[k],
        )
    &&& forall|k: int, m: int| 0 <= k < m < places.len() ==> #[trigger] places[k] < #[trigger] places[m]
    &&& forall|i: int|
        0 <= i < list.len() && (#[trigger] list[i]) is Some ==> exists|k: int|
            0 <= k < places.len() && #[trigger] places[k] == i
}

/// Whether a list holds the strings of another one and nothing else, in its order.
pub open spec fn keeps_strings(kept: Seq<Seq<char>>, list: Seq<Option<Seq<char>>>) -> bool {
    exists|places: Seq<int>| are_strings_of(kept, list, places)
}

/// The strings of a list are kept, in order, and nothing else is.
pub proof fn law_strings_are_kept(list: Seq<Option<Seq<char>>>) -> (places: Seq<int>)
    ensures
        are_strings_of(json::present(list), list, places),
        keeps_strings(json::present(list), list),
    decreases list.len(),
{
    if list.len() == 0 {
        assert(are_strings_of(json::present(list), list, Seq::empty()));
        Seq::empty()
    } else {
        let d = list.drop_last();
        let n = d.len() as int;
        let before = law_strings_are_kept(d);
        let after = if list.last() is Some {
            before.push(n)
        } else {
            before
        };
        let kept = json::present(list);
        assert forall|k: int| 0 <= k < kept.len() implies 0 <= #[trigger] after[k] < list.len()
            && list[after[k]] == Some(kept[k]) by {
            if k < before.len() {
                assert(after[k] == before[k]);
                assert(list[before[k]] == d[before[k]]);
            }
        }
        assert forall|k: int, m: int| 0 <= k < m < after.len() implies #[trigger] after[k]
            < #[trigger] after[m] by {
            assert(after[k] == before[k]);
            assert(0 <= before[k] < n);
            if m < before.len() {
                assert(after[m] == before[m]);
            }
        }
        assert forall|i: int| 0 <= i < list.len() && (#[trigger] list[i]) is Some implies exists|
            k: int,
        | 0 <= k < after.len() && #[trigger] after[k] == i by {
            if i < n {
                assert(d[i] == list[i]);
                let k = choose|k: int| 0 <= k < before.len() && #[trigger] before[k] == i;
                assert(after[k] == i);
            } else {
                assert(after[after.len() - 1] == i);
            }
        }
        assert(are_strings_of(kept, list, after));
        after
    }
}

/// Whether a variable is set to a string by an object: it is one of its members, and
/// variables are in the order of the members.
pub open spec fn are_members_of(
    env: Seq<(Seq<char>, Seq<char>)>,
    object: Seq<(Seq<char>, Option<Seq<char>>)>,
    places: Seq<int>,
) -> bool {
    &&& places.len() == env.len()
    &&& forall|k: int|
        0 <= k < env.len() ==> 0 <= #[trigger] places[k] < object.len() && object[places[k]] == (
            env[k].0,
            Some(env[k].1),
        )
    &&& forall|k: int, m: int| 0 <= k < m < places.len() ==> #[trigger] places[k] < #[trigger] places[m]
    &&& forall|i: int|
        0 <= i < object.len() && (#[trigger] object[i]).1 is Some ==> exists|k: int|
            0 <= k < places.len() && #[trigger] places[k] == i
}

/// Whether variables are those of an object: its members that hold a string, in its
/// order.
pub open spec fn keeps_members(
    env: Seq<(Seq<char>, Seq<char>)>,
    object: Seq<(Seq<char>, Option<Seq<char>>)>,
) -> bool {
    exists|places: Seq<int>| are_members_of(env, object, places)
}

/// The members of an object that hold a string are kept, in order, and nothing else
/// is.
pub proof fn law_members_are_kept(object: Seq<(Seq<char>, Option<Seq<char>>)>) -> (places: Seq<int>)
    ensures
        are_members_of(json::string_members(object), object, places),
        keeps_members(json::string_members(object), object),
    decreases object.len(),
{
    if object.len() == 0 {
        assert(are_members_of(json::string_members(object), object, Seq::empty()));
        Seq::empty()
    } else {
        let d = object.drop_last();
        let n = d.len() as int;
        let before = law_members_are_kept(d);
        let after = if object.last().1 is Some {
            before.push(n)
        } else {
            before
        };
        let kept = json::string_members(object);
        assert forall|k: int| 0 <= k < kept.len() implies 0 <= #[trigger] after[k] < object.len()
            && object[after[k]] == (kept[k].0, Some(kept[k].1)) by {
            if k < before.len() {
                assert(after[k] == before[k]);
                assert(object[before[k]] == d[before[k]]);
            }
        }
        assert forall|k: int, m: int| 0 <= k < m < after.len() implies #[trigger] after[k]
            < #[trigger] after[m] by {
            assert(after[k] == before[k]);
            assert(0 <= before[k] < n);
            if m < before.len() {
                assert(after[m] == before[m]);
            }
        }
        assert forall|i: int| 0 <= i < object.len() && (#[trigger] object[i]).1 is Some implies exists|
            k: int,
        | 0 <= k < after.len() && #[trigger] after[k] == i by {
            if i < n {
                assert(d[i] == object[i]);
                let k = choose|k: int| 0 <= k < before.len() && #[trigger] before[k] == i;
                assert(after[k] == i);
            } else {
                assert(after[after.len() - 1] == i);
            }
        }
        assert(are_members_of(kept, object, after));
        after
    }
}

/// Whether a checkpoint is made or restored with what a line says: where the line has
/// a member for it that holds what it should, that, and the usual elsewhere.
pub open spec fn configured(c: Config, line: Seq<char>) -> bool {
    &&& match json::strings_in(line, "tmp_globs"@) {
        Some(list) => keeps_strings(text::views(c.tmp_globs@), list),
        None => text::views(c.tmp_globs@) == seq!["/tmp/thermite-*"@, "/tmp/agent-*"@],
    }
    &&& match json::string_in(line, "workspace"@) {
        Some(w) => c.workspace@ == w,
        None => c.workspace@ == "/home/ubuntu/workspace"@,
    }
    &&& match json::string_in(line, "checkpoint_root"@) {
        Some(r) => c.checkpoint_root@ == r,
        None => c.checkpoint_root@ == "/var/lib/emberd/checkpoints"@,
    }
    &&& match json::number_in(line, "quota_bytes"@) {
        Some(q) => c.quota_bytes == q,
        None => c.quota_bytes == 1_073_741_824,
    }
}

/// Whether a job is the one that a line asks for, by the members of the line.
pub open spec fn serves(line: Seq<char>, j: Job) -> bool {
    &&& asks(line, "ping"@) ==> j == Job::Answer(Response::Pong)
    &&& asks(line, "exec"@) ==> match json::string_in(line, "command"@) {
        Some(c) => j matches Job::Exec { command, env } && command@ == c && match json::members_in(
            line,
            "env"@,
        ) {
            Some(object) => keeps_members(json::pairs(env@), object),
            None => env@.len() == 0,
        },
        None => request::is_refusal(j, "missing 'command' field"@),
    }
    &&& asks(line, "read_file"@) ==> match json::string_in(line, "path"@) {
        Some(p) => j matches Job::ReadFile { path } && path@ == p,
        None => request::is_refusal(j, "missing 'path' field"@),
    }
    &&& asks(line, "write_file"@) ==> match (
        json::string_in(line, "path"@),
        json::string_in(line, "data"@),
    ) {
        (None, _) => request::is_refusal(j, "missing 'path' field"@),
        (Some(_), None) => request::is_refusal(j, "missing 'data' field"@),
        (Some(p), Some(d)) => match json::bytes_of(d) {
            Ok(b) => j matches Job::WriteFile { path, data } && path@ == p && data@ == b,
            Err(e) => request::is_refusal(j, "base64 decode: "@ + e),
        },
    }
    &&& asks(line, "agent_status"@) ==> j == Job::AgentStatus
    &&& asks(line, "agent_reap"@) ==> j == Job::AgentReap
    &&& asks(line, "vm_stats"@) ==> j == Job::VmStats
    &&& asks(line, "workspace_reset"@) ==> match json::string_in(line, "path"@) {
        Some(p) => match reset::path_fault(p) {
            None => j matches Job::WorkspaceReset { path } && path@ == p,
            Some(e) => request::is_refusal(j, "workspace_reset: "@ + e),
        },
        None => request::is_refusal(j, "missing 'path' field"@),
    }
    &&& asks(line, "task_checkpoint"@) ==> (j matches Job::TaskCheckpoint { config, label }
        && configured(config, line) && json::opt(label) == json::string_in(line, "name"@))
    &&& asks(line, "task_restore"@) ==> match json::string_in(line, "checkpoint_id"@) {
        Some(i) => if checkpoint::is_valid_id(i) {
            j matches Job::TaskRestore { config, id } && configured(config, line) && id@ == i
        } else {
            request::is_refusal(j, "task_restore: invalid checkpoint id: "@ + i)
        },
        None => request::is_refusal(j, "task_restore: missing 'checkpoint_id' field"@),
    }
    &&& asks(line, "fs_clean"@) ==> match json::strings_in(line, "globs"@) {
        Some(list) => j matches Job::FsClean { globs } && keeps_strings(text::views(globs@), list),
        None => request::is_refusal(j, "missing 'globs' field"@),
    }
}

/// A checkpoint or a restore goes by the line that asks for it: its scratch patterns
/// are exactly the strings in the line's list, its workspace, its place and its quota
/// are the line's, and the usual ones stand in only where the line has none.
pub proof fn law_checkpoints_go_by_the_line(req: Request, line: Seq<char>, c: Config)
    requires
        request::is_request(req, line),
        checkpoint::is_config(c, req),
    ensures
        configured(c, line),
{
    if let Some(list) = json::strings_in(line, "tmp_globs"@) {
        let _ = law_strings_are_kept(list);
    }
}

/// Every line gets what it asks for, by its own members.
pub proof fn law_lines_are_served(req: Request, line: Seq<char>, j: Job)
    requires
        request::is_request(req, line),
        request::is_job(req, j),
    ensures
        serves(line, j),
{
    reveal_strlit("ping");
    reveal_strlit("exec");
    reveal_strlit("read_file");
    reveal_strlit("write_file");
    reveal_strlit("agent_status");
    reveal_strlit("agent_reap");
    reveal_strlit("vm_stats");
    reveal_strlit("workspace_reset");
    reveal_strlit("task_checkpoint");
    reveal_strlit("task_restore");
    reveal_strlit("fs_clean");
    assert("ping"@.len() == 4 && "exec"@.len() == 4 && "read_file"@.len() == 9);
    assert("write_file"@.len() == 10 && "agent_status"@.len() == 12);
    assert("agent_reap"@.len() == 10 && "vm_stats"@.len() == 8);
    assert("workspace_reset"@.len() == 15 && "task_checkpoint"@.len() == 15);
    assert("task_restore"@.len() == 12 && "fs_clean"@.len() == 8 && "ping"@[0] == 'p');
    assert("exec"@[0] == 'e' && "write_file"@[0] == 'w' && "agent_reap"@[0] == 'a');
    assert("agent_status"@[0] == 'a' && "task_restore"@[0] == 't' && "vm_stats"@[0] == 'v');
    assert("fs_clean"@[0] == 'f' && "workspace_reset"@[0] == 'w');
    assert("task_checkpoint"@[0] == 't');
    match j {
        Job::Exec { env, .. } => {
            assert(json::pairs(env@).len() == env@.len());
            if let Some(object) = json::members_in(line, "env"@) {
                let _ = law_members_are_kept(object);
            }
        },
        Job::TaskCheckpoint { config, .. } => {
            law_checkpoints_go_by_the_line(req, line, config);
        },
        Job::TaskRestore { config, .. } => {
            law_checkpoints_go_by_the_line(req, line, config);
        },
        Job::FsClean { .. } => {
            if let Some(list) = json::strings_in(line, "globs"@) {
                let _ = law_strings_are_kept(list);
            }
        },
        _ => {},
    }
}

/// A line that asks for nothing known is refused, and the refusal names what it asked
/// for.
pub proof fn law_unknown_lines_are_refused(req: Request, line: Seq<char>, j: Job)
    requires
        request::is_request(req, line),
        request::is_job(req, j),
        !asks(line, "ping"@),
        !asks(line, "exec"@),
        !asks(line, "read_file"@),
        !asks(line, "write_file"@),
        !asks(line, "agent_status"@),
        !asks(line, "agent_reap"@),
        !asks(line, "vm_stats"@),
        !asks(line, "workspace_reset"@),
        !asks(line, "task_checkpoint"@),
        !asks(line, "task_restore"@),
        !asks(line, "fs_clean"@),
    ensures
        request::is_refusal(
            j,
            "unknown op: "@ + (match json::string_in(line, "op"@) {
                Some(op) => op,
                None => Seq::empty(),
            }),
        ),
{
    reveal_strlit("ping");
    reveal_strlit("exec");
    reveal_strlit("read_file");
    reveal_strlit("write_file");
    reveal_strlit("agent_status");
    reveal_strlit("agent_reap");
    reveal_strlit("vm_stats");
    reveal_strlit("workspace_reset");
    reveal_strlit("task_checkpoint");
    reveal_strlit("task_restore");
    reveal_strlit("fs_clean");
    assert("ping"@.len() == 4 && "exec"@.len() == 4 && "read_file"@.len() == 9);
    assert("write_file"@.len() == 10 && "agent_status"@.len() == 12);
    assert("agent_reap"@.len() == 10 && "vm_stats"@.len() == 8);
    assert("workspace_reset"@.len() == 15 && "task_checkpoint"@.len() == 15);
    assert("task_restore"@.len() == 12 && "fs_clean"@.len() == 8 && "ping"@[0] == 'p');
    assert("exec"@[0] == 'e' && "write_file"@[0] == 'w' && "agent_reap"@[0] == 'a');
    assert("agent_status"@[0] == 'a' && "task_restore"@[0] == 't' && "vm_stats"@[0] == 'v');
    assert("fs_clean"@[0] == 'f' && "workspace_reset"@[0] == 'w');
    assert("task_checkpoint"@[0] == 't');
}

} // verus!
