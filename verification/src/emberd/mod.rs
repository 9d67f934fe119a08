//! The daemon inside a VM: what it is asked, and what it does and answers.
pub mod answer;
pub mod checkpoint;
pub mod checkpoint_laws;
pub mod guest_laws;
pub mod json;
pub mod processes;
pub mod request;
pub mod request_laws;
pub mod reset;
pub mod stats;
pub mod tree;

use vstd::prelude::*;

verus! {

/// Port that the daemon listens on.
pub const DEFAULT_PORT: u32 = 1024;

/// The file that names the task of the agent.
pub const TASK_ID_FILE: &'static str = "/tmp/thermite-task-id";

/// The stream that the agent writes.
pub const STREAM_FILE: &'static str = "/tmp/agent-output.jsonl";

/// The result that the agent leaves.
pub const RESULT_FILE: &'static str = "/tmp/thermite-result.json";

} // verus!
