//! The bodies of the orchestrator's HTTP requests and replies that concern the
//! queue.

use vstd::prelude::*;

verus! {

/// Request to kill the running action: the id the caller believes is running,
/// and whether the action should stay in the queue afterwards.
pub struct KillRunningActionArgs {
    pub action_id: u32,
    pub keep_in_queue: bool,
}

/// Whether the running action could be killed.
pub struct KillRunningActionResponse {
    pub success: bool,
}

} // verus!
