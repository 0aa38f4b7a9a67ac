//! Tools the backend may invoke, as a closed set of variants, and the queue of validated
//! invocations awaiting approval or execution.
use crate::fs_write::FsWrite;
use crate::message::views_of;
use vstd::prelude::*;

verus! {

/// A tool invocation with validated, typed arguments.
#[derive(Debug, Clone)]
pub enum Tool {
    FsWrite(FsWrite),
    ExecuteCommand { command: String, summary: Option<String> },
    /// A tool discovered at run time from an MCP server; its arguments are JSON text.
    Custom { server_name: String, tool_name: String, args: String },
}

/// Outcome of evaluating a tool invocation against the active agent's permissions.
#[derive(Debug, Clone, Copy, PartialEq, Eq, Structural)]
pub enum PermissionEvalResult {
    Allow,
    Ask,
    Deny,
}

/// A validated invocation waiting for approval or execution.
#[derive(Debug, Clone)]
pub struct QueuedTool {
    pub id: String,
    pub name: String,
    pub tool: Tool,
    pub accepted: bool,
}

/// The ids of queued invocations.
pub open spec fn queued_ids(v: Seq<QueuedTool>) -> Seq<Seq<char>> {
    v.map_values(|t: QueuedTool| t.id@)
}

/// The ids of queued invocations, in order.
pub fn ids_of_queued(v: &Vec<QueuedTool>) -> (r: Vec<String>)
    ensures
        views_of(r@) == queued_ids(v@),
{
    let mut r: Vec<String> = Vec::new();
    let mut i: usize = 0;
    while i < v.len()
        invariant
            i <= v.len(),
            r@.len() == i,
            forall|j: int| 0 <= j < i ==> (#[trigger] r@[j])@ == v@[j].id@,
        decreases v.len() - i,
    {
        r.push(v[i].id.clone());
        i = i + 1;
    }
    assert(views_of(r@) =~= queued_ids(v@));
    r
}

} // verus!
