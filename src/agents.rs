use vstd::prelude::*;
use crate::capabilities::AgentCapability;

verus! {

/// What a worker reports after running a task.
#[derive(Clone, Debug)]
pub struct AgentResult {
    pub success: bool,
    pub output: String,
    pub tokens_used: usize,
    pub execution_time_ms: u64,
}

/// A worker that runs the task of one work unit.
pub trait Agent {
    /// The id of the work unit this worker serves.
    fn id(&self) -> &str;

    /// Display name, such as "Security Auditor".
    fn agent_type(&self) -> &str;

    fn capability(&self) -> &AgentCapability;

    /// Runs a task; a failure is reported as an error message.
    fn execute(&mut self, task: &str) -> Result<AgentResult, String>;

    /// The exchanges so far, for workers that keep them.
    fn conversation_history(&self) -> Vec<String>;

    /// Forgets any state kept between tasks.
    fn reset(&mut self);
}

} // verus!
