use claude_helper::{
    Agent, AgentCapability, AgentResult, AgentSpec, AutonomyMode, Config, ExecutionPhase,
    ExecutionPlan, Orchestrator,
};

struct MockWorker {
    id: String,
    agent_type: String,
    capability: AgentCapability,
    fails: bool,
    tokens: usize,
    history: Vec<String>,
}

impl MockWorker {
    fn new(id: &str, capability: AgentCapability, fails: bool, tokens: usize) -> Self {
        MockWorker {
            id: id.to_string(),
            agent_type: format!("type {}", id),
            capability,
            fails,
            tokens,
            history: Vec::new(),
        }
    }
}

impl Agent for MockWorker {
    fn id(&self) -> &str {
        &self.id
    }

    fn agent_type(&self) -> &str {
        &self.agent_type
    }

    fn capability(&self) -> &AgentCapability {
        &self.capability
    }

    fn execute(&mut self, task: &str) -> Result<AgentResult, String> {
        self.history.push(task.to_string());
        if self.fails {
            Err("worker error".to_string())
        } else {
            Ok(AgentResult {
                success: true,
                output: format!("done: {}", task),
                tokens_used: self.tokens,
                execution_time_ms: 3,
            })
        }
    }

    fn conversation_history(&self) -> Vec<String> {
        self.history.clone()
    }

    fn reset(&mut self) {
        self.history.clear();
    }
}

fn unit(id: &str, cap: AgentCapability) -> AgentSpec {
    AgentSpec {
        id: id.to_string(),
        agent_type: format!("type {}", id),
        capability: cap,
        task: format!("task {}", id),
        dependencies: vec![],
    }
}

fn phase(units: Vec<AgentSpec>, parallel: bool) -> ExecutionPhase {
    ExecutionPhase { description: "phase".to_string(), agents: units, parallel }
}

#[test]
fn runner_sums_tokens_and_counts_units() {
    let plan = ExecutionPlan {
        phases: vec![
            phase(vec![unit("A", AgentCapability::Architecture)], false),
            phase(vec![unit("B", AgentCapability::CodeWriting), unit("C", AgentCapability::Testing)], true),
        ],
    };
    let workers = vec![
        MockWorker::new("C", AgentCapability::Testing, false, 7),
        MockWorker::new("A", AgentCapability::Architecture, false, 100),
        MockWorker::new("B", AgentCapability::CodeWriting, true, 50),
    ];
    let orch = Orchestrator::new(Config::default(), AutonomyMode::Balanced);
    let result = orch.run_plan(plan, workers).into_result(42);
    assert!(!result.success);
    assert_eq!(result.agents_executed, 3);
    assert_eq!(result.tokens_used, 107);
    assert_eq!(result.execution_time_ms, 42);
    assert_eq!(result.errors, vec!["type B failed: worker error"]);
    assert!(result.warnings.is_empty());
}

#[test]
fn runner_stops_after_architecture_failure() {
    let plan = ExecutionPlan {
        phases: vec![
            phase(vec![unit("A", AgentCapability::Architecture), unit("B", AgentCapability::CodeWriting)], false),
            phase(vec![unit("C", AgentCapability::Testing)], false),
        ],
    };
    let workers = vec![
        MockWorker::new("A", AgentCapability::Architecture, true, 0),
        MockWorker::new("B", AgentCapability::CodeWriting, false, 5),
        MockWorker::new("C", AgentCapability::Testing, false, 5),
    ];
    let orch = Orchestrator::new(Config::default(), AutonomyMode::Trust);
    let result = orch.run_plan(plan, workers).into_result(0);
    assert!(!result.success);
    assert_eq!(result.agents_executed, 1);
    assert_eq!(result.tokens_used, 0);
    assert_eq!(
        result.errors,
        vec!["type A failed: worker error", "Critical failure in phase 1, stopping execution"]
    );
}

#[test]
fn runner_warns_on_missing_worker() {
    let plan = ExecutionPlan {
        phases: vec![phase(vec![unit("A", AgentCapability::CodeWriting), unit("Z", AgentCapability::Review)], true)],
    };
    let workers = vec![MockWorker::new("A", AgentCapability::CodeWriting, false, 9)];
    let orch = Orchestrator::new(Config::default(), AutonomyMode::Conservative);
    let result = orch.run_plan(plan, workers).into_result(0);
    assert!(result.success);
    assert_eq!(result.agents_executed, 1);
    assert_eq!(result.warnings, vec!["Agent Z not found"]);
}

#[test]
fn mock_worker_keeps_history() {
    let mut w = MockWorker::new("A", AgentCapability::Review, false, 1);
    assert_eq!(w.execute("look").unwrap().output, "done: look");
    assert_eq!(w.conversation_history(), vec!["look"]);
    assert_eq!(w.agent_type(), "type A");
    assert_eq!(*w.capability(), AgentCapability::Review);
    w.reset();
    assert!(w.conversation_history().is_empty());
}

#[test]
fn runner_with_no_workers_warns_once_per_unit() {
    let plan = ExecutionPlan {
        phases: vec![
            phase(vec![unit("A", AgentCapability::Architecture)], false),
            phase(vec![unit("B", AgentCapability::CodeWriting), unit("C", AgentCapability::Testing)], true),
        ],
    };
    let orch = Orchestrator::new(Config::default(), AutonomyMode::Interactive);
    let result = orch.run_plan(plan, Vec::<MockWorker>::new()).into_result(0);
    assert!(result.success);
    assert!(result.errors.is_empty());
    assert_eq!(result.agents_executed, 0);
    assert_eq!(result.warnings, vec!["Agent A not found", "Agent B not found", "Agent C not found"]);
}

#[test]
fn zero_permits_still_warn_for_missing_workers() {
    let plan = ExecutionPlan {
        phases: vec![phase(vec![unit("A", AgentCapability::CodeWriting), unit("B", AgentCapability::Testing)], true)],
    };
    let mut orch = Orchestrator::new(Config::default(), AutonomyMode::Trust);
    orch.set_max_parallel(0);
    let result = orch.run_plan(plan, Vec::<MockWorker>::new()).into_result(0);
    assert!(result.success);
    assert_eq!(result.agents_executed, 0);
    assert_eq!(result.warnings, vec!["Agent A not found", "Agent B not found"]);
}

#[test]
fn zero_permits_with_a_worker_stop_with_an_error() {
    let plan = ExecutionPlan {
        phases: vec![
            phase(vec![unit("Z", AgentCapability::CodeWriting), unit("A", AgentCapability::CodeWriting)], true),
            phase(vec![unit("B", AgentCapability::Testing)], false),
        ],
    };
    let workers = vec![
        MockWorker::new("A", AgentCapability::CodeWriting, false, 5),
        MockWorker::new("B", AgentCapability::Testing, false, 5),
    ];
    let mut orch = Orchestrator::new(Config::default(), AutonomyMode::Trust);
    orch.set_max_parallel(0);
    let result = orch.run_plan(plan, workers).into_result(0);
    assert!(!result.success);
    assert_eq!(result.agents_executed, 0);
    assert_eq!(result.warnings, vec!["Agent Z not found"]);
    assert_eq!(result.errors, vec!["No concurrency permit for phase 1, stopping execution"]);
}
