use claude_helper::{
    AgentCapability, AgentFactory, AgentResult, AgentSpec, AutonomyMode, Config, EngineAction,
    ExecutionPhase, ExecutionPlan, ExecutionResult, Orchestrator, PlanRun, TaskAnalysis, TaskPlanner,
};

fn unit(id: &str, cap: AgentCapability) -> AgentSpec {
    AgentSpec {
        id: id.to_string(),
        agent_type: format!("type {}", id),
        capability: cap,
        task: format!("task {}", id),
        dependencies: vec![],
    }
}

fn phase(units: Vec<AgentSpec>, parallel: bool) -> ExecutionPhase {
    ExecutionPhase { description: "phase".to_string(), agents: units, parallel }
}

fn ok(tokens: usize) -> Result<AgentResult, String> {
    Ok(AgentResult { success: true, output: String::new(), tokens_used: tokens, execution_time_ms: 1 })
}

fn pool(ids: &[&str]) -> Vec<String> {
    ids.iter().map(|s| s.to_string()).collect()
}

/// Drives a run to its end. Units finish in dispatch order; `fail` names units
/// whose worker fails; `answer` answers approval requests. Returns the result,
/// the approval requests seen, the dispatched ids and the largest in-flight count.
fn drive(
    mut run: PlanRun,
    fail: &[&str],
    answer: bool,
) -> (ExecutionResult, Vec<usize>, Vec<String>, usize) {
    let mut pending: Vec<(usize, String)> = Vec::new();
    let mut asked = Vec::new();
    let mut dispatched = Vec::new();
    let mut peak = 0;
    loop {
        match run.next_action() {
            EngineAction::Finished => break,
            EngineAction::RequestApproval { phase } => {
                asked.push(phase);
                run.approve(answer);
            }
            EngineAction::Dispatch { phase, spec, .. } => {
                let id = run.plan().phases[phase].agents[spec].id.clone();
                dispatched.push(id.clone());
                pending.push((spec, id));
                peak = peak.max(run.in_flight());
            }
            EngineAction::AwaitCompletion => {
                assert!(!pending.is_empty());
                let (spec, id) = pending.remove(0);
                let outcome = if fail.contains(&id.as_str()) { Err("boom".to_string()) } else { ok(10) };
                assert!(run.complete(spec, outcome));
            }
            EngineAction::Advanced => {}
        }
    }
    (run.into_result(0), asked, dispatched, peak)
}

#[test]
fn parallel_phase_never_exceeds_permits() {
    let plan = ExecutionPlan {
        phases: vec![phase(
            vec![
                unit("a", AgentCapability::CodeWriting),
                unit("b", AgentCapability::CodeWriting),
                unit("c", AgentCapability::Testing),
                unit("d", AgentCapability::Security),
                unit("e", AgentCapability::Documentation),
            ],
            true,
        )],
    };
    let mut orch = Orchestrator::new(Config::default(), AutonomyMode::Trust);
    orch.set_max_parallel(2);
    let run = orch.start(plan, pool(&["a", "b", "c", "d", "e"]));
    let (result, asked, dispatched, peak) = drive(run, &["c"], true);
    assert_eq!(peak, 2);
    assert!(asked.is_empty());
    assert_eq!(dispatched, vec!["a", "b", "c", "d", "e"]);
    assert_eq!(result.agents_executed, 5);
    assert_eq!(result.tokens_used, 40);
    assert_eq!(result.errors, vec!["type c failed: boom"]);
    assert!(!result.success);
}

#[test]
fn architecture_failure_in_sequential_phase_stops_the_plan() {
    let plan = ExecutionPlan {
        phases: vec![
            phase(vec![unit("A", AgentCapability::Architecture), unit("B", AgentCapability::CodeWriting)], false),
            phase(vec![unit("C", AgentCapability::Testing)], false),
        ],
    };
    let orch = Orchestrator::new(Config::default(), AutonomyMode::Trust);
    let run = orch.start(plan, pool(&["A", "B", "C"]));
    let (result, _, dispatched, peak) = drive(run, &["A"], true);
    assert_eq!(dispatched, vec!["A"]);
    assert_eq!(peak, 1);
    assert!(!result.success);
    assert_eq!(result.agents_executed, 1);
    assert_eq!(
        result.errors,
        vec!["type A failed: boom", "Critical failure in phase 1, stopping execution"]
    );
}

#[test]
fn failure_in_parallel_phase_is_not_critical() {
    let plan = ExecutionPlan {
        phases: vec![
            phase(vec![unit("A", AgentCapability::Architecture), unit("B", AgentCapability::Architecture)], true),
            phase(vec![unit("C", AgentCapability::Testing)], false),
        ],
    };
    let orch = Orchestrator::new(Config::default(), AutonomyMode::Trust);
    let (result, _, dispatched, _) = drive(orch.start(plan, pool(&["A", "B", "C"])), &["A"], true);
    assert_eq!(dispatched, vec!["A", "B", "C"]);
    assert_eq!(result.errors, vec!["type A failed: boom"]);
    assert_eq!(result.agents_executed, 3);
}

#[test]
fn missing_worker_is_a_warning() {
    let plan = ExecutionPlan {
        phases: vec![phase(vec![unit("A", AgentCapability::CodeWriting), unit("B", AgentCapability::Testing)], false)],
    };
    let orch = Orchestrator::new(Config::default(), AutonomyMode::Trust);
    let (result, _, dispatched, _) = drive(orch.start(plan, pool(&["A"])), &[], true);
    assert_eq!(dispatched, vec!["A"]);
    assert!(result.success);
    assert_eq!(result.agents_executed, 1);
    assert_eq!(result.tokens_used, 10);
    assert_eq!(result.warnings, vec!["Agent B not found"]);
}

#[test]
fn balanced_mode_asks_first_and_last() {
    let plan = ExecutionPlan {
        phases: vec![
            phase(vec![unit("A", AgentCapability::Architecture)], false),
            phase(vec![unit("B", AgentCapability::CodeWriting)], false),
            phase(vec![unit("C", AgentCapability::Testing)], false),
        ],
    };
    let orch = Orchestrator::new(Config::default(), AutonomyMode::Balanced);
    let (result, asked, dispatched, _) = drive(orch.start(plan.clone(), pool(&["A", "B", "C"])), &[], true);
    assert_eq!(asked, vec![0, 2]);
    assert_eq!(dispatched, vec!["A", "B", "C"]);
    assert!(result.success);
    let (result, asked, dispatched, _) = drive(orch.start(plan, pool(&["A", "B", "C"])), &[], false);
    assert_eq!(asked, vec![0, 2]);
    assert_eq!(dispatched, vec!["B"]);
    assert!(result.success);
    assert_eq!(result.warnings, vec!["Phase 1 skipped by user", "Phase 3 skipped by user"]);
}

#[test]
fn approval_gate_by_mode() {
    let cfg = Config::default();
    let trust = Orchestrator::new(cfg.clone(), AutonomyMode::Trust);
    let cons = Orchestrator::new(cfg.clone(), AutonomyMode::Conservative);
    let inter = Orchestrator::new(cfg.clone(), AutonomyMode::Interactive);
    let bal = Orchestrator::new(cfg, AutonomyMode::Balanced);
    assert!(!trust.needs_approval_for_phase(0, 3));
    assert!(cons.needs_approval_for_phase(1, 3));
    assert!(inter.needs_approval_for_phase(1, 3));
    assert!(bal.needs_approval_for_phase(0, 3));
    assert!(!bal.needs_approval_for_phase(1, 3));
    assert!(bal.needs_approval_for_phase(2, 3));
    assert_eq!(bal.max_parallel, 5);
}

#[test]
fn complete_of_unknown_unit_is_refused() {
    let plan = ExecutionPlan { phases: vec![phase(vec![unit("A", AgentCapability::CodeWriting)], false)] };
    let orch = Orchestrator::new(Config::default(), AutonomyMode::Trust);
    let mut run = orch.start(plan, pool(&["A"]));
    assert!(!run.complete(0, ok(5)));
    assert_eq!(run.next_action(), EngineAction::Advanced);
    assert_eq!(run.next_action(), EngineAction::Dispatch { phase: 0, spec: 0, worker: 0 });
    assert_eq!(run.next_action(), EngineAction::AwaitCompletion);
    assert!(run.complete(0, ok(5)));
    assert!(!run.complete(0, ok(5)));
    assert_eq!(run.next_action(), EngineAction::Advanced);
    assert_eq!(run.next_action(), EngineAction::Finished);
    let r = run.into_result(7);
    assert_eq!((r.tokens_used, r.agents_executed, r.execution_time_ms), (5, 1, 7));
}

#[test]
fn plan_agents_assigns_ids_and_dependencies() {
    let planner = TaskPlanner::new(Config::default());
    let analysis = TaskAnalysis {
        task_description: "t".to_string(),
        complexity: 8,
        estimated_files: 12,
        estimated_tokens: 0,
        estimated_time_min: 15,
        estimated_time_max: 30,
        required_capabilities: vec![
            AgentCapability::Architecture,
            AgentCapability::CodeWriting,
            AgentCapability::Security,
            AgentCapability::Testing,
            AgentCapability::Documentation,
            AgentCapability::Migration,
            AgentCapability::Review,
        ],
        keywords: vec![],
    };
    let specs = planner.plan_agents(&analysis, 5);
    let ids: Vec<&str> = specs.iter().map(|s| s.id.as_str()).collect();
    assert_eq!(
        ids,
        vec!["architect-0", "coder-0", "coder-1", "coder-2", "coder-3", "security-0", "tester-0", "docs-0", "migration-0"]
    );
    assert_eq!(specs[1].dependencies, vec!["architect-0"]);
    assert_eq!(specs[4].agent_type, "Code Writer Delta-1");
    assert_eq!(specs[2].task, "Implement code changes (Part 2)");
    assert_eq!(specs[5].dependencies, vec!["coder-0", "coder-1", "coder-2", "coder-3"]);
    assert_eq!(specs[7].dependencies.len(), 7);
    assert!(specs[8].dependencies.is_empty());
    let plan = planner.create_plan(&analysis, 5);
    assert_eq!(plan.total_agents(), 9);
    assert_eq!(plan.phases.len(), 4);
    assert!(plan.phases[0].parallel);
    assert_eq!(plan.phases[0].agents.len(), 2);
}

#[test]
fn simple_task_gets_one_writer() {
    let planner = TaskPlanner::new(Config::default());
    let analysis = planner.analyze("write code");
    let specs = planner.plan_agents(&analysis, 5);
    assert_eq!(specs.len(), 1);
    assert_eq!(specs[0].id, "coder-0");
    assert_eq!(specs[0].agent_type, "Code Writer Alpha");
    assert_eq!(specs[0].task, "Implement code changes");
}

#[test]
fn system_prompt_names_role() {
    let factory = AgentFactory::new(Config::default());
    let prompt = factory.generate_system_prompt("Test Engineer", &AgentCapability::Testing);
    assert!(prompt.starts_with(
        "You are Test Engineer, a specialized AI agent with expertise in comprehensive testing and quality assurance.\n\nYour role is to write comprehensive tests. Focus on:\n- Unit tests"
    ));
    assert!(prompt.ends_with("catch potential bugs."));
}
