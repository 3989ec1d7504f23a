use vstd::prelude::*;
use vstd::string::*;
use crate::agents::{Agent, AgentResult};
use crate::autonomy::AutonomyMode;
use crate::capabilities::AgentCapability;
use crate::config::Config;
use crate::plan::{ExecutionPlan, PhaseView, strings_view};
use crate::text::{decimal, push_decimal};

verus! {

/// Whether the approval gate asks before phase `k` of `total` phases.
pub open spec fn needs_approval(mode: AutonomyMode, k: nat, total: nat) -> bool {
    match mode {
        AutonomyMode::Trust => false,
        AutonomyMode::Interactive => true,
        AutonomyMode::Balanced => k == 0 || k + 1 == total,
        AutonomyMode::Conservative => true,
    }
}

/// Whether the approval gate asks before phase `k` of `total` phases.
fn approval_needed(mode: AutonomyMode, k: usize, total: usize) -> (r: bool)
    ensures
        r == needs_approval(mode, k as nat, total as nat),
{
    match mode {
        AutonomyMode::Trust => false,
        AutonomyMode::Interactive => true,
        AutonomyMode::Balanced => k == 0 || (total > 0 && k == total - 1),
        AutonomyMode::Conservative => true,
    }
}

/// `prefix`, the number `k + 1`, then `suffix`.
fn numbered_message(prefix: &str, k: usize, suffix: &str) -> (r: String)
    requires
        k < usize::MAX,
    ensures
        r@ == prefix@ + decimal(k as nat + 1) + suffix@,
{
    let mut s = String::from_str(prefix);
    push_decimal(&mut s, k + 1);
    s.append(suffix);
    s
}

fn not_found_message(id: &String) -> (r: String)
    ensures
        r@ == not_found_warning(id@),
{
    let mut s = String::from_str("Agent ");
    s.append(id.as_str());
    s.append(" not found");
    s
}

fn failure_message(agent_type: &String, message: &String) -> (r: String)
    ensures
        r@ == failure_error(agent_type@, message@),
{
    let mut s = agent_type.clone();
    s.append(" failed: ");
    s.append(message.as_str());
    s
}

/// Runs plans: holds the autonomy mode and the concurrency bound.
pub struct Orchestrator {
    pub config: Config,
    pub mode: AutonomyMode,
    pub max_parallel: usize,
}

impl Orchestrator {
    /// The concurrency bound starts at the configured `max_parallel_agents`.
    pub fn new(config: Config, mode: AutonomyMode) -> (r: Orchestrator)
        ensures
            r.mode == mode,
            r.max_parallel == config.master_coder.max_parallel_agents,
            r.config == config,
    {
        let max_parallel = config.master_coder.max_parallel_agents;
        Orchestrator { config, mode, max_parallel }
    }

    pub fn set_max_parallel(&mut self, max: usize)
        ensures
            final(self).max_parallel == max,
            final(self).mode == old(self).mode,
            final(self).config == old(self).config,
    {
        self.max_parallel = max;
    }

    /// A run of `plan` on the workers `pool` (by id), with this orchestrator's
    /// mode and concurrency bound.
    pub fn start(&self, plan: ExecutionPlan, pool: Vec<String>) -> (r: PlanRun)
        ensures
            r.wf(),
            r@ == initial_run(plan@, self.mode, self.max_parallel as nat, strings_view(pool@)),
    {
        PlanRun::new(plan, pool, self.mode, self.max_parallel)
    }

    /// Runs `plan` on `agents` without asking anyone (see [`PlanRun::run_with`]):
    /// the pool is the workers' ids, in order. The finished run is handed back;
    /// the caller measures the time and takes the result with `into_result`.
    pub fn run_plan<A: Agent>(&self, plan: ExecutionPlan, agents: Vec<A>) -> (r: PlanRun)
        ensures
            r.wf(),
            r@.phases == plan@,
            exists|pool: Seq<Seq<char>>|
                pool.len() == agents@.len() && runner_reaches(
                    #[trigger] initial_run(plan@, self.mode, self.max_parallel as nat, pool),
                    r@,
                ),
            r@.stopped ==> r@.errors.len() > 0,
            r@.running.len() == 0,
            r@.agents_executed + r@.pool.len() == agents@.len(),
            next_step(r@).1 == EngineAction::Finished,
    {
        let mut agents = agents;
        let mut pool: Vec<String> = Vec::new();
        let mut i: usize = 0;
        while i < agents.len()
            invariant
                i <= agents@.len(),
                pool@.len() == i,
            decreases agents@.len() - i,
        {
            pool.push(String::from_str(agents[i].id()));
            i = i + 1;
        }
        let mut run = self.start(plan, pool);
        run.run_with(&mut agents);
        run
    }

    /// Whether to ask for approval before phase `phase_num` of `total_phases`.
    pub fn needs_approval_for_phase(&self, phase_num: usize, total_phases: usize) -> (r: bool)
        ensures
            r == needs_approval(self.mode, phase_num as nat, total_phases as nat),
    {
        approval_needed(self.mode, phase_num, total_phases)
    }
}


/// Where the current phase stands.
#[derive(Clone, Copy, Debug, PartialEq, Eq, Structural)]
pub enum Stage {
    /// The approval gate of the phase is still to be passed.
    Gate,
    /// Approval was requested and not yet answered.
    AwaitingApproval,
    /// The phase's units are being dispatched.
    Running,
}

/// What the driver of a run does next.
#[derive(Clone, Copy, Debug, PartialEq, Eq, Structural)]
pub enum EngineAction {
    /// The run is over.
    Finished,
    /// Ask whether phase `phase` may run, and answer with `approve`.
    RequestApproval { phase: usize },
    /// Remove worker `worker` from the pool, run unit `spec` of phase `phase` on it,
    /// and report the outcome with `complete`.
    Dispatch { phase: usize, spec: usize, worker: usize },
    /// Wait until some dispatched unit finishes and report it with `complete`.
    AwaitCompletion,
    /// The run moved on by itself; ask again.
    Advanced,
}

/// The mathematical state of a [`PlanRun`].
pub struct RunView {
    pub phases: Seq<PhaseView>,
    pub mode: AutonomyMode,
    pub max_parallel: nat,
    /// Ids of the workers not yet used, in pool order.
    pub pool: Seq<Seq<char>>,
    /// The current phase.
    pub phase: nat,
    pub stage: Stage,
    /// The next unit of the current phase to dispatch.
    pub cursor: nat,
    /// The units of the current phase dispatched and not yet finished.
    pub running: Seq<usize>,
    /// An architecture unit failed in this sequential phase.
    pub critical: bool,
    /// The run was stopped by a critical failure.
    pub stopped: bool,
    pub tokens_used: nat,
    pub agents_executed: nat,
    pub errors: Seq<Seq<char>>,
    pub warnings: Seq<Seq<char>>,
}

/// The result of running a plan.
#[derive(Clone, Debug)]
pub struct ExecutionResult {
    /// No error was recorded.
    pub success: bool,
    /// Units that were found a worker and finished, whether they succeeded or not.
    pub agents_executed: usize,
    pub tokens_used: usize,
    pub execution_time_ms: u64,
    pub errors: Vec<String>,
    pub warnings: Vec<String>,
}

pub open spec fn not_found_warning(id: Seq<char>) -> Seq<char> {
    "Agent "@ + id + " not found"@
}

pub open spec fn skipped_warning(k: nat) -> Seq<char> {
    "Phase "@ + decimal(k + 1) + " skipped by user"@
}

pub open spec fn failure_error(agent_type: Seq<char>, message: Seq<char>) -> Seq<char> {
    agent_type + " failed: "@ + message
}

pub open spec fn no_permit_error(k: nat) -> Seq<char> {
    "No concurrency permit for phase "@ + decimal(k + 1) + ", stopping execution"@
}

pub open spec fn critical_error(k: nat) -> Seq<char> {
    "Critical failure in phase "@ + decimal(k + 1) + ", stopping execution"@
}

/// The position of the first `x` in `s`.
pub open spec fn first_index(s: Seq<Seq<char>>, x: Seq<char>) -> int {
    choose|i: int| 0 <= i < s.len() && s[i] == x && forall|j: int| 0 <= j < i ==> s[j] != x
}

/// How many units of the current phase may run at once.
pub open spec fn permits(v: RunView) -> nat {
    if v.phases[v.phase as int].parallel { v.max_parallel } else { 1 }
}

/// The state is consistent.
pub open spec fn run_wf(v: RunView) -> bool {
    &&& v.phase <= v.phases.len()
    &&& v.phases.len() <= usize::MAX
    &&& v.stage != Stage::Gate ==> v.phase < v.phases.len()
    &&& v.stage == Stage::Running ==> v.cursor <= v.phases[v.phase as int].agents.len()
    &&& v.running.len() > 0 ==> v.stage == Stage::Running && !v.stopped
    &&& v.critical ==> v.stage == Stage::Running && v.cursor == v.phases[v.phase as int].agents.len()
    &&& forall|i: int| 0 <= i < v.running.len() ==> v.running[i] < v.cursor
    &&& v.running.no_duplicates()
    &&& v.stage == Stage::Running ==> v.running.len() <= permits(v)
    &&& v.agents_executed + v.running.len() + v.pool.len() <= usize::MAX
    &&& v.tokens_used <= usize::MAX
    &&& v.stopped ==> v.errors.len() > 0
}

/// The next action and state of a run.
pub open spec fn next_step(o: RunView) -> (RunView, EngineAction) {
    if o.stopped || o.phase >= o.phases.len() {
        (o, EngineAction::Finished)
    } else if o.stage == Stage::Gate {
        if needs_approval(o.mode, o.phase, o.phases.len()) {
            (
                RunView { stage: Stage::AwaitingApproval, ..o },
                EngineAction::RequestApproval { phase: o.phase as usize },
            )
        } else {
            (RunView { stage: Stage::Running, cursor: 0, ..o }, EngineAction::Advanced)
        }
    } else if o.stage == Stage::AwaitingApproval {
        (o, EngineAction::RequestApproval { phase: o.phase as usize })
    } else {
        let agents = o.phases[o.phase as int].agents;
        if o.cursor < agents.len() {
            let id = agents[o.cursor as int].id;
            if !o.pool.contains(id) {
                (
                    RunView {
                        cursor: o.cursor + 1,
                        warnings: o.warnings.push(not_found_warning(id)),
                        ..o
                    },
                    EngineAction::Advanced,
                )
            } else if o.running.len() >= permits(o) {
                if o.running.len() == 0 {
                    (
                        RunView { stopped: true, errors: o.errors.push(no_permit_error(o.phase)), ..o },
                        EngineAction::Advanced,
                    )
                } else {
                    (o, EngineAction::AwaitCompletion)
                }
            } else {
                let w = first_index(o.pool, id);
                (
                    RunView {
                        pool: o.pool.remove(w),
                        running: o.running.push(o.cursor as usize),
                        cursor: o.cursor + 1,
                        ..o
                    },
                    EngineAction::Dispatch {
                        phase: o.phase as usize,
                        spec: o.cursor as usize,
                        worker: w as usize,
                    },
                )
            }
        } else if o.running.len() > 0 {
            (o, EngineAction::AwaitCompletion)
        } else if o.critical {
            (
                RunView { stopped: true, errors: o.errors.push(critical_error(o.phase)), ..o },
                EngineAction::Advanced,
            )
        } else {
            (RunView { phase: o.phase + 1, stage: Stage::Gate, cursor: 0, ..o }, EngineAction::Advanced)
        }
    }
}

/// The state after the answer `yes` to an approval request.
pub open spec fn approve_step(o: RunView, yes: bool) -> RunView {
    if o.stopped || o.phase >= o.phases.len() || o.stage != Stage::AwaitingApproval {
        o
    } else if yes {
        RunView { stage: Stage::Running, cursor: 0, ..o }
    } else {
        RunView {
            phase: o.phase + 1,
            stage: Stage::Gate,
            warnings: o.warnings.push(skipped_warning(o.phase)),
            ..o
        }
    }
}

/// The tokens a worker reported, or its error message.
pub open spec fn outcome_view(outcome: Result<AgentResult, String>) -> Result<nat, Seq<char>> {
    match outcome {
        Ok(r) => Ok(r.tokens_used as nat),
        Err(m) => Err(m@),
    }
}

/// The state after unit `spec` of the current phase finished with `outcome`
/// (unchanged if that unit is not running).
pub open spec fn complete_step(o: RunView, spec: usize, outcome: Result<nat, Seq<char>>) -> RunView {
    if !o.running.contains(spec) {
        o
    } else {
        let k = o.running.index_of(spec);
        let unit = o.phases[o.phase as int].agents[spec as int];
        let base = RunView {
            running: o.running.remove(k),
            agents_executed: o.agents_executed + 1,
            ..o
        };
        match outcome {
            Ok(t) => RunView {
                tokens_used: if o.tokens_used + t > usize::MAX { usize::MAX as nat } else { o.tokens_used + t },
                ..base
            },
            Err(m) => {
                let errors = o.errors.push(failure_error(unit.agent_type, m));
                if !o.phases[o.phase as int].parallel && unit.capability == AgentCapability::Architecture {
                    RunView {
                        errors,
                        critical: true,
                        cursor: o.phases[o.phase as int].agents.len(),
                        ..base
                    }
                } else {
                    RunView { errors, ..base }
                }
            },
        }
    }
}



/// A run that has not started.
pub open spec fn initial_run(
    phases: Seq<PhaseView>,
    mode: AutonomyMode,
    max_parallel: nat,
    pool: Seq<Seq<char>>,
) -> RunView {
    RunView {
        phases,
        mode,
        max_parallel,
        pool,
        phase: 0,
        stage: Stage::Gate,
        cursor: 0,
        running: Seq::empty(),
        critical: false,
        stopped: false,
        tokens_used: 0,
        agents_executed: 0,
        errors: Seq::empty(),
        warnings: Seq::empty(),
    }
}

/// Concurrency stays within the permits: every step keeps a consistent state
/// consistent, and in a consistent state the units of the running phase that
/// are in flight never outnumber its permits (`max_parallel` for a parallel
/// phase, one for a sequential phase).
pub proof fn lemma_concurrency_bounded(
    v: RunView,
    yes: bool,
    spec: usize,
    outcome: Result<nat, Seq<char>>,
)
    requires
        run_wf(v),
        forall|k: int| 0 <= k < v.phases.len() ==> #[trigger] v.phases[k].agents.len() <= usize::MAX,
    ensures
        v.stage == Stage::Running ==> v.running.len() <= permits(v),
        run_wf(next_step(v).0),
        run_wf(approve_step(v, yes)),
        run_wf(complete_step(v, spec, outcome)),
{
    let n = next_step(v).0;
    if !(v.stopped || v.phase >= v.phases.len()) && v.stage == Stage::Running {
        let agents = v.phases[v.phase as int].agents;
        if v.cursor < agents.len() && v.running.len() < permits(v) {
            let id = agents[v.cursor as int].id;
            if v.pool.contains(id) {
                assert(n.running == v.running.push(v.cursor as usize));
                assert forall|i: int, j: int|
                    0 <= i < n.running.len() && 0 <= j < n.running.len() && i != j implies n.running[i]
                    != n.running[j] by {
                    if i < v.running.len() && j < v.running.len() {
                        assert(n.running[i] == v.running[i]);
                        assert(n.running[j] == v.running[j]);
                    } else if i < v.running.len() {
                        assert(n.running[i] == v.running[i]);
                        assert(v.running[i] < v.cursor);
                    } else {
                        assert(n.running[j] == v.running[j]);
                        assert(v.running[j] < v.cursor);
                    }
                }
                v.pool.index_of_first_ensures(id);
                let ix = v.pool.index_of_first(id)->Some_0;
                assert(0 <= ix < v.pool.len() && v.pool[ix] == id && forall|j: int| 0 <= j < ix ==> v.pool[j] != id);
                let w = first_index(v.pool, id);
                assert(0 <= w < v.pool.len() && v.pool[w] == id);
            }
        }
    }
    if v.running.contains(spec) {
        let k = v.running.index_of(spec);
        let c = complete_step(v, spec, outcome);
        assert(c.running == v.running.remove(k));
        assert forall|i: int, j: int|
            0 <= i < c.running.len() && 0 <= j < c.running.len() && i != j implies c.running[i]
            != c.running[j] by {
            let i0 = if i < k { i } else { i + 1 };
            let j0 = if j < k { j } else { j + 1 };
            assert(c.running[i] == v.running[i0]);
            assert(c.running[j] == v.running[j0]);
        }
        assert forall|i: int| 0 <= i < c.running.len() implies c.running[i] < c.cursor by {
            let i0 = if i < k { i } else { i + 1 };
            assert(c.running[i] == v.running[i0]);
        }
    }
}


/// The run is halted: a critical failure happened or the run was stopped.
pub open spec fn halted(v: RunView) -> bool {
    v.critical || v.stopped
}

/// After a critical failure no unit is dispatched again: every step keeps the
/// run halted and none dispatches; once stopped, the run only reports that it
/// is finished.
pub proof fn lemma_critical_failure_halts(
    v: RunView,
    yes: bool,
    spec: usize,
    outcome: Result<nat, Seq<char>>,
)
    requires
        run_wf(v),
        halted(v),
    ensures
        !(next_step(v).1 is Dispatch),
        halted(next_step(v).0),
        halted(approve_step(v, yes)),
        halted(complete_step(v, spec, outcome)),
        v.stopped ==> next_step(v) == (v, EngineAction::Finished),
{
}


/// The steps phases `from` onward still take.
pub open spec fn phase_work(phases: Seq<PhaseView>, from: nat) -> nat
    decreases phases.len() - from,
{
    if from >= phases.len() {
        0
    } else {
        2 * phases[from as int].agents.len() + 3 + phase_work(phases, from + 1)
    }
}

/// A bound on the steps the run still takes; every step that is not a wait
/// lowers it.
pub open spec fn work_left(v: RunView) -> nat {
    if v.stopped || v.phase >= v.phases.len() {
        0
    } else {
        let a = v.phases[v.phase as int].agents.len();
        phase_work(v.phases, v.phase + 1) + match v.stage {
            Stage::Gate => 2 * a + 3,
            Stage::AwaitingApproval => 2 * a + 2,
            Stage::Running => (2 * (a - v.cursor) + v.running.len() + 1) as nat,
        }
    }
}

/// Every step but a wait and a repeated request lowers the work left.
pub proof fn lemma_steps_make_progress(v: RunView, spec: usize, outcome: Result<nat, Seq<char>>)
    requires
        run_wf(v),
    ensures
        ({
            let (n, a) = next_step(v);
            match a {
                EngineAction::Finished => work_left(v) == 0,
                EngineAction::AwaitCompletion => n == v && v.running.len() > 0,
                EngineAction::RequestApproval { .. } => work_left(n) <= work_left(v) && n.stage
                    == Stage::AwaitingApproval && !n.stopped && n.phase < n.phases.len(),
                _ => work_left(n) < work_left(v),
            }
        }),
        v.stage == Stage::AwaitingApproval && !v.stopped && v.phase < v.phases.len() ==> work_left(
            approve_step(v, true),
        ) < work_left(v),
        v.running.contains(spec) ==> work_left(complete_step(v, spec, outcome)) < work_left(v),
{
    if !v.stopped && v.phase < v.phases.len() {
        assert(phase_work(v.phases, v.phase + 1) == if v.phase + 1 >= v.phases.len() {
            0
        } else {
            2 * v.phases[v.phase + 1int].agents.len() + 3 + phase_work(v.phases, v.phase + 2)
        });
    }
    if v.running.contains(spec) {
        let k = v.running.index_of(spec);
        assert(complete_step(v, spec, outcome).running.len() == v.running.len() - 1);
    }
}


/// The first position of an element that occurs is a position of it.
pub proof fn lemma_first_index(s: Seq<Seq<char>>, x: Seq<char>)
    requires
        s.contains(x),
    ensures
        0 <= first_index(s, x) < s.len(),
        s[first_index(s, x)] == x,
{
    s.index_of_first_ensures(x);
    let ix = s.index_of_first(x)->Some_0;
    assert(0 <= ix < s.len() && s[ix] == x && forall|j: int| 0 <= j < ix ==> s[j] != x);
}


/// One round of the unattended runner from `v`: the next step, with an approval
/// request answered yes and a dispatched unit finished with `outcome`.
pub open spec fn runner_round(v: RunView, outcome: Result<nat, Seq<char>>) -> RunView {
    let (n, a) = next_step(v);
    match a {
        EngineAction::RequestApproval { .. } => approve_step(n, true),
        EngineAction::Dispatch { spec, .. } => complete_step(n, spec, outcome),
        _ => n,
    }
}

/// `v` follows from `v0` by rounds of the unattended runner, each with some
/// worker outcome.
pub open spec fn runner_reaches(v0: RunView, v: RunView) -> bool {
    exists|trace: Seq<RunView>, outcomes: Seq<Result<nat, Seq<char>>>|
        {
            &&& trace.len() == outcomes.len() + 1
            &&& trace[0] == v0
            &&& trace.last() == v
            &&& forall|i: int|
                0 <= i < outcomes.len() ==> #[trigger] trace[i + 1] == runner_round(
                    trace[i],
                    outcomes[i],
                )
        }
}

/// One run of a plan: the decisions of the execution, driven from outside.
///
/// The driver asks [`PlanRun::next_action`] what to do, performs it (asks for
/// approval, runs a unit on a worker, waits), and reports back with
/// [`PlanRun::approve`] and [`PlanRun::complete`]; units of a parallel phase may
/// run at the same time, never more than the phase's permits.
pub struct PlanRun {
    plan: ExecutionPlan,
    mode: AutonomyMode,
    max_parallel: usize,
    pool: Vec<String>,
    phase: usize,
    stage: Stage,
    cursor: usize,
    running: Vec<usize>,
    critical: bool,
    stopped: bool,
    tokens_used: usize,
    agents_executed: usize,
    errors: Vec<String>,
    warnings: Vec<String>,
}

impl View for PlanRun {
    type V = RunView;

    closed spec fn view(&self) -> RunView {
        RunView {
            phases: self.plan@,
            mode: self.mode,
            max_parallel: self.max_parallel as nat,
            pool: strings_view(self.pool@),
            phase: self.phase as nat,
            stage: self.stage,
            cursor: self.cursor as nat,
            running: self.running@,
            critical: self.critical,
            stopped: self.stopped,
            tokens_used: self.tokens_used as nat,
            agents_executed: self.agents_executed as nat,
            errors: strings_view(self.errors@),
            warnings: strings_view(self.warnings@),
        }
    }
}

/// The position of the first worker with id `id`, if any.
fn find_worker(pool: &Vec<String>, id: &String) -> (r: Option<usize>)
    ensures
        match r {
            Some(w) => {
                &&& w < pool@.len()
                &&& strings_view(pool@).contains(id@)
                &&& w as int == first_index(strings_view(pool@), id@)
            },
            None => !strings_view(pool@).contains(id@),
        },
{
    let ghost p = strings_view(pool@);
    let mut i: usize = 0;
    while i < pool.len()
        invariant
            p == strings_view(pool@),
            i <= p.len(),
            forall|j: int| 0 <= j < i ==> p[j] != id@,
        decreases p.len() - i,
    {
        if pool[i] == *id {
            assert(p[i as int] == id@);
            let ghost w = first_index(p, id@);
            assert(0 <= w < p.len() && p[w] == id@ && forall|j: int| 0 <= j < w ==> p[j] != id@);
            assert(w == i as int) by {
                if w < i as int {
                } else if w > i as int {
                    assert(p[i as int] != id@);
                }
            }
            return Some(i);
        }
        i = i + 1;
    }
    None
}

impl PlanRun {
    /// The state is consistent; every method keeps it so.
    pub closed spec fn wf(&self) -> bool {
        run_wf(self@)
    }

    /// A run of `plan` with the workers `pool` (by id), not yet started.
    pub fn new(plan: ExecutionPlan, pool: Vec<String>, mode: AutonomyMode, max_parallel: usize) -> (r: PlanRun)
        ensures
            r.wf(),
            r@ == initial_run(plan@, mode, max_parallel as nat, strings_view(pool@)),
    {
        // Reading the lengths records that they fit in a usize.
        let _phase_count = plan.phases.len();
        let _pool_size = pool.len();
        let r = PlanRun {
            plan,
            mode,
            max_parallel,
            pool,
            phase: 0,
            stage: Stage::Gate,
            cursor: 0,
            running: Vec::new(),
            critical: false,
            stopped: false,
            tokens_used: 0,
            agents_executed: 0,
            errors: Vec::new(),
            warnings: Vec::new(),
        };
        assert(r@.errors =~= Seq::<Seq<char>>::empty());
        assert(r@.warnings =~= Seq::<Seq<char>>::empty());
        r
    }


    /// Decides the next action, moving the run on by one step.
    pub fn next_action(&mut self) -> (a: EngineAction)
        requires
            old(self).wf(),
        ensures
            final(self).wf(),
            (final(self)@, a) == next_step(old(self)@),
    {
        if self.stopped || self.phase >= self.plan.phases.len() {
            return EngineAction::Finished;
        }
        match self.stage {
            Stage::Gate => {
                if approval_needed(self.mode, self.phase, self.plan.phases.len()) {
                    self.stage = Stage::AwaitingApproval;
                    EngineAction::RequestApproval { phase: self.phase }
                } else {
                    self.stage = Stage::Running;
                    self.cursor = 0;
                    EngineAction::Advanced
                }
            },
            Stage::AwaitingApproval => EngineAction::RequestApproval { phase: self.phase },
            Stage::Running => {
                let n = self.plan.phases[self.phase].agents.len();
                if self.cursor < n {
                    let limit: usize = if self.plan.phases[self.phase].parallel {
                        self.max_parallel
                    } else {
                        1
                    };
                    let ghost o = self@;
                    let found = find_worker(&self.pool, &self.plan.phases[self.phase].agents[self.cursor].id);
                    proof {
                        assert(o.phases[o.phase as int].agents[o.cursor as int].id
                            == self.plan.phases@[self.phase as int].agents@[self.cursor as int].id@);
                    }
                    match found {
                        None => {
                            let msg = not_found_message(&self.plan.phases[self.phase].agents[self.cursor].id);
                            let ghost old_warnings = self.warnings@;
                            self.warnings.push(msg);
                            assert(strings_view(self.warnings@) =~= strings_view(old_warnings).push(msg@));
                            self.cursor = self.cursor + 1;
                            EngineAction::Advanced
                        },
                        Some(w) => {
                            if self.running.len() >= limit {
                                if self.running.len() == 0 {
                                    let msg = numbered_message(
                                        "No concurrency permit for phase ",
                                        self.phase,
                                        ", stopping execution",
                                    );
                                    let ghost old_errors = self.errors@;
                                    self.errors.push(msg);
                                    assert(strings_view(self.errors@) =~= strings_view(old_errors).push(msg@));
                                    self.stopped = true;
                                    return EngineAction::Advanced;
                                }
                                return EngineAction::AwaitCompletion;
                            }
                            let ghost old_pool = self.pool@;
                            self.pool.remove(w);
                            assert(strings_view(self.pool@) =~= strings_view(old_pool).remove(w as int));
                            self.running.push(self.cursor);
                            let spec = self.cursor;
                            self.cursor = self.cursor + 1;
                            assert(self@.running.no_duplicates());
                            EngineAction::Dispatch { phase: self.phase, spec, worker: w }
                        },
                    }
                } else if self.running.len() > 0 {
                    EngineAction::AwaitCompletion
                } else if self.critical {
                    let msg = numbered_message(
                        "Critical failure in phase ",
                        self.phase,
                        ", stopping execution",
                    );
                    let ghost old_errors = self.errors@;
                    self.errors.push(msg);
                    assert(strings_view(self.errors@) =~= strings_view(old_errors).push(msg@));
                    self.stopped = true;
                    EngineAction::Advanced
                } else {
                    self.phase = self.phase + 1;
                    self.stage = Stage::Gate;
                    self.cursor = 0;
                    EngineAction::Advanced
                }
            },
        }
    }

    /// Records the answer to an approval request: `true` runs the phase, `false`
    /// skips it with a warning. Ignored when no approval is pending.
    pub fn approve(&mut self, yes: bool)
        requires
            old(self).wf(),
        ensures
            final(self).wf(),
            final(self)@ == approve_step(old(self)@, yes),
    {
        if self.stopped || self.phase >= self.plan.phases.len() || self.stage != Stage::AwaitingApproval {
            return;
        }
        if yes {
            self.stage = Stage::Running;
            self.cursor = 0;
        } else {
            let msg = numbered_message("Phase ", self.phase, " skipped by user");
            let ghost old_warnings = self.warnings@;
            self.warnings.push(msg);
            assert(strings_view(self.warnings@) =~= strings_view(old_warnings).push(msg@));
            self.phase = self.phase + 1;
            self.stage = Stage::Gate;
        }
    }

    /// Records that unit `spec` of the current phase finished with `outcome`.
    /// Returns whether that unit was running; if not, nothing changes.
    pub fn complete(&mut self, spec: usize, outcome: Result<AgentResult, String>) -> (accepted: bool)
        requires
            old(self).wf(),
        ensures
            final(self).wf(),
            final(self)@ == complete_step(old(self)@, spec, outcome_view(outcome)),
            accepted == old(self)@.running.contains(spec),
    {
        let ghost o = self@;
        let mut k: usize = 0;
        while k < self.running.len() && self.running[k] != spec
            invariant
                self@ == o,
                k <= o.running.len(),
                forall|j: int| 0 <= j < k ==> o.running[j] != spec,
            decreases o.running.len() - k,
        {
            k = k + 1;
        }
        if k == self.running.len() {
            return false;
        }
        proof {
            assert(o.running[k as int] == spec);
            assert(o.running.contains(spec));
            let ix = o.running.index_of(spec);
            assert(o.running[ix] == spec);
            assert(ix == k as int);
        }
        self.running.remove(k);
        self.agents_executed = self.agents_executed + 1;
        match outcome {
            Ok(r) => {
                self.tokens_used = self.tokens_used.saturating_add(r.tokens_used);
            },
            Err(m) => {
                let msg = failure_message(&self.plan.phases[self.phase].agents[spec].agent_type, &m);
                let crit = !self.plan.phases[self.phase].parallel
                    && self.plan.phases[self.phase].agents[spec].capability == AgentCapability::Architecture;
                let ghost old_errors = self.errors@;
                self.errors.push(msg);
                assert(strings_view(self.errors@) =~= strings_view(old_errors).push(msg@));
                if crit {
                    self.critical = true;
                    self.cursor = self.plan.phases[self.phase].agents.len();
                }
            },
        }
        proof {
            assert(self@.running =~= o.running.remove(k as int));
        }
        true
    }

    /// The result of the run, with the measured wall-clock time.
    pub fn into_result(self, execution_time_ms: u64) -> (r: ExecutionResult)
        ensures
            r.success == (self@.errors.len() == 0),
            r.agents_executed == self@.agents_executed,
            r.tokens_used == self@.tokens_used,
            r.execution_time_ms == execution_time_ms,
            strings_view(r.errors@) == self@.errors,
            strings_view(r.warnings@) == self@.warnings,
    {
        let success = self.errors.len() == 0;
        ExecutionResult {
            success,
            agents_executed: self.agents_executed,
            tokens_used: self.tokens_used,
            execution_time_ms,
            errors: self.errors,
            warnings: self.warnings,
        }
    }

    /// Runs the plan to its end on `agents` (the workers of the pool, in pool
    /// order) without asking anyone: every approval gate is passed and the units
    /// run one at a time, in dispatch order.
    pub fn run_with<A: Agent>(&mut self, agents: &mut Vec<A>)
        requires
            old(self).wf(),
            old(agents)@.len() == old(self)@.pool.len(),
            old(self)@.running.len() == 0,
            old(self)@.stage != Stage::AwaitingApproval,
        ensures
            final(self).wf(),
            final(self)@.phases == old(self)@.phases,
            runner_reaches(old(self)@, final(self)@),
            final(self)@.stopped ==> final(self)@.errors.len() > 0,
            final(agents)@.len() == final(self)@.pool.len(),
            final(self)@.running.len() == 0,
            final(self)@.agents_executed + final(self)@.pool.len() == old(self)@.agents_executed
                + old(self)@.pool.len(),
            next_step(final(self)@).1 == EngineAction::Finished,
    {
        let ghost total = self@.agents_executed + self@.pool.len();
        let ghost phases = self@.phases;
        let ghost v0 = self@;
        let ghost mut trace: Seq<RunView> = seq![self@];
        let ghost mut outs: Seq<Result<nat, Seq<char>>> = Seq::empty();
        let mut done = false;
        while !done
            invariant
                self.wf(),
                trace.len() == outs.len() + 1,
                trace[0] == v0,
                trace.last() == self@,
                forall|i: int|
                    0 <= i < outs.len() ==> #[trigger] trace[i + 1] == runner_round(trace[i], outs[i]),
                self@.phases == phases,
                agents@.len() == self@.pool.len(),
                self@.running.len() == 0,
                self@.stage != Stage::AwaitingApproval,
                self@.agents_executed + self@.pool.len() == total,
                done ==> next_step(self@).1 == EngineAction::Finished,
            decreases work_left(self@) + if done { 0nat } else { 1nat },
        {
            let ghost before = self@;
            proof {
                lemma_steps_make_progress(before, 0, Ok(0));
            }
            let ghost mut o: Result<nat, Seq<char>> = Ok(0);
            let action = self.next_action();
            match action {
                EngineAction::Finished => {
                    done = true;
                },
                EngineAction::AwaitCompletion => {
                    done = true;
                },
                EngineAction::Advanced => {},
                EngineAction::RequestApproval { .. } => {
                    proof {
                        lemma_steps_make_progress(self@, 0, Ok(0));
                    }
                    self.approve(true);
                },
                EngineAction::Dispatch { phase, spec, worker } => {
                    proof {
                        let id = before.phases[before.phase as int].agents[before.cursor as int].id;
                        lemma_first_index(before.pool, id);
                    }
                    let mut agent = agents.remove(worker);
                    let outcome = agent.execute(
                        self.plan.phases[phase].agents[spec].task.as_str(),
                    );
                    proof {
                        lemma_steps_make_progress(self@, spec, outcome_view(outcome));
                        assert(self@.running.contains(spec)) by {
                            assert(self@.running[self@.running.len() - 1] == spec);
                        }
                        o = outcome_view(outcome);
                    }
                    self.complete(spec, outcome);
                    proof {
                        assert(self@.running.len() == 0);
                    }
                },
            }
            proof {
                assert(self@ == runner_round(before, o));
                let t0 = trace;
                trace = trace.push(self@);
                outs = outs.push(o);
                assert forall|i: int| 0 <= i < outs.len() implies #[trigger] trace[i + 1] == runner_round(trace[i], outs[i]) by {
                    if i < outs.len() - 1 {
                        assert(trace[i + 1] == t0[i + 1]);
                        assert(trace[i] == t0[i]);
                    } else {
                        assert(trace[i] == t0.last());
                    }
                }
            }
        }
    }

    /// The plan being run.
    pub fn plan(&self) -> (r: &ExecutionPlan)
        ensures
            r@ == self@.phases,
    {
        &self.plan
    }

    /// How many dispatched units have not finished yet.
    pub fn in_flight(&self) -> (r: usize)
        requires
            self.wf(),
        ensures
            r == self@.running.len(),
            self@.stage == Stage::Running ==> r <= permits(self@),
    {
        self.running.len()
    }
}

} // verus!
