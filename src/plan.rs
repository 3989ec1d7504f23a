use vstd::prelude::*;
use crate::capabilities::AgentCapability;

verus! {

/// A planned unit of work.
#[derive(Clone, Debug)]
pub struct AgentSpec {
    pub id: String,
    pub agent_type: String,
    pub capability: AgentCapability,
    pub task: String,
    /// Ids of the work units that must complete first; they are not checked to exist.
    pub dependencies: Vec<String>,
}

/// The mathematical value of an [`AgentSpec`].
pub struct AgentSpecView {
    pub id: Seq<char>,
    pub agent_type: Seq<char>,
    pub capability: AgentCapability,
    pub task: Seq<char>,
    pub dependencies: Seq<Seq<char>>,
}

/// The character sequences of a list of strings.
pub open spec fn strings_view(v: Seq<String>) -> Seq<Seq<char>> {
    v.map_values(|s: String| s@)
}

impl View for AgentSpec {
    type V = AgentSpecView;

    open spec fn view(&self) -> AgentSpecView {
        AgentSpecView {
            id: self.id@,
            agent_type: self.agent_type@,
            capability: self.capability,
            task: self.task@,
            dependencies: strings_view(self.dependencies@),
        }
    }
}

/// A group of work units that run together.
#[derive(Clone, Debug)]
pub struct ExecutionPhase {
    pub description: String,
    pub agents: Vec<AgentSpec>,
    pub parallel: bool,
}

/// The mathematical value of an [`ExecutionPhase`].
pub struct PhaseView {
    pub description: Seq<char>,
    pub agents: Seq<AgentSpecView>,
    pub parallel: bool,
}

/// The views of a sequence of work units.
pub open spec fn specs_view(v: Seq<AgentSpec>) -> Seq<AgentSpecView> {
    v.map_values(|s: AgentSpec| s@)
}

impl View for ExecutionPhase {
    type V = PhaseView;

    open spec fn view(&self) -> PhaseView {
        PhaseView {
            description: self.description@,
            agents: specs_view(self.agents@),
            parallel: self.parallel,
        }
    }
}

/// The views of a sequence of phases.
pub open spec fn phases_view(v: Seq<ExecutionPhase>) -> Seq<PhaseView> {
    v.map_values(|p: ExecutionPhase| p@)
}

/// An ordered list of phases.
#[derive(Clone, Debug)]
pub struct ExecutionPlan {
    pub phases: Vec<ExecutionPhase>,
}

impl View for ExecutionPlan {
    type V = Seq<PhaseView>;

    open spec fn view(&self) -> Seq<PhaseView> {
        phases_view(self.phases@)
    }
}

/// All work units of `phases`, phase after phase, each phase in its own order.
pub open spec fn flatten(phases: Seq<PhaseView>) -> Seq<AgentSpecView>
    decreases phases.len(),
{
    if phases.len() == 0 {
        Seq::empty()
    } else {
        flatten(phases.drop_last()) + phases.last().agents
    }
}

/// The number of work units over all `phases`.
pub open spec fn total_len(phases: Seq<PhaseView>) -> nat
    decreases phases.len(),
{
    if phases.len() == 0 {
        0
    } else {
        total_len(phases.drop_last()) + phases.last().agents.len()
    }
}

impl ExecutionPlan {
    /// The number of work units over all phases.
    pub fn total_agents(&self) -> (r: usize)
        requires
            total_len(self@) <= usize::MAX,
        ensures
            r == total_len(self@),
    {
        let mut sum: usize = 0;
        let mut i: usize = 0;
        while i < self.phases.len()
            invariant
                i <= self.phases@.len(),
                sum == total_len(self@.subrange(0, i as int)),
                total_len(self@) <= usize::MAX,
            decreases self.phases@.len() - i,
        {
            proof {
                assert(self@.subrange(0, i + 1).drop_last() =~= self@.subrange(0, i as int));
                lemma_total_len_prefix(self@, i as int + 1);
            }
            sum = sum + self.phases[i].agents.len();
            i = i + 1;
        }
        assert(self@.subrange(0, i as int) =~= self@);
        sum
    }
}

/// The count over a prefix is at most the count over the whole.
pub proof fn lemma_total_len_prefix(phases: Seq<PhaseView>, k: int)
    requires
        0 <= k <= phases.len(),
    ensures
        total_len(phases.subrange(0, k)) <= total_len(phases),
    decreases phases.len() - k,
{
    if k < phases.len() {
        lemma_total_len_prefix(phases, k + 1);
        assert(phases.subrange(0, k + 1).drop_last() =~= phases.subrange(0, k));
    } else {
        assert(phases.subrange(0, k) =~= phases);
    }
}

} // verus!
