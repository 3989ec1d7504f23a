use vstd::prelude::*;
use crate::plan::{
    AgentSpec, AgentSpecView, ExecutionPhase, PhaseView, flatten, phases_view, specs_view,
    strings_view, total_len,
};
use crate::text::{decimal, push_decimal};
use vstd::string::*;
use vstd::multiset::Multiset;

verus! {

/// Every dependency of `s` is among the `done` ids.
pub open spec fn deps_met(s: AgentSpecView, done: Seq<Seq<char>>) -> bool {
    forall|j: int| 0 <= j < s.dependencies.len() ==> done.contains(#[trigger] s.dependencies[j])
}

/// The work units of `rem` whose dependencies are all done, in their order.
pub open spec fn ready_of(rem: Seq<AgentSpecView>, done: Seq<Seq<char>>) -> Seq<AgentSpecView> {
    rem.filter(|s: AgentSpecView| deps_met(s, done))
}

/// The work units of `rem` that still wait on a dependency, in their order.
pub open spec fn waiting_of(rem: Seq<AgentSpecView>, done: Seq<Seq<char>>) -> Seq<AgentSpecView> {
    rem.filter(|s: AgentSpecView| !deps_met(s, done))
}

/// The ids of a sequence of work units.
pub open spec fn ids_of(specs: Seq<AgentSpecView>) -> Seq<Seq<char>> {
    specs.map_values(|s: AgentSpecView| s.id)
}

/// No unit of `group` depends on another unit of `group`.
pub open spec fn mutually_independent(group: Seq<AgentSpecView>) -> bool {
    forall|a: int, b: int|
        0 <= a < group.len() && 0 <= b < group.len() ==> (group[a].id == group[b].id
            || !group[b].dependencies.contains(group[a].id))
}

/// A group runs in parallel when it has more than one unit and they are independent.
pub open spec fn runs_in_parallel(group: Seq<AgentSpecView>) -> bool {
    group.len() > 1 && mutually_independent(group)
}

/// The label of the `n`-th phase (counting from one).
pub open spec fn phase_label(n: nat) -> Seq<char> {
    "Phase "@ + decimal(n)
}

/// The `n`-th phase, holding a group whose dependencies were all met.
pub open spec fn leveled_phase(group: Seq<AgentSpecView>, n: nat) -> PhaseView {
    PhaseView {
        description: if runs_in_parallel(group) {
            phase_label(n) + " (parallel execution)"@
        } else {
            phase_label(n)
        },
        agents: group,
        parallel: runs_in_parallel(group),
    }
}

/// The `n`-th phase, holding every unit left when none of them was ready.
pub open spec fn fallback_phase(group: Seq<AgentSpecView>, n: nat) -> PhaseView {
    PhaseView {
        description: phase_label(n) + " (circular dependency fallback)"@,
        agents: group,
        parallel: false,
    }
}

/// One sequential phase per unit of `rem`, numbered on from `count`.
pub open spec fn recovery_phases(rem: Seq<AgentSpecView>, count: nat) -> Seq<PhaseView> {
    Seq::new(
        rem.len(),
        |i: int|
            PhaseView {
                description: phase_label((count + i + 1) as nat) + " (dependency cycle recovery)"@,
                agents: seq![rem[i]],
                parallel: false,
            },
    )
}

/// The phases that leveling produces from the units `rem`, given the ids
/// already `done`, `count` phases already emitted and `budget` rounds left.
pub open spec fn level(
    rem: Seq<AgentSpecView>,
    done: Seq<Seq<char>>,
    count: nat,
    budget: nat,
) -> Seq<PhaseView>
    decreases budget,
{
    if rem.len() == 0 {
        Seq::empty()
    } else if budget == 0 {
        recovery_phases(rem, count)
    } else {
        let ready = ready_of(rem, done);
        if ready.len() == 0 {
            seq![fallback_phase(waiting_of(rem, done), count + 1)]
        } else {
            seq![leveled_phase(ready, count + 1)] + level(
                waiting_of(rem, done),
                done + ids_of(ready),
                count + 1,
                (budget - 1) as nat,
            )
        }
    }
}

/// The phases that scheduling `specs` with at most `max_iterations` rounds produces.
pub open spec fn schedule_of(specs: Seq<AgentSpecView>, max_iterations: nat) -> Seq<PhaseView> {
    level(specs, Seq::empty(), 0, max_iterations)
}

/// Whether `id` is one of `ids`.
fn id_listed(ids: &Vec<String>, id: &String) -> (r: bool)
    ensures
        r == strings_view(ids@).contains(id@),
{
    let mut i: usize = 0;
    while i < ids.len()
        invariant
            i <= ids@.len(),
            forall|k: int| 0 <= k < i ==> ids@[k]@ != id@,
        decreases ids@.len() - i,
    {
        if ids[i] == *id {
            assert(strings_view(ids@)[i as int] == id@);
            return true;
        }
        i = i + 1;
    }
    assert forall|k: int| 0 <= k < strings_view(ids@).len() implies strings_view(ids@)[k] != id@ by {
        assert(strings_view(ids@)[k] == ids@[k]@);
    }
    false
}

/// Whether every dependency of `s` is among `done`.
fn deps_met_exec(s: &AgentSpec, done: &Vec<String>) -> (r: bool)
    ensures
        r == deps_met(s@, strings_view(done@)),
{
    let mut j: usize = 0;
    while j < s.dependencies.len()
        invariant
            j <= s.dependencies@.len(),
            forall|k: int|
                0 <= k < j ==> strings_view(done@).contains(#[trigger] s@.dependencies[k]),
        decreases s.dependencies@.len() - j,
    {
        if !id_listed(done, &s.dependencies[j]) {
            assert(s@.dependencies[j as int] == s.dependencies@[j as int]@);
            return false;
        }
        assert(s@.dependencies[j as int] == s.dependencies@[j as int]@);
        j = j + 1;
    }
    true
}

/// Splits `rem` into the units whose dependencies are all in `done` and the others,
/// each part in the order of `rem`.
fn partition_ready(rem: Vec<AgentSpec>, done: &Vec<String>) -> (r: (Vec<AgentSpec>, Vec<AgentSpec>))
    ensures
        specs_view(r.0@) == ready_of(specs_view(rem@), strings_view(done@)),
        specs_view(r.1@) == waiting_of(specs_view(rem@), strings_view(done@)),
{
    let ghost all = specs_view(rem@);
    let ghost d = strings_view(done@);
    let ghost n = rem@.len();
    let total = rem.len();
    let mut rest = rem;
    let mut ready: Vec<AgentSpec> = Vec::new();
    let mut waiting: Vec<AgentSpec> = Vec::new();
    let mut k: usize = 0;
    while rest.len() > 0
        invariant
            all.len() == n,
            total == n,
            d == strings_view(done@),
            k + rest@.len() == n,
            specs_view(rest@) == all.subrange(k as int, n as int),
            specs_view(ready@) == ready_of(all.subrange(0, k as int), d),
            specs_view(waiting@) == waiting_of(all.subrange(0, k as int), d),
        decreases rest@.len(),
    {
        let ghost before = rest@;
        let s = rest.remove(0);
        proof {
            assert(s@ == specs_view(before)[0]);
            assert(s@ == all[k as int]);
            assert forall|i: int| 0 <= i < rest@.len() implies specs_view(rest@)[i] == all[k + 1 + i] by {
                assert(rest@[i] == before[i + 1]);
                assert(specs_view(before)[i + 1] == all.subrange(k as int, n as int)[i + 1]);
            }
            assert(specs_view(rest@) =~= all.subrange(k + 1, n as int));
            assert(all.subrange(0, k + 1).drop_last() =~= all.subrange(0, k as int));
            assert(all.subrange(0, k + 1).last() == s@);
        }
        let met = deps_met_exec(&s, done);
        proof {
            let pre = all.subrange(0, k + 1);
            let pr = |x: AgentSpecView| deps_met(x, d);
            let pw = |x: AgentSpecView| !deps_met(x, d);
            assert(pre.len() > 0);
            reveal(Seq::filter);
            assert(pre.filter(pr) == if pr(pre.last()) {
                pre.drop_last().filter(pr).push(pre.last())
            } else {
                pre.drop_last().filter(pr)
            });
            assert(pre.filter(pw) == if pw(pre.last()) {
                pre.drop_last().filter(pw).push(pre.last())
            } else {
                pre.drop_last().filter(pw)
            });
        }
        if met {
            ready.push(s);
            assert(specs_view(ready@) =~= ready_of(all.subrange(0, k + 1), d));
            assert(specs_view(waiting@) =~= waiting_of(all.subrange(0, k + 1), d));
        } else {
            waiting.push(s);
            assert(specs_view(ready@) =~= ready_of(all.subrange(0, k + 1), d));
            assert(specs_view(waiting@) =~= waiting_of(all.subrange(0, k + 1), d));
        }
        k = k + 1;
    }
    assert(all.subrange(0, k as int) =~= all);
    (ready, waiting)
}


/// The units of `rem` split into ready and waiting ones, with nothing lost or added.
pub proof fn lemma_split_keeps_units(rem: Seq<AgentSpecView>, done: Seq<Seq<char>>)
    ensures
        ready_of(rem, done).to_multiset().add(waiting_of(rem, done).to_multiset())
            == rem.to_multiset(),
        ready_of(rem, done).len() + waiting_of(rem, done).len() == rem.len(),
    decreases rem.len(),
{
    broadcast use vstd::seq_lib::group_to_multiset_ensures;

    reveal(Seq::filter);
    if rem.len() > 0 {
        lemma_split_keeps_units(rem.drop_last(), done);
        assert(rem.drop_last().push(rem.last()) =~= rem);
        assert(ready_of(rem, done).to_multiset().add(waiting_of(rem, done).to_multiset())
            =~= rem.to_multiset());
    }
    assert(ready_of(rem, done).to_multiset().len() == ready_of(rem, done).len());
    assert(waiting_of(rem, done).to_multiset().len() == waiting_of(rem, done).len());
}

/// Whether no unit of `group` depends on another unit of `group`.
fn independent_exec(group: &Vec<AgentSpec>) -> (r: bool)
    ensures
        r == mutually_independent(specs_view(group@)),
{
    let ghost g = specs_view(group@);
    let mut a: usize = 0;
    while a < group.len()
        invariant
            g == specs_view(group@),
            a <= g.len(),
            forall|x: int, y: int|
                0 <= x < a && 0 <= y < g.len() ==> (g[x].id == g[y].id
                    || !g[y].dependencies.contains(g[x].id)),
        decreases g.len() - a,
    {
        let mut b: usize = 0;
        while b < group.len()
            invariant
                g == specs_view(group@),
                a < g.len(),
                b <= g.len(),
                forall|x: int, y: int|
                    0 <= x < a && 0 <= y < g.len() ==> (g[x].id == g[y].id
                        || !g[y].dependencies.contains(g[x].id)),
                forall|y: int|
                    0 <= y < b ==> (g[a as int].id == g[y].id
                        || !g[y].dependencies.contains(g[a as int].id)),
            decreases g.len() - b,
        {
            assert(g[a as int] == group@[a as int]@);
            assert(g[b as int] == group@[b as int]@);
            let same = group[a].id == group[b].id;
            if !same && id_listed(&group[b].dependencies, &group[a].id) {
                assert(g[a as int].id != g[b as int].id);
                assert(g[b as int].dependencies.contains(g[a as int].id));
                return false;
            }
            b = b + 1;
        }
        a = a + 1;
    }
    true
}

/// The label of the `n`-th phase.
fn phase_title(n: usize) -> (r: String)
    ensures
        r@ == phase_label(n as nat),
{
    let mut s = String::from_str("Phase ");
    push_decimal(&mut s, n);
    s
}

/// Appends one single-unit sequential phase per unit of `rem`, in order.
fn push_recovery(phases: &mut Vec<ExecutionPhase>, rem: Vec<AgentSpec>)
    requires
        old(phases)@.len() + rem@.len() <= usize::MAX,
    ensures
        phases_view(final(phases)@) == phases_view(old(phases)@) + recovery_phases(
            specs_view(rem@),
            old(phases)@.len() as nat,
        ),
{
    let ghost all = specs_view(rem@);
    let ghost start = phases_view(phases@);
    let ghost count = phases@.len();
    let ghost n = rem@.len();
    let mut rest = rem;
    let mut k: usize = 0;
    while rest.len() > 0
        invariant
            all.len() == n,
            count + n <= usize::MAX,
            k + rest@.len() == n,
            phases@.len() == count + k,
            specs_view(rest@) == all.subrange(k as int, n as int),
            phases_view(phases@) == start + recovery_phases(all, count as nat).subrange(0, k as int),
        decreases rest@.len(),
    {
        let ghost before = rest@;
        let s = rest.remove(0);
        proof {
            assert(s@ == specs_view(before)[0]);
            assert forall|i: int| 0 <= i < rest@.len() implies specs_view(rest@)[i] == all[k + 1 + i] by {
                assert(rest@[i] == before[i + 1]);
                assert(specs_view(before)[i + 1] == all.subrange(k as int, n as int)[i + 1]);
            }
            assert(specs_view(rest@) =~= all.subrange(k + 1, n as int));
        }
        let mut description = phase_title(phases.len() + 1);
        description.append(" (dependency cycle recovery)");
        let mut agents: Vec<AgentSpec> = Vec::new();
        agents.push(s);
        let phase = ExecutionPhase { description, agents, parallel: false };
        proof {
            assert(specs_view(phase.agents@) =~= seq![all[k as int]]);
            assert(phase@ == recovery_phases(all, count as nat)[k as int]);
            assert(recovery_phases(all, count as nat).subrange(0, k + 1) =~= recovery_phases(all, count as nat).subrange(0, k as int).push(phase@));
        }
        let ghost prev = phases@;
        let ghost pv = phase@;
        phases.push(phase);
        k = k + 1;
        proof {
            assert(phases_view(phases@) =~= phases_view(prev).push(pv));
            assert(phases_view(phases@) =~= start + recovery_phases(all, count as nat).subrange(0, k as int));
        }
    }
    assert(recovery_phases(all, count as nat).subrange(0, k as int) =~= recovery_phases(all, count as nat));
}

/// Arranges `specs` into phases by dependency level, with at most `max_iterations`
/// leveling rounds.
///
/// Each round takes the units whose dependencies are all done as the next phase.
/// When no unit is ready, all that remain form one sequential fallback phase; when
/// the rounds run out, each remaining unit gets a sequential phase of its own.
pub fn schedule(specs: Vec<AgentSpec>, max_iterations: usize) -> (r: Vec<ExecutionPhase>)
    ensures
        phases_view(r@) == schedule_of(specs_view(specs@), max_iterations as nat),
        flatten(phases_view(r@)).to_multiset() == specs_view(specs@).to_multiset(),
        total_len(phases_view(r@)) == specs@.len(),
        forall|k: int| 0 <= k < r@.len() && (#[trigger] r@[k]).parallel ==> r@[k].agents@.len() > 1,
{
    let ghost target = schedule_of(specs_view(specs@), max_iterations as nat);
    let ghost n = specs@.len();
    let total = specs.len();
    let mut phases: Vec<ExecutionPhase> = Vec::new();
    let mut remaining = specs;
    let mut completed: Vec<String> = Vec::new();
    let mut iteration_count: usize = 0;
    proof {
        assert(strings_view(completed@) =~= Seq::<Seq<char>>::empty());
        assert(phases_view(phases@) =~= Seq::<PhaseView>::empty());
        assert(phases_view(phases@) + level(specs_view(remaining@), strings_view(completed@), 0, max_iterations as nat) =~= target);
    }
    while remaining.len() > 0
        invariant
            total == n,
            iteration_count <= max_iterations,
            phases@.len() + remaining@.len() <= n,
            phases_view(phases@) + level(
                specs_view(remaining@),
                strings_view(completed@),
                phases@.len() as nat,
                (max_iterations - iteration_count) as nat,
            ) == target,
        decreases remaining@.len(),
    {
        let ghost old_phases = phases_view(phases@);
        let ghost rem = specs_view(remaining@);
        let ghost done = strings_view(completed@);
        let ghost count = phases@.len() as nat;
        if iteration_count == max_iterations {
            push_recovery(&mut phases, remaining);
            remaining = Vec::new();
            proof {
                assert(phases_view(phases@) + level(specs_view(remaining@), strings_view(completed@), phases@.len() as nat, 0) =~= target);
            }
        } else {
            iteration_count = iteration_count + 1;
            let (ready, not_ready) = partition_ready(remaining, &completed);
            proof {
                lemma_split_keeps_units(rem, done);
            }
            if ready.len() == 0 {
                let mut description = phase_title(phases.len() + 1);
                description.append(" (circular dependency fallback)");
                phases.push(ExecutionPhase { description, agents: not_ready, parallel: false });
                remaining = Vec::new();
                proof {
                    assert(phases_view(phases@) =~= old_phases.push(fallback_phase(waiting_of(rem, done), count + 1)));
                    assert(phases_view(phases@) + level(specs_view(remaining@), strings_view(completed@), phases@.len() as nat, (max_iterations - iteration_count) as nat) =~= target);
                }
            } else {
                let can_parallel = ready.len() > 1 && independent_exec(&ready);
                let mut i: usize = 0;
                while i < ready.len()
                    invariant
                        i <= ready@.len(),
                        strings_view(completed@) == done + ids_of(specs_view(ready@)).subrange(0, i as int),
                    decreases ready@.len() - i,
                {
                    let id = ready[i].id.clone();
                    assert(ids_of(specs_view(ready@))[i as int] == id@);
                    let ghost prevc = completed@;
                    let ghost idv = id@;
                    completed.push(id);
                    i = i + 1;
                    proof {
                        assert(strings_view(completed@) =~= strings_view(prevc).push(idv));
                        assert(strings_view(completed@) =~= done + ids_of(specs_view(ready@)).subrange(0, i as int));
                    }
                }
                proof {
                    assert(ids_of(specs_view(ready@)).subrange(0, i as int) =~= ids_of(specs_view(ready@)));
                }
                let mut description = phase_title(phases.len() + 1);
                if can_parallel {
                    description.append(" (parallel execution)");
                }
                phases.push(ExecutionPhase { description, agents: ready, parallel: can_parallel });
                remaining = not_ready;
                proof {
                    assert(phases_view(phases@) =~= old_phases.push(leveled_phase(ready_of(rem, done), count + 1)));
                    assert(phases_view(phases@) + level(specs_view(remaining@), strings_view(completed@), phases@.len() as nat, (max_iterations - iteration_count) as nat) =~= target);
                }
            }
        }
    }
    assert(phases_view(phases@) =~= target);
    proof {
        lemma_schedule_keeps_every_spec(specs_view(specs@), max_iterations as nat);
        lemma_parallel_phases_have_several_units(specs_view(specs@), Seq::empty(), 0, max_iterations as nat);
        assert forall|k: int| 0 <= k < phases@.len() && (#[trigger] phases@[k]).parallel implies phases@[k].agents@.len() > 1 by {
            assert(phases_view(phases@)[k] == phases@[k]@);
        }
    }
    phases
}


/// Flattening a phase list that starts with `p` lists the units of `p` first.
pub proof fn lemma_flatten_prepend(p: PhaseView, rest: Seq<PhaseView>)
    ensures
        flatten(seq![p] + rest) == p.agents + flatten(rest),
    decreases rest.len(),
{
    if rest.len() == 0 {
        assert(seq![p] + rest =~= seq![p]);
        assert(seq![p].drop_last() =~= Seq::<PhaseView>::empty());
        assert(flatten(Seq::<PhaseView>::empty()) == Seq::<AgentSpecView>::empty());
        assert(flatten(seq![p]) == flatten(seq![p].drop_last()) + p.agents);
        assert(Seq::<AgentSpecView>::empty() + p.agents =~= p.agents);
        assert(p.agents + Seq::<AgentSpecView>::empty() =~= p.agents);
    } else {
        lemma_flatten_prepend(p, rest.drop_last());
        assert((seq![p] + rest).drop_last() =~= seq![p] + rest.drop_last());
        assert((seq![p] + rest).last() == rest.last());
        assert(p.agents + flatten(rest.drop_last()) + rest.last().agents
            =~= p.agents + (flatten(rest.drop_last()) + rest.last().agents));
    }
}

/// The unit count of a phase list is the length of its flattening.
pub proof fn lemma_total_len_flatten(phases: Seq<PhaseView>)
    ensures
        total_len(phases) == flatten(phases).len(),
    decreases phases.len(),
{
    if phases.len() > 0 {
        lemma_total_len_flatten(phases.drop_last());
    }
}

/// The recovery phases hold exactly the units of `rem`, in order.
proof fn lemma_recovery_flatten(rem: Seq<AgentSpecView>, count: nat)
    ensures
        flatten(recovery_phases(rem, count)) == rem,
    decreases rem.len(),
{
    if rem.len() > 0 {
        lemma_recovery_flatten(rem.drop_last(), count);
        assert(recovery_phases(rem, count).drop_last() =~= recovery_phases(rem.drop_last(), count));
        assert(rem.drop_last() + seq![rem.last()] =~= rem);
    } else {
        assert(recovery_phases(rem, count) =~= Seq::<PhaseView>::empty());
    }
}

/// Leveling keeps every unit of `rem`, each exactly once.
proof fn lemma_level_keeps_units(
    rem: Seq<AgentSpecView>,
    done: Seq<Seq<char>>,
    count: nat,
    budget: nat,
)
    ensures
        flatten(level(rem, done, count, budget)).to_multiset() == rem.to_multiset(),
    decreases budget,
{
    broadcast use vstd::seq_lib::group_to_multiset_ensures;

    if rem.len() == 0 {
        assert(flatten(level(rem, done, count, budget)) =~= rem);
    } else if budget == 0 {
        lemma_recovery_flatten(rem, count);
    } else {
        let ready = ready_of(rem, done);
        let waiting = waiting_of(rem, done);
        lemma_split_keeps_units(rem, done);
        if ready.len() == 0 {
            let p = fallback_phase(waiting, count + 1);
            lemma_flatten_prepend(p, Seq::empty());
            assert(seq![p] + Seq::<PhaseView>::empty() =~= seq![p]);
            assert(p.agents + Seq::<AgentSpecView>::empty() =~= waiting);
            assert(ready.to_multiset() =~= Multiset::empty());
            assert(ready.to_multiset().add(waiting.to_multiset()) =~= waiting.to_multiset());
        } else {
            let p = leveled_phase(ready, count + 1);
            let rest = level(waiting, done + ids_of(ready), count + 1, (budget - 1) as nat);
            lemma_level_keeps_units(waiting, done + ids_of(ready), count + 1, (budget - 1) as nat);
            lemma_flatten_prepend(p, rest);
            vstd::seq_lib::lemma_multiset_commutative(ready, flatten(rest));
        }
    }
}

/// Scheduling loses no work unit and duplicates none, whatever the dependencies
/// (cycles, self-dependencies and unknown ids included): the units over all phases
/// are, as a multiset, exactly the input units, so their count is the input's length.
pub proof fn lemma_schedule_keeps_every_spec(specs: Seq<AgentSpecView>, max_iterations: nat)
    ensures
        flatten(schedule_of(specs, max_iterations)).to_multiset() == specs.to_multiset(),
        total_len(schedule_of(specs, max_iterations)) == specs.len(),
{
    broadcast use vstd::seq_lib::group_to_multiset_ensures;

    lemma_level_keeps_units(specs, Seq::empty(), 0, max_iterations);
    lemma_total_len_flatten(schedule_of(specs, max_iterations));
    assert(flatten(schedule_of(specs, max_iterations)).to_multiset().len()
        == flatten(schedule_of(specs, max_iterations)).len());
}


/// Every dependency of every unit names a unit of `specs` of lower `rank`.
pub open spec fn ranked_by(specs: Seq<AgentSpecView>, rank: spec_fn(Seq<char>) -> nat) -> bool {
    forall|i: int, j: int|
        0 <= i < specs.len() && 0 <= j < specs[i].dependencies.len() ==> {
            &&& ids_of(specs).contains(#[trigger] specs[i].dependencies[j])
            &&& rank(specs[i].dependencies[j]) < rank(specs[i].id)
        }
}

/// The dependency graph of `specs` names only existing units and has no cycle
/// (self-dependencies included): some ranking of the ids decreases along every edge.
pub open spec fn acyclic(specs: Seq<AgentSpecView>) -> bool {
    exists|rank: spec_fn(Seq<char>) -> nat| ranked_by(specs, rank)
}

/// Some unit of a phase before the `k`-th has the id `id`.
pub open spec fn appears_before(phases: Seq<PhaseView>, k: int, id: Seq<char>) -> bool {
    exists|k2: int, i2: int|
        0 <= k2 < k && 0 <= i2 < phases[k2].agents.len() && #[trigger] phases[k2].agents[i2].id == id
}

/// Every dependency of a unit of `phases` is in `done` or is the id of a unit of an
/// earlier phase.
pub open spec fn deps_come_earlier(phases: Seq<PhaseView>, done: Seq<Seq<char>>) -> bool {
    forall|k: int, i: int, j: int|
        0 <= k < phases.len() && 0 <= i < phases[k].agents.len() && 0 <= j
            < phases[k].agents[i].dependencies.len() ==> done.contains(
            #[trigger] phases[k].agents[i].dependencies[j],
        ) || appears_before(phases, k, phases[k].agents[i].dependencies[j])
}

/// Some unit of `rem` has the least rank of all.
proof fn lemma_least_rank(rem: Seq<AgentSpecView>, rank: spec_fn(Seq<char>) -> nat) -> (m: int)
    requires
        rem.len() > 0,
    ensures
        0 <= m < rem.len(),
        forall|i: int| 0 <= i < rem.len() ==> rank(rem[m].id) <= rank(#[trigger] rem[i].id),
    decreases rem.len(),
{
    if rem.len() == 1 {
        0
    } else {
        let m0 = lemma_least_rank(rem.drop_last(), rank);
        assert forall|i: int| 0 <= i < rem.len() - 1 implies rank(rem[m0].id) <= rank(#[trigger] rem[i].id) by {
            assert(rem.drop_last()[i] == rem[i]);
        }
        if rank(rem.last().id) < rank(rem[m0].id) {
            (rem.len() - 1) as int
        } else {
            m0
        }
    }
}

/// The units of `rem` whose unmet dependencies name units of `rem` of lower rank.
pub open spec fn ranked_within(
    rem: Seq<AgentSpecView>,
    done: Seq<Seq<char>>,
    rank: spec_fn(Seq<char>) -> nat,
) -> bool {
    forall|i: int, j: int|
        0 <= i < rem.len() && 0 <= j < rem[i].dependencies.len() && !done.contains(
            #[trigger] rem[i].dependencies[j],
        ) ==> ids_of(rem).contains(rem[i].dependencies[j]) && rank(rem[i].dependencies[j])
            < rank(rem[i].id)
}

/// When the unmet dependencies are ranked, some unit is ready.
proof fn lemma_some_ready(rem: Seq<AgentSpecView>, done: Seq<Seq<char>>, rank: spec_fn(Seq<char>) -> nat)
    requires
        rem.len() > 0,
        ranked_within(rem, done, rank),
    ensures
        ready_of(rem, done).len() > 0,
{
    let m = lemma_least_rank(rem, rank);
    assert forall|j: int| 0 <= j < rem[m].dependencies.len() implies done.contains(#[trigger] rem[m].dependencies[j]) by {
        let d = rem[m].dependencies[j];
        if !done.contains(d) {
            assert(ids_of(rem).contains(d));
            let t = choose|t: int| 0 <= t < ids_of(rem).len() && ids_of(rem)[t] == d;
            assert(rem[t].id == d);
            assert(rank(rem[m].id) <= rank(rem[t].id));
        }
    }
    assert(deps_met(rem[m], done));
    let pr = |s: AgentSpecView| deps_met(s, done);
    rem.lemma_filter_contains(pr, m);
}

/// Leveling units whose unmet dependencies are ranked puts every dependency in
/// `done` or in an earlier phase.
proof fn lemma_level_deps_earlier(
    rem: Seq<AgentSpecView>,
    done: Seq<Seq<char>>,
    count: nat,
    budget: nat,
    rank: spec_fn(Seq<char>) -> nat,
)
    requires
        budget >= rem.len(),
        ranked_within(rem, done, rank),
    ensures
        deps_come_earlier(level(rem, done, count, budget), done),
    decreases budget,
{
    if rem.len() > 0 {
        let ready = ready_of(rem, done);
        let waiting = waiting_of(rem, done);
        let pr = |s: AgentSpecView| deps_met(s, done);
        let pw = |s: AgentSpecView| !deps_met(s, done);
        lemma_some_ready(rem, done, rank);
        lemma_split_keeps_units(rem, done);
        let done2 = done + ids_of(ready);
        assert forall|i: int, j: int|
            0 <= i < waiting.len() && 0 <= j < waiting[i].dependencies.len() && !done2.contains(
                #[trigger] waiting[i].dependencies[j],
            ) implies ids_of(waiting).contains(waiting[i].dependencies[j]) && rank(
            waiting[i].dependencies[j],
        ) < rank(waiting[i].id) by {
            let s = waiting[i];
            let d = s.dependencies[j];
            assert(waiting.contains(s));
            rem.lemma_filter_contains_rev(pw, s);
            let si = choose|si: int| 0 <= si < rem.len() && rem[si] == s;
            assert(rem[si].dependencies[j] == d);
            assert(!done.contains(d)) by {
                if done.contains(d) {
                    let x = choose|x: int| 0 <= x < done.len() && done[x] == d;
                    assert(done2[x] == d);
                }
            }
            assert(ids_of(rem).contains(d));
            let t = choose|t: int| 0 <= t < ids_of(rem).len() && ids_of(rem)[t] == d;
            if deps_met(rem[t], done) {
                rem.lemma_filter_contains(pr, t);
                let r = choose|r: int| 0 <= r < ready.len() && ready[r] == rem[t];
                assert(ids_of(ready)[r] == d);
                assert(done2[done.len() + r] == d);
            } else {
                rem.lemma_filter_contains(pw, t);
                let w = choose|w: int| 0 <= w < waiting.len() && waiting[w] == rem[t];
                assert(ids_of(waiting)[w] == d);
            }
        }
        let p = leveled_phase(ready, count + 1);
        let rest = level(waiting, done2, count + 1, (budget - 1) as nat);
        lemma_level_deps_earlier(waiting, done2, count + 1, (budget - 1) as nat, rank);
        let all = level(rem, done, count, budget);
        assert(all == seq![p] + rest);
        assert forall|k: int, i: int, j: int|
            0 <= k < all.len() && 0 <= i < all[k].agents.len() && 0 <= j
                < all[k].agents[i].dependencies.len() implies done.contains(
                #[trigger] all[k].agents[i].dependencies[j],
            ) || appears_before(all, k, all[k].agents[i].dependencies[j]) by {
            let d = all[k].agents[i].dependencies[j];
            if k == 0 {
                assert(all[0].agents == ready);
                rem.lemma_filter_pred(pr, i);
                assert(deps_met(ready[i], done));
            } else {
                assert(all[k] == rest[k - 1]);
                assert(rest[k - 1].agents[i].dependencies[j] == d);
                if done2.contains(d) {
                    let x = choose|x: int| 0 <= x < done2.len() && done2[x] == d;
                    if x >= done.len() {
                        let r = x - done.len();
                        assert(ids_of(ready)[r] == d);
                        assert(all[0].agents[r].id == d);
                        assert(appears_before(all, k, d));
                    } else {
                        assert(done[x] == d);
                    }
                } else {
                    assert(appears_before(rest, k - 1, d));
                    let (k2, i2) = choose|k2: int, i2: int|
                        0 <= k2 < k - 1 && 0 <= i2 < rest[k2].agents.len() && #[trigger] rest[k2].agents[i2].id == d;
                    assert(all[k2 + 1] == rest[k2]);
                    assert(all[k2 + 1].agents[i2].id == d);
                    assert(appears_before(all, k, d));
                }
            }
        }
    }
}

/// On an acyclic set of units, and with at least as many rounds as units, every
/// dependency of every unit is the id of a unit in a strictly earlier phase.
pub proof fn lemma_schedule_respects_dependencies(specs: Seq<AgentSpecView>, max_iterations: nat)
    requires
        acyclic(specs),
        max_iterations >= specs.len(),
    ensures
        ({
            let phases = schedule_of(specs, max_iterations);
            forall|k: int, i: int, j: int|
                0 <= k < phases.len() && 0 <= i < phases[k].agents.len() && 0 <= j
                    < phases[k].agents[i].dependencies.len() ==> appears_before(
                    phases,
                    k,
                    #[trigger] phases[k].agents[i].dependencies[j],
                )
        }),
{
    let rank = choose|rank: spec_fn(Seq<char>) -> nat| ranked_by(specs, rank);
    let done = Seq::<Seq<char>>::empty();
    assert(ranked_within(specs, done, rank));
    lemma_level_deps_earlier(specs, done, 0, max_iterations, rank);
}


/// Any number of rounds at least the number of units gives the same phases.
pub proof fn lemma_level_ample_budget(
    rem: Seq<AgentSpecView>,
    done: Seq<Seq<char>>,
    count: nat,
    b1: nat,
    b2: nat,
)
    requires
        b1 >= rem.len(),
        b2 >= rem.len(),
    ensures
        level(rem, done, count, b1) == level(rem, done, count, b2),
    decreases b1,
{
    if rem.len() > 0 {
        lemma_split_keeps_units(rem, done);
        let ready = ready_of(rem, done);
        if ready.len() > 0 {
            lemma_level_ample_budget(
                waiting_of(rem, done),
                done + ids_of(ready),
                count + 1,
                (b1 - 1) as nat,
                (b2 - 1) as nat,
            );
        }
    }
}


/// A phase is parallel only if it holds more than one unit.
pub proof fn lemma_parallel_phases_have_several_units(
    rem: Seq<AgentSpecView>,
    done: Seq<Seq<char>>,
    count: nat,
    budget: nat,
)
    ensures
        forall|k: int|
            0 <= k < level(rem, done, count, budget).len() && (#[trigger] level(
                rem,
                done,
                count,
                budget,
            )[k]).parallel ==> level(rem, done, count, budget)[k].agents.len() > 1,
    decreases budget,
{
    if rem.len() > 0 && budget > 0 {
        let ready = ready_of(rem, done);
        if ready.len() > 0 {
            let rest = level(waiting_of(rem, done), done + ids_of(ready), count + 1, (budget - 1) as nat);
            lemma_parallel_phases_have_several_units(
                waiting_of(rem, done),
                done + ids_of(ready),
                count + 1,
                (budget - 1) as nat,
            );
            let all = level(rem, done, count, budget);
            assert forall|k: int| 0 <= k < all.len() && (#[trigger] all[k]).parallel implies all[k].agents.len() > 1 by {
                if k > 0 {
                    assert(all[k] == rest[k - 1]);
                }
            }
        }
    }
}

} // verus!
