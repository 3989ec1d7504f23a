use vstd::prelude::*;
use vstd::string::*;
use crate::capabilities::AgentCapability;
use crate::config::Config;
use crate::plan::{
    AgentSpec, AgentSpecView, ExecutionPhase, ExecutionPlan, flatten, phases_view, specs_view,
    strings_view, total_len,
};
use crate::scheduler::{ids_of, lemma_level_ample_budget, schedule, schedule_of};
use crate::text::{
    lemma_decimal_injective, char_vec, contains_chars, decimal, has_substring, keywords, keywords_of, lower_of, lowercase,
    push_decimal,
};

verus! {

/// What the analysis of a task found.
#[derive(Clone, Debug)]
pub struct TaskAnalysis {
    pub task_description: String,
    /// From 0 to 10.
    pub complexity: u8,
    pub estimated_files: usize,
    pub estimated_tokens: usize,
    /// Minutes.
    pub estimated_time_min: u32,
    pub estimated_time_max: u32,
    pub required_capabilities: Vec<AgentCapability>,
    pub keywords: Vec<String>,
}

/// Turns tasks into analyses and analyses into plans.
pub struct TaskPlanner {
    pub config: Config,
}

/// The id of the unit numbered `n` among those of one kind.
pub open spec fn unit_id(prefix: Seq<char>, n: nat) -> Seq<char> {
    prefix + "-"@ + decimal(n)
}

/// The units of `specs` with capability `cap`.
pub open spec fn with_capability(specs: Seq<AgentSpecView>, cap: AgentCapability) -> Seq<AgentSpecView> {
    specs.filter(|s: AgentSpecView| s.capability == cap)
}

/// How many code writers a code-writing capability calls for when `planned` units
/// already exist: one, but for a complex task touching many files one per three
/// files, within what remains of `max_agents` (and then at least one while any remains).
pub open spec fn writer_count(complexity: nat, files: nat, max_agents: nat, planned: nat) -> nat {
    if complexity >= 7 && files > 5 {
        let wanted: nat = if files / 3 >= 1 { files / 3 } else { 1 };
        let room: nat = if max_agents >= planned { (max_agents - planned) as nat } else { 0 };
        if wanted <= room { wanted } else { room }
    } else {
        1
    }
}

/// The display name of the `i`-th code writer.
pub open spec fn writer_name(i: nat) -> Seq<char> {
    if i == 0 {
        "Code Writer Alpha"@
    } else if i == 1 {
        "Code Writer Beta"@
    } else if i == 2 {
        "Code Writer Gamma"@
    } else {
        "Code Writer Delta-"@ + decimal((i - 2) as nat)
    }
}

/// The task of the `i`-th of `n` code writers.
pub open spec fn writer_task(i: nat, n: nat) -> Seq<char> {
    if n > 1 {
        "Implement code changes (Part "@ + decimal(i + 1) + ")"@
    } else {
        "Implement code changes"@
    }
}

/// A unit with the given fields.
pub open spec fn unit(
    id: Seq<char>,
    name: Seq<char>,
    cap: AgentCapability,
    task: Seq<char>,
    deps: Seq<Seq<char>>,
) -> AgentSpecView {
    AgentSpecView { id, agent_type: name, capability: cap, task, dependencies: deps }
}

/// The units one capability adds after the units `prev`.
pub open spec fn units_for(
    cap: AgentCapability,
    prev: Seq<AgentSpecView>,
    complexity: nat,
    files: nat,
    max_agents: nat,
) -> Seq<AgentSpecView> {
    match cap {
        AgentCapability::Architecture => seq![
            unit(
                unit_id("architect"@, with_capability(prev, cap).len()),
                "Architect"@,
                cap,
                "Design system architecture and create implementation plan"@,
                Seq::empty(),
            ),
        ],
        AgentCapability::CodeWriting => {
            let n = writer_count(complexity, files, max_agents, prev.len());
            Seq::new(
                n,
                |i: int|
                    unit(
                        unit_id("coder"@, with_capability(prev, cap).len() + i as nat),
                        writer_name(i as nat),
                        cap,
                        writer_task(i as nat, n),
                        ids_of(with_capability(prev, AgentCapability::Architecture)),
                    ),
            )
        },
        AgentCapability::Security => seq![
            unit(
                unit_id("security"@, with_capability(prev, cap).len()),
                "Security Auditor"@,
                cap,
                "Review code for security vulnerabilities"@,
                ids_of(with_capability(prev, AgentCapability::CodeWriting)),
            ),
        ],
        AgentCapability::Testing => seq![
            unit(
                unit_id("tester"@, with_capability(prev, cap).len()),
                "Test Engineer"@,
                cap,
                "Write comprehensive tests"@,
                ids_of(with_capability(prev, AgentCapability::CodeWriting)),
            ),
        ],
        AgentCapability::Documentation => seq![
            unit(
                unit_id("docs"@, with_capability(prev, cap).len()),
                "Documentation Writer"@,
                cap,
                "Create comprehensive documentation"@,
                ids_of(prev),
            ),
        ],
        AgentCapability::Migration => seq![
            unit(
                unit_id("migration"@, with_capability(prev, cap).len()),
                "Migration Specialist"@,
                cap,
                "Plan and execute migration strategy"@,
                Seq::empty(),
            ),
        ],
        _ => Seq::empty(),
    }
}

/// The units planned for the capabilities `caps`, taken in order.
pub open spec fn planned_units(
    caps: Seq<AgentCapability>,
    complexity: nat,
    files: nat,
    max_agents: nat,
) -> Seq<AgentSpecView>
    decreases caps.len(),
{
    if caps.len() == 0 {
        Seq::empty()
    } else {
        let prev = planned_units(caps.drop_last(), complexity, files, max_agents);
        prev + units_for(caps.last(), prev, complexity, files, max_agents)
    }
}


/// Keywords that each raise the complexity by two.
pub open spec fn high_impact_keywords() -> Seq<Seq<char>> {
    seq![
        "refactor"@, "migrate"@, "redesign"@, "architecture"@, "authentication"@, "oauth"@,
        "security"@, "encryption"@, "performance"@, "optimize"@, "scale"@, "distributed"@,
    ]
}

/// Keywords that each raise the complexity by one.
pub open spec fn medium_impact_keywords() -> Seq<Seq<char>> {
    seq![
        "implement"@, "create"@, "build"@, "add feature"@, "integration"@, "api"@, "database"@,
        "tests"@,
    ]
}

/// How many of the keywords `kws` occur in `t` (each counted once).
pub open spec fn present_count(kws: Seq<Seq<char>>, t: Seq<char>) -> nat
    decreases kws.len(),
{
    if kws.len() == 0 {
        0
    } else {
        present_count(kws.drop_last(), t) + if has_substring(t, kws.last()) { 1nat } else { 0nat }
    }
}

/// The complexity score of the text `t`: three, plus two per high-impact keyword,
/// one per medium-impact keyword and one if it joins requirements, at most ten.
pub open spec fn complexity_of(t: Seq<char>) -> nat {
    let raw = 3 + 2 * present_count(high_impact_keywords(), t) + present_count(
        medium_impact_keywords(),
        t,
    ) + if has_substring(t, " and "@) || has_substring(t, " with "@) { 1nat } else { 0nat };
    if raw > 10 { 10 } else { raw }
}

/// Some keyword of `kws` occurs in `t`.
pub open spec fn mentions_any(t: Seq<char>, kws: Seq<Seq<char>>) -> bool {
    exists|i: int| 0 <= i < kws.len() && has_substring(t, #[trigger] kws[i])
}

pub open spec fn code_writing_keywords() -> Seq<Seq<char>> {
    seq!["implement"@, "create"@, "write"@, "add"@, "build"@]
}

pub open spec fn testing_keywords() -> Seq<Seq<char>> {
    seq!["test"@, "testing"@, "coverage"@, "unit test"@]
}

pub open spec fn security_keywords() -> Seq<Seq<char>> {
    seq!["security"@, "auth"@, "oauth"@, "encryption"@, "vulnerability"@]
}

pub open spec fn documentation_keywords() -> Seq<Seq<char>> {
    seq!["document"@, "docs"@, "readme"@, "comments"@]
}

pub open spec fn debugging_keywords() -> Seq<Seq<char>> {
    seq!["debug"@, "fix"@, "bug"@, "error"@, "issue"@]
}

pub open spec fn performance_keywords() -> Seq<Seq<char>> {
    seq!["optimize"@, "performance"@, "speed"@, "efficiency"@]
}

pub open spec fn architecture_keywords() -> Seq<Seq<char>> {
    seq!["architecture"@, "design"@, "refactor"@, "structure"@]
}

pub open spec fn migration_keywords() -> Seq<Seq<char>> {
    seq!["migrate"@, "migration"@, "upgrade"@, "convert"@]
}

/// `cap` alone if `t` mentions one of `kws`, else nothing.
pub open spec fn if_mentioned(t: Seq<char>, kws: Seq<Seq<char>>, cap: AgentCapability) -> Seq<AgentCapability> {
    if mentions_any(t, kws) { seq![cap] } else { Seq::empty() }
}

/// The capabilities whose keywords `t` mentions, in a fixed order.
pub open spec fn mentioned_capabilities(t: Seq<char>) -> Seq<AgentCapability> {
    if_mentioned(t, code_writing_keywords(), AgentCapability::CodeWriting)
        + if_mentioned(t, testing_keywords(), AgentCapability::Testing)
        + if_mentioned(t, security_keywords(), AgentCapability::Security)
        + if_mentioned(t, documentation_keywords(), AgentCapability::Documentation)
        + if_mentioned(t, debugging_keywords(), AgentCapability::Debugging)
        + if_mentioned(t, performance_keywords(), AgentCapability::Performance)
        + if_mentioned(t, architecture_keywords(), AgentCapability::Architecture)
        + if_mentioned(t, migration_keywords(), AgentCapability::Migration)
}

/// The capabilities a task text calls for; code writing when none is mentioned.
pub open spec fn capabilities_of(t: Seq<char>) -> Seq<AgentCapability> {
    if mentioned_capabilities(t).len() == 0 {
        seq![AgentCapability::CodeWriting]
    } else {
        mentioned_capabilities(t)
    }
}

/// The base file estimate for a complexity.
pub open spec fn base_files(complexity: nat) -> nat {
    if complexity <= 3 { 1 } else if complexity <= 6 { 3 } else if complexity <= 8 { 8 } else { 12 }
}

/// The file estimate: the base, doubled for a whole-system task, halved (rounding
/// down) for a single-item task.
pub open spec fn files_of(t: Seq<char>, complexity: nat) -> nat {
    if has_substring(t, "system"@) || has_substring(t, "entire"@) {
        2 * base_files(complexity)
    } else if has_substring(t, "single"@) || has_substring(t, "one"@) {
        base_files(complexity) / 2
    } else {
        base_files(complexity)
    }
}

/// The token estimate: 2000 per file, scaled by one plus a fifth of the complexity.
pub open spec fn tokens_of(complexity: nat, files: nat) -> nat {
    files * 400 * (5 + complexity)
}

/// The time estimate in minutes, as (least, most).
pub open spec fn time_of(complexity: nat) -> (u32, u32) {
    if complexity <= 3 {
        (2, 5)
    } else if complexity <= 6 {
        (5, 15)
    } else if complexity <= 8 {
        (15, 30)
    } else {
        (30, 60)
    }
}


/// `a` is the analysis of the text `t`, recorded under the description `description`.
pub open spec fn analysis_of(a: TaskAnalysis, description: Seq<char>, t: Seq<char>) -> bool {
    let c = complexity_of(t);
    let f = files_of(t, c);
    &&& a.task_description@ == description
    &&& a.complexity as nat == c
    &&& a.estimated_files as nat == f
    &&& a.estimated_tokens as nat == tokens_of(c, f)
    &&& (a.estimated_time_min, a.estimated_time_max) == time_of(c)
    &&& a.required_capabilities@ == capabilities_of(t)
    &&& strings_view(a.keywords@) == keywords_of(t)
}

/// The phases of the plan for an analysis: the planned units, leveled with twice
/// as many rounds as units.
pub open spec fn plan_of(
    caps: Seq<AgentCapability>,
    complexity: nat,
    files: nat,
    max_agents: nat,
) -> Seq<crate::plan::PhaseView> {
    let units = planned_units(caps, complexity, files, max_agents);
    schedule_of(units, 2 * units.len())
}

/// The views of a list of string slices.
pub open spec fn strs_view(v: Seq<&str>) -> Seq<Seq<char>> {
    v.map_values(|k: &str| k@)
}

/// How many of the keywords `kws` occur in the characters `t`.
fn count_present(t: &Vec<char>, kws: &Vec<&str>) -> (n: usize)
    ensures
        n == present_count(strs_view(kws@), t@),
        n <= kws@.len(),
{
    let mut n: usize = 0;
    let mut i: usize = 0;
    while i < kws.len()
        invariant
            i <= kws@.len(),
            n <= i,
            n == present_count(strs_view(kws@).subrange(0, i as int), t@),
        decreases kws@.len() - i,
    {
        let k = char_vec(kws[i]);
        proof {
            assert(strs_view(kws@).subrange(0, i + 1).drop_last() =~= strs_view(kws@).subrange(0, i as int));
        }
        if contains_chars(t, &k) {
            n = n + 1;
        }
        i = i + 1;
    }
    assert(strs_view(kws@).subrange(0, i as int) =~= strs_view(kws@));
    n
}

/// Whether some keyword of `kws` occurs in the characters `t`.
fn mentions(t: &Vec<char>, kws: &Vec<&str>) -> (r: bool)
    ensures
        r == mentions_any(t@, strs_view(kws@)),
{
    let mut i: usize = 0;
    while i < kws.len()
        invariant
            i <= kws@.len(),
            forall|j: int| 0 <= j < i ==> !has_substring(t@, #[trigger] strs_view(kws@)[j]),
        decreases kws@.len() - i,
    {
        let k = char_vec(kws[i]);
        if contains_chars(t, &k) {
            assert(has_substring(t@, strs_view(kws@)[i as int]));
            return true;
        }
        i = i + 1;
    }
    false
}


/// Appends `cap` when the characters `t` mention one of `kws`.
fn push_if_mentioned(caps: &mut Vec<AgentCapability>, t: &Vec<char>, kws: &Vec<&str>, cap: AgentCapability)
    ensures
        final(caps)@ == old(caps)@ + if_mentioned(t@, strs_view(kws@), cap),
{
    if mentions(t, kws) {
        caps.push(cap);
        assert(caps@ =~= old(caps)@ + seq![cap]);
    } else {
        assert(old(caps)@ + Seq::<AgentCapability>::empty() =~= old(caps)@);
    }
}


/// The id prefix of the units of a capability.
pub open spec fn id_prefix(cap: AgentCapability) -> Seq<char> {
    match cap {
        AgentCapability::Architecture => "architect"@,
        AgentCapability::CodeWriting => "coder"@,
        AgentCapability::Security => "security"@,
        AgentCapability::Testing => "tester"@,
        AgentCapability::Documentation => "docs"@,
        AgentCapability::Migration => "migration"@,
        _ => Seq::empty(),
    }
}

/// The capabilities for which units are planned.
pub open spec fn gets_units(cap: AgentCapability) -> bool {
    match cap {
        AgentCapability::Debugging | AgentCapability::Performance | AgentCapability::Review => false,
        _ => true,
    }
}

proof fn lemma_count_all_same(s: Seq<AgentSpecView>, cap: AgentCapability)
    requires
        forall|j: int| 0 <= j < s.len() ==> #[trigger] s[j].capability == cap,
    ensures
        with_capability(s, cap).len() == s.len(),
    decreases s.len(),
{
    reveal(Seq::filter);
    if s.len() > 0 {
        lemma_count_all_same(s.drop_last(), cap);
    }
}

/// Each planned unit's id is its capability's prefix and the number of units of
/// that capability planned before it.
proof fn lemma_planned_ids(caps: Seq<AgentCapability>, cx: nat, fl: nat, ma: nat)
    ensures
        ({
            let u = planned_units(caps, cx, fl, ma);
            forall|k: int|
                0 <= k < u.len() ==> gets_units(#[trigger] u[k].capability) && u[k].id == unit_id(
                    id_prefix(u[k].capability),
                    with_capability(u.take(k), u[k].capability).len(),
                )
        }),
    decreases caps.len(),
{
    broadcast use Seq::filter_distributes_over_add;

    if caps.len() > 0 {
        let prev = planned_units(caps.drop_last(), cx, fl, ma);
        lemma_planned_ids(caps.drop_last(), cx, fl, ma);
        let cap = caps.last();
        let add = units_for(cap, prev, cx, fl, ma);
        let u = planned_units(caps, cx, fl, ma);
        assert(u == prev + add);
        assert forall|k: int|
            0 <= k < u.len() implies gets_units(#[trigger] u[k].capability) && u[k].id == unit_id(
                id_prefix(u[k].capability),
                with_capability(u.take(k), u[k].capability).len(),
            ) by {
            if k < prev.len() {
                assert(u[k] == prev[k]);
                assert(u.take(k) =~= prev.take(k));
            } else {
                let i = k - prev.len();
                assert(u[k] == add[i]);
                assert(u.take(k) =~= prev + add.take(i));
                let c = u[k].capability;
                assert(with_capability(prev + add.take(i), c) == with_capability(prev, c)
                    + with_capability(add.take(i), c));
                if cap == AgentCapability::CodeWriting {
                    lemma_count_all_same(add.take(i), cap);
                } else {
                    assert(add.take(i) =~= Seq::<AgentSpecView>::empty());
                    lemma_count_all_same(add.take(i), c);
                }
            }
        }
    }
}

/// Units of one capability are numbered in planning order.
proof fn lemma_count_grows(u: Seq<AgentSpecView>, k1: int, k2: int)
    requires
        0 <= k1 < k2 <= u.len(),
    ensures
        with_capability(u.take(k2), u[k1].capability).len() >= with_capability(
            u.take(k1),
            u[k1].capability,
        ).len() + 1,
{
    broadcast use Seq::filter_distributes_over_add;

    let c = u[k1].capability;
    assert(u.take(k2) =~= u.take(k1) + seq![u[k1]] + u.subrange(k1 + 1, k2));
    lemma_count_all_same(seq![u[k1]], c);
    assert(with_capability(u.take(k1) + seq![u[k1]] + u.subrange(k1 + 1, k2), c) == with_capability(
        u.take(k1),
        c,
    ) + with_capability(seq![u[k1]], c) + with_capability(u.subrange(k1 + 1, k2), c));
}

/// The ids of the units of one planning call are pairwise distinct.
pub proof fn lemma_planned_ids_unique(caps: Seq<AgentCapability>, complexity: nat, files: nat, max_agents: nat)
    ensures
        ids_of(planned_units(caps, complexity, files, max_agents)).no_duplicates(),
{
    let u = planned_units(caps, complexity, files, max_agents);
    lemma_planned_ids(caps, complexity, files, max_agents);
    reveal_strlit("architect");
    reveal_strlit("coder");
    reveal_strlit("security");
    reveal_strlit("tester");
    reveal_strlit("docs");
    reveal_strlit("migration");
    reveal_strlit("-");
    assert forall|a: int, b: int|
        0 <= a < ids_of(u).len() && 0 <= b < ids_of(u).len() && a != b implies ids_of(u)[a]
        != ids_of(u)[b] by {
        let (k1, k2) = if a < b { (a, b) } else { (b, a) };
        let c1 = u[k1].capability;
        let c2 = u[k2].capability;
        let n1 = with_capability(u.take(k1), c1).len();
        let n2 = with_capability(u.take(k2), c2).len();
        let p1 = id_prefix(c1);
        let p2 = id_prefix(c2);
        assert(ids_of(u)[k1] == u[k1].id);
        assert(ids_of(u)[k2] == u[k2].id);
        if u[k1].id == u[k2].id {
            if c1 != c2 {
                assert(u[k1].id[0] == p1[0]);
                assert(u[k2].id[0] == p2[0]);
            } else {
                lemma_count_grows(u, k1, k2);
                let d1 = decimal(n1);
                let d2 = decimal(n2);
                assert(u[k1].id.subrange(p1.len() + 1int, u[k1].id.len() as int) =~= d1);
                assert(u[k2].id.subrange(p2.len() + 1int, u[k2].id.len() as int) =~= d2);
                lemma_decimal_injective(n1, n2);
            }
        }
    }
}


/// The label shown for a complexity score.
pub open spec fn complexity_label_of(complexity: nat) -> Seq<char> {
    if complexity <= 3 {
        "Low"@
    } else if complexity <= 6 {
        "Medium"@
    } else if complexity <= 8 {
        "High"@
    } else {
        "Very High"@
    }
}

/// The label shown for a complexity score.
pub fn complexity_label(complexity: u8) -> (r: &'static str)
    ensures
        r@ == complexity_label_of(complexity as nat),
{
    if complexity <= 3 {
        "Low"
    } else if complexity <= 6 {
        "Medium"
    } else if complexity <= 8 {
        "High"
    } else {
        "Very High"
    }
}

/// The id `prefix-n`.
fn make_id(prefix: &str, n: usize) -> (r: String)
    ensures
        r@ == unit_id(prefix@, n as nat),
{
    let mut s = String::from_str(prefix);
    s.append("-");
    push_decimal(&mut s, n);
    s
}

/// The ids of the units of `specs` with capability `cap`, in order.
fn ids_with(specs: &Vec<AgentSpec>, cap: AgentCapability) -> (r: Vec<String>)
    ensures
        strings_view(r@) == ids_of(with_capability(specs_view(specs@), cap)),
{
    let ghost all = specs_view(specs@);
    let mut out: Vec<String> = Vec::new();
    let mut k: usize = 0;
    while k < specs.len()
        invariant
            all == specs_view(specs@),
            k <= all.len(),
            strings_view(out@) == ids_of(with_capability(all.subrange(0, k as int), cap)),
        decreases all.len() - k,
    {
        proof {
            reveal(Seq::filter);
            assert(all.subrange(0, k + 1).drop_last() =~= all.subrange(0, k as int));
            assert(all.subrange(0, k + 1).last() == specs@[k as int]@);
        }
        if specs[k].capability == cap {
            let ghost prev = out@;
            let id = specs[k].id.clone();
            out.push(id);
            assert(strings_view(out@) =~= strings_view(prev).push(specs@[k as int]@.id));
            assert(strings_view(out@) =~= ids_of(with_capability(all.subrange(0, k + 1), cap)));
        } else {
            assert(with_capability(all.subrange(0, k + 1), cap) == with_capability(all.subrange(0, k as int), cap));
        }
        k = k + 1;
    }
    assert(all.subrange(0, k as int) =~= all);
    out
}

/// The ids of all units of `specs`, in order.
fn all_ids(specs: &Vec<AgentSpec>) -> (r: Vec<String>)
    ensures
        strings_view(r@) == ids_of(specs_view(specs@)),
{
    let mut out: Vec<String> = Vec::new();
    let mut k: usize = 0;
    while k < specs.len()
        invariant
            k <= specs@.len(),
            strings_view(out@) == ids_of(specs_view(specs@)).subrange(0, k as int),
        decreases specs@.len() - k,
    {
        let ghost prev = out@;
        let id = specs[k].id.clone();
        assert(ids_of(specs_view(specs@))[k as int] == id@);
        out.push(id);
        assert(strings_view(out@) =~= strings_view(prev).push(id@));
        k = k + 1;
        assert(strings_view(out@) =~= ids_of(specs_view(specs@)).subrange(0, k as int));
    }
    assert(ids_of(specs_view(specs@)).subrange(0, k as int) =~= ids_of(specs_view(specs@)));
    out
}

/// A unit built from its parts.
fn make_unit(id: String, name: String, cap: AgentCapability, task: String, deps: Vec<String>) -> (r: AgentSpec)
    ensures
        r@ == unit(id@, name@, cap, task@, strings_view(deps@)),
{
    AgentSpec { id, agent_type: name, capability: cap, task, dependencies: deps }
}

/// A copy of a list of strings.
fn copy_strings(v: &Vec<String>) -> (r: Vec<String>)
    ensures
        r@ == v@,
{
    let mut out: Vec<String> = Vec::new();
    let mut k: usize = 0;
    while k < v.len()
        invariant
            k <= v@.len(),
            out@ == v@.subrange(0, k as int),
        decreases v@.len() - k,
    {
        out.push(v[k].clone());
        k = k + 1;
        assert(out@ =~= v@.subrange(0, k as int));
    }
    assert(v@.subrange(0, k as int) =~= v@);
    out
}

/// The display name of the `i`-th code writer.
fn writer_name_exec(i: usize) -> (r: String)
    ensures
        r@ == writer_name(i as nat),
{
    if i == 0 {
        String::from_str("Code Writer Alpha")
    } else if i == 1 {
        String::from_str("Code Writer Beta")
    } else if i == 2 {
        String::from_str("Code Writer Gamma")
    } else {
        let mut s = String::from_str("Code Writer Delta-");
        push_decimal(&mut s, i - 2);
        s
    }
}

/// The task of the `i`-th of `n` code writers.
fn writer_task_exec(i: usize, n: usize) -> (r: String)
    requires
        i < n,
    ensures
        r@ == writer_task(i as nat, n as nat),
{
    let mut s = String::from_str("Implement code changes");
    if n > 1 {
        s.append(" (Part ");
        push_decimal(&mut s, i + 1);
        s.append(")");
        proof {
            reveal_strlit("Implement code changes");
            reveal_strlit(" (Part ");
            reveal_strlit("Implement code changes (Part ");
        }
        assert(s@ =~= writer_task(i as nat, n as nat));
    }
    s
}

/// The number of code writers, as [`writer_count`] states it.
fn writer_count_exec(complexity: u8, files: usize, max_agents: usize, planned: usize) -> (r: usize)
    ensures
        r == writer_count(complexity as nat, files as nat, max_agents as nat, planned as nat),
{
    if complexity >= 7 && files > 5 {
        let wanted: usize = if files / 3 >= 1 { files / 3 } else { 1 };
        let room: usize = if max_agents >= planned { max_agents - planned } else { 0 };
        if wanted <= room { wanted } else { room }
    } else {
        1
    }
}


impl TaskPlanner {
    pub fn new(config: Config) -> (r: TaskPlanner)
        ensures
            r.config == config,
    {
        TaskPlanner { config }
    }


    /// The complexity score of `task`, matched exactly as given (no case folding).
    pub fn estimate_complexity(&self, task: &str) -> (r: u8)
        ensures
            r == complexity_of(task@),
    {
        let t = char_vec(task);
        let high: Vec<&str> = vec![
            "refactor", "migrate", "redesign", "architecture", "authentication", "oauth",
            "security", "encryption", "performance", "optimize", "scale", "distributed",
        ];
        let medium: Vec<&str> = vec![
            "implement", "create", "build", "add feature", "integration", "api", "database",
            "tests",
        ];
        assert(strs_view(high@) =~= high_impact_keywords());
        assert(strs_view(medium@) =~= medium_impact_keywords());
        let h = count_present(&t, &high);
        let m = count_present(&t, &medium);
        let mut complexity: usize = 3 + 2 * h + m;
        if contains_chars(&t, &char_vec(" and ")) || contains_chars(&t, &char_vec(" with ")) {
            complexity = complexity + 1;
        }
        if complexity > 10 {
            10
        } else {
            complexity as u8
        }
    }

    /// The capabilities `task` calls for, in a fixed order, each once; code
    /// writing when no keyword matches.
    pub fn detect_capabilities(&self, task: &str) -> (r: Vec<AgentCapability>)
        ensures
            r@ == capabilities_of(task@),
    {
        let t = char_vec(task);
        let mut caps: Vec<AgentCapability> = Vec::new();
        let kw: Vec<&str> = vec!["implement", "create", "write", "add", "build"];
        assert(strs_view(kw@) =~= code_writing_keywords());
        push_if_mentioned(&mut caps, &t, &kw, AgentCapability::CodeWriting);
        let kw: Vec<&str> = vec!["test", "testing", "coverage", "unit test"];
        assert(strs_view(kw@) =~= testing_keywords());
        push_if_mentioned(&mut caps, &t, &kw, AgentCapability::Testing);
        let kw: Vec<&str> = vec!["security", "auth", "oauth", "encryption", "vulnerability"];
        assert(strs_view(kw@) =~= security_keywords());
        push_if_mentioned(&mut caps, &t, &kw, AgentCapability::Security);
        let kw: Vec<&str> = vec!["document", "docs", "readme", "comments"];
        assert(strs_view(kw@) =~= documentation_keywords());
        push_if_mentioned(&mut caps, &t, &kw, AgentCapability::Documentation);
        let kw: Vec<&str> = vec!["debug", "fix", "bug", "error", "issue"];
        assert(strs_view(kw@) =~= debugging_keywords());
        push_if_mentioned(&mut caps, &t, &kw, AgentCapability::Debugging);
        let kw: Vec<&str> = vec!["optimize", "performance", "speed", "efficiency"];
        assert(strs_view(kw@) =~= performance_keywords());
        push_if_mentioned(&mut caps, &t, &kw, AgentCapability::Performance);
        let kw: Vec<&str> = vec!["architecture", "design", "refactor", "structure"];
        assert(strs_view(kw@) =~= architecture_keywords());
        push_if_mentioned(&mut caps, &t, &kw, AgentCapability::Architecture);
        let kw: Vec<&str> = vec!["migrate", "migration", "upgrade", "convert"];
        assert(strs_view(kw@) =~= migration_keywords());
        push_if_mentioned(&mut caps, &t, &kw, AgentCapability::Migration);
        assert(caps@ =~= Seq::empty()
            + if_mentioned(task@, code_writing_keywords(), AgentCapability::CodeWriting)
            + if_mentioned(task@, testing_keywords(), AgentCapability::Testing)
            + if_mentioned(task@, security_keywords(), AgentCapability::Security)
            + if_mentioned(task@, documentation_keywords(), AgentCapability::Documentation)
            + if_mentioned(task@, debugging_keywords(), AgentCapability::Debugging)
            + if_mentioned(task@, performance_keywords(), AgentCapability::Performance)
            + if_mentioned(task@, architecture_keywords(), AgentCapability::Architecture)
            + if_mentioned(task@, migration_keywords(), AgentCapability::Migration));
        assert(caps@ =~= mentioned_capabilities(task@));
        if caps.len() == 0 {
            caps.push(AgentCapability::CodeWriting);
            assert(caps@ =~= seq![AgentCapability::CodeWriting]);
        }
        caps
    }

    /// The file estimate for `task` at the given complexity.
    pub fn estimate_files(&self, task: &str, complexity: u8) -> (r: usize)
        ensures
            r == files_of(task@, complexity as nat),
    {
        let t = char_vec(task);
        let base: usize = if complexity <= 3 {
            1
        } else if complexity <= 6 {
            3
        } else if complexity <= 8 {
            8
        } else {
            12
        };
        if contains_chars(&t, &char_vec("system")) || contains_chars(&t, &char_vec("entire")) {
            base * 2
        } else if contains_chars(&t, &char_vec("single")) || contains_chars(&t, &char_vec("one")) {
            base / 2
        } else {
            base
        }
    }

    /// The token estimate for a complexity and a file count.
    pub fn estimate_tokens(&self, complexity: u8, files: usize) -> (r: usize)
        requires
            tokens_of(complexity as nat, files as nat) <= usize::MAX,
        ensures
            r == tokens_of(complexity as nat, files as nat),
    {
        let scale: usize = 5 + complexity as usize;
        assert(files * 400 <= files * 400 * scale) by (nonlinear_arith)
            requires scale >= 5;
        files * 400 * scale
    }

    /// The time estimate in minutes, as (least, most).
    pub fn estimate_time(&self, complexity: u8) -> (r: (u32, u32))
        ensures
            r == time_of(complexity as nat),
    {
        if complexity <= 3 {
            (2, 5)
        } else if complexity <= 6 {
            (5, 15)
        } else if complexity <= 8 {
            (15, 30)
        } else {
            (30, 60)
        }
    }


    /// Analyzes `task` exactly as given: no case folding.
    pub fn analyze(&self, task: &str) -> (r: TaskAnalysis)
        ensures
            analysis_of(r, task@, task@),
    {
        let complexity = self.estimate_complexity(task);
        let capabilities = self.detect_capabilities(task);
        let kws = self.extract_keywords(task);
        let estimated_files = self.estimate_files(task, complexity);
        assert(complexity <= 10);
        assert(estimated_files <= 24);
        assert(tokens_of(complexity as nat, estimated_files as nat) <= 144000) by (nonlinear_arith)
            requires
                complexity <= 10,
                estimated_files <= 24,
                tokens_of(complexity as nat, estimated_files as nat) == estimated_files as nat * 400 * (5 + complexity as nat),
        ;
        let estimated_tokens = self.estimate_tokens(complexity, estimated_files);
        let (time_min, time_max) = self.estimate_time(complexity);
        TaskAnalysis {
            task_description: String::from_str(task),
            complexity,
            estimated_files,
            estimated_tokens,
            estimated_time_min: time_min,
            estimated_time_max: time_max,
            required_capabilities: capabilities,
            keywords: kws,
        }
    }

    /// Analyzes the lowercase form of `task`, keeping `task` itself as the description.
    pub fn analyze_task(&self, task: &str) -> (r: TaskAnalysis)
        ensures
            analysis_of(r, task@, lower_of(task@)),
    {
        let lower = lowercase(task);
        let mut analysis = self.analyze(lower.as_str());
        analysis.task_description = String::from_str(task);
        analysis
    }

    /// The first ten white-space separated words of `task` longer than three characters.
    pub fn extract_keywords(&self, task: &str) -> (r: Vec<String>)
        ensures
            strings_view(r@) == keywords_of(task@),
    {
        keywords(task)
    }

    /// Arranges `specs` into phases, with twice as many leveling rounds as units.
    pub fn create_phases(&self, analysis: &TaskAnalysis, specs: Vec<AgentSpec>) -> (r: Vec<ExecutionPhase>)
        ensures
            phases_view(r@) == schedule_of(specs_view(specs@), 2 * specs@.len()),
            flatten(phases_view(r@)).to_multiset() == specs_view(specs@).to_multiset(),
            total_len(phases_view(r@)) == specs@.len(),
    {
        let n = specs.len();
        let bound: usize = if n <= usize::MAX / 2 { n * 2 } else { usize::MAX };
        proof {
            lemma_level_ample_budget(specs_view(specs@), Seq::empty(), 0, bound as nat, 2 * specs@.len());
        }
        schedule(specs, bound)
    }

    /// The plan for an analysis: its units, leveled into phases.
    pub fn create_plan(&self, analysis: &TaskAnalysis, max_agents: usize) -> (r: ExecutionPlan)
        ensures
            r@ == plan_of(
                analysis.required_capabilities@,
                analysis.complexity as nat,
                analysis.estimated_files as nat,
                max_agents as nat,
            ),
    {
        let specs = self.plan_agents(analysis, max_agents);
        let phases = self.create_phases(analysis, specs);
        ExecutionPlan { phases }
    }

    /// The work units for the analysis's capabilities, in their order, with at
    /// most `max_agents` code writers fanned out for a complex task.
    pub fn plan_agents(&self, analysis: &TaskAnalysis, max_agents: usize) -> (r: Vec<AgentSpec>)
        ensures
            specs_view(r@) == planned_units(
                analysis.required_capabilities@,
                analysis.complexity as nat,
                analysis.estimated_files as nat,
                max_agents as nat,
            ),
            ids_of(specs_view(r@)).no_duplicates(),
    {
        proof {
            lemma_planned_ids_unique(
                analysis.required_capabilities@,
                analysis.complexity as nat,
                analysis.estimated_files as nat,
                max_agents as nat,
            );
        }
        let caps = &analysis.required_capabilities;
        let ghost cx = analysis.complexity as nat;
        let ghost fl = analysis.estimated_files as nat;
        let ghost ma = max_agents as nat;
        let mut specs: Vec<AgentSpec> = Vec::new();
        let mut c: usize = 0;
        while c < caps.len()
            invariant
                c <= caps@.len(),
                specs_view(specs@) == planned_units(caps@.subrange(0, c as int), cx, fl, ma),
                cx == analysis.complexity as nat,
                fl == analysis.estimated_files as nat,
                ma == max_agents as nat,
                caps == &analysis.required_capabilities,
            decreases caps@.len() - c,
        {
            let cap = caps[c];
            let ghost prev = specs_view(specs@);
            proof {
                assert(caps@.subrange(0, c + 1).drop_last() =~= caps@.subrange(0, c as int));
                assert(caps@.subrange(0, c + 1).last() == cap);
                prev.lemma_filter_len(|s: AgentSpecView| s.capability == cap);
            }
            let ghost target = prev + units_for(cap, prev, cx, fl, ma);
            match cap {
                AgentCapability::Architecture => {
                    let n = ids_with(&specs, cap).len();
                    assert(n == ids_of(with_capability(prev, cap)).len());
                    let none: Vec<String> = Vec::new();
                    assert(strings_view(none@) =~= Seq::<Seq<char>>::empty());
                    let u = make_unit(
                        make_id("architect", n),
                        String::from_str("Architect"),
                        cap,
                        String::from_str("Design system architecture and create implementation plan"),
                        none,
                    );
                    let ghost uv = u@;
                    specs.push(u);
                    assert(specs_view(specs@) =~= prev.push(uv));
                    assert(specs_view(specs@) =~= target);
                },
                AgentCapability::CodeWriting => {
                    let base = ids_with(&specs, cap).len();
                    let deps = ids_with(&specs, AgentCapability::Architecture);
                    let n = writer_count_exec(analysis.complexity, analysis.estimated_files, max_agents, specs.len());
                    let ghost added = units_for(cap, prev, cx, fl, ma);
                    assert(added.len() == n);
                    assert(base == ids_of(with_capability(prev, cap)).len());
                    assert(base == with_capability(prev, cap).len());
                    let mut i: usize = 0;
                    while i < n
                        invariant
                            i <= n,
                            n == added.len(),
                            specs@.len() == prev.len() + i,
                            base <= prev.len(),
                            added == units_for(cap, prev, cx, fl, ma),
                            cap == AgentCapability::CodeWriting,
                            base == with_capability(prev, cap).len(),
                            strings_view(deps@) == ids_of(with_capability(prev, AgentCapability::Architecture)),
                            n == writer_count(cx, fl, ma, prev.len()),
                            specs_view(specs@) == prev + added.subrange(0, i as int),
                        decreases n - i,
                    {
                        // The number so far fits in a usize: it is at most the length read here.
                        let _planned = specs.len();
                        let u = make_unit(
                            make_id("coder", base + i),
                            writer_name_exec(i),
                            cap,
                            writer_task_exec(i, n),
                            copy_strings(&deps),
                        );
                        assert(u@ == added[i as int]);
                        let ghost before = specs_view(specs@);
                        specs.push(u);
                        i = i + 1;
                        assert(specs_view(specs@) =~= before.push(added[i - 1]));
                        assert(specs_view(specs@) =~= prev + added.subrange(0, i as int));
                    }
                    assert(added.subrange(0, i as int) =~= added);
                },
                AgentCapability::Security => {
                    let n = ids_with(&specs, cap).len();
                    assert(n == ids_of(with_capability(prev, cap)).len());
                    let deps = ids_with(&specs, AgentCapability::CodeWriting);
                    let u = make_unit(
                        make_id("security", n),
                        String::from_str("Security Auditor"),
                        cap,
                        String::from_str("Review code for security vulnerabilities"),
                        deps,
                    );
                    let ghost uv = u@;
                    specs.push(u);
                    assert(specs_view(specs@) =~= prev.push(uv));
                    assert(specs_view(specs@) =~= target);
                },
                AgentCapability::Testing => {
                    let n = ids_with(&specs, cap).len();
                    assert(n == ids_of(with_capability(prev, cap)).len());
                    let deps = ids_with(&specs, AgentCapability::CodeWriting);
                    let u = make_unit(
                        make_id("tester", n),
                        String::from_str("Test Engineer"),
                        cap,
                        String::from_str("Write comprehensive tests"),
                        deps,
                    );
                    let ghost uv = u@;
                    specs.push(u);
                    assert(specs_view(specs@) =~= prev.push(uv));
                    assert(specs_view(specs@) =~= target);
                },
                AgentCapability::Documentation => {
                    let n = ids_with(&specs, cap).len();
                    assert(n == ids_of(with_capability(prev, cap)).len());
                    let deps = all_ids(&specs);
                    let u = make_unit(
                        make_id("docs", n),
                        String::from_str("Documentation Writer"),
                        cap,
                        String::from_str("Create comprehensive documentation"),
                        deps,
                    );
                    let ghost uv = u@;
                    specs.push(u);
                    assert(specs_view(specs@) =~= prev.push(uv));
                    assert(specs_view(specs@) =~= target);
                },
                AgentCapability::Migration => {
                    let n = ids_with(&specs, cap).len();
                    assert(n == ids_of(with_capability(prev, cap)).len());
                    let none: Vec<String> = Vec::new();
                    assert(strings_view(none@) =~= Seq::<Seq<char>>::empty());
                    let u = make_unit(
                        make_id("migration", n),
                        String::from_str("Migration Specialist"),
                        cap,
                        String::from_str("Plan and execute migration strategy"),
                        none,
                    );
                    let ghost uv = u@;
                    specs.push(u);
                    assert(specs_view(specs@) =~= prev.push(uv));
                    assert(specs_view(specs@) =~= target);
                },
                _ => {
                    assert(target =~= prev);
                },
            }
            c = c + 1;
        }
        assert(caps@.subrange(0, c as int) =~= caps@);
        specs
    }
}

} // verus!
