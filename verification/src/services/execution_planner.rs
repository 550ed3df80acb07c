//! Plans the execution order of a workflow's jobs from their `needs`.
use vstd::prelude::*;

use crate::aggregates::workflow::Workflow;
use crate::entities::job::{copied_job, copy_texts, names_view, Job};
use crate::entities::job_run::JobRun;
use crate::errors::PlanError;
use crate::services::job_graph::{
    edge, find_cycle, graph_view, has_cycle, lemma_ranked_acyclic, order_stages,
    ranks, reaches, staged, stages_view, valid_graph,
};
use crate::text_map::{index_in, key_of, lemma_index_in, TextMap};
use crate::value_objects::execution_plan::ExecutionPlan;
use crate::value_objects::execution_stage::ExecutionStage;

verus! {

/// The job names of a dependency map, in order.
pub open spec fn dep_names(deps: TextMap<Vec<String>>) -> Seq<Seq<char>> {
    deps.keys_view()
}

/// The needs of each job of a dependency map, by name.
pub open spec fn dep_needs(deps: TextMap<Vec<String>>) -> Seq<Seq<Seq<char>>> {
    deps.entries().map_values(|e: (String, Vec<String>)| names_view(e.1@))
}

/// Index of the job named `nm`, or `-1`.
pub open spec fn name_index(names: Seq<Seq<char>>, nm: Seq<char>) -> int
    decreases names.len(),
{
    if names.len() == 0 {
        -1
    } else if names.last() == nm {
        names.len() - 1
    } else {
        name_index(names.drop_last(), nm)
    }
}

/// The indices of the jobs named in `ns` that exist, in order.
pub open spec fn resolved(names: Seq<Seq<char>>, ns: Seq<Seq<char>>) -> Seq<usize>
    decreases ns.len(),
{
    if ns.len() == 0 {
        Seq::empty()
    } else {
        let r = resolved(names, ns.drop_last());
        let i = name_index(names, ns.last());
        if i >= 0 {
            r.push(i as usize)
        } else {
            r
        }
    }
}

/// The graph of needs between the jobs, by index: needs of jobs that do
/// not exist are left out.
pub open spec fn needs_graph(names: Seq<Seq<char>>, needs: Seq<Seq<Seq<char>>>) -> Seq<Seq<usize>> {
    Seq::new(needs.len(), |i: int| resolved(names, needs[i]))
}

/// The first need in `ns`, from index `k`, that names no job.
pub open spec fn missing_in(names: Seq<Seq<char>>, ns: Seq<Seq<char>>, k: int) -> Option<int>
    decreases ns.len() - k,
{
    if k < 0 || k >= ns.len() {
        None
    } else if name_index(names, ns[k]) < 0 {
        Some(k)
    } else {
        missing_in(names, ns, k + 1)
    }
}

/// The first job, from index `i`, with a need that names no job, and the
/// index of that need.
pub open spec fn missing_from(names: Seq<Seq<char>>, needs: Seq<Seq<Seq<char>>>, i: int) -> Option<(int, int)>
    decreases needs.len() - i,
{
    if i < 0 || i >= needs.len() {
        None
    } else {
        match missing_in(names, needs[i], 0) {
            Some(k) => Some((i, k)),
            None => missing_from(names, needs, i + 1),
        }
    }
}

/// The needs of each job of a workflow, by name.
pub open spec fn workflow_needs(workflow: Workflow) -> Seq<Seq<Seq<char>>> {
    workflow.jobs_view().entries().map_values(|e: (String, Job)| e.1.needs_view())
}

/// What planning `workflow` gives: a cycle of needs is reported first,
/// naming a need that lies on it; then the first need that names no job;
/// otherwise the plan.
pub open spec fn plan_outcome(workflow: Workflow, r: Result<ExecutionPlan, PlanError>) -> bool {
    let names = workflow.jobs_view().keys_view();
    let needs = workflow_needs(workflow);
    let g = needs_graph(names, needs);
    &&& has_cycle(g) <==> (r matches Err(PlanError::CycleDetected { .. }))
    &&& (r matches Err(PlanError::CycleDetected { job, dependency }) ==> exists|a: int, b: int|
            names[a] == job@ && names[b] == dependency@ && edge(g, a, b) && #[trigger] reaches(g, b, a))
    &&& (!has_cycle(g) ==> match missing_from(names, needs, 0) {
            Some((i, k)) => r matches Err(PlanError::MissingDependency { job, dependency })
                && job@ == names[i] && dependency@ == needs[i][k],
            None => r matches Ok(plan) && exists|deps: TextMap<Vec<String>>|
                dep_names(deps) == names && dep_needs(deps) == needs && #[trigger] plans(deps, workflow, plan.stages_view()),
        })
}

/// The job ids of each stage.
pub open spec fn stage_ids(stages: Seq<ExecutionStage>) -> Seq<Seq<Seq<char>>> {
    stages.map_values(|s: ExecutionStage| s.runs_view().map_values(|r: JobRun| r.job_id_view()))
}

/// Stage indices turned into job names.
pub open spec fn named_stages(names: Seq<Seq<char>>, idx: Seq<Seq<usize>>) -> Seq<Seq<Seq<char>>> {
    idx.map_values(|s: Seq<usize>| s.map_values(|i: usize| names[i as int]))
}

/// `stages` orders the jobs of the dependency map as [`staged`] says,
/// naming each job by its id, and each run carries the workflow's name.
pub open spec fn plans(deps: TextMap<Vec<String>>, workflow: Workflow, stages: Seq<ExecutionStage>) -> bool {
    let g = needs_graph(dep_names(deps), dep_needs(deps));
    &&& exists|idx: Seq<Seq<usize>>, level: Seq<int>|
            #[trigger] staged(g, idx, level) && named_stages(dep_names(deps), idx) == stage_ids(stages)
    &&& forall|s: int, t: int| 0 <= s < stages.len() && 0 <= t < stages[s].runs_view().len() ==> {
            let run = #[trigger] stages[s].runs_view()[t];
            &&& run.workflow_name_view() == workflow.name_view()
            &&& run.matrix_values_view() is None
            &&& copied_job(run.job_view(), job_of(workflow, run.job_id_view()))
        }
}

/// The job of `workflow` with id `id`.
pub open spec fn job_of(workflow: Workflow, id: Seq<char>) -> Job {
    workflow.jobs_view().lookup(id).unwrap()
}

pub proof fn lemma_name_index(names: Seq<Seq<char>>, nm: Seq<char>)
    ensures
        -1 <= name_index(names, nm) < names.len(),
        name_index(names, nm) >= 0 ==> names[name_index(names, nm)] == nm,
        name_index(names, nm) == -1 <==> !names.contains(nm),
    decreases names.len(),
{
    if names.len() > 0 {
        lemma_name_index(names.drop_last(), nm);
        if names.last() != nm {
            if names.contains(nm) {
                let k = choose|k: int| 0 <= k < names.len() && names[k] == nm;
                assert(names.drop_last()[k] == nm);
            }
        } else {
            assert(names[names.len() - 1] == nm);
        }
    }
}

proof fn lemma_resolved_bounds(names: Seq<Seq<char>>, ns: Seq<Seq<char>>)
    ensures
        forall|k: int| 0 <= k < resolved(names, ns).len() ==> #[trigger] resolved(names, ns)[k] < names.len(),
    decreases ns.len(),
{
    if ns.len() > 0 {
        lemma_resolved_bounds(names, ns.drop_last());
        lemma_name_index(names, ns.last());
        let r = resolved(names, ns.drop_last());
        assert forall|k: int| 0 <= k < resolved(names, ns).len() implies #[trigger] resolved(names, ns)[k] < names.len() by {
            if k < r.len() {
                assert(resolved(names, ns)[k] == r[k]);
            }
        }
    }
}

/// The keys of a dependency map name its jobs.
proof fn lemma_dep_names(deps: TextMap<Vec<String>>, i: int)
    requires
        deps.wf(),
        0 <= i < deps.entries().len(),
    ensures
        name_index(dep_names(deps), dep_names(deps)[i]) == i,
{
    let names = dep_names(deps);
    lemma_name_index(names, names[i]);
    let j = name_index(names, names[i]);
    if j != i {
        assert(key_of(deps.entries()[j]) == names[j]);
        assert(key_of(deps.entries()[i]) == names[i]);
        if j < i {
            assert(key_of(deps.entries()[j]) != key_of(deps.entries()[i]));
        } else {
            assert(key_of(deps.entries()[i]) != key_of(deps.entries()[j]));
        }
    }
}

/// Index of the job named `name` among `deps`.
fn job_index(deps: &TextMap<Vec<String>>, name: &str) -> (r: Option<usize>)
    requires
        deps.wf(),
    ensures
        match r {
            Some(i) => i == name_index(dep_names(*deps), name@) && i < deps.entries().len(),
            None => name_index(dep_names(*deps), name@) == -1,
        },
{
    let r = deps.index_of(name);
    proof {
        let names = dep_names(*deps);
        lemma_name_index(names, name@);
        lemma_index_in(deps.entries(), name@);
        match r {
            Some(i) => {
                lemma_dep_names(*deps, i as int);
                assert(names[i as int] == name@);
            },
            None => {
                if names.contains(name@) {
                    let k = choose|k: int| 0 <= k < names.len() && names[k] == name@;
                    assert(key_of(deps.entries()[k]) == name@);
                }
            },
        }
    }
    r
}

/// The needs of every job, by index, leaving out the needs of jobs that do
/// not exist.
fn resolve_graph(deps: &TextMap<Vec<String>>) -> (g: Vec<Vec<usize>>)
    requires
        deps.wf(),
    ensures
        graph_view(&g) == needs_graph(dep_names(*deps), dep_needs(*deps)),
        valid_graph(graph_view(&g)),
{
    let ghost names = dep_names(*deps);
    let ghost needs = dep_needs(*deps);
    let n = deps.len();
    let mut g: Vec<Vec<usize>> = Vec::new();
    let mut i: usize = 0;
    while i < n
        invariant
            n == deps.entries().len(),
            names == dep_names(*deps),
            needs == dep_needs(*deps),
            deps.wf(),
            i <= n,
            g@.len() == i,
            forall|x: int| 0 <= x < i ==> #[trigger] g@[x]@ == resolved(names, needs[x]),
        decreases n - i,
    {
        let ns = deps.value_at(i);
        let mut row: Vec<usize> = Vec::new();
        let mut k: usize = 0;
        proof {
            assert(needs[i as int] == names_view(ns@));
            assert(names_view(ns@).take(0) =~= Seq::<Seq<char>>::empty());
        }
        while k < ns.len()
            invariant
                names == dep_names(*deps),
                deps.wf(),
                k <= ns@.len(),
                row@ == resolved(names, names_view(ns@).take(k as int)),
            decreases ns@.len() - k,
        {
            let found = job_index(deps, ns[k].as_str());
            proof {
                assert(names_view(ns@).take(k + 1).drop_last() =~= names_view(ns@).take(k as int));
                assert(names_view(ns@).take(k + 1).last() == ns@[k as int]@);
            }
            match found {
                Some(j) => {
                    row.push(j);
                },
                None => {},
            }
            k = k + 1;
        }
        proof {
            assert(names_view(ns@).take(ns@.len() as int) =~= names_view(ns@));
        }
        g.push(row);
        i = i + 1;
    }
    proof {
        assert(graph_view(&g) =~= needs_graph(names, needs));
        assert forall|x: int, k: int| 0 <= x < graph_view(&g).len() && 0 <= k < graph_view(&g)[x].len() implies
            #[trigger] graph_view(&g)[x][k] < graph_view(&g).len() by {
            lemma_resolved_bounds(names, needs[x]);
        }
    }
    g
}

/// The first need, in job order, that names no job.
fn find_missing(deps: &TextMap<Vec<String>>) -> (r: Option<(usize, usize)>)
    requires
        deps.wf(),
    ensures
        match r {
            Some((i, k)) => missing_from(dep_names(*deps), dep_needs(*deps), 0) == Some((i as int, k as int))
                && i < deps.entries().len() && k < deps.entries()[i as int].1@.len(),
            None => missing_from(dep_names(*deps), dep_needs(*deps), 0) is None,
        },
{
    let ghost names = dep_names(*deps);
    let ghost needs = dep_needs(*deps);
    let n = deps.len();
    let mut i: usize = 0;
    while i < n
        invariant
            n == deps.entries().len(),
            names == dep_names(*deps),
            needs == dep_needs(*deps),
            deps.wf(),
            i <= n,
            missing_from(names, needs, 0) == missing_from(names, needs, i as int),
        decreases n - i,
    {
        let ns = deps.value_at(i);
        let mut k: usize = 0;
        proof {
            assert(needs[i as int] == names_view(ns@));
        }
        while k < ns.len()
            invariant
                names == dep_names(*deps),
                needs == dep_needs(*deps),
                deps.wf(),
                i < n,
                n == needs.len(),
                needs[i as int] == names_view(ns@),
                ns@ == deps.entries()[i as int].1@,
                missing_from(names, needs, 0) == missing_from(names, needs, i as int),
                k <= ns@.len(),
                missing_in(names, needs[i as int], 0) == missing_in(names, needs[i as int], k as int),
            decreases ns@.len() - k,
        {
            proof {
                assert(needs[i as int][k as int] == ns@[k as int]@);
            }
            if job_index(deps, ns[k].as_str()).is_none() {
                proof {
                    assert(missing_in(names, needs[i as int], k as int) == Some(k as int));
                    assert(missing_from(names, needs, i as int) == Some((i as int, k as int)));
                }
                return Some((i, k));
            }
            proof {
                assert(missing_in(names, needs[i as int], k as int) == missing_in(names, needs[i as int], k + 1));
            }
            k = k + 1;
        }
        proof {
            assert(missing_in(names, needs[i as int], k as int) is None);
            assert(missing_from(names, needs, i as int) == missing_from(names, needs, i + 1));
        }
        i = i + 1;
    }
    None
}

/// Plans the execution order of workflow jobs.
///
/// Builds the graph of `needs` between jobs and sorts it into stages in
/// which independent jobs run in parallel.
pub struct ExecutionPlanner;

impl ExecutionPlanner {
    /// Detects a cycle of needs; the error names a need of the cycle.
    pub fn detect_cycles(&self, deps: &TextMap<Vec<String>>) -> (r: Result<(), PlanError>)
        requires
            deps.wf(),
        ensures
            ({
                let names = dep_names(*deps);
                let g = needs_graph(names, dep_needs(*deps));
                &&& r is Ok <==> !has_cycle(g)
                &&& r is Ok ==> exists|rank: Seq<nat>| ranks(g, rank)
                &&& (r matches Err(e) ==> (e matches PlanError::CycleDetected { job, dependency } && exists|a: int, b: int|
                    names[a] == job@ && names[b] == dependency@ && edge(g, a, b) && #[trigger] reaches(g, b, a)))
            }),
    {
        let g = resolve_graph(deps);
        match find_cycle(&g) {
            Ok(()) => {
                proof {
                    let rank = choose|rank: Seq<nat>| ranks(graph_view(&g), rank);
                    lemma_ranked_acyclic(graph_view(&g), rank);
                }
                Ok(())
            },
            Err((a, b)) => {
                proof {
                    assert(has_cycle(graph_view(&g)));
                }
                Err(PlanError::CycleDetected { job: deps.key_at(a).clone(), dependency: deps.key_at(b).clone() })
            },
        }
    }

    /// Builds the runs of one stage of jobs, given by index.
    fn build_runs_for_stage(deps: &TextMap<Vec<String>>, stage: &Vec<usize>, workflow: &Workflow) -> (r: Vec<JobRun>)
        requires
            deps.wf(),
            workflow.wf(),
            forall|i: int| 0 <= i < deps.entries().len() ==> workflow.jobs_view().has(#[trigger] dep_names(*deps)[i]),
            forall|t: int| 0 <= t < stage@.len() ==> #[trigger] stage@[t] < deps.entries().len(),
        ensures
            r@.len() == stage@.len(),
            forall|t: int| 0 <= t < stage@.len() ==> {
                let run = #[trigger] r@[t];
                &&& run.job_id_view() == dep_names(*deps)[stage@[t] as int]
                &&& run.workflow_name_view() == workflow.name_view()
                &&& run.matrix_values_view() is None
                &&& copied_job(run.job_view(), job_of(*workflow, run.job_id_view()))
            },
    {
        let mut runs: Vec<JobRun> = Vec::new();
        let mut t: usize = 0;
        while t < stage.len()
            invariant
                deps.wf(),
                workflow.wf(),
                forall|i: int| 0 <= i < deps.entries().len() ==> workflow.jobs_view().has(#[trigger] dep_names(*deps)[i]),
                forall|u: int| 0 <= u < stage@.len() ==> #[trigger] stage@[u] < deps.entries().len(),
                t <= stage@.len(),
                runs@.len() == t,
                forall|u: int| 0 <= u < t ==> {
                    let run = #[trigger] runs@[u];
                    &&& run.job_id_view() == dep_names(*deps)[stage@[u] as int]
                    &&& run.workflow_name_view() == workflow.name_view()
                    &&& run.matrix_values_view() is None
                    &&& copied_job(run.job_view(), job_of(*workflow, run.job_id_view()))
                },
            decreases stage@.len() - t,
        {
            let idx = stage[t];
            let id = deps.key_at(idx);
            proof {
                assert(dep_names(*deps)[idx as int] == id@);
                assert(workflow.jobs_view().has(id@));
                lemma_index_in(workflow.jobs_view().entries(), id@);
            }
            let jobs = workflow.jobs();
            let job = match jobs.get(id.as_str()) {
                Some(j) => {
                    proof {
                        let w = index_in(jobs.entries(), id@);
                        assert(jobs.entries()[w].1.wf());
                    }
                    j.duplicate()
                },
                None => {
                    proof {
                        assert(false);
                    }
                    Job::new(None, None, Vec::new(), Vec::new())
                },
            };
            let name = workflow.name_owned();
            runs.push(JobRun::new(name, id.clone(), job, None));
            t = t + 1;
        }
        runs
    }

    /// Sorts the jobs into stages: the first holds the jobs without needs;
    /// each later one, the jobs whose needs are all in earlier stages.
    ///
    /// Fails with [`PlanError::MissingDependency`] for the first need, in
    /// job order, that names no job, and with
    /// [`PlanError::UnresolvedDependencies`] when the needs form a cycle.
    pub fn topological_sort(&self, deps: &TextMap<Vec<String>>, workflow: &Workflow) -> (r: Result<Vec<ExecutionStage>, PlanError>)
        requires
            deps.wf(),
            workflow.wf(),
            forall|i: int| 0 <= i < deps.entries().len() ==> workflow.jobs_view().has(#[trigger] dep_names(*deps)[i]),
        ensures
            ({
                let names = dep_names(*deps);
                let needs = dep_needs(*deps);
                let g = needs_graph(names, needs);
                match missing_from(names, needs, 0) {
                    Some((i, k)) => r matches Err(PlanError::MissingDependency { job, dependency })
                        && job@ == names[i] && dependency@ == needs[i][k],
                    None => {
                        &&& (r matches Ok(stages) ==> plans(*deps, *workflow, stages@))
                        &&& (r matches Err(e) ==> (e is UnresolvedDependencies && forall|rank: Seq<nat>| !ranks(g, rank)))
                    },
                }
            }),
    {
        match find_missing(deps) {
            Some((i, k)) => {
                let job = deps.key_at(i).clone();
                let dependency = deps.value_at(i)[k].clone();
                return Err(PlanError::MissingDependency { job, dependency });
            },
            None => {},
        }
        let g = resolve_graph(deps);
        let order = match order_stages(&g) {
            Some(o) => o,
            None => return Err(PlanError::UnresolvedDependencies),
        };
        let ghost names = dep_names(*deps);
        let ghost gv = graph_view(&g);
        let ghost level = choose|level: Seq<int>| staged(gv, stages_view(&order), level);
        let mut stages: Vec<ExecutionStage> = Vec::new();
        let mut s: usize = 0;
        while s < order.len()
            invariant
                deps.wf(),
                workflow.wf(),
                forall|i: int| 0 <= i < deps.entries().len() ==> workflow.jobs_view().has(#[trigger] dep_names(*deps)[i]),
                names == dep_names(*deps),
                gv == needs_graph(names, dep_needs(*deps)),
                gv.len() == deps.entries().len(),
                staged(gv, stages_view(&order), level),
                s <= order@.len(),
                stages@.len() == s,
                forall|x: int| 0 <= x < s ==> (#[trigger] stage_ids(stages@)[x]) == named_stages(names, stages_view(&order))[x],
                forall|x: int, t: int| 0 <= x < s && 0 <= t < stages@[x].runs_view().len() ==> {
                    let run = #[trigger] stages@[x].runs_view()[t];
                    &&& run.workflow_name_view() == workflow.name_view()
                    &&& run.matrix_values_view() is None
                    &&& copied_job(run.job_view(), job_of(*workflow, run.job_id_view()))
                },
            decreases order@.len() - s,
        {
            proof {
                assert(stages_view(&order)[s as int] == order@[s as int]@);
                assert forall|t: int| 0 <= t < order@[s as int]@.len() implies #[trigger] order@[s as int]@[t] < deps.entries().len() by {
                    assert(stages_view(&order)[s as int][t] < gv.len());
                }
            }
            let runs = Self::build_runs_for_stage(deps, &order[s], workflow);
            let ghost before = stages@;
            let stage = ExecutionStage::new(runs);
            stages.push(stage);
            proof {
                let want = named_stages(names, stages_view(&order))[s as int];
                assert(want == stages_view(&order)[s as int].map_values(|i: usize| names[i as int]));
                assert(stage_ids(stages@)[s as int] == stages@[s as int].runs_view().map_values(|r: JobRun| r.job_id_view()));
                assert(stage_ids(stages@)[s as int] =~= want);
                assert forall|x: int| 0 <= x < s + 1 implies (#[trigger] stage_ids(stages@)[x]) == named_stages(names, stages_view(&order))[x] by {
                    if x < s {
                        assert(stages@[x] == before[x]);
                        assert(stage_ids(stages@)[x] == stage_ids(before)[x]);
                    }
                }
                assert forall|x: int, t: int| 0 <= x < s + 1 && 0 <= t < stages@[x].runs_view().len() implies {
                    let run = #[trigger] stages@[x].runs_view()[t];
                    &&& run.workflow_name_view() == workflow.name_view()
                    &&& run.matrix_values_view() is None
                    &&& copied_job(run.job_view(), job_of(*workflow, run.job_id_view()))
                } by {
                    if x < s {
                        assert(stages@[x] == before[x]);
                    }
                }
            }
            s = s + 1;
        }
        proof {
            assert(stage_ids(stages@) =~= named_stages(names, stages_view(&order)));
        }
        Ok(stages)
    }

    /// Plans the execution of a workflow.
    ///
    /// Jobs with no `needs` go in the first stage; jobs that depend on
    /// other jobs go in later stages. A cycle of needs is reported first,
    /// then a need that names no job.
    pub fn plan(&self, workflow: &Workflow) -> (r: Result<ExecutionPlan, PlanError>)
        requires
            workflow.wf(),
        ensures
            plan_outcome(*workflow, r),
    {
        let deps = Self::dependency_map(workflow);
        let ghost names = workflow.jobs_view().keys_view();
        let ghost needs = workflow_needs(*workflow);
        let ghost g = needs_graph(names, needs);
        match self.detect_cycles(&deps) {
            Ok(()) => {},
            Err(e) => {
                let r: Result<ExecutionPlan, PlanError> = Err(e);
                proof {
                    assert(has_cycle(g));
                    assert(plan_outcome(*workflow, r));
                }
                return r;
            },
        }
        let stages = match self.topological_sort(&deps, workflow) {
            Ok(s) => s,
            Err(e) => {
                let r: Result<ExecutionPlan, PlanError> = Err(e);
                proof {
                    let rank = choose|rank: Seq<nat>| ranks(g, rank);
                    assert(ranks(g, rank));
                    assert(!has_cycle(g));
                    assert(missing_from(names, needs, 0) is Some);
                    assert(plan_outcome(*workflow, r));
                }
                return r;
            },
        };
        let plan = ExecutionPlan::new(stages);
        let r: Result<ExecutionPlan, PlanError> = Ok(plan);
        proof {
            assert(plans(deps, *workflow, stages@));
            assert(!has_cycle(g));
            assert(missing_from(names, needs, 0) is None);
            assert(r matches Ok(p) && plans(deps, *workflow, p.stages_view()));
            assert(plan_outcome(*workflow, r));
        }
        r
    }

    /// The needs of every job of the workflow, keyed by job id, in order.
    fn dependency_map(workflow: &Workflow) -> (deps: TextMap<Vec<String>>)
        requires
            workflow.wf(),
        ensures
            deps.wf(),
            dep_names(deps) == workflow.jobs_view().keys_view(),
            dep_needs(deps) == workflow_needs(*workflow),
            forall|i: int| 0 <= i < deps.entries().len() ==> workflow.jobs_view().has(#[trigger] dep_names(deps)[i]),
    {
        let jobs = workflow.jobs();
        let mut deps: TextMap<Vec<String>> = TextMap::new();
        let mut i: usize = 0;
        while i < jobs.len()
            invariant
                jobs.wf(),
                deps.wf(),
                i <= jobs.entries().len(),
                dep_names(deps) == jobs.keys_view().take(i as int),
                dep_needs(deps) == jobs.entries().map_values(|e: (String, Job)| e.1.needs_view()).take(i as int),
            decreases jobs.entries().len() - i,
        {
            let id = jobs.key_at(i);
            let needs = copy_texts(jobs.value_at(i).needs());
            proof {
                lemma_index_in(deps.entries(), id@);
                if index_in(deps.entries(), id@) >= 0 {
                    let w = index_in(deps.entries(), id@);
                    assert(key_of(deps.entries()[w]) == id@);
                    assert(dep_names(deps)[w] == id@);
                    assert(dep_names(deps).len() == i);
                    assert(jobs.keys_view().take(i as int)[w] == jobs.keys_view()[w]);
                    assert(jobs.keys_view()[w] == key_of(jobs.entries()[w]));
                    assert(jobs.keys_view()[i as int] == id@);
                    assert(key_of(jobs.entries()[w]) != key_of(jobs.entries()[i as int]));
                }
            }
            let ghost old_entries = deps.entries();
            proof {
                assert(dep_names(deps).len() == old_entries.len());
                assert(jobs.keys_view().take(i as int).len() == i);
            }
            let key = id.clone();
            proof {
                assert(index_in(old_entries, key@) == -1);
            }
            deps.insert(key, needs);
            proof {
                assert(deps.entries() == old_entries.push((key, needs)));
                assert(old_entries.len() == i);
                assert(deps.entries()[i as int] == (key, needs));
                assert(deps.entries()[i as int].1 == needs);
                assert(deps.entries()[i as int].1@ == needs@);
                assert(dep_needs(deps)[i as int] == jobs.entries()[i as int].1.needs_view());
                assert(dep_names(deps) =~= jobs.keys_view().take(i + 1));
                assert(dep_needs(deps) =~= jobs.entries().map_values(|e: (String, Job)| e.1.needs_view()).take(i + 1));
            }
            i = i + 1;
        }
        proof {
            assert(jobs.keys_view().take(jobs.entries().len() as int) =~= jobs.keys_view());
            assert(jobs.entries().map_values(|e: (String, Job)| e.1.needs_view()).take(jobs.entries().len() as int)
                =~= jobs.entries().map_values(|e: (String, Job)| e.1.needs_view()));
            assert forall|i: int| 0 <= i < deps.entries().len() implies workflow.jobs_view().has(#[trigger] dep_names(deps)[i]) by {
                lemma_index_in(jobs.entries(), jobs.keys_view()[i]);
                assert(key_of(jobs.entries()[i]) == jobs.keys_view()[i]);
            }
        }
        deps
    }
}

} // verus!
