//! Plan inputs (what is submitted to start a build) and plan validation.
use vstd::prelude::*;
use crate::json::JsonValue;
use crate::lightsquad::error::SquadError;
use crate::lightsquad::task::{ContextTier, Tier};
use crate::text::str_eq;

verus! {

/// A single task to execute within a wave.
#[derive(Debug, Clone)]
#[non_exhaustive]
pub struct TaskInput {
    /// Unique identifier of the task within the plan.
    pub id: String,
    /// The prompt or instruction for the worker.
    pub prompt: String,
    /// Context tiers to include.
    pub context_tiers: Vec<ContextTier>,
    /// Files the task is allowed to modify.
    pub file_ownership: Vec<String>,
    /// IDs of tasks that must complete first.
    pub depends_on: Vec<String>,
    /// Whether the task is safe to run concurrently with others.
    pub concurrency_safe: bool,
}

/// Whether a task is concurrency-safe when its input does not say.
pub fn default_concurrency_safe() -> (r: bool)
    ensures
        !r,
{
    false
}

impl TaskInput {
    /// A task with the given id and prompt and nothing else: no context
    /// tiers, file ownership or dependencies, not concurrency-safe.
    pub fn new(id: String, prompt: String) -> (r: Self)
        ensures
            r.id == id,
            r.prompt == prompt,
            r.context_tiers@ == Seq::<ContextTier>::empty(),
            r.file_ownership@ == Seq::<String>::empty(),
            r.depends_on@ == Seq::<String>::empty(),
            !r.concurrency_safe,
    {
        TaskInput {
            id,
            prompt,
            context_tiers: Vec::new(),
            file_ownership: Vec::new(),
            depends_on: Vec::new(),
            concurrency_safe: false,
        }
    }
}

/// A wave of tasks that can execute in parallel; waves run one after the
/// other.
#[derive(Debug, Clone)]
#[non_exhaustive]
pub struct WaveInput {
    /// Human-readable name of the wave.
    pub name: String,
    /// Tasks in this wave.
    pub tasks: Vec<TaskInput>,
}

impl WaveInput {
    /// A wave of the given name and tasks.
    pub fn new(name: String, tasks: Vec<TaskInput>) -> (r: Self)
        ensures
            r.name == name,
            r.tasks == tasks,
    {
        WaveInput { name, tasks }
    }
}

/// Top-level input for starting a build.
#[derive(Debug)]
#[non_exhaustive]
pub struct PlanInput {
    /// Human-readable name of the build.
    pub name: String,
    /// Build tier.
    pub tier: Tier,
    /// Waves of tasks to execute.
    pub waves: Vec<WaveInput>,
    /// Optional metadata.
    pub metadata: JsonValue,
}

// ── Validation rules ─────────────────────────────────────────────────────────

/// All tasks of the waves, in wave order.
pub open spec fn plan_tasks(waves: Seq<WaveInput>) -> Seq<TaskInput>
    decreases waves.len(),
{
    if waves.len() == 0 {
        Seq::empty()
    } else {
        plan_tasks(waves.drop_last()) + waves.last().tasks@
    }
}

/// The ids of tasks, in order.
pub open spec fn task_ids(tasks: Seq<TaskInput>) -> Seq<Seq<char>> {
    tasks.map_values(|t: TaskInput| t.id@)
}

/// Each repeated occurrence of an id (every occurrence after its first),
/// in order.
pub open spec fn repeated_ids(ids: Seq<Seq<char>>) -> Seq<Seq<char>>
    decreases ids.len(),
{
    if ids.len() == 0 {
        Seq::empty()
    } else if ids.drop_last().contains(ids.last()) {
        repeated_ids(ids.drop_last()).push(ids.last())
    } else {
        repeated_ids(ids.drop_last())
    }
}

/// `items` joined with `sep` between neighbours.
pub open spec fn join(items: Seq<Seq<char>>, sep: Seq<char>) -> Seq<char>
    decreases items.len(),
{
    if items.len() == 0 {
        Seq::empty()
    } else if items.len() == 1 {
        items[0]
    } else {
        join(items.drop_last(), sep) + sep + items.last()
    }
}

/// The (task id, dependency id) pairs of one task, in order.
pub open spec fn task_dependencies(t: TaskInput) -> Seq<(Seq<char>, Seq<char>)> {
    t.depends_on@.map_values(|d: String| (t.id@, d@))
}

/// The (task id, dependency id) pairs of all tasks, in order.
pub open spec fn dependency_pairs(tasks: Seq<TaskInput>) -> Seq<(Seq<char>, Seq<char>)>
    decreases tasks.len(),
{
    if tasks.len() == 0 {
        Seq::empty()
    } else {
        dependency_pairs(tasks.drop_last()) + task_dependencies(tasks.last())
    }
}

/// The first pair whose dependency names no task id in `ids`.
pub open spec fn first_unknown_dependency(
    pairs: Seq<(Seq<char>, Seq<char>)>,
    ids: Seq<Seq<char>>,
) -> Option<(Seq<char>, Seq<char>)>
    decreases pairs.len(),
{
    if pairs.len() == 0 {
        None
    } else if !ids.contains(pairs[0].1) {
        Some(pairs[0])
    } else {
        first_unknown_dependency(pairs.skip(1), ids)
    }
}

/// Why a plan of these waves is invalid, if it is: it has no wave; or some
/// task id occurs more than once (all repeated occurrences are listed); or
/// some task depends on an id that no task has (the first such is named).
pub open spec fn plan_validation_error(waves: Seq<WaveInput>) -> Option<Seq<char>> {
    let tasks = plan_tasks(waves);
    let ids = task_ids(tasks);
    if waves.len() == 0 {
        Some("plan must have at least one wave"@)
    } else if repeated_ids(ids).len() > 0 {
        Some("duplicate task IDs: "@ + join(repeated_ids(ids), ", "@))
    } else {
        match first_unknown_dependency(dependency_pairs(tasks), ids) {
            Some(p) => Some("task '"@ + p.0 + "' depends on unknown task '"@ + p.1 + "'"@),
            None => None,
        }
    }
}

proof fn lemma_no_repeats_distinct(ids: Seq<Seq<char>>)
    requires
        repeated_ids(ids).len() == 0,
    ensures
        forall|i: int, j: int| 0 <= i < j < ids.len() ==> #[trigger] ids[i] != #[trigger] ids[j],
    decreases ids.len(),
{
    if ids.len() > 0 {
        let prev = ids.drop_last();
        if prev.contains(ids.last()) {
            assert(repeated_ids(ids).len() == repeated_ids(prev).len() + 1);
        }
        lemma_no_repeats_distinct(prev);
        assert forall|i: int, j: int| 0 <= i < j < ids.len() implies #[trigger] ids[i] != #[trigger] ids[j] by {
            if j == ids.len() - 1 {
                if ids[i] == ids[j] {
                    assert(prev[i] == ids.last());
                    assert(prev.contains(ids.last()));
                }
            } else {
                assert(prev[i] == ids[i] && prev[j] == ids[j]);
            }
        }
    }
}

proof fn lemma_no_unknown_all_known(pairs: Seq<(Seq<char>, Seq<char>)>, ids: Seq<Seq<char>>)
    requires
        first_unknown_dependency(pairs, ids) is None,
    ensures
        forall|k: int| 0 <= k < pairs.len() ==> ids.contains(#[trigger] pairs[k].1),
    decreases pairs.len(),
{
    if pairs.len() > 0 {
        lemma_no_unknown_all_known(pairs.skip(1), ids);
        assert forall|k: int| 0 <= k < pairs.len() implies ids.contains(#[trigger] pairs[k].1) by {
            if k > 0 {
                assert(pairs[k] == pairs.skip(1)[k - 1]);
            }
        }
    }
}

proof fn lemma_dependency_pairs_cover(tasks: Seq<TaskInput>, ti: int, di: int)
    requires
        0 <= ti < tasks.len(),
        0 <= di < tasks[ti].depends_on@.len(),
    ensures
        dependency_pairs(tasks).contains((tasks[ti].id@, tasks[ti].depends_on@[di]@)),
    decreases tasks.len(),
{
    let prev = dependency_pairs(tasks.drop_last());
    let own = task_dependencies(tasks.last());
    assert(dependency_pairs(tasks) == prev + own);
    if ti == tasks.len() - 1 {
        assert(own[di] == (tasks[ti].id@, tasks[ti].depends_on@[di]@));
        assert((prev + own)[prev.len() + di] == own[di]);
    } else {
        assert(tasks.drop_last()[ti] == tasks[ti]);
        lemma_dependency_pairs_cover(tasks.drop_last(), ti, di);
        let k = choose|k: int| 0 <= k < prev.len() && prev[k] == (tasks[ti].id@, tasks[ti].depends_on@[di]@);
        assert((prev + own)[k] == prev[k]);
    }
}

/// A plan that validates has at least one wave, no task id twice, and every
/// dependency of every task naming a task of the plan.
pub proof fn lemma_valid_plan_well_formed(waves: Seq<WaveInput>)
    requires
        plan_validation_error(waves) is None,
    ensures
        waves.len() > 0,
        forall|i: int, j: int|
            0 <= i < j < plan_tasks(waves).len() ==> #[trigger] plan_tasks(waves)[i].id@ != #[trigger] plan_tasks(
                waves,
            )[j].id@,
        forall|ti: int, di: int|
            0 <= ti < plan_tasks(waves).len() && 0 <= di < plan_tasks(waves)[ti].depends_on@.len()
                ==> task_ids(plan_tasks(waves)).contains(#[trigger] plan_tasks(waves)[ti].depends_on@[di]@),
{
    let tasks = plan_tasks(waves);
    let ids = task_ids(tasks);
    lemma_no_repeats_distinct(ids);
    lemma_no_unknown_all_known(dependency_pairs(tasks), ids);
    assert forall|i: int, j: int| 0 <= i < j < tasks.len() implies #[trigger] tasks[i].id@ != #[trigger] tasks[j].id@ by {
        assert(ids[i] == tasks[i].id@ && ids[j] == tasks[j].id@);
    }
    assert forall|ti: int, di: int|
        0 <= ti < tasks.len() && 0 <= di < tasks[ti].depends_on@.len() implies ids.contains(
        #[trigger] tasks[ti].depends_on@[di]@,
    ) by {
        lemma_dependency_pairs_cover(tasks, ti, di);
        let pairs = dependency_pairs(tasks);
        let k = choose|k: int| 0 <= k < pairs.len() && pairs[k] == (tasks[ti].id@, tasks[ti].depends_on@[di]@);
        assert(ids.contains(pairs[k].1));
    }
}

proof fn lemma_distinct_no_repeats(ids: Seq<Seq<char>>)
    requires
        forall|i: int, j: int| 0 <= i < j < ids.len() ==> #[trigger] ids[i] != #[trigger] ids[j],
    ensures
        repeated_ids(ids).len() == 0,
    decreases ids.len(),
{
    if ids.len() > 0 {
        let prev = ids.drop_last();
        assert forall|i: int, j: int| 0 <= i < j < prev.len() implies #[trigger] prev[i] != #[trigger] prev[j] by {
            assert(prev[i] == ids[i] && prev[j] == ids[j]);
        }
        lemma_distinct_no_repeats(prev);
        if prev.contains(ids.last()) {
            let k = choose|k: int| 0 <= k < prev.len() && prev[k] == ids.last();
            assert(ids[k] == ids[ids.len() - 1]);
        }
    }
}

proof fn lemma_all_known_no_unknown(pairs: Seq<(Seq<char>, Seq<char>)>, ids: Seq<Seq<char>>)
    requires
        forall|k: int| 0 <= k < pairs.len() ==> ids.contains(#[trigger] pairs[k].1),
    ensures
        first_unknown_dependency(pairs, ids) is None,
    decreases pairs.len(),
{
    if pairs.len() > 0 {
        assert(ids.contains(pairs[0].1));
        assert forall|k: int| 0 <= k < pairs.skip(1).len() implies ids.contains(#[trigger] pairs.skip(1)[k].1) by {
            assert(pairs.skip(1)[k] == pairs[k + 1]);
        }
        lemma_all_known_no_unknown(pairs.skip(1), ids);
    }
}

proof fn lemma_dependency_pairs_from_tasks(tasks: Seq<TaskInput>, k: int)
    requires
        0 <= k < dependency_pairs(tasks).len(),
    ensures
        exists|ti: int, di: int|
            0 <= ti < tasks.len() && 0 <= di < tasks[ti].depends_on@.len() && #[trigger] tasks[ti].depends_on@[di]@
                == dependency_pairs(tasks)[k].1,
    decreases tasks.len(),
{
    let prev = dependency_pairs(tasks.drop_last());
    let own = task_dependencies(tasks.last());
    assert(dependency_pairs(tasks) == prev + own);
    if k < prev.len() {
        assert(dependency_pairs(tasks)[k] == prev[k]);
        lemma_dependency_pairs_from_tasks(tasks.drop_last(), k);
        let (ti, di) = choose|ti: int, di: int|
            0 <= ti < tasks.drop_last().len() && 0 <= di < tasks.drop_last()[ti].depends_on@.len()
                && #[trigger] tasks.drop_last()[ti].depends_on@[di]@ == prev[k].1;
        assert(tasks.drop_last()[ti] == tasks[ti]);
        assert(tasks[ti].depends_on@[di]@ == dependency_pairs(tasks)[k].1);
    } else {
        let di = k - prev.len();
        assert(dependency_pairs(tasks)[k] == own[di]);
        assert(tasks[tasks.len() - 1].depends_on@[di]@ == dependency_pairs(tasks)[k].1);
    }
}

/// A plan validates whenever it has at least one wave, no two of its tasks
/// share an id, and every dependency of every task is the id of some task
/// of the plan (in any wave, before or after it).
pub proof fn lemma_well_formed_plan_validates(waves: Seq<WaveInput>)
    requires
        waves.len() > 0,
        forall|i: int, j: int|
            0 <= i < j < plan_tasks(waves).len() ==> #[trigger] plan_tasks(waves)[i].id@ != #[trigger] plan_tasks(
                waves,
            )[j].id@,
        forall|ti: int, di: int|
            0 <= ti < plan_tasks(waves).len() && 0 <= di < plan_tasks(waves)[ti].depends_on@.len() ==> exists|u: int|
                0 <= u < plan_tasks(waves).len() && plan_tasks(waves)[u].id@ == #[trigger] plan_tasks(
                    waves,
                )[ti].depends_on@[di]@,
    ensures
        plan_validation_error(waves) is None,
{
    let tasks = plan_tasks(waves);
    let ids = task_ids(tasks);
    assert forall|i: int, j: int| 0 <= i < j < ids.len() implies #[trigger] ids[i] != #[trigger] ids[j] by {
        assert(ids[i] == tasks[i].id@ && ids[j] == tasks[j].id@);
    }
    lemma_distinct_no_repeats(ids);
    let pairs = dependency_pairs(tasks);
    assert forall|k: int| 0 <= k < pairs.len() implies ids.contains(#[trigger] pairs[k].1) by {
        lemma_dependency_pairs_from_tasks(tasks, k);
        let (ti, di) = choose|ti: int, di: int|
            0 <= ti < tasks.len() && 0 <= di < tasks[ti].depends_on@.len() && #[trigger] tasks[ti].depends_on@[di]@
                == pairs[k].1;
        let u = choose|u: int| 0 <= u < tasks.len() && tasks[u].id@ == #[trigger] tasks[ti].depends_on@[di]@;
        assert(ids[u] == tasks[u].id@);
    }
    lemma_all_known_no_unknown(pairs, ids);
}

/// Whether some string of `v` equals `x`.
fn contains_str(v: &Vec<String>, x: &str) -> (r: bool)
    ensures
        r == v@.map_values(|s: String| s@).contains(x@),
{
    let ghost mv = v@.map_values(|s: String| s@);
    let mut i: usize = 0;
    while i < v.len()
        invariant
            mv == v@.map_values(|s: String| s@),
            i <= v@.len(),
            forall|k: int| 0 <= k < i ==> #[trigger] mv[k] != x@,
        decreases v@.len() - i,
    {
        if str_eq(v[i].as_str(), x) {
            assert(mv[i as int] == x@);
            return true;
        }
        i += 1;
    }
    false
}

impl PlanInput {
    /// A plan of the given name, tier and waves, without metadata.
    pub fn new(name: String, tier: Tier, waves: Vec<WaveInput>) -> (r: Self)
        ensures
            r.name == name,
            r.tier == tier,
            r.waves == waves,
            r.metadata is Null,
    {
        PlanInput { name, tier, waves, metadata: JsonValue::Null }
    }

    /// Validates the plan structure: at least one wave, unique task ids, and
    /// every dependency naming a task of the plan.
    pub fn validate(&self) -> (r: Result<(), SquadError>)
        ensures
            match r {
                Ok(()) => plan_validation_error(self.waves@) is None,
                Err(SquadError::ValidationFailed(m)) => plan_validation_error(self.waves@) == Some(m@),
                Err(_) => false,
            },
    {
        if self.waves.len() == 0 {
            return Err(SquadError::ValidationFailed("plan must have at least one wave".to_owned()));
        }
        let ghost waves = self.waves@;
        let mut ids: Vec<String> = Vec::new();
        let mut repeated: Vec<String> = Vec::new();
        let mut pairs: Vec<(String, String)> = Vec::new();
        let mut w: usize = 0;
        assert(waves.take(0) =~= Seq::<WaveInput>::empty());
        assert(task_ids(Seq::<TaskInput>::empty()) =~= Seq::<Seq<char>>::empty());
        while w < self.waves.len()
            invariant
                waves == self.waves@,
                w <= waves.len(),
                ids@.map_values(|s: String| s@) == task_ids(plan_tasks(waves.take(w as int))),
                repeated@.map_values(|s: String| s@) == repeated_ids(ids@.map_values(|s: String| s@)),
                pairs@.map_values(|p: (String, String)| (p.0@, p.1@)) == dependency_pairs(
                    plan_tasks(waves.take(w as int)),
                ),
            decreases waves.len() - w,
        {
            let wave = &self.waves[w];
            let ghost done = plan_tasks(waves.take(w as int));
            let mut t: usize = 0;
            assert(done + wave.tasks@.take(0) =~= done);
            while t < wave.tasks.len()
                invariant
                    waves == self.waves@,
                    w < waves.len(),
                    *wave == waves[w as int],
                    done == plan_tasks(waves.take(w as int)),
                    t <= wave.tasks@.len(),
                    ids@.map_values(|s: String| s@) == task_ids(done + wave.tasks@.take(t as int)),
                    repeated@.map_values(|s: String| s@) == repeated_ids(ids@.map_values(|s: String| s@)),
                    pairs@.map_values(|p: (String, String)| (p.0@, p.1@)) == dependency_pairs(
                        done + wave.tasks@.take(t as int),
                    ),
                decreases wave.tasks@.len() - t,
            {
                let task = &wave.tasks[t];
                let ghost before = done + wave.tasks@.take(t as int);
                let ghost after = done + wave.tasks@.take(t + 1);
                assert(after =~= before.push(wave.tasks@[t as int]));
                assert(after.drop_last() =~= before);
                let ghost ids_before = ids@.map_values(|s: String| s@);
                if contains_str(&ids, task.id.as_str()) {
                    let ghost rep_before = repeated@;
                    repeated.push(task.id.clone());
                    assert(repeated@.map_values(|s: String| s@) =~= rep_before.map_values(
                        |s: String| s@,
                    ).push(task.id@));
                }
                let ghost old_ids = ids@;
                ids.push(task.id.clone());
                assert(ids@.map_values(|s: String| s@) =~= ids_before.push(task.id@));
                assert(task_ids(after) =~= task_ids(before).push(task.id@));
                assert(ids@.map_values(|s: String| s@).drop_last() =~= ids_before);
                let ghost pairs_before = pairs@.map_values(|p: (String, String)| (p.0@, p.1@));
                let mut d: usize = 0;
                assert(task_dependencies(*task).take(0) =~= Seq::<(Seq<char>, Seq<char>)>::empty());
                assert(pairs_before + task_dependencies(*task).take(0) =~= pairs_before);
                while d < task.depends_on.len()
                    invariant
                        d <= task.depends_on@.len(),
                        pairs@.map_values(|p: (String, String)| (p.0@, p.1@)) == pairs_before
                            + task_dependencies(*task).take(d as int),
                    decreases task.depends_on@.len() - d,
                {
                    let ghost pv = pairs@;
                    pairs.push((task.id.clone(), task.depends_on[d].clone()));
                    assert(task_dependencies(*task).take(d + 1) =~= task_dependencies(*task).take(
                        d as int,
                    ).push((task.id@, task.depends_on@[d as int]@)));
                    assert(pairs@.map_values(|p: (String, String)| (p.0@, p.1@)) =~= pv.map_values(
                        |p: (String, String)| (p.0@, p.1@),
                    ).push((task.id@, task.depends_on@[d as int]@)));
                    d += 1;
                }
                assert(task_dependencies(*task).take(d as int) =~= task_dependencies(*task));
                assert(dependency_pairs(after) =~= dependency_pairs(before) + task_dependencies(
                    *task,
                ));
                t += 1;
            }
            assert(waves.take(w + 1).drop_last() =~= waves.take(w as int));
            assert(waves.take(w + 1).last() == waves[w as int]);
            assert(wave.tasks@.take(t as int) =~= wave.tasks@);
            w += 1;
        }
        assert(waves.take(w as int) =~= waves);
        let ghost all_ids = ids@.map_values(|s: String| s@);
        if repeated.len() > 0 {
            let mut m = "duplicate task IDs: ".to_owned();
            let ghost prefix = m@;
            let ghost rep = repeated@.map_values(|s: String| s@);
            let mut i: usize = 0;
            assert(rep.take(0) =~= Seq::<Seq<char>>::empty());
            assert(prefix + join(rep.take(0), ", "@) =~= prefix);
            while i < repeated.len()
                invariant
                    rep == repeated@.map_values(|s: String| s@),
                    i <= rep.len(),
                    m@ == prefix + join(rep.take(i as int), ", "@),
                decreases rep.len() - i,
            {
                assert(rep.take(i + 1).drop_last() =~= rep.take(i as int));
                assert(rep.take(i + 1).last() == rep[i as int]);
                if i > 0 {
                    m.append(", ");
                } else {
                    assert(rep.take(1)[0] == rep[0]);
                }
                m.append(repeated[i].as_str());
                assert(m@ =~= prefix + join(rep.take(i + 1), ", "@));
                i += 1;
            }
            assert(rep.take(i as int) =~= rep);
            return Err(SquadError::ValidationFailed(m));
        }
        let ghost all_pairs = pairs@.map_values(|p: (String, String)| (p.0@, p.1@));
        let mut k: usize = 0;
        assert(all_pairs.skip(0) =~= all_pairs);
        while k < pairs.len()
            invariant
                all_pairs == pairs@.map_values(|p: (String, String)| (p.0@, p.1@)),
                all_ids == ids@.map_values(|s: String| s@),
                waves == self.waves@,
                waves.len() > 0,
                all_ids == task_ids(plan_tasks(waves)),
                all_pairs == dependency_pairs(plan_tasks(waves)),
                repeated_ids(all_ids).len() == 0,
                k <= all_pairs.len(),
                first_unknown_dependency(all_pairs, all_ids) == first_unknown_dependency(
                    all_pairs.skip(k as int),
                    all_ids,
                ),
            decreases all_pairs.len() - k,
        {
            assert(all_pairs.skip(k as int)[0] == all_pairs[k as int]);
            assert(all_pairs.skip(k as int).skip(1) =~= all_pairs.skip(k + 1));
            if !contains_str(&ids, pairs[k].1.as_str()) {
                assert(all_pairs[k as int] == (pairs@[k as int].0@, pairs@[k as int].1@));
                assert(!all_ids.contains(all_pairs[k as int].1));
                assert(first_unknown_dependency(all_pairs, all_ids) == Some(all_pairs[k as int]));
                let mut m = "task '".to_owned();
                m.append(pairs[k].0.as_str());
                m.append("' depends on unknown task '");
                m.append(pairs[k].1.as_str());
                m.append("'");
                assert(m@ =~= "task '"@ + all_pairs[k as int].0 + "' depends on unknown task '"@
                    + all_pairs[k as int].1 + "'"@);

                return Err(SquadError::ValidationFailed(m));
            }
            k += 1;
        }
        Ok(())
    }
}

} // verus!
