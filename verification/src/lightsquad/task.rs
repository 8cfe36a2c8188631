//! Task and build status types, context tiers and task readiness.
use vstd::prelude::*;
use crate::text::str_eq;

verus! {

/// Build tier: determines phase structure and gate requirements.
#[derive(Debug, Clone, Copy, PartialEq, Eq, Hash)]
#[non_exhaustive]
pub enum Tier {
    /// 4 phases, lighter gate requirements.
    Small,
    /// 6 phases, standard gate requirements.
    Medium,
    /// 7 phases, full gate requirements.
    Large,
}

/// Context tier: what context is provided to a task.
///
/// `tier` is the canonical number (0 = canon, 1 = project, 2 = session);
/// the string form `"T1"`, `"T2"`, `"T3"` converts to and from it.
#[derive(Debug, Clone)]
#[non_exhaustive]
pub struct ContextTier {
    /// Tier number (0 = canon, 1 = project, 2 = session).
    pub tier: u8,
    /// Human-readable label.
    pub label: String,
    /// Files included in this tier.
    pub files: Vec<String>,
    /// Estimated token count.
    pub token_estimate: usize,
}

/// The tier number a tier string denotes: `"T1"`/`"t1"` is 0, `"T2"`/`"t2"`
/// is 1, `"T3"`/`"t3"` is 2.
pub open spec fn tier_number(s: Seq<char>) -> Option<u8> {
    if s == "T1"@ || s == "t1"@ {
        Some(0u8)
    } else if s == "T2"@ || s == "t2"@ {
        Some(1u8)
    } else if s == "T3"@ || s == "t3"@ {
        Some(2u8)
    } else {
        None
    }
}

/// The string form of a tier number: 0 is `"T1"`, 1 is `"T2"`, 2 is `"T3"`.
pub open spec fn tier_name(tier: u8) -> Option<Seq<char>> {
    if tier == 0 {
        Some("T1"@)
    } else if tier == 1 {
        Some("T2"@)
    } else if tier == 2 {
        Some("T3"@)
    } else {
        None
    }
}

impl ContextTier {
    /// A new context tier.
    pub fn new(tier: u8, label: String, files: Vec<String>, token_estimate: usize) -> (r: Self)
        ensures
            r.tier == tier,
            r.label == label,
            r.files == files,
            r.token_estimate == token_estimate,
    {
        ContextTier { tier, label, files, token_estimate }
    }

    /// The tier number of a tier string (`"T1"`, `"T2"`, `"T3"`, in either
    /// case of `T`); `None` for any other string.
    pub fn tier_from_string(s: &str) -> (r: Option<u8>)
        ensures
            r == tier_number(s@),
    {
        if str_eq(s, "T1") || str_eq(s, "t1") {
            Some(0)
        } else if str_eq(s, "T2") || str_eq(s, "t2") {
            Some(1)
        } else if str_eq(s, "T3") || str_eq(s, "t3") {
            Some(2)
        } else {
            None
        }
    }

    /// The tier string of a tier number; `None` outside 0–2.
    pub fn tier_to_string(tier: u8) -> (r: Option<&'static str>)
        ensures
            match r {
                Some(s) => tier_name(tier) == Some(s@),
                None => tier_name(tier) is None,
            },
    {
        if tier == 0 {
            Some("T1")
        } else if tier == 1 {
            Some("T2")
        } else if tier == 2 {
            Some("T3")
        } else {
            None
        }
    }
}

/// Converting a tier number to its string and back gives the number again.
pub proof fn lemma_tier_string_round_trip(tier: u8)
    ensures
        match tier_name(tier) {
            Some(s) => tier_number(s) == Some(tier),
            None => tier > 2,
        },
{
    reveal_strlit("T1");
    reveal_strlit("t1");
    reveal_strlit("T2");
    reveal_strlit("t2");
    reveal_strlit("T3");
    reveal_strlit("t3");
    assert("T2"@[1] != "T1"@[1] && "T2"@[1] != "t1"@[1]);
    assert("T3"@[1] != "T1"@[1] && "T3"@[1] != "t1"@[1]);
    assert("T3"@[1] != "T2"@[1] && "T3"@[1] != "t2"@[1]);
}

/// Converting a recognized tier string to its number and back gives its
/// canonical (upper-case) form.
pub proof fn lemma_tier_number_round_trip(s: Seq<char>)
    ensures
        match tier_number(s) {
            Some(t) => tier_name(t) is Some && (tier_name(t)->0 == s || tier_name(t)->0 == seq![
                'T',
                s[1],
            ]),
            None => true,
        },
{
    reveal_strlit("T1");
    reveal_strlit("t1");
    reveal_strlit("T2");
    reveal_strlit("t2");
    reveal_strlit("T3");
    reveal_strlit("t3");
    if tier_number(s) is Some {
        assert(s.len() == 2);
    }
}

/// Status of a delivery task.
#[derive(Debug, Clone, Copy, PartialEq, Eq, Hash)]
#[non_exhaustive]
pub enum TaskStatus {
    /// Not yet started.
    Pending,
    /// Currently executing.
    InProgress,
    /// Completed successfully.
    Complete,
    /// Failed with an error.
    Failed,
}

/// Status of a delivery wave.
#[derive(Debug, Clone, Copy, PartialEq, Eq, Hash)]
#[non_exhaustive]
pub enum WaveStatus {
    /// Not yet started.
    Pending,
    /// Currently executing.
    Running,
    /// All tasks completed.
    Complete,
    /// One or more tasks failed.
    Failed,
}

/// Status of a build pipeline.
#[derive(Debug, Clone, Copy, PartialEq, Eq, Hash)]
#[non_exhaustive]
pub enum BuildStatus {
    /// Not yet started.
    Pending,
    /// Currently executing waves.
    Running,
    /// Running quality gates.
    Gating,
    /// All phases and gates passed.
    Complete,
    /// A gate or task failed.
    Failed,
}

/// Status of a delivery agent in the worker pool.
#[derive(Debug, Clone, Copy, PartialEq, Eq, Hash)]
#[non_exhaustive]
pub enum AgentStatus {
    /// Available for work.
    Idle,
    /// Executing a task.
    Running,
    /// Paused (e.g. waiting for human approval).
    Paused,
    /// Done with its assignment.
    Done,
}

/// A delivery task with full context.
#[derive(Debug, Clone)]
#[non_exhaustive]
pub struct Task {
    /// Unique identifier.
    pub id: String,
    /// Git branch for the task.
    pub branch: String,
    /// IDs of tasks the task depends on.
    pub depends_on: Vec<String>,
    /// Files the task is allowed to modify.
    pub file_ownership: Vec<String>,
    /// Whether the task is safe to run concurrently.
    pub concurrency_safe: bool,
    /// Context tiers for the task.
    pub context_tiers: Vec<ContextTier>,
    /// The prompt or instruction for the worker.
    pub prompt: String,
    /// Current status.
    pub status: TaskStatus,
    /// Trace identifier linking the task to its pipeline span.
    pub trace_id: Option<String>,
}

/// The first task of `tasks` whose id is `id`.
pub open spec fn first_task_with_id(tasks: Seq<Task>, id: Seq<char>) -> Option<Task>
    decreases tasks.len(),
{
    if tasks.len() == 0 {
        None
    } else if tasks[0].id@ == id {
        Some(tasks[0])
    } else {
        first_task_with_id(tasks.skip(1), id)
    }
}

/// A dependency is met when the first task with its id is complete.
pub open spec fn dependency_met(tasks: Seq<Task>, dep: Seq<char>) -> bool {
    match first_task_with_id(tasks, dep) {
        Some(t) => t.status == TaskStatus::Complete,
        None => false,
    }
}

/// A task can run when it is pending and each of its dependencies is met.
pub open spec fn task_can_run(task: Task, tasks: Seq<Task>) -> bool {
    &&& task.status == TaskStatus::Pending
    &&& forall|i: int| 0 <= i < task.depends_on@.len() ==> dependency_met(tasks, #[trigger] task.depends_on@[i]@)
}

/// `j` is the index of the first task of `tasks` whose id is `id`.
pub open spec fn is_first_with_id(tasks: Seq<Task>, id: Seq<char>, j: int) -> bool {
    &&& 0 <= j < tasks.len()
    &&& tasks[j].id@ == id
    &&& forall|k: int| 0 <= k < j ==> #[trigger] tasks[k].id@ != id
}

proof fn lemma_first_task_with_id(tasks: Seq<Task>, id: Seq<char>)
    ensures
        match first_task_with_id(tasks, id) {
            Some(t) => exists|j: int| is_first_with_id(tasks, id, j) && tasks[j] == t,
            None => forall|k: int| 0 <= k < tasks.len() ==> #[trigger] tasks[k].id@ != id,
        },
    decreases tasks.len(),
{
    if tasks.len() > 0 {
        if tasks[0].id@ == id {
            assert(is_first_with_id(tasks, id, 0));
        } else {
            let rest = tasks.skip(1);
            lemma_first_task_with_id(rest, id);
            match first_task_with_id(rest, id) {
                Some(t) => {
                    let j = choose|j: int| is_first_with_id(rest, id, j) && rest[j] == t;
                    assert forall|k: int| 0 <= k < j + 1 implies #[trigger] tasks[k].id@ != id by {
                        if k > 0 {
                            assert(tasks[k] == rest[k - 1]);
                        }
                    }
                    assert(tasks[j + 1] == rest[j]);
                    assert(is_first_with_id(tasks, id, j + 1));
                },
                None => {
                    assert forall|k: int| 0 <= k < tasks.len() implies #[trigger] tasks[k].id@ != id by {
                        if k > 0 {
                            assert(tasks[k] == rest[k - 1]);
                        }
                    }
                },
            }
        }
    }
}

/// Some task carries the id `dep`, and the first task that does is complete.
pub open spec fn first_with_id_complete(tasks: Seq<Task>, dep: Seq<char>) -> bool {
    exists|j: int| is_first_with_id(tasks, dep, j) && tasks[j].status == TaskStatus::Complete
}

proof fn lemma_dependency_met_iff(tasks: Seq<Task>, dep: Seq<char>)
    ensures
        dependency_met(tasks, dep) <==> first_with_id_complete(tasks, dep),
{
    lemma_first_task_with_id(tasks, dep);
    match first_task_with_id(tasks, dep) {
        Some(t) => {
            let j0 = choose|j: int| is_first_with_id(tasks, dep, j) && tasks[j] == t;
            assert forall|j: int| is_first_with_id(tasks, dep, j) implies j == j0 by {
                if j < j0 {
                    assert(tasks[j].id@ != dep);
                } else if j > j0 {
                    assert(tasks[j0].id@ != dep);
                }
            }
        },
        None => {
            assert forall|j: int| !is_first_with_id(tasks, dep, j) by {
                if 0 <= j < tasks.len() {
                    assert(tasks[j].id@ != dep);
                }
            }
        },
    }
}

/// A task can run exactly when it is pending and, for every dependency,
/// some task carries that id and the first task that does is complete: a
/// dependency whose first task is pending, in progress or failed, or that no
/// task carries, keeps the task from running.
pub proof fn lemma_can_run_iff_dependencies_complete(task: Task, tasks: Seq<Task>)
    ensures
        task_can_run(task, tasks) <==> (task.status == TaskStatus::Pending && forall|i: int|
            0 <= i < task.depends_on@.len() ==> first_with_id_complete(tasks, #[trigger] task.depends_on@[i]@)),
{
    assert forall|i: int| 0 <= i < task.depends_on@.len() implies (dependency_met(
        tasks,
        #[trigger] task.depends_on@[i]@,
    ) <==> first_with_id_complete(tasks, task.depends_on@[i]@)) by {
        lemma_dependency_met_iff(tasks, task.depends_on@[i]@);
    }
}

/// Index of the first task of `tasks` whose id is `id`.
fn find_task(tasks: &[Task], id: &str) -> (r: Option<usize>)
    ensures
        match r {
            Some(j) => j < tasks@.len() && first_task_with_id(tasks@, id@) == Some(tasks@[j as int]),
            None => first_task_with_id(tasks@, id@) is None,
        },
{
    let mut j: usize = 0;
    assert(tasks@.skip(0) =~= tasks@);
    while j < tasks.len()
        invariant
            j <= tasks@.len(),
            first_task_with_id(tasks@, id@) == first_task_with_id(tasks@.skip(j as int), id@),
        decreases tasks@.len() - j,
    {
        assert(tasks@.skip(j as int)[0] == tasks@[j as int]);
        assert(tasks@.skip(j as int).skip(1) =~= tasks@.skip(j + 1));
        if str_eq(tasks[j].id.as_str(), id) {
            return Some(j);
        }
        j += 1;
    }
    None
}

impl Task {
    /// A task with the required fields; no dependencies, file ownership or
    /// context tiers, not concurrency-safe, no trace id.
    pub fn new(id: String, branch: String, prompt: String, status: TaskStatus) -> (r: Self)
        ensures
            r.id == id,
            r.branch == branch,
            r.prompt == prompt,
            r.status == status,
            r.depends_on@ == Seq::<String>::empty(),
            r.file_ownership@ == Seq::<String>::empty(),
            !r.concurrency_safe,
            r.context_tiers@ == Seq::<ContextTier>::empty(),
            r.trace_id is None,
    {
        Task {
            id,
            branch,
            prompt,
            status,
            depends_on: Vec::new(),
            file_ownership: Vec::new(),
            concurrency_safe: false,
            context_tiers: Vec::new(),
            trace_id: None,
        }
    }

    /// Whether the task can run: it is pending and, for each dependency, the
    /// first task of `tasks` with that id is complete.
    pub fn can_run(&self, tasks: &[Task]) -> (r: bool)
        ensures
            r == task_can_run(*self, tasks@),
    {
        match self.status {
            TaskStatus::Pending => {},
            _ => return false,
        }
        let mut i: usize = 0;
        while i < self.depends_on.len()
            invariant
                self.status == TaskStatus::Pending,
                i <= self.depends_on@.len(),
                forall|k: int| 0 <= k < i ==> dependency_met(tasks@, #[trigger] self.depends_on@[k]@),
            decreases self.depends_on@.len() - i,
        {
            let dep = self.depends_on[i].as_str();
            match find_task(tasks, dep) {
                Some(j) => {
                    match tasks[j].status {
                        TaskStatus::Complete => {},
                        _ => return false,
                    }
                },
                None => {
                    return false;
                },
            }
            i += 1;
        }
        true
    }
}

} // verus!
