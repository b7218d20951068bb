//! The store of tasks and solutions: what it holds, which changes it admits,
//! and a store in memory that makes exactly those changes.
//!
//! A store over a database makes the same changes with the rows' own rules
//! (`Task::start`, `Task::complete`); what is proved here of every sequence of
//! changes then holds of it too, as far as each of its operations is atomic.

use vstd::prelude::*;
use crate::clock::current_time;
use crate::db::{map_db_result, status_of, DbError};
use crate::dto::{Knapsack, KnapsackData};
use crate::http::{ApiResult, HttpStatus};
use crate::models::{all_present, loaded, Solution, SolutionData, Task, TaskData};
use crate::solver::{answers, as_ints, is_solution, lemma_sum_at_prefix, sum_at};
use crate::status::{lemma_texts_differ, Status};

verus! {

/// What a store holds: the task rows by their identifier, and the solution
/// rows by the identifier of the task that each answers.
pub struct StoreData {
    pub tasks: Map<u128, TaskData>,
    pub solutions: Map<u128, SolutionData>,
}

/// A change of the store.
pub enum StoreOp {
    /// A new task row is inserted.
    Insert(TaskData),
    /// The task with the identifier is started at the time.
    Start(u128, i32),
    /// The solution row is inserted, and its task completed at the time.
    Finish(SolutionData, i32),
}

impl StoreData {
    /// The store without rows.
    pub open spec fn empty() -> StoreData {
        StoreData { tasks: Map::empty(), solutions: Map::empty() }
    }

    /// Whether there is a task with the identifier `id`.
    pub open spec fn has_task(self, id: u128) -> bool {
        self.tasks.dom().contains(id)
    }

    /// Whether there is a solution of the task with the identifier `id`.
    pub open spec fn has_solution(self, id: u128) -> bool {
        self.solutions.dom().contains(id)
    }

    /// What holds of a store at all times: each row is filed under its own
    /// identifier, each task row is a state of the lifecycle, a task has a
    /// solution exactly if it is completed, and each solution is one of the
    /// problem of its task.
    pub open spec fn consistent(self) -> bool {
        &&& forall|id: u128| #[trigger]
            self.has_task(id) ==> self.tasks[id].id == id && self.tasks[id].lifecycle()
        &&& forall|id: u128| #[trigger]
            self.has_solution(id) ==> self.solutions[id].task_id == id && self.has_task(id)
                && self.tasks[id].in_state(Status::Completed) && answers(
                self.solutions[id],
                self.tasks[id],
            )
        &&& forall|id: u128|
            self.has_task(id) && (#[trigger] self.tasks[id]).in_state(Status::Completed)
                ==> self.has_solution(id)
    }

    /// Whether `task` is a row as a submission makes it: submitted, and
    /// neither started nor completed.
    pub open spec fn fresh(task: TaskData) -> bool {
        task.in_state(Status::Submitted) && task.ts_started is None && task.ts_completed is None
    }

    /// The store after the row `task` was inserted. The store refuses a row
    /// whose identifier is taken, and one that is not fresh.
    pub open spec fn insert(self, task: TaskData) -> Result<StoreData, DbError> {
        if self.has_task(task.id) || !StoreData::fresh(task) {
            Err(DbError::DatabaseError)
        } else {
            Ok(StoreData { tasks: self.tasks.insert(task.id, task), ..self })
        }
    }

    /// The store after the task `id` was started at `now`. There must be such
    /// a task, and it must be submitted: a started or completed one is left
    /// as it is, and the update is stale.
    pub open spec fn start(self, id: u128, now: i32) -> Result<StoreData, DbError> {
        if !self.has_task(id) {
            Err(DbError::NotFound)
        } else if !self.tasks[id].in_state(Status::Submitted) {
            Err(DbError::Stale)
        } else {
            Ok(StoreData { tasks: self.tasks.insert(id, self.tasks[id].started(now)), ..self })
        }
    }

    /// The store after `solution` was inserted and its task completed at
    /// `now`, both or neither. There must be such a task, and it must be
    /// started: for any other the update is stale. The store refuses a second
    /// solution of a task, and a row that is no solution of the task's
    /// problem.
    pub open spec fn finish(self, solution: SolutionData, now: i32) -> Result<StoreData, DbError> {
        let id = solution.task_id;
        if !self.has_task(id) {
            Err(DbError::NotFound)
        } else if self.has_solution(id) {
            Err(DbError::DatabaseError)
        } else if !self.tasks[id].in_state(Status::Started) {
            Err(DbError::Stale)
        } else if !answers(solution, self.tasks[id]) {
            Err(DbError::DatabaseError)
        } else {
            Ok(
                StoreData {
                    tasks: self.tasks.insert(id, self.tasks[id].completed(now)),
                    solutions: self.solutions.insert(id, solution),
                },
            )
        }
    }

    /// The store after the change `op`; the store as it is where the change is
    /// refused.
    pub open spec fn apply(self, op: StoreOp) -> StoreData {
        let after = match op {
            StoreOp::Insert(task) => self.insert(task),
            StoreOp::Start(id, now) => self.start(id, now),
            StoreOp::Finish(solution, now) => self.finish(solution, now),
        };
        match after {
            Ok(store) => store,
            Err(_) => self,
        }
    }

    /// The store after the changes `ops`, one after the other.
    pub open spec fn run(self, ops: Seq<StoreOp>) -> StoreData
        decreases ops.len(),
    {
        if ops.len() == 0 {
            self
        } else {
            self.run(ops.drop_last()).apply(ops.last())
        }
    }

    /// What a query for the task `id` is answered with: not found where there
    /// is no such task; the task as shown, with its solution once it is
    /// completed; a server error where a row cannot be shown, or a completed
    /// task has no solution.
    pub open spec fn shown(self, id: u128) -> Result<KnapsackData, HttpStatus> {
        if !self.has_task(id) {
            Err(HttpStatus { code: 404 })
        } else if !KnapsackData::shows(self.tasks[id]) {
            Err(HttpStatus { code: 500 })
        } else if !self.tasks[id].in_state(Status::Completed) {
            Ok(KnapsackData::of_row(self.tasks[id]))
        } else if !self.has_solution(id) || !all_present(self.solutions[id].packed_items) {
            Err(HttpStatus { code: 500 })
        } else {
            Ok(KnapsackData::of_row(self.tasks[id]).with(self.solutions[id]))
        }
    }
}

/// Every change keeps a consistent store consistent. In particular no change
/// leaves a completed task without a solution.
pub proof fn lemma_apply_consistent(store: StoreData, op: StoreOp)
    requires
        store.consistent(),
    ensures
        store.apply(op).consistent(),
{
    lemma_texts_differ();
    let after = store.apply(op);
    match op {
        StoreOp::Insert(task) => {
            if store.insert(task) is Ok {
                assert forall|id: u128| #[trigger] after.has_task(id) implies after.tasks[id].id
                    == id && after.tasks[id].lifecycle() by {
                    if id != task.id {
                        assert(store.has_task(id));
                    }
                }
                assert forall|id: u128| #[trigger] after.has_solution(id) implies after.solutions[id].task_id
                    == id && after.has_task(id) && after.tasks[id].in_state(Status::Completed)
                    && answers(after.solutions[id], after.tasks[id]) by {
                    assert(store.has_solution(id));
                }
                assert forall|id: u128|
                    after.has_task(id) && (#[trigger] after.tasks[id]).in_state(
                        Status::Completed,
                    ) implies after.has_solution(id) by {
                    if id != task.id {
                        assert(store.tasks[id].in_state(Status::Completed));
                    }
                }
            }
        },
        StoreOp::Start(started, now) => {
            if store.start(started, now) is Ok {
                assert forall|id: u128| #[trigger] after.has_task(id) implies after.tasks[id].id
                    == id && after.tasks[id].lifecycle() by {
                    assert(store.has_task(id));
                }
                assert forall|id: u128| #[trigger] after.has_solution(id) implies after.solutions[id].task_id
                    == id && after.has_task(id) && after.tasks[id].in_state(Status::Completed)
                    && answers(after.solutions[id], after.tasks[id]) by {
                    assert(store.has_solution(id));
                }
                assert forall|id: u128|
                    after.has_task(id) && (#[trigger] after.tasks[id]).in_state(
                        Status::Completed,
                    ) implies after.has_solution(id) by {
                    if id != started {
                        assert(store.tasks[id].in_state(Status::Completed));
                    }
                }
            }
        },
        StoreOp::Finish(solution, now) => {
            if store.finish(solution, now) is Ok {
                let done = solution.task_id;
                assert forall|id: u128| #[trigger] after.has_task(id) implies after.tasks[id].id
                    == id && after.tasks[id].lifecycle() by {
                    assert(store.has_task(id));
                }
                assert forall|id: u128| #[trigger] after.has_solution(id) implies after.solutions[id].task_id
                    == id && after.has_task(id) && after.tasks[id].in_state(Status::Completed)
                    && answers(after.solutions[id], after.tasks[id]) by {
                    if id != done {
                        assert(store.has_solution(id));
                    }
                }
                assert forall|id: u128|
                    after.has_task(id) && (#[trigger] after.tasks[id]).in_state(
                        Status::Completed,
                    ) implies after.has_solution(id) by {
                    if id != done {
                        assert(store.tasks[id].in_state(Status::Completed));
                    }
                }
            }
        },
    }
}

/// No change removes a task or moves it back: its status after the change is
/// the status before it or a later one.
pub proof fn lemma_apply_advances(store: StoreData, op: StoreOp, id: u128)
    requires
        store.consistent(),
        store.has_task(id),
    ensures
        store.apply(op).has_task(id),
        store.tasks[id].rank() <= store.apply(op).tasks[id].rank(),
{
    lemma_texts_differ();
}

/// A store that was consistent is so after any sequence of changes: at no
/// time is a task completed without a solution that names it.
pub proof fn lemma_run_consistent(store: StoreData, ops: Seq<StoreOp>)
    requires
        store.consistent(),
    ensures
        store.run(ops).consistent(),
    decreases ops.len(),
{
    if ops.len() > 0 {
        lemma_run_consistent(store, ops.drop_last());
        lemma_apply_consistent(store.run(ops.drop_last()), ops.last());
    }
}

/// The status of a task only moves forward: of two observations during a
/// sequence of changes, the later one sees the task in the same status as the
/// earlier one, or in a later status.
pub proof fn lemma_status_monotonic(
    store: StoreData,
    ops: Seq<StoreOp>,
    earlier: int,
    later: int,
    id: u128,
)
    requires
        store.consistent(),
        0 <= earlier <= later <= ops.len(),
        store.run(ops.take(earlier)).has_task(id),
    ensures
        store.run(ops.take(later)).has_task(id),
        store.run(ops.take(earlier)).tasks[id].rank() <= store.run(ops.take(later)).tasks[id].rank(),
    decreases later - earlier,
{
    if earlier < later {
        lemma_status_monotonic(store, ops, earlier, later - 1, id);
        let before = store.run(ops.take(later - 1));
        lemma_run_consistent(store, ops.take(later - 1));
        assert(ops.take(later).drop_last() =~= ops.take(later - 1));
        lemma_apply_advances(before, ops[later - 1], id);
    }
}

/// A task is started once: after it was started at `first`, it stays started
/// or completed and keeps that start time, whatever changes follow.
pub proof fn lemma_started_once(store: StoreData, id: u128, first: i32, ops: Seq<StoreOp>)
    requires
        store.start(id, first) is Ok,
    ensures
        store.start(id, first)->Ok_0.run(ops).has_task(id),
        store.start(id, first)->Ok_0.run(ops).tasks[id].ts_started == Some(first),
        !store.start(id, first)->Ok_0.run(ops).tasks[id].in_state(Status::Submitted),
    decreases ops.len(),
{
    lemma_texts_differ();
    if ops.len() > 0 {
        lemma_started_once(store, id, first, ops.drop_last());
    }
}

/// A task is completed once, with one solution: after `solution` was stored
/// at `first`, the task stays completed, keeps that completion time and that
/// solution, whatever changes follow.
pub proof fn lemma_solved_once(
    store: StoreData,
    solution: SolutionData,
    first: i32,
    ops: Seq<StoreOp>,
)
    requires
        store.finish(solution, first) is Ok,
    ensures
        store.finish(solution, first)->Ok_0.run(ops).has_task(solution.task_id),
        store.finish(solution, first)->Ok_0.run(ops).tasks[solution.task_id].in_state(
            Status::Completed,
        ),
        store.finish(solution, first)->Ok_0.run(ops).tasks[solution.task_id].ts_completed == Some(
            first,
        ),
        store.finish(solution, first)->Ok_0.run(ops).has_solution(solution.task_id),
        store.finish(solution, first)->Ok_0.run(ops).solutions[solution.task_id] == solution,
    decreases ops.len(),
{
    lemma_texts_differ();
    if ops.len() > 0 {
        lemma_solved_once(store, solution, first, ops.drop_last());
    }
}

/// In a consistent store a task is shown with a solution exactly if it is
/// shown as completed.
pub proof fn lemma_solution_iff_completed(store: StoreData, id: u128)
    requires
        store.consistent(),
        store.shown(id) is Ok,
    ensures
        store.shown(id)->Ok_0.solution is Some <==> store.shown(id)->Ok_0.status
            == Status::Completed,
        store.shown(id)->Ok_0.solution is Some ==> store.has_solution(id)
            && store.solutions[id].task_id == id,
{
    lemma_texts_differ();
}

/// What a consistent store shows as the solution of a task is a solution of
/// the problem that it shows for the task: the packed items are positions of
/// the problem, no position twice, the total value is the sum of the values
/// at these positions, and the weights there sum to no more than the
/// capacity.
pub proof fn lemma_shown_solution_is_feasible(store: StoreData, id: u128)
    requires
        store.consistent(),
        store.shown(id) is Ok,
        store.shown(id)->Ok_0.solution is Some,
    ensures
        ({
            let shown = store.shown(id)->Ok_0;
            let solution = shown.solution->0;
            let packed = as_ints(solution.packed_items);
            &&& shown.problem.weights.len() == shown.problem.values.len()
            &&& forall|k: int|
                0 <= k < packed.len() ==> 0 <= (#[trigger] packed[k]) < shown.problem.values.len()
            &&& forall|j: int, k: int|
                0 <= j < k < packed.len() ==> (#[trigger] packed[j]) != (#[trigger] packed[k])
            &&& solution.total_value == sum_at(shown.problem.values, packed)
            &&& sum_at(shown.problem.weights, packed) <= shown.problem.capacity
        }),
{
    lemma_texts_differ();
    lemma_solution_iff_completed(store, id);
    assert(answers(store.solutions[id], store.tasks[id]));
    let packed = as_ints(loaded(store.solutions[id].packed_items));
    lemma_sum_at_prefix(store.tasks[id].values(), packed, packed.len() as int);
}

/// The rows of `rows` by their key; meaningful where no two rows share one.
spec fn keyed<T>(rows: Seq<T>, key: spec_fn(T) -> u128) -> Map<u128, T> {
    Map::new(
        |id: u128| exists|i: int| 0 <= i < rows.len() && key(#[trigger] rows[i]) == id,
        |id: u128| rows[choose|i: int| 0 <= i < rows.len() && key(#[trigger] rows[i]) == id],
    )
}

/// Whether no two rows share a key.
spec fn distinct<T>(rows: Seq<T>, key: spec_fn(T) -> u128) -> bool {
    forall|i: int, j: int|
        0 <= i < j < rows.len() ==> key(#[trigger] rows[i]) != key(#[trigger] rows[j])
}

proof fn lemma_keyed_row<T>(rows: Seq<T>, key: spec_fn(T) -> u128, i: int)
    requires
        distinct(rows, key),
        0 <= i < rows.len(),
    ensures
        keyed(rows, key).dom().contains(key(rows[i])),
        keyed(rows, key)[key(rows[i])] == rows[i],
{
    let id = key(rows[i]);
    let j = choose|j: int| 0 <= j < rows.len() && key(#[trigger] rows[j]) == id;
    assert(0 <= j < rows.len() && key(rows[j]) == id);
    if j < i {
        assert(key(rows[j]) != key(rows[i]));
    } else if i < j {
        assert(key(rows[i]) != key(rows[j]));
    }
}

proof fn lemma_keyed_push<T>(rows: Seq<T>, key: spec_fn(T) -> u128, row: T)
    requires
        distinct(rows, key),
        forall|i: int| 0 <= i < rows.len() ==> key(#[trigger] rows[i]) != key(row),
    ensures
        distinct(rows.push(row), key),
        keyed(rows.push(row), key) == keyed(rows, key).insert(key(row), row),
{
    let more = rows.push(row);
    let n = rows.len() as int;
    assert(distinct(more, key)) by {
        assert forall|i: int, j: int| 0 <= i < j < more.len() implies key(#[trigger] more[i])
            != key(#[trigger] more[j]) by {
            if j < n {
                assert(key(rows[i]) != key(rows[j]));
            } else {
                assert(key(rows[i]) != key(row));
            }
        }
    }
    let a = keyed(more, key);
    let b = keyed(rows, key).insert(key(row), row);
    assert forall|id: u128| a.dom().contains(id) <==> b.dom().contains(id) by {
        if a.dom().contains(id) {
            let i = choose|i: int| 0 <= i < more.len() && key(#[trigger] more[i]) == id;
            if i < n {
                assert(key(rows[i]) == id);
            }
        }
        if b.dom().contains(id) {
            if id == key(row) {
                assert(key(more[n]) == id);
            } else {
                let i = choose|i: int| 0 <= i < rows.len() && key(#[trigger] rows[i]) == id;
                assert(key(more[i]) == id);
            }
        }
    }
    assert forall|id: u128| a.dom().contains(id) implies a[id] == b[id] by {
        let i = choose|i: int| 0 <= i < more.len() && key(#[trigger] more[i]) == id;
        lemma_keyed_row(more, key, i);
        if i < n {
            assert(key(rows[i]) == id);
            lemma_keyed_row(rows, key, i);
        }
    }
    assert(a =~= b);
}

proof fn lemma_keyed_update<T>(rows: Seq<T>, key: spec_fn(T) -> u128, at: int, row: T)
    requires
        distinct(rows, key),
        0 <= at < rows.len(),
        key(row) == key(rows[at]),
    ensures
        distinct(rows.update(at, row), key),
        keyed(rows.update(at, row), key) == keyed(rows, key).insert(key(row), row),
{
    let changed = rows.update(at, row);
    assert(distinct(changed, key)) by {
        assert forall|i: int, j: int| 0 <= i < j < changed.len() implies key(
            #[trigger] changed[i],
        ) != key(#[trigger] changed[j]) by {
            assert(key(rows[i]) != key(rows[j]));
        }
    }
    let a = keyed(changed, key);
    let b = keyed(rows, key).insert(key(row), row);
    assert forall|id: u128| a.dom().contains(id) <==> b.dom().contains(id) by {
        if a.dom().contains(id) {
            let i = choose|i: int| 0 <= i < changed.len() && key(#[trigger] changed[i]) == id;
            assert(key(rows[i]) == id);
        }
        if b.dom().contains(id) {
            if id == key(row) {
                assert(key(changed[at]) == id);
            } else {
                let i = choose|i: int| 0 <= i < rows.len() && key(#[trigger] rows[i]) == id;
                assert(key(changed[i]) == id);
            }
        }
    }
    assert forall|id: u128| a.dom().contains(id) implies a[id] == b[id] by {
        let i = choose|i: int| 0 <= i < changed.len() && key(#[trigger] changed[i]) == id;
        lemma_keyed_row(changed, key, i);
        if i != at {
            assert(key(rows[i]) == id);
            lemma_keyed_row(rows, key, i);
        }
    }
    assert(a =~= b);
}

proof fn lemma_keyed_absent<T>(rows: Seq<T>, key: spec_fn(T) -> u128, id: u128)
    requires
        forall|i: int| 0 <= i < rows.len() ==> key(#[trigger] rows[i]) != id,
    ensures
        !keyed(rows, key).dom().contains(id),
{
}

/// The key of a task row: its identifier.
spec fn task_key() -> spec_fn(TaskData) -> u128 {
    |task: TaskData| task.id
}

/// The key of a solution row: the identifier of its task.
spec fn solution_key() -> spec_fn(SolutionData) -> u128 {
    |solution: SolutionData| solution.task_id
}

/// The rows as mathematical values.
spec fn task_rows(rows: Seq<Task>) -> Seq<TaskData> {
    Seq::new(rows.len(), |i: int| rows[i]@)
}

/// The rows as mathematical values.
spec fn solution_rows(rows: Seq<Solution>) -> Seq<SolutionData> {
    Seq::new(rows.len(), |i: int| rows[i]@)
}

/// A store in memory. It holds task and solution rows, and changes only as
/// `StoreData` says a store may.
pub struct Store {
    tasks: Vec<Task>,
    solutions: Vec<Solution>,
}

impl View for Store {
    type V = StoreData;

    closed spec fn view(&self) -> StoreData {
        StoreData {
            tasks: keyed(task_rows(self.tasks@), task_key()),
            solutions: keyed(solution_rows(self.solutions@), solution_key()),
        }
    }
}

impl Store {
    /// The store's invariant: no two rows under one key, and the contents
    /// consistent.
    pub closed spec fn wf(&self) -> bool {
        &&& distinct(task_rows(self.tasks@), task_key())
        &&& distinct(solution_rows(self.solutions@), solution_key())
        &&& self@.consistent()
    }

    /// What holds of every store.
    pub proof fn lemma_consistent(&self)
        requires
            self.wf(),
        ensures
            self@.consistent(),
    {
    }

    /// An empty store.
    pub fn new() -> (store: Store)
        ensures
            store.wf(),
            store@ == StoreData::empty(),
    {
        let store = Store { tasks: Vec::new(), solutions: Vec::new() };
        assert(store@.tasks =~= Map::empty());
        assert(store@.solutions =~= Map::empty());
        store
    }

    /// The number of task rows.
    pub fn task_count(&self) -> (n: usize)
        requires
            self.wf(),
        ensures
            n == self@.tasks.dom().len(),
            self@.tasks.dom().finite(),
    {
        proof {
            self.lemma_counts();
        }
        self.tasks.len()
    }

    /// The number of solution rows.
    pub fn solution_count(&self) -> (n: usize)
        requires
            self.wf(),
        ensures
            n == self@.solutions.dom().len(),
            self@.solutions.dom().finite(),
    {
        proof {
            self.lemma_counts();
        }
        self.solutions.len()
    }

    proof fn lemma_counts(&self)
        requires
            self.wf(),
        ensures
            self@.tasks.dom().finite(),
            self@.tasks.dom().len() == self.tasks@.len(),
            self@.solutions.dom().finite(),
            self@.solutions.dom().len() == self.solutions@.len(),
    {
        lemma_keyed_count(task_rows(self.tasks@), task_key());
        lemma_keyed_count(solution_rows(self.solutions@), solution_key());
    }

    /// Where the task row with the identifier `id` stands.
    fn find_task(&self, id: u128) -> (at: Option<usize>)
        requires
            self.wf(),
        ensures
            at is Some <==> self@.has_task(id),
            at matches Some(i) ==> i < self.tasks@.len() && self.tasks@[i as int].id == id
                && self@.tasks[id] == self.tasks@[i as int]@,
    {
        let mut i: usize = 0;
        while i < self.tasks.len()
            invariant
                self.wf(),
                i <= self.tasks@.len(),
                forall|j: int| 0 <= j < i ==> (#[trigger] self.tasks@[j]).id != id,
            decreases self.tasks.len() - i,
        {
            if self.tasks[i].id == id {
                proof {
                    lemma_keyed_row(task_rows(self.tasks@), task_key(), i as int);
                }
                return Some(i);
            }
            i += 1;
        }
        proof {
            lemma_keyed_absent(task_rows(self.tasks@), task_key(), id);
        }
        None
    }

    /// Where the solution row of the task `id` stands.
    fn find_solution(&self, id: u128) -> (at: Option<usize>)
        requires
            self.wf(),
        ensures
            at is Some <==> self@.has_solution(id),
            at matches Some(i) ==> i < self.solutions@.len() && self.solutions@[i as int].task_id
                == id && self@.solutions[id] == self.solutions@[i as int]@,
    {
        let mut i: usize = 0;
        while i < self.solutions.len()
            invariant
                self.wf(),
                i <= self.solutions@.len(),
                forall|j: int| 0 <= j < i ==> (#[trigger] self.solutions@[j]).task_id != id,
            decreases self.solutions.len() - i,
        {
            if self.solutions[i].task_id == id {
                proof {
                    lemma_keyed_row(solution_rows(self.solutions@), solution_key(), i as int);
                }
                return Some(i);
            }
            i += 1;
        }
        proof {
            lemma_keyed_absent(solution_rows(self.solutions@), solution_key(), id);
        }
        None
    }

    /// Starts the task `task_id` at `now`, and gives its row as it is then.
    /// A task that was started before stays as it is.
    pub fn start(&mut self, task_id: u128, now: i32) -> (row: Result<Task, DbError>)
        requires
            old(self).wf(),
        ensures
            final(self).wf(),
            match old(self)@.start(task_id, now) {
                Ok(after) => final(self)@ == after && row is Ok && row->Ok_0@
                    == after.tasks[task_id],
                Err(e) => row == Err::<Task, DbError>(e) && final(self)@ == old(self)@,
            },
    {
        let at = match self.find_task(task_id) {
            Some(at) => at,
            None => {
                return Err(DbError::NotFound);
            },
        };
        let started = match self.tasks[at].start(now) {
            Ok(started) => started,
            Err(e) => {
                return Err(e);
            },
        };
        let row = started.duplicate();
        proof {
            lemma_keyed_update(task_rows(self.tasks@), task_key(), at as int, started@);
            assert(task_rows(self.tasks@.update(at as int, started)) =~= task_rows(
                self.tasks@,
            ).update(at as int, started@));
            lemma_apply_consistent(self@, StoreOp::Start(task_id, now));
        }
        self.tasks.set(at, started);
        Ok(row)
    }

    /// Inserts the solution row `solution` and completes its task at `now`:
    /// both, or neither.
    pub fn finish(&mut self, solution: Solution, now: i32) -> (done: Result<(), DbError>)
        requires
            old(self).wf(),
        ensures
            final(self).wf(),
            match old(self)@.finish(solution@, now) {
                Ok(after) => done is Ok && final(self)@ == after,
                Err(e) => done == Err::<(), DbError>(e) && final(self)@ == old(self)@,
            },
    {
        let at = match self.find_task(solution.task_id) {
            Some(at) => at,
            None => {
                return Err(DbError::NotFound);
            },
        };
        if self.find_solution(solution.task_id).is_some() {
            return Err(DbError::DatabaseError);
        }
        let completed = match self.tasks[at].complete(now) {
            Ok(completed) => completed,
            Err(e) => {
                return Err(e);
            },
        };
        if !is_solution(&solution, &self.tasks[at]) {
            return Err(DbError::DatabaseError);
        }
        proof {
            lemma_keyed_update(task_rows(self.tasks@), task_key(), at as int, completed@);
            assert(task_rows(self.tasks@.update(at as int, completed)) =~= task_rows(
                self.tasks@,
            ).update(at as int, completed@));
            lemma_keyed_push(solution_rows(self.solutions@), solution_key(), solution@);
            assert(solution_rows(self.solutions@.push(solution)) =~= solution_rows(
                self.solutions@,
            ).push(solution@));
            lemma_apply_consistent(self@, StoreOp::Finish(solution@, now));
        }
        self.tasks.set(at, completed);
        self.solutions.push(solution);
        Ok(())
    }

}

/// The connection to the store.
pub type Connection = Store;

/// Inserts the row of the newly submitted task `task`.
pub fn insert(task: &Knapsack, conn: &mut Connection) -> (done: ApiResult<()>)
    requires
        old(conn).wf(),
    ensures
        final(conn).wf(),
        match old(conn)@.insert(TaskData::of(task@)) {
            Ok(after) => done is Ok && final(conn)@ == after,
            Err(e) => done == Err::<(), HttpStatus>(status_of(e)) && final(conn)@ == old(conn)@,
        },
{
    let row = Task::from_dto(task);
    let fresh = row.has_status(Status::Submitted) && row.ts_started.is_none()
        && row.ts_completed.is_none();
    if !fresh || conn.find_task(row.id).is_some() {
        return map_db_result(Err(DbError::DatabaseError));
    }
    proof {
        lemma_keyed_push(task_rows(conn.tasks@), task_key(), row@);
        assert(task_rows(conn.tasks@.push(row)) =~= task_rows(conn.tasks@).push(row@));
        lemma_apply_consistent(conn@, StoreOp::Insert(row@));
    }
    conn.tasks.push(row);
    Ok(())
}

/// Answers a query for the task `task_id`.
pub fn get(task_id: u128, conn: &Connection) -> (shown: ApiResult<Knapsack>)
    requires
        conn.wf(),
    ensures
        match conn@.shown(task_id) {
            Ok(k) => shown is Ok && shown->Ok_0@ == k,
            Err(e) => shown is Err && shown->Err_0 == e,
        },
{
    let at = match conn.find_task(task_id) {
        Some(at) => at,
        None => {
            return map_db_result(Err(DbError::NotFound));
        },
    };
    let task = &conn.tasks[at];
    let knapsack = match Knapsack::from_task(task) {
        Ok(knapsack) => knapsack,
        Err(e) => {
            return Err(e);
        },
    };
    proof {
        lemma_texts_differ();
    }
    if knapsack.awaits_solution() {
        knapsack.attach(
            match conn.find_solution(task_id) {
                Some(found) => Ok(conn.solutions[found].duplicate()),
                None => Err(DbError::NotFound),
            },
        )
    } else {
        Ok(knapsack)
    }
}

/// Starts the task `task_id` now, and gives its row as it is then. A task
/// that was started before stays as it is, and the update is stale. Where the
/// clock gives no time stamp there is no value to write, and nothing changes.
pub fn set_task_status_started(task_id: u128, conn: &mut Connection) -> (row: Result<
    Task,
    DbError,
>)
    requires
        old(conn).wf(),
    ensures
        final(conn).wf(),
        row matches Ok(t) ==> {
            &&& t@.ts_started matches Some(now)
            &&& now >= 0
            &&& old(conn)@.start(task_id, now) == Ok::<StoreData, DbError>(final(conn)@)
            &&& t@ == final(conn)@.tasks[task_id]
        },
        row matches Err(e) ==> {
            &&& final(conn)@ == old(conn)@
            &&& e == DbError::SerializationError || old(conn)@.start(task_id, 0) == Err::<
                StoreData,
                DbError,
            >(e)
        },
{
    match current_time() {
        Some(now) => conn.start(task_id, now),
        None => Err(DbError::SerializationError),
    }
}

/// Inserts the solution row `solution` and completes its task now: both, or
/// neither. Where the clock gives no time stamp there is no value to write,
/// and nothing changes.
pub fn insert_solution(solution: Solution, conn: &mut Connection) -> (done: Result<(), DbError>)
    requires
        old(conn).wf(),
    ensures
        final(conn).wf(),
        done is Ok ==> exists|now: i32|
            now >= 0 && #[trigger] old(conn)@.finish(solution@, now) == Ok::<StoreData, DbError>(
                final(conn)@,
            ),
        done matches Err(e) ==> {
            &&& final(conn)@ == old(conn)@
            &&& e == DbError::SerializationError || old(conn)@.finish(solution@, 0) == Err::<
                StoreData,
                DbError,
            >(e)
        },
{
    match current_time() {
        Some(now) => conn.finish(solution, now),
        None => Err(DbError::SerializationError),
    }
}

/// A store of rows with distinct keys holds as many keys as rows.
proof fn lemma_keyed_count<T>(rows: Seq<T>, key: spec_fn(T) -> u128)
    requires
        distinct(rows, key),
    ensures
        keyed(rows, key).dom().finite(),
        keyed(rows, key).dom().len() == rows.len(),
    decreases rows.len(),
{
    if rows.len() == 0 {
        assert(keyed(rows, key).dom() =~= Set::empty());
    } else {
        let front = rows.drop_last();
        assert(distinct(front, key)) by {
            assert forall|i: int, j: int| 0 <= i < j < front.len() implies key(
                #[trigger] front[i],
            ) != key(#[trigger] front[j]) by {
                assert(key(rows[i]) != key(rows[j]));
            }
        }
        lemma_keyed_count(front, key);
        assert forall|i: int| 0 <= i < front.len() implies key(#[trigger] front[i]) != key(
            rows.last(),
        ) by {
            assert(key(rows[i]) != key(rows[rows.len() - 1]));
        }
        lemma_keyed_push(front, key, rows.last());
        lemma_keyed_absent(front, key, key(rows.last()));
        assert(front.push(rows.last()) =~= rows);
    }
}

} // verus!
