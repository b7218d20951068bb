//! The rows of the two tables of the store, `tasks` and `solutions`, and the
//! conversion between the unsigned numbers of a problem and the signed
//! 32-bit integers that the store's columns hold.

use vstd::prelude::*;
use crate::db::DbError;
use crate::dto::{Knapsack, KnapsackData};
use crate::http::{ApiResult, HttpStatus};
use crate::status::{lemma_texts_differ, Status};

verus! {

/// A row of the table `tasks`.
#[derive(Debug)]
pub struct Task {
    pub id: u128,
    pub status: String,
    pub ts_submitted: i32,
    pub ts_started: Option<i32>,
    pub ts_completed: Option<i32>,
    pub problem_capacity: i32,
    pub problem_weights: Vec<Option<i32>>,
    pub problem_values: Vec<Option<i32>>,
}

/// What a `Task` row holds, as mathematical values.
pub struct TaskData {
    pub id: u128,
    pub status: Seq<char>,
    pub ts_submitted: i32,
    pub ts_started: Option<i32>,
    pub ts_completed: Option<i32>,
    pub problem_capacity: i32,
    pub problem_weights: Seq<Option<i32>>,
    pub problem_values: Seq<Option<i32>>,
}

impl TaskData {
    /// Whether the row holds a problem: every entry of both lists present, and
    /// as many weights as values.
    pub open spec fn holds_problem(self) -> bool {
        &&& all_present(self.problem_values)
        &&& all_present(self.problem_weights)
        &&& self.problem_values.len() == self.problem_weights.len()
    }

    /// The values of the row's problem.
    pub open spec fn values(self) -> Seq<u32> {
        loaded(self.problem_values)
    }

    /// The weights of the row's problem.
    pub open spec fn weights(self) -> Seq<u32> {
        loaded(self.problem_weights)
    }

    /// The capacity of the row's problem.
    pub open spec fn capacity(self) -> u32 {
        to_unsigned(self.problem_capacity)
    }

    /// The row in which the shown task `k` is stored.
    pub open spec fn of(k: KnapsackData) -> TaskData {
        TaskData {
            id: k.task,
            status: k.status.text(),
            ts_submitted: k.timestamps.submitted,
            ts_started: k.timestamps.started,
            ts_completed: k.timestamps.completed,
            problem_capacity: to_signed(k.problem.capacity),
            problem_weights: stored(k.problem.weights),
            problem_values: stored(k.problem.values),
        }
    }

    /// Whether the row's status text is that of `status`.
    pub open spec fn in_state(self, status: Status) -> bool {
        self.status == status.text()
    }

    /// Whether the row is a state of the lifecycle: its status is known, it
    /// has a start time exactly if it was started, and a completion time
    /// exactly if it was completed.
    pub open spec fn lifecycle(self) -> bool {
        &&& Status::known(self.status)
        &&& self.ts_started is Some <==> !self.in_state(Status::Submitted)
        &&& self.ts_completed is Some <==> self.in_state(Status::Completed)
    }

    /// The position of the row's status in the lifecycle order.
    pub open spec fn rank(self) -> nat {
        Status::of_text(self.status).rank()
    }

    /// The row after its task was started at `now`.
    pub open spec fn started(self, now: i32) -> TaskData {
        TaskData { status: Status::Started.text(), ts_started: Some(now), ..self }
    }

    /// The row after its task was completed at `now`.
    pub open spec fn completed(self, now: i32) -> TaskData {
        TaskData { status: Status::Completed.text(), ts_completed: Some(now), ..self }
    }
}

impl View for Task {
    type V = TaskData;

    open spec fn view(&self) -> TaskData {
        TaskData {
            id: self.id,
            status: self.status@,
            ts_submitted: self.ts_submitted,
            ts_started: self.ts_started,
            ts_completed: self.ts_completed,
            problem_capacity: self.problem_capacity,
            problem_weights: self.problem_weights@,
            problem_values: self.problem_values@,
        }
    }
}

/// A row of the table `solutions`. `task_id` names the task that it answers.
#[derive(Debug)]
pub struct Solution {
    pub id: u128,
    pub packed_items: Vec<Option<i32>>,
    pub total_value: i32,
    pub task_id: u128,
}

/// What a `Solution` row holds, as mathematical values.
pub struct SolutionData {
    pub id: u128,
    pub packed_items: Seq<Option<i32>>,
    pub total_value: i32,
    pub task_id: u128,
}

impl View for Solution {
    type V = SolutionData;

    open spec fn view(&self) -> SolutionData {
        SolutionData {
            id: self.id,
            packed_items: self.packed_items@,
            total_value: self.total_value,
            task_id: self.task_id,
        }
    }
}

/// The signed 32-bit integer with the same bits as `u`: `u` itself up to
/// `i32::MAX`, and `u - 2^32` above it.
pub open spec fn to_signed(u: u32) -> i32 {
    if u <= 0x7fff_ffff {
        u as i32
    } else {
        (u - 0x1_0000_0000) as i32
    }
}

/// The unsigned 32-bit integer with the same bits as `i`: `i` itself from
/// zero on, and `i + 2^32` below it.
pub open spec fn to_unsigned(i: i32) -> u32 {
    if i >= 0 {
        i as u32
    } else {
        (i + 0x1_0000_0000) as u32
    }
}

/// The column value for the number `u`.
pub fn signed_of(u: u32) -> (i: i32)
    ensures
        i == to_signed(u),
{
    if u <= 0x7fff_ffff {
        u as i32
    } else {
        (u as i64 - 0x1_0000_0000) as i32
    }
}

/// The number that the column value `i` stands for.
pub fn unsigned_of(i: i32) -> (u: u32)
    ensures
        u == to_unsigned(i),
{
    if i >= 0 {
        i as u32
    } else {
        (i as i64 + 0x1_0000_0000) as u32
    }
}

/// Reading back what was written gives the number that was written, and the
/// other way round.
pub proof fn lemma_signed_round_trip(u: u32, i: i32)
    ensures
        to_unsigned(to_signed(u)) == u,
        to_signed(to_unsigned(i)) == i,
        u <= i32::MAX ==> to_signed(u) == u,
        i >= 0 ==> to_unsigned(i) == i,
{
}

/// The array column for `arr`: every entry present, each number as its column
/// value.
pub open spec fn stored(arr: Seq<u32>) -> Seq<Option<i32>> {
    Seq::new(arr.len(), |k: int| Some(to_signed(arr[k])))
}

/// Whether every entry of an array column is present.
pub open spec fn all_present(arr: Seq<Option<i32>>) -> bool {
    forall|k: int| 0 <= k < arr.len() ==> (#[trigger] arr[k]) is Some
}

/// The numbers of an array column whose entries are all present.
pub open spec fn loaded(arr: Seq<Option<i32>>) -> Seq<u32> {
    Seq::new(arr.len(), |k: int| to_unsigned(arr[k].unwrap()))
}

/// An array column of the store may hold absent entries, though a number list
/// never needs one: this writes `arr` with every entry present.
pub fn map_arr(arr: &[u32]) -> (out: Vec<Option<i32>>)
    ensures
        out@ == stored(arr@),
{
    let mut out: Vec<Option<i32>> = Vec::new();
    let mut k: usize = 0;
    while k < arr.len()
        invariant
            k <= arr.len(),
            out@ == stored(arr@.take(k as int)),
        decreases arr.len() - k,
    {
        out.push(Some(signed_of(arr[k])));
        k += 1;
        assert(out@ =~= stored(arr@.take(k as int)));
    }
    assert(arr@.take(k as int) =~= arr@);
    out
}

/// Reads an array column back as numbers. An absent entry cannot come from a
/// submitted problem, so it is answered with a server error.
pub fn map_arr_inv(arr: &[Option<i32>]) -> (out: ApiResult<Vec<u32>>)
    ensures
        out is Ok <==> all_present(arr@),
        out matches Ok(v) ==> v@ == loaded(arr@),
        out matches Err(e) ==> e.code == 500,
{
    let mut v: Vec<u32> = Vec::new();
    let mut k: usize = 0;
    while k < arr.len()
        invariant
            k <= arr.len(),
            all_present(arr@.take(k as int)),
            v@ == loaded(arr@.take(k as int)),
        decreases arr.len() - k,
    {
        match arr[k] {
            Some(i) => {
                v.push(unsigned_of(i));
            },
            None => {
                assert(!all_present(arr@)) by {
                    assert(arr@[k as int] is None);
                }
                return Err(HttpStatus::new(500));
            },
        }
        k += 1;
        assert(v@ =~= loaded(arr@.take(k as int)));
        assert(all_present(arr@.take(k as int)));
    }
    assert(arr@.take(k as int) =~= arr@);
    Ok(v)
}

/// Writing a number list and reading it back gives the list.
pub proof fn lemma_array_round_trip(arr: Seq<u32>)
    ensures
        all_present(stored(arr)),
        loaded(stored(arr)) == arr,
{
    assert(loaded(stored(arr)) =~= arr);
}

/// A copy of an array column.
pub fn copy_column(arr: &Vec<Option<i32>>) -> (out: Vec<Option<i32>>)
    ensures
        out@ == arr@,
{
    let mut out: Vec<Option<i32>> = Vec::new();
    let mut k: usize = 0;
    while k < arr.len()
        invariant
            k <= arr.len(),
            out@ == arr@.take(k as int),
        decreases arr.len() - k,
    {
        out.push(arr[k]);
        k += 1;
        assert(out@ =~= arr@.take(k as int));
    }
    assert(arr@.take(k as int) =~= arr@);
    out
}

impl Task {
    /// The row in which the shown task `task` is stored. The solution is not
    /// part of it: it has a row of its own.
    pub fn from_dto(task: &Knapsack) -> (row: Task)
        ensures
            row@ == TaskData::of(task@),
    {
        Task {
            id: task.task,
            status: task.status.to_string(),
            ts_submitted: task.timestamps.submitted,
            ts_started: task.timestamps.started,
            ts_completed: task.timestamps.completed,
            problem_capacity: signed_of(task.problem.capacity),
            problem_weights: map_arr(task.problem.weights.as_slice()),
            problem_values: map_arr(task.problem.values.as_slice()),
        }
    }

    /// Whether the row's status is `status`.
    pub fn has_status(&self, status: Status) -> (yes: bool)
        ensures
            yes == self@.in_state(status),
    {
        self.status == status.to_string()
    }

    /// The row after the task was started at `now`. Only a submitted task is
    /// started: for any other the update is stale, and there is no new row.
    pub fn start(&self, now: i32) -> (row: Result<Task, DbError>)
        ensures
            row is Ok <==> self@.in_state(Status::Submitted),
            row matches Ok(t) ==> t@ == self@.started(now) && t@.rank() == self@.rank() + 1,
            row matches Err(e) ==> e == DbError::Stale,
    {
        proof {
            lemma_texts_differ();
        }
        if !self.has_status(Status::Submitted) {
            return Err(DbError::Stale);
        }
        Ok(
            Task {
                id: self.id,
                status: Status::Started.to_string(),
                ts_submitted: self.ts_submitted,
                ts_started: Some(now),
                ts_completed: self.ts_completed,
                problem_capacity: self.problem_capacity,
                problem_weights: copy_column(&self.problem_weights),
                problem_values: copy_column(&self.problem_values),
            },
        )
    }

    /// The row after the task was completed at `now`. Only a started task is
    /// completed: for any other the update is stale, and there is no new row.
    pub fn complete(&self, now: i32) -> (row: Result<Task, DbError>)
        ensures
            row is Ok <==> self@.in_state(Status::Started),
            row matches Ok(t) ==> t@ == self@.completed(now) && t@.rank() == self@.rank() + 1,
            row matches Err(e) ==> e == DbError::Stale,
    {
        proof {
            lemma_texts_differ();
        }
        if !self.has_status(Status::Started) {
            return Err(DbError::Stale);
        }
        Ok(
            Task {
                id: self.id,
                status: Status::Completed.to_string(),
                ts_submitted: self.ts_submitted,
                ts_started: self.ts_started,
                ts_completed: Some(now),
                problem_capacity: self.problem_capacity,
                problem_weights: copy_column(&self.problem_weights),
                problem_values: copy_column(&self.problem_values),
            },
        )
    }

    /// A copy of the row.
    pub fn duplicate(&self) -> (out: Task)
        ensures
            out@ == self@,
    {
        Task {
            id: self.id,
            status: self.status.clone(),
            ts_submitted: self.ts_submitted,
            ts_started: self.ts_started,
            ts_completed: self.ts_completed,
            problem_capacity: self.problem_capacity,
            problem_weights: copy_column(&self.problem_weights),
            problem_values: copy_column(&self.problem_values),
        }
    }
}

impl Solution {
    /// A copy of the row.
    pub fn duplicate(&self) -> (out: Solution)
        ensures
            out@ == self@,
    {
        Solution {
            id: self.id,
            packed_items: copy_column(&self.packed_items),
            total_value: self.total_value,
            task_id: self.task_id,
        }
    }
}

/// A task that is stored and read back is shown as it was, without a
/// solution: same identifier, status, time stamps and problem.
pub proof fn lemma_row_round_trip(k: KnapsackData)
    ensures
        KnapsackData::shows(TaskData::of(k)),
        KnapsackData::of_row(TaskData::of(k)) == (KnapsackData { solution: None, ..k }),
        TaskData::of(k).rank() == k.status.rank(),
{
    lemma_texts_differ();
    lemma_array_round_trip(k.problem.weights);
    lemma_array_round_trip(k.problem.values);
    lemma_signed_round_trip(k.problem.capacity, 0);
}

} // verus!
