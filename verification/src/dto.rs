//! What a client sends and is shown: the problem it submits, and the state of
//! its task with the solution once there is one.

use vstd::prelude::*;
use crate::clock::current_time;
use crate::db::DbError;
use crate::http::{ApiResult, HttpStatus};
use crate::ids::fresh_id;
use crate::models::{all_present, loaded, map_arr_inv, to_unsigned, unsigned_of, SolutionData, TaskData};
use crate::models::Solution as DbSolution;
use crate::models::Task as DbTask;
use crate::status::Status;

verus! {

/// A knapsack problem as submitted: a capacity, and the weight and the value
/// of each item, position by position.
#[derive(Debug)]
pub struct Problem {
    pub capacity: u32,
    pub weights: Vec<u32>,
    pub values: Vec<u32>,
}

/// What a `Problem` holds, as mathematical values.
pub struct ProblemData {
    pub capacity: u32,
    pub weights: Seq<u32>,
    pub values: Seq<u32>,
}

impl View for Problem {
    type V = ProblemData;

    open spec fn view(&self) -> ProblemData {
        ProblemData { capacity: self.capacity, weights: self.weights@, values: self.values@ }
    }
}

impl ProblemData {
    /// Whether every number of `numbers` can be written to a column of the
    /// store as it is.
    pub open spec fn storable(numbers: Seq<u32>) -> bool {
        forall|k: int| 0 <= k < numbers.len() ==> (#[trigger] numbers[k]) <= i32::MAX
    }

    /// Whether the problem is accepted: as many weights as values, and each of
    /// them storable.
    pub open spec fn valid(self) -> bool {
        &&& self.weights.len() == self.values.len()
        &&& ProblemData::storable(self.weights)
        &&& ProblemData::storable(self.values)
    }
}

/// The body of a submission: the problem under the key `problem`.
#[derive(Debug)]
pub enum ProblemBody {
    Problem(Problem),
}

/// Whether every number of `numbers` is storable.
fn all_storable(numbers: &Vec<u32>) -> (yes: bool)
    ensures
        yes == ProblemData::storable(numbers@),
{
    let mut k: usize = 0;
    while k < numbers.len()
        invariant
            k <= numbers.len(),
            ProblemData::storable(numbers@.take(k as int)),
        decreases numbers.len() - k,
    {
        if numbers[k] > i32::MAX as u32 {
            return false;
        }
        k += 1;
        assert forall|j: int| 0 <= j < k implies (#[trigger] numbers@.take(k as int)[j])
            <= i32::MAX by {
            if j < k - 1 {
                assert(numbers@.take(k - 1)[j] == numbers@[j]);
            }
        }
    }
    assert(numbers@.take(k as int) =~= numbers@);
    true
}

impl ProblemBody {
    /// The problem of the body, as mathematical values.
    pub open spec fn problem(&self) -> ProblemData {
        match self {
            ProblemBody::Problem(p) => p@,
        }
    }

    /// The problem of the body.
    pub fn owned_to_problem(self) -> (problem: Problem)
        ensures
            problem@ == self.problem(),
    {
        match self {
            ProblemBody::Problem(p) => p,
        }
    }

    /// The problem of the body, borrowed.
    pub fn to_problem(&self) -> (problem: &Problem)
        ensures
            problem@ == self.problem(),
    {
        match self {
            ProblemBody::Problem(p) => p,
        }
    }

    /// Accepts the problem, or refuses it as a fault of the client: where the
    /// lists differ in length, or a weight or a value is more than the store's
    /// integer holds.
    pub fn validate(&self) -> (verdict: ApiResult<()>)
        ensures
            verdict is Ok <==> self.problem().valid(),
            verdict matches Err(e) ==> e.code == 400,
    {
        let problem = self.to_problem();
        if problem.weights.len() != problem.values.len() {
            return Err(HttpStatus::new(400));
        }
        if !all_storable(&problem.weights) {
            return Err(HttpStatus::new(400));
        }
        if !all_storable(&problem.values) {
            return Err(HttpStatus::new(400));
        }
        Ok(())
    }
}

/// A value that may be missing. Where it is, an empty object stands for it.
#[derive(Debug)]
pub enum MyOption<T> {
    Absent(Empty),
    Present(T),
}

/// The empty object.
#[derive(Debug)]
pub struct Empty {}

impl<T> MyOption<T> {
    /// The value, if there is one.
    pub open spec fn get(self) -> Option<T> {
        match self {
            MyOption::Absent(_) => None,
            MyOption::Present(t) => Some(t),
        }
    }

    /// Whether there is a value.
    pub fn is_some(&self) -> (yes: bool)
        ensures
            yes == self.get() is Some,
    {
        match self {
            MyOption::Absent(_) => false,
            MyOption::Present(_) => true,
        }
    }
}

/// When a task was submitted, started and completed, in seconds since the
/// Unix epoch.
#[derive(Clone, Copy, Debug, PartialEq, Eq, Structural)]
pub struct Timestamps {
    pub submitted: i32,
    pub started: Option<i32>,
    pub completed: Option<i32>,
}

/// A solution as shown to the client.
#[derive(Debug)]
pub struct Solution {
    /// Positions in the problem's lists.
    pub packed_items: Vec<u32>,
    /// The sum of the values at the packed positions.
    pub total_value: u32,
}

/// What a shown solution holds, as mathematical values.
pub struct PackedData {
    pub packed_items: Seq<u32>,
    pub total_value: u32,
}

impl View for Solution {
    type V = PackedData;

    open spec fn view(&self) -> PackedData {
        PackedData { packed_items: self.packed_items@, total_value: self.total_value }
    }
}

/// A task as shown to the client.
#[derive(Debug)]
pub struct Knapsack {
    pub task: u128,
    pub status: Status,
    pub timestamps: Timestamps,
    pub problem: Problem,
    pub solution: MyOption<Solution>,
}

/// What a shown task holds, as mathematical values.
pub struct KnapsackData {
    pub task: u128,
    pub status: Status,
    pub timestamps: Timestamps,
    pub problem: ProblemData,
    pub solution: Option<PackedData>,
}

impl View for Knapsack {
    type V = KnapsackData;

    open spec fn view(&self) -> KnapsackData {
        KnapsackData {
            task: self.task,
            status: self.status,
            timestamps: self.timestamps,
            problem: self.problem@,
            solution: match self.solution {
                MyOption::Absent(_) => None,
                MyOption::Present(s) => Some(s@),
            },
        }
    }
}

impl KnapsackData {
    /// A task as it is right after submission at the time `now`.
    pub open spec fn submitted(problem: ProblemData, task: u128, now: i32) -> KnapsackData {
        KnapsackData {
            task,
            status: Status::Submitted,
            timestamps: Timestamps { submitted: now, started: None, completed: None },
            problem,
            solution: None,
        }
    }

    /// Whether the row `task` can be shown: its status text is known, and no
    /// entry of its lists is absent.
    pub open spec fn shows(task: TaskData) -> bool {
        &&& Status::known(task.status)
        &&& all_present(task.problem_weights)
        &&& all_present(task.problem_values)
    }

    /// The row `task` as shown, without a solution.
    pub open spec fn of_row(task: TaskData) -> KnapsackData {
        KnapsackData {
            task: task.id,
            status: Status::of_text(task.status),
            timestamps: Timestamps {
                submitted: task.ts_submitted,
                started: task.ts_started,
                completed: task.ts_completed,
            },
            problem: ProblemData {
                capacity: to_unsigned(task.problem_capacity),
                weights: loaded(task.problem_weights),
                values: loaded(task.problem_values),
            },
            solution: None,
        }
    }

    /// The solution row `solution` as shown.
    pub open spec fn packed(solution: SolutionData) -> PackedData {
        PackedData {
            packed_items: loaded(solution.packed_items),
            total_value: to_unsigned(solution.total_value),
        }
    }

    /// The task with `solution` attached.
    pub open spec fn with(self, solution: SolutionData) -> KnapsackData {
        KnapsackData { solution: Some(KnapsackData::packed(solution)), ..self }
    }
}

impl Knapsack {
    /// The task for `problem` with the identifier `task`, submitted at `now`.
    pub fn submitted(problem: Problem, task: u128, now: i32) -> (knapsack: Knapsack)
        ensures
            knapsack@ == KnapsackData::submitted(problem@, task, now),
    {
        Knapsack {
            task,
            status: Status::Submitted,
            timestamps: Timestamps { submitted: now, started: Option::None, completed: Option::None },
            problem,
            solution: MyOption::<Solution>::Absent(Empty {  }),
        }
    }

    /// A new task for `problem`: submitted now, under a new random identifier.
    /// Where the clock gives no time stamp, the server is at fault.
    pub fn new(problem: Problem) -> (knapsack: ApiResult<Knapsack>)
        ensures
            knapsack matches Ok(k) ==> k@ == KnapsackData::submitted(
                problem@,
                k.task,
                k.timestamps.submitted,
            ) && k.timestamps.submitted >= 0,
            knapsack matches Err(e) ==> e.code == 500,
    {
        match current_time() {
            Option::Some(now) => Ok(Knapsack::submitted(problem, fresh_id(), now)),
            Option::None => Err(HttpStatus::new(500)),
        }
    }

    /// The row `task` as shown, without a solution. A row that cannot be shown
    /// is a fault of the store.
    pub fn from_task(task: &DbTask) -> (knapsack: ApiResult<Knapsack>)
        ensures
            knapsack is Ok <==> KnapsackData::shows(task@),
            knapsack matches Ok(k) ==> k@ == KnapsackData::of_row(task@),
            knapsack matches Err(e) ==> e.code == 500,
    {
        let status = match Status::from_str(task.status.as_str()) {
            Ok(status) => status,
            Err(e) => {
                return Err(e);
            },
        };
        let weights = match map_arr_inv(task.problem_weights.as_slice()) {
            Ok(weights) => weights,
            Err(e) => {
                return Err(e);
            },
        };
        let values = match map_arr_inv(task.problem_values.as_slice()) {
            Ok(values) => values,
            Err(e) => {
                return Err(e);
            },
        };
        Ok(
            Knapsack {
                task: task.id,
                status,
                timestamps: Timestamps {
                    submitted: task.ts_submitted,
                    started: task.ts_started,
                    completed: task.ts_completed,
                },
                problem: Problem { capacity: unsigned_of(task.problem_capacity), weights, values },
                solution: MyOption::<Solution>::Absent(Empty {  }),
            },
        )
    }

    /// Whether the task is shown with a solution: a completed task is.
    pub fn awaits_solution(&self) -> (yes: bool)
        ensures
            yes == (self.status == Status::Completed),
    {
        match self.status {
            Status::Completed => true,
            _ => false,
        }
    }

    /// The task with the solution that the store found for it. That a
    /// completed task has none, or one that cannot be shown, is a fault of
    /// the server.
    pub fn attach(self, found: Result<DbSolution, DbError>) -> (knapsack: ApiResult<Knapsack>)
        ensures
            knapsack is Ok <==> (found matches Ok(s) && all_present(s@.packed_items)),
            knapsack matches Ok(k) ==> k@ == self@.with(found->Ok_0@),
            knapsack matches Err(e) ==> e.code == 500,
    {
        match found {
            Ok(solution) => self.set(solution),
            Err(_) => Err(HttpStatus::new(500)),
        }
    }

    /// The task with the solution row `solution` attached. A row with an
    /// absent entry is a fault of the store.
    pub fn set(self, solution: DbSolution) -> (knapsack: ApiResult<Knapsack>)
        ensures
            knapsack is Ok <==> all_present(solution@.packed_items),
            knapsack matches Ok(k) ==> k@ == self@.with(solution@),
            knapsack matches Err(e) ==> e.code == 500,
    {
        let packed_items = match map_arr_inv(solution.packed_items.as_slice()) {
            Ok(packed_items) => packed_items,
            Err(e) => {
                return Err(e);
            },
        };
        Ok(
            Knapsack {
                task: self.task,
                status: self.status,
                timestamps: self.timestamps,
                problem: self.problem,
                solution: MyOption::Present(
                    Solution { packed_items, total_value: unsigned_of(solution.total_value) },
                ),
            },
        )
    }
}

} // verus!
