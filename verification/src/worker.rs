//! The worker's handling of one delivery from the work channel, as a state
//! machine. The worker's loop receives, asks the store, acknowledges and
//! solves; after each of these it reports what came of it, and is told here
//! what to do next.
//!
//! A delivery is acknowledged only after its task was started in the store, so
//! one that is lost in between is delivered again. A task that was started
//! before is not solved again: its delivery is acknowledged, and that is all.

use vstd::prelude::*;
use crate::db::DbError;
use crate::models::{Solution, Task};
use crate::queue::{payload_id, read_payload, PayloadError};
use crate::solver::SolveError;
use crate::status::lemma_texts_differ;
use crate::store::{StoreData, StoreOp};

verus! {

/// Why the handling of a delivery ended without a solution.
#[derive(Debug)]
pub enum ConsumeError {
    /// The payload names no task.
    Payload(PayloadError),
    /// The store has no task of that identifier.
    NoSuchTask,
    /// The store failed.
    Store(DbError),
    /// The delivery could not be acknowledged; the broker's message.
    Ack(String),
    /// No solution was made.
    Solve(SolveError),
    /// A report came that was not asked for.
    OutOfTurn,
}

impl ConsumeError {
    /// The failure in words.
    pub open spec fn text(self) -> Seq<char> {
        match self {
            ConsumeError::Payload(e) => e.text(),
            ConsumeError::NoSuchTask => "there is no such task"@,
            ConsumeError::Store(e) => e.text(),
            ConsumeError::Ack(message) => message@,
            ConsumeError::Solve(e) => e.text(),
            ConsumeError::OutOfTurn => "a report came out of turn"@,
        }
    }

    /// The failure in words.
    pub fn message(&self) -> (message: String)
        ensures
            message@ == self.text(),
    {
        match self {
            ConsumeError::Payload(e) => e.message(),
            ConsumeError::NoSuchTask => "there is no such task".to_owned(),
            ConsumeError::Store(e) => e.message(),
            ConsumeError::Ack(message) => message.clone(),
            ConsumeError::Solve(e) => e.message(),
            ConsumeError::OutOfTurn => "a report came out of turn".to_owned(),
        }
    }
}

/// A result with its failure in words, for the log.
pub fn map_err_to_string<T>(res: Result<T, ConsumeError>) -> (out: Result<T, String>)
    ensures
        res matches Ok(t) ==> out == Ok::<T, String>(t),
        res matches Err(e) ==> out is Err && out->Err_0@ == e.text(),
{
    match res {
        Ok(t) => Ok(t),
        Err(e) => Err(e.message()),
    }
}

/// What the worker's loop reports.
#[derive(Debug)]
pub enum Event {
    /// A delivery came, with this payload.
    Delivered(Vec<u8>),
    /// The store was asked to start the task: the started row, or why not.
    Started(Result<Task, DbError>),
    /// The broker was asked to acknowledge the delivery.
    Acknowledged(Result<(), String>),
    /// The solver was run on the task.
    Solved(Result<Solution, SolveError>),
    /// The store was asked to insert the solution and complete the task.
    Stored(Result<(), DbError>),
}

/// What the worker's loop is to do next.
#[derive(Debug)]
pub enum Action {
    /// Start the task in the store, and report `Started`.
    Start(u128),
    /// Acknowledge the delivery, and report `Acknowledged`.
    Acknowledge,
    /// Solve the task off the loop, and report `Solved`.
    Solve(Task),
    /// Insert the solution and complete its task, and report `Stored`.
    Store(Solution),
    /// Give the delivery up for good: it can never be handled.
    Drop(ConsumeError),
    /// Give up, and log why.
    Fail(ConsumeError),
    /// Nothing: the delivery is handled.
    Finish,
}

/// How far the handling of a delivery has come.
#[derive(Debug)]
pub enum Consumption {
    /// Nothing was delivered yet.
    Waiting,
    /// The store is asked to start the task.
    Starting(u128),
    /// The delivery is being acknowledged; the row of the task follows where
    /// it is to be solved, and none where it was started before.
    Acknowledging(Option<Task>),
    /// The task is being solved.
    Solving(u128),
    /// The solution of the task is being stored.
    Storing(u128),
    /// The handling has ended.
    Done,
}

/// The state after `event` came in `state`, and what is to be done.
pub open spec fn step(state: Consumption, event: Event) -> (Consumption, Action) {
    match (state, event) {
        (Consumption::Waiting, Event::Delivered(payload)) => match payload_id(payload@) {
            Ok(id) => (Consumption::Starting(id), Action::Start(id)),
            Err(e) => (Consumption::Done, Action::Drop(ConsumeError::Payload(e))),
        },
        (Consumption::Starting(id), Event::Started(Ok(task))) => if task.id == id {
            (Consumption::Acknowledging(Some(task)), Action::Acknowledge)
        } else {
            (Consumption::Done, Action::Fail(ConsumeError::OutOfTurn))
        },
        (Consumption::Starting(_), Event::Started(Err(DbError::Stale))) => (
            Consumption::Acknowledging(None),
            Action::Acknowledge,
        ),
        (Consumption::Starting(_), Event::Started(Err(DbError::NotFound))) => (
            Consumption::Done,
            Action::Drop(ConsumeError::NoSuchTask),
        ),
        (Consumption::Starting(_), Event::Started(Err(e))) => (
            Consumption::Done,
            Action::Fail(ConsumeError::Store(e)),
        ),
        (Consumption::Acknowledging(Some(task)), Event::Acknowledged(Ok(_))) => (
            Consumption::Solving(task.id),
            Action::Solve(task),
        ),
        (Consumption::Acknowledging(None), Event::Acknowledged(Ok(_))) => (
            Consumption::Done,
            Action::Finish,
        ),
        (Consumption::Acknowledging(_), Event::Acknowledged(Err(message))) => (
            Consumption::Done,
            Action::Fail(ConsumeError::Ack(message)),
        ),
        (Consumption::Solving(id), Event::Solved(Ok(solution))) => if solution.task_id == id {
            (Consumption::Storing(id), Action::Store(solution))
        } else {
            (Consumption::Done, Action::Fail(ConsumeError::OutOfTurn))
        },
        (Consumption::Solving(_), Event::Solved(Err(e))) => (
            Consumption::Done,
            Action::Fail(ConsumeError::Solve(e)),
        ),
        (Consumption::Storing(_), Event::Stored(Ok(_))) => (Consumption::Done, Action::Finish),
        (Consumption::Storing(_), Event::Stored(Err(e))) => (
            Consumption::Done,
            Action::Fail(ConsumeError::Store(e)),
        ),
        _ => (Consumption::Done, Action::Fail(ConsumeError::OutOfTurn)),
    }
}

/// Takes the report `event` in the state `state`: gives the next state, and
/// what the loop is to do.
pub fn consume(state: Consumption, event: Event) -> (next: (Consumption, Action))
    ensures
        next == step(state, event),
{
    match (state, event) {
        (Consumption::Waiting, Event::Delivered(payload)) => match read_payload(
            payload.as_slice(),
        ) {
            Ok(id) => (Consumption::Starting(id), Action::Start(id)),
            Err(e) => (Consumption::Done, Action::Drop(ConsumeError::Payload(e))),
        },
        (Consumption::Starting(id), Event::Started(Ok(task))) => if task.id == id {
            (Consumption::Acknowledging(Some(task)), Action::Acknowledge)
        } else {
            (Consumption::Done, Action::Fail(ConsumeError::OutOfTurn))
        },
        (Consumption::Starting(_), Event::Started(Err(DbError::Stale))) => (
            Consumption::Acknowledging(None),
            Action::Acknowledge,
        ),
        (Consumption::Starting(_), Event::Started(Err(DbError::NotFound))) => (
            Consumption::Done,
            Action::Drop(ConsumeError::NoSuchTask),
        ),
        (Consumption::Starting(_), Event::Started(Err(e))) => (
            Consumption::Done,
            Action::Fail(ConsumeError::Store(e)),
        ),
        (Consumption::Acknowledging(Some(task)), Event::Acknowledged(Ok(_))) => (
            Consumption::Solving(task.id),
            Action::Solve(task),
        ),
        (Consumption::Acknowledging(None), Event::Acknowledged(Ok(_))) => (
            Consumption::Done,
            Action::Finish,
        ),
        (Consumption::Acknowledging(_), Event::Acknowledged(Err(message))) => (
            Consumption::Done,
            Action::Fail(ConsumeError::Ack(message)),
        ),
        (Consumption::Solving(id), Event::Solved(Ok(solution))) => if solution.task_id == id {
            (Consumption::Storing(id), Action::Store(solution))
        } else {
            (Consumption::Done, Action::Fail(ConsumeError::OutOfTurn))
        },
        (Consumption::Solving(_), Event::Solved(Err(e))) => (
            Consumption::Done,
            Action::Fail(ConsumeError::Solve(e)),
        ),
        (Consumption::Storing(_), Event::Stored(Ok(_))) => (Consumption::Done, Action::Finish),
        (Consumption::Storing(_), Event::Stored(Err(e))) => (
            Consumption::Done,
            Action::Fail(ConsumeError::Store(e)),
        ),
        _ => (Consumption::Done, Action::Fail(ConsumeError::OutOfTurn)),
    }
}

/// A delivery is acknowledged only after the store was asked to start its
/// task, and either did, or found it started before. A task is solved only
/// after its delivery was acknowledged, and only if it was not started
/// before; a solution is stored only for the task that was solved.
pub proof fn lemma_order_of_steps(state: Consumption, event: Event)
    ensures
        step(state, event).1 is Acknowledge ==> state is Starting && (event matches Event::Started(
            Ok(_),
        ) || event matches Event::Started(Err(DbError::Stale))),
        step(state, event).1 matches Action::Solve(task) ==> state == Consumption::Acknowledging(
            Some(task),
        ) && event matches Event::Acknowledged(Ok(_)),
        step(state, event).1 matches Action::Store(solution) ==> state == Consumption::Solving(
            solution.task_id,
        ) && event == Event::Solved(Ok(solution)),
        step(state, event).1 matches Action::Start(id) ==> state is Waiting,
{
}

/// The same task delivered twice is started once. The second time the store
/// finds the task started and changes nothing; the worker acknowledges the
/// delivery and is done with it, without solving again.
pub proof fn lemma_second_delivery(store: StoreData, id: u128, first: i32, second: i32)
    requires
        store.consistent(),
        store.start(id, first) is Ok,
    ensures
        store.start(id, first)->Ok_0.start(id, second) == Err::<StoreData, DbError>(DbError::Stale),
        store.start(id, first)->Ok_0.apply(StoreOp::Start(id, second)) == store.start(
            id,
            first,
        )->Ok_0,
        step(Consumption::Starting(id), Event::Started(Err(DbError::Stale))) == (
            Consumption::Acknowledging(None),
            Action::Acknowledge,
        ),
        step(Consumption::Acknowledging(None), Event::Acknowledged(Ok(()))) == (
            Consumption::Done,
            Action::Finish,
        ),
{
    lemma_texts_differ();
}

/// A task is completed once, with one solution: after a solution of a task
/// was stored, the store refuses every other of the same task and stays as it
/// is.
pub proof fn lemma_one_solution(
    store: StoreData,
    solution: crate::models::SolutionData,
    again: crate::models::SolutionData,
    first: i32,
    second: i32,
)
    requires
        store.consistent(),
        store.finish(solution, first) is Ok,
        again.task_id == solution.task_id,
    ensures
        store.finish(solution, first)->Ok_0.finish(again, second) is Err,
        store.finish(solution, first)->Ok_0.apply(StoreOp::Finish(again, second)) == store.finish(
            solution,
            first,
        )->Ok_0,
        store.finish(solution, first)->Ok_0.solutions[solution.task_id] == solution,
{
}

} // verus!
