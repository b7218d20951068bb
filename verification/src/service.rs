//! The two requests of the service: the submission of a problem, and the
//! query for a task.

use vstd::prelude::*;
use crate::dto::{Knapsack, KnapsackData, ProblemBody};
use crate::http::{ApiResult, HttpStatus};
use crate::ids::{parse_id, parsed_uuid};
use crate::models::{lemma_row_round_trip, TaskData};
use crate::queue::{payload_id, publish_problem, PayloadError, Publication};
use crate::status::Status;
use crate::store::{get, insert, Connection, StoreData, StoreOp};

verus! {

/// Reads the identifier of a query. A text that is none is a fault of the
/// client.
pub fn task_id(id: &str) -> (task: ApiResult<u128>)
    ensures
        task == (match parsed_uuid(id@) {
            Some(task) => Ok::<u128, HttpStatus>(task),
            None => Err::<u128, HttpStatus>(HttpStatus { code: 400 }),
        }),
{
    match parse_id(id) {
        Some(task) => Ok(task),
        None => Err(HttpStatus::new(400)),
    }
}

/// Answers a query for the task that the text `id` names: a client error
/// where it names none, before the store is asked; else what the store shows
/// for it.
pub fn status(id: &str, state: &Connection) -> (shown: ApiResult<Knapsack>)
    requires
        state.wf(),
    ensures
        match parsed_uuid(id@) {
            None => shown is Err && shown->Err_0.code == 400,
            Some(task) => match state@.shown(task) {
                Ok(k) => shown is Ok && shown->Ok_0@ == k,
                Err(e) => shown is Err && shown->Err_0 == e,
            },
        },
{
    match task_id(id) {
        Ok(task) => get(task, state),
        Err(e) => Err(e),
    }
}

/// Takes a submission: validates the problem, makes a task for it, inserts
/// the task's row, and gives the task with the announcement that is to be
/// published for it.
///
/// A problem that is not valid is refused as a fault of the client, and then
/// nothing was inserted and there is nothing to publish. Nor is there where
/// the clock gave no time stamp or the row could not be inserted: these are
/// faults of the server.
pub fn submit(problem: ProblemBody, state: &mut Connection) -> (accepted: ApiResult<
    (Knapsack, Publication),
>)
    requires
        old(state).wf(),
    ensures
        final(state).wf(),
        !problem.problem().valid() ==> accepted is Err,
        accepted matches Err(e) ==> final(state)@ == old(state)@ && e.code == (if problem.problem().valid() {
            500u16
        } else {
            400u16
        }),
        accepted matches Ok((knapsack, publication)) ==> {
            &&& problem.problem().valid()
            &&& knapsack@ == KnapsackData::submitted(
                problem.problem(),
                knapsack.task,
                knapsack.timestamps.submitted,
            )
            &&& old(state)@.insert(TaskData::of(knapsack@)) == Ok::<StoreData, crate::db::DbError>(
                final(state)@,
            )
            &&& final(state)@.shown(knapsack.task) == Ok::<KnapsackData, HttpStatus>(knapsack@)
            &&& payload_id(publication.payload@) == Ok::<u128, PayloadError>(knapsack.task)
        },
{
    match problem.validate() {
        Ok(_) => {},
        Err(e) => {
            return Err(e);
        },
    }
    let knapsack = match Knapsack::new(problem.owned_to_problem()) {
        Ok(knapsack) => knapsack,
        Err(e) => {
            return Err(e);
        },
    };
    match insert(&knapsack, state) {
        Ok(_) => {},
        Err(e) => {
            return Err(e);
        },
    }
    proof {
        lemma_submit_then_query(old(state)@, knapsack@);
    }
    let publication = publish_problem(&knapsack.task);
    Ok((knapsack, publication))
}

/// A task that was just submitted is shown as it was submitted: the same
/// problem, the status submitted, and no solution.
pub proof fn lemma_submit_then_query(store: StoreData, knapsack: KnapsackData)
    requires
        knapsack == KnapsackData::submitted(
            knapsack.problem,
            knapsack.task,
            knapsack.timestamps.submitted,
        ),
        store.insert(TaskData::of(knapsack)) is Ok,
    ensures
        store.insert(TaskData::of(knapsack))->Ok_0.shown(knapsack.task) == Ok::<
            KnapsackData,
            HttpStatus,
        >(knapsack),
        store.insert(TaskData::of(knapsack))->Ok_0.shown(knapsack.task)->Ok_0.status
            == Status::Submitted,
        store.insert(TaskData::of(knapsack))->Ok_0.shown(knapsack.task)->Ok_0.solution is None,
{
    lemma_row_round_trip(knapsack);
    crate::status::lemma_texts_differ();
}

/// Whether the store holds the row of `knapsack` as it was submitted, and no
/// solution of it.
pub open spec fn awaits_worker(store: StoreData, knapsack: KnapsackData) -> bool {
    &&& store.has_task(knapsack.task)
    &&& store.tasks[knapsack.task] == TaskData::of(knapsack)
    &&& !store.has_solution(knapsack.task)
}

/// Until a worker starts it, a submitted task is shown as it was submitted,
/// whatever else happens in the store meanwhile: the same problem, the status
/// submitted, and no solution.
pub proof fn lemma_query_before_start(
    store: StoreData,
    knapsack: KnapsackData,
    ops: Seq<StoreOp>,
)
    requires
        store.consistent(),
        knapsack == KnapsackData::submitted(
            knapsack.problem,
            knapsack.task,
            knapsack.timestamps.submitted,
        ),
        store.insert(TaskData::of(knapsack)) is Ok,
        forall|k: int|
            0 <= k < ops.len() ==> !((#[trigger] ops[k]) matches StoreOp::Start(id, _) && id
                == knapsack.task),
    ensures
        awaits_worker(store.insert(TaskData::of(knapsack))->Ok_0.run(ops), knapsack),
        store.insert(TaskData::of(knapsack))->Ok_0.run(ops).shown(knapsack.task) == Ok::<
            KnapsackData,
            HttpStatus,
        >(knapsack),
    decreases ops.len(),
{
    lemma_row_round_trip(knapsack);
    crate::status::lemma_texts_differ();
    if ops.len() == 0 {
        assert(!store.has_solution(knapsack.task));
    } else {
        let front = ops.drop_last();
        assert forall|k: int| 0 <= k < front.len() implies !((#[trigger] front[k]) matches StoreOp::Start(
            id,
            _,
        ) && id == knapsack.task) by {
            assert(front[k] == ops[k]);
        }
        lemma_query_before_start(store, knapsack, front);
        let last = ops[ops.len() - 1];
        assert(!(last matches StoreOp::Start(id, _) && id == knapsack.task));
    }
}

} // verus!
