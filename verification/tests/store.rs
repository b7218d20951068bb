use knapsack_jobs::db::DbError;
use knapsack_jobs::dto::{Empty, Knapsack, MyOption, Problem, ProblemBody, Timestamps};
use knapsack_jobs::models::Solution;
use knapsack_jobs::queue::read_payload;
use knapsack_jobs::service::{status, submit, task_id};
use knapsack_jobs::solver::solve;
use knapsack_jobs::status::Status;
use knapsack_jobs::store::{get, insert, insert_solution, set_task_status_started, Store};
use knapsack_jobs::worker::{consume, Action, Consumption, Event};

fn fixture() -> Problem {
    Problem { capacity: 10, weights: vec![5, 4, 6, 3], values: vec![10, 40, 30, 50] }
}

fn shown(id: u128) -> Knapsack {
    Knapsack::submitted(fixture(), id, 1000)
}

fn text(id: u128) -> String {
    String::from_utf8(knapsack_jobs::queue::publish_problem(&id).payload).unwrap()
}

#[test]
fn a_new_store_is_empty() {
    let store = Store::new();
    assert_eq!(store.task_count(), 0);
    assert_eq!(store.solution_count(), 0);
    assert_eq!(get(1, &store).unwrap_err().code, 404);
}

#[test]
fn an_inserted_task_is_shown_as_submitted() {
    let mut store = Store::new();
    insert(&shown(1), &mut store).unwrap();
    assert_eq!(store.task_count(), 1);
    let k = get(1, &store).unwrap();
    assert_eq!(k.task, 1);
    assert_eq!(k.status, Status::Submitted);
    assert_eq!(k.timestamps, Timestamps { submitted: 1000, started: None, completed: None });
    assert_eq!(k.problem.capacity, 10);
    assert_eq!(k.problem.weights, vec![5, 4, 6, 3]);
    assert_eq!(k.problem.values, vec![10, 40, 30, 50]);
    assert!(!k.solution.is_some());
}

#[test]
fn an_identifier_is_taken_once() {
    let mut store = Store::new();
    insert(&shown(1), &mut store).unwrap();
    assert_eq!(insert(&shown(1), &mut store).unwrap_err().code, 500);
    assert_eq!(store.task_count(), 1);
    insert(&shown(2), &mut store).unwrap();
    assert_eq!(store.task_count(), 2);
}

#[test]
fn only_a_fresh_task_is_inserted() {
    let mut store = Store::new();
    let mut k = shown(1);
    k.status = Status::Completed;
    assert_eq!(insert(&k, &mut store).unwrap_err().code, 500);
    let mut k = shown(1);
    k.timestamps.started = Some(5);
    assert_eq!(insert(&k, &mut store).unwrap_err().code, 500);
    assert_eq!(store.task_count(), 0);
}

#[test]
fn starting_gives_the_started_row() {
    let mut store = Store::new();
    insert(&shown(1), &mut store).unwrap();
    let row = store.start(1, 1005).unwrap();
    assert_eq!(row.id, 1);
    assert_eq!(row.status, "started");
    assert_eq!(row.ts_started, Some(1005));
    assert_eq!(row.problem_weights, vec![Some(5), Some(4), Some(6), Some(3)]);
    let k = get(1, &store).unwrap();
    assert_eq!(k.status, Status::Started);
    assert_eq!(k.timestamps, Timestamps { submitted: 1000, started: Some(1005), completed: None });
    assert!(!k.solution.is_some());
}

#[test]
fn starting_twice_is_stale_and_changes_nothing() {
    let mut store = Store::new();
    insert(&shown(1), &mut store).unwrap();
    store.start(1, 1005).unwrap();
    assert_eq!(store.start(1, 2000).unwrap_err(), DbError::Stale);
    let k = get(1, &store).unwrap();
    assert_eq!(k.status, Status::Started);
    assert_eq!(k.timestamps.started, Some(1005));
}

#[test]
fn starting_a_missing_task_is_not_found() {
    let mut store = Store::new();
    assert_eq!(store.start(1, 5).unwrap_err(), DbError::NotFound);
}

#[test]
fn a_solution_completes_its_task() {
    let mut store = Store::new();
    insert(&shown(1), &mut store).unwrap();
    store.start(1, 1005).unwrap();
    let solution =
        Solution { id: 77, packed_items: vec![Some(1), Some(3)], total_value: 90, task_id: 1 };
    store.finish(solution, 1010).unwrap();
    assert_eq!(store.solution_count(), 1);
    let k = get(1, &store).unwrap();
    assert_eq!(k.status, Status::Completed);
    assert_eq!(
        k.timestamps,
        Timestamps { submitted: 1000, started: Some(1005), completed: Some(1010) }
    );
    match k.solution {
        MyOption::Present(s) => {
            assert_eq!(s.packed_items, vec![1, 3]);
            assert_eq!(s.total_value, 90);
        }
        MyOption::Absent(Empty {}) => panic!("a completed task has a solution"),
    }
}

#[test]
fn a_solution_of_a_submitted_task_is_stale() {
    let mut store = Store::new();
    insert(&shown(1), &mut store).unwrap();
    let solution = Solution { id: 77, packed_items: vec![], total_value: 0, task_id: 1 };
    assert_eq!(store.finish(solution, 1010).unwrap_err(), DbError::Stale);
    assert_eq!(store.solution_count(), 0);
    assert_eq!(get(1, &store).unwrap().status, Status::Submitted);
}

#[test]
fn a_solution_of_no_task_is_refused() {
    let mut store = Store::new();
    let solution = Solution { id: 77, packed_items: vec![], total_value: 0, task_id: 1 };
    assert_eq!(store.finish(solution, 1010).unwrap_err(), DbError::NotFound);
    assert_eq!(store.solution_count(), 0);
}

#[test]
fn a_task_has_one_solution() {
    let mut store = Store::new();
    insert(&shown(1), &mut store).unwrap();
    store.start(1, 1005).unwrap();
    let first =
        Solution { id: 77, packed_items: vec![Some(1), Some(3)], total_value: 90, task_id: 1 };
    let second = Solution { id: 78, packed_items: vec![Some(0)], total_value: 10, task_id: 1 };
    store.finish(first, 1010).unwrap();
    assert!(store.finish(second, 1020).is_err());
    assert_eq!(store.solution_count(), 1);
    let k = get(1, &store).unwrap();
    assert_eq!(k.timestamps.completed, Some(1010));
    assert!(matches!(k.solution, MyOption::Present(s) if s.total_value == 90));
}

#[test]
fn status_refuses_a_malformed_identifier() {
    let store = Store::new();
    assert_eq!(status("not-an-id", &store).unwrap_err().code, 400);
    assert_eq!(status("", &store).unwrap_err().code, 400);
    assert_eq!(task_id("zzz").unwrap_err().code, 400);
}

#[test]
fn status_of_an_unknown_task_is_not_found() {
    let store = Store::new();
    assert_eq!(status("550e8400-e29b-41d4-a716-446655440000", &store).unwrap_err().code, 404);
}

#[test]
fn task_id_reads_an_identifier() {
    assert_eq!(
        task_id("550e8400-e29b-41d4-a716-446655440000").unwrap(),
        0x550e8400_e29b_41d4_a716_446655440000
    );
}

#[test]
fn submit_then_query_shows_the_same_problem() {
    let mut store = Store::new();
    let (knapsack, publication) = submit(ProblemBody::Problem(fixture()), &mut store).unwrap();
    assert_eq!(knapsack.status, Status::Submitted);
    assert!(!knapsack.solution.is_some());
    assert_eq!(read_payload(&publication.payload), Ok(knapsack.task));
    assert_eq!(publication.routing_key, "problem_submitted");

    let shown = status(&text(knapsack.task), &store).unwrap();
    assert_eq!(shown.task, knapsack.task);
    assert_eq!(shown.status, Status::Submitted);
    assert_eq!(shown.timestamps, knapsack.timestamps);
    assert_eq!(shown.timestamps.started, None);
    assert_eq!(shown.timestamps.completed, None);
    assert_eq!(shown.problem.capacity, 10);
    assert_eq!(shown.problem.weights, vec![5, 4, 6, 3]);
    assert_eq!(shown.problem.values, vec![10, 40, 30, 50]);
    assert!(!shown.solution.is_some());
}

#[test]
fn a_weight_beyond_the_store_is_refused_before_anything_is_stored() {
    let mut store = Store::new();
    let problem =
        Problem { capacity: 10, weights: vec![5, i32::MAX as u32 + 1], values: vec![1, 2] };
    let refused = submit(ProblemBody::Problem(problem), &mut store);
    assert_eq!(refused.unwrap_err().code, 400);
    assert_eq!(store.task_count(), 0);
    assert_eq!(store.solution_count(), 0);
}

#[test]
fn lists_of_different_length_are_refused_before_anything_is_stored() {
    let mut store = Store::new();
    let problem = Problem { capacity: 10, weights: vec![5], values: vec![1, 2] };
    assert_eq!(submit(ProblemBody::Problem(problem), &mut store).unwrap_err().code, 400);
    assert_eq!(store.task_count(), 0);
}

/// Runs the worker's loop for one delivery against the store, with `pick` in
/// place of the search. Gives the number of solves that were made.
fn deliver(store: &mut Store, payload: Vec<u8>, now: i32, pick: &[bool]) -> u32 {
    let mut solves = 0;
    let (mut state, mut action) = consume(Consumption::Waiting, Event::Delivered(payload));
    loop {
        let event = match action {
            Action::Start(id) => Event::Started(store.start(id, now)),
            Action::Acknowledge => Event::Acknowledged(Ok(())),
            Action::Solve(task) => {
                solves += 1;
                Event::Solved(solve(&task, Ok(pick.to_vec())))
            }
            Action::Store(solution) => Event::Stored(store.finish(solution, now + 1)),
            Action::Drop(_) | Action::Fail(_) | Action::Finish => return solves,
        };
        let next = consume(state, event);
        state = next.0;
        action = next.1;
    }
}

#[test]
fn the_fixture_is_solved_with_ninety() {
    let mut store = Store::new();
    let (knapsack, publication) = submit(ProblemBody::Problem(fixture()), &mut store).unwrap();
    let solves = deliver(&mut store, publication.payload, 2000, &[false, true, false, true]);
    assert_eq!(solves, 1);
    let shown = status(&text(knapsack.task), &store).unwrap();
    assert_eq!(shown.status, Status::Completed);
    assert_eq!(shown.timestamps.started, Some(2000));
    assert_eq!(shown.timestamps.completed, Some(2001));
    match shown.solution {
        MyOption::Present(s) => {
            assert_eq!(s.packed_items, vec![1, 3]);
            assert_eq!(s.total_value, 90);
            let weight: u32 = s.packed_items.iter().map(|i| [5, 4, 6, 3][*i as usize]).sum();
            assert_eq!(weight, 7);
            assert!(weight <= 10);
        }
        MyOption::Absent(Empty {}) => panic!("a completed task has a solution"),
    }
}

#[test]
fn a_second_delivery_changes_nothing() {
    let mut store = Store::new();
    let (knapsack, publication) = submit(ProblemBody::Problem(fixture()), &mut store).unwrap();
    let first = deliver(&mut store, publication.payload.clone(), 2000, &[false, true, false, true]);
    let second = deliver(&mut store, publication.payload, 3000, &[true, false, false, false]);
    assert_eq!(first, 1);
    assert_eq!(second, 0);
    assert_eq!(store.solution_count(), 1);
    assert_eq!(store.task_count(), 1);
    let shown = status(&text(knapsack.task), &store).unwrap();
    assert_eq!(shown.status, Status::Completed);
    assert_eq!(shown.timestamps.started, Some(2000));
    assert_eq!(shown.timestamps.completed, Some(2001));
    assert!(matches!(shown.solution, MyOption::Present(s) if s.total_value == 90));
}

#[test]
fn the_status_only_moves_forward() {
    let mut store = Store::new();
    let (knapsack, publication) = submit(ProblemBody::Problem(fixture()), &mut store).unwrap();
    let id = text(knapsack.task);
    let mut seen = vec![status(&id, &store).unwrap().status.position()];
    store.start(knapsack.task, 5).unwrap();
    seen.push(status(&id, &store).unwrap().status.position());
    let _ = store.start(knapsack.task, 6);
    seen.push(status(&id, &store).unwrap().status.position());
    deliver(&mut store, publication.payload, 7, &[false; 4]);
    seen.push(status(&id, &store).unwrap().status.position());
    let solution = Solution { id: 1, packed_items: vec![], total_value: 0, task_id: knapsack.task };
    store.finish(solution, 8).unwrap();
    seen.push(status(&id, &store).unwrap().status.position());
    let _ = store.start(knapsack.task, 9);
    seen.push(status(&id, &store).unwrap().status.position());
    assert_eq!(seen, vec![0, 1, 1, 1, 2, 2]);
}

#[test]
fn a_delivery_for_an_unknown_task_makes_no_solution() {
    let mut store = Store::new();
    let payload = b"550e8400-e29b-41d4-a716-446655440000".to_vec();
    assert_eq!(deliver(&mut store, payload, 1, &[]), 0);
    assert_eq!(store.task_count(), 0);
    assert_eq!(store.solution_count(), 0);
}

#[test]
fn a_problem_without_items_is_completed_with_nothing_packed() {
    let mut store = Store::new();
    let problem = Problem { capacity: 10, weights: vec![], values: vec![] };
    let (knapsack, publication) = submit(ProblemBody::Problem(problem), &mut store).unwrap();
    assert_eq!(deliver(&mut store, publication.payload, 5, &[]), 1);
    let shown = status(&text(knapsack.task), &store).unwrap();
    assert_eq!(shown.status, Status::Completed);
    match shown.solution {
        MyOption::Present(s) => {
            assert!(s.packed_items.is_empty());
            assert_eq!(s.total_value, 0);
        }
        MyOption::Absent(Empty {}) => panic!("a completed task has a solution"),
    }
}

#[test]
fn a_task_is_started_now() {
    let mut store = Store::new();
    insert(&shown(1), &mut store).unwrap();
    let row = set_task_status_started(1, &mut store).unwrap();
    assert_eq!(row.status, "started");
    assert!(row.ts_started.unwrap() > 1_600_000_000);
    assert_eq!(get(1, &store).unwrap().timestamps.started, row.ts_started);
    assert_eq!(set_task_status_started(1, &mut store).unwrap_err(), DbError::Stale);
    assert_eq!(set_task_status_started(2, &mut store).unwrap_err(), DbError::NotFound);
}

#[test]
fn a_task_is_completed_now() {
    let mut store = Store::new();
    insert(&shown(1), &mut store).unwrap();
    set_task_status_started(1, &mut store).unwrap();
    let solution = Solution { id: 3, packed_items: vec![Some(1)], total_value: 40, task_id: 1 };
    insert_solution(solution, &mut store).unwrap();
    let k = get(1, &store).unwrap();
    assert_eq!(k.status, Status::Completed);
    assert!(k.timestamps.completed.unwrap() >= k.timestamps.started.unwrap());
    let again = Solution { id: 4, packed_items: vec![], total_value: 0, task_id: 1 };
    assert_eq!(insert_solution(again, &mut store).unwrap_err(), DbError::DatabaseError);
    let orphan = Solution { id: 5, packed_items: vec![], total_value: 0, task_id: 9 };
    assert_eq!(insert_solution(orphan, &mut store).unwrap_err(), DbError::NotFound);
}

#[test]
fn a_row_that_is_no_solution_is_refused() {
    let wrong_total =
        Solution { id: 1, packed_items: vec![Some(1), Some(3)], total_value: 91, task_id: 1 };
    let twice = Solution { id: 2, packed_items: vec![Some(1), Some(1)], total_value: 80, task_id: 1 };
    let beyond = Solution { id: 3, packed_items: vec![Some(4)], total_value: 0, task_id: 1 };
    let heavy = Solution { id: 4, packed_items: vec![Some(0), Some(2)], total_value: 40, task_id: 1 };
    let absent = Solution { id: 5, packed_items: vec![None], total_value: 0, task_id: 1 };
    for row in [wrong_total, twice, beyond, heavy, absent] {
        let mut store = Store::new();
        insert(&shown(1), &mut store).unwrap();
        store.start(1, 5).unwrap();
        assert_eq!(store.finish(row, 6).unwrap_err(), DbError::DatabaseError);
        assert_eq!(store.solution_count(), 0);
        assert_eq!(get(1, &store).unwrap().status, Status::Started);
    }
}
