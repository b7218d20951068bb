use knapsack_jobs::db::DbError;
use knapsack_jobs::dto::{Empty, Knapsack, MyOption, Problem, Timestamps};
use knapsack_jobs::models::{
    copy_column, map_arr, map_arr_inv, signed_of, unsigned_of, Solution, Task,
};
use knapsack_jobs::status::Status;

fn shown() -> Knapsack {
    Knapsack {
        task: 42,
        status: Status::Submitted,
        timestamps: Timestamps { submitted: 1700000000, started: None, completed: None },
        problem: Problem { capacity: 10, weights: vec![5, 4, 6, 3], values: vec![10, 40, 30, 50] },
        solution: MyOption::Absent(Empty {}),
    }
}

#[test]
fn signed_of_keeps_small_numbers() {
    assert_eq!(signed_of(0), 0);
    assert_eq!(signed_of(7), 7);
    assert_eq!(signed_of(i32::MAX as u32), i32::MAX);
}

#[test]
fn signed_of_wraps_large_numbers() {
    assert_eq!(signed_of(i32::MAX as u32 + 1), i32::MIN);
    assert_eq!(signed_of(u32::MAX), -1);
    assert_eq!(signed_of(4_000_000_000), -294_967_296);
}

#[test]
fn unsigned_of_is_the_inverse() {
    assert_eq!(unsigned_of(0), 0);
    assert_eq!(unsigned_of(i32::MAX), i32::MAX as u32);
    assert_eq!(unsigned_of(-1), u32::MAX);
    assert_eq!(unsigned_of(i32::MIN), 1 << 31);
    for u in [0u32, 1, 1 << 31, u32::MAX, 123_456_789, 4_000_000_000] {
        assert_eq!(unsigned_of(signed_of(u)), u);
    }
}

#[test]
fn map_arr_makes_every_entry_present() {
    assert_eq!(map_arr(&[1, 2, 3]), vec![Some(1), Some(2), Some(3)]);
    assert_eq!(map_arr(&[]), Vec::<Option<i32>>::new());
    assert_eq!(map_arr(&[u32::MAX]), vec![Some(-1)]);
}

#[test]
fn map_arr_inv_reads_present_entries() {
    assert_eq!(map_arr_inv(&[Some(1), Some(2), Some(3)]).unwrap(), vec![1, 2, 3]);
    assert_eq!(map_arr_inv(&[]).unwrap(), Vec::<u32>::new());
    assert_eq!(map_arr_inv(&[Some(-1)]).unwrap(), vec![u32::MAX]);
}

#[test]
fn map_arr_inv_refuses_an_absent_entry() {
    assert_eq!(map_arr_inv(&[Some(1), None, Some(3)]).unwrap_err().code, 500);
    assert_eq!(map_arr_inv(&[None]).unwrap_err().code, 500);
}

#[test]
fn map_arr_round_trip() {
    let numbers = vec![0, 5, i32::MAX as u32, u32::MAX];
    assert_eq!(map_arr_inv(&map_arr(&numbers)).unwrap(), numbers);
}

#[test]
fn copy_column_copies() {
    let column = vec![Some(1), None, Some(-3)];
    assert_eq!(copy_column(&column), column);
}

#[test]
fn from_dto_writes_the_row() {
    let row = Task::from_dto(&shown());
    assert_eq!(row.id, 42);
    assert_eq!(row.status, "submitted");
    assert_eq!(row.ts_submitted, 1700000000);
    assert_eq!(row.ts_started, None);
    assert_eq!(row.ts_completed, None);
    assert_eq!(row.problem_capacity, 10);
    assert_eq!(row.problem_weights, vec![Some(5), Some(4), Some(6), Some(3)]);
    assert_eq!(row.problem_values, vec![Some(10), Some(40), Some(30), Some(50)]);
}

#[test]
fn from_dto_stores_a_large_capacity_by_its_bits() {
    let mut task = shown();
    task.problem.capacity = 4_000_000_000;
    let row = Task::from_dto(&task);
    assert_eq!(row.problem_capacity, -294_967_296);
    let back = Knapsack::from_task(&row).unwrap();
    assert_eq!(back.problem.capacity, 4_000_000_000);
}

#[test]
fn start_moves_a_submitted_task() {
    let row = Task::from_dto(&shown());
    let started = row.start(1700000005).unwrap();
    assert_eq!(started.status, "started");
    assert_eq!(started.ts_started, Some(1700000005));
    assert_eq!(started.ts_completed, None);
    assert_eq!(started.id, row.id);
    assert_eq!(started.ts_submitted, row.ts_submitted);
    assert_eq!(started.problem_capacity, row.problem_capacity);
    assert_eq!(started.problem_weights, row.problem_weights);
    assert_eq!(started.problem_values, row.problem_values);
}

#[test]
fn start_is_stale_for_a_started_or_completed_task() {
    let row = Task::from_dto(&shown());
    let started = row.start(1).unwrap();
    assert_eq!(started.start(2).unwrap_err(), DbError::Stale);
    let completed = started.complete(3).unwrap();
    assert_eq!(completed.start(4).unwrap_err(), DbError::Stale);
}

#[test]
fn complete_moves_a_started_task() {
    let row = Task::from_dto(&shown());
    let started = row.start(1700000005).unwrap();
    let completed = started.complete(1700000009).unwrap();
    assert_eq!(completed.status, "completed");
    assert_eq!(completed.ts_started, Some(1700000005));
    assert_eq!(completed.ts_completed, Some(1700000009));
    assert_eq!(completed.problem_weights, row.problem_weights);
}

#[test]
fn complete_is_stale_unless_started() {
    let row = Task::from_dto(&shown());
    assert_eq!(row.complete(1).unwrap_err(), DbError::Stale);
    let completed = row.start(1).unwrap().complete(2).unwrap();
    assert_eq!(completed.complete(3).unwrap_err(), DbError::Stale);
}

#[test]
fn a_row_with_an_unknown_status_does_not_move() {
    let mut row = Task::from_dto(&shown());
    row.status = "paused".to_string();
    assert_eq!(row.start(1).unwrap_err(), DbError::Stale);
    assert_eq!(row.complete(1).unwrap_err(), DbError::Stale);
}

#[test]
fn status_rank_never_falls_along_the_lifecycle() {
    let row = Task::from_dto(&shown());
    let started = row.start(1).unwrap();
    let completed = started.complete(2).unwrap();
    let ranks: Vec<u8> = [&row, &started, &completed]
        .iter()
        .map(|r| Status::from_str(&r.status).unwrap().position())
        .collect();
    assert_eq!(ranks, vec![0, 1, 2]);
}

#[test]
fn has_status_compares_the_text() {
    let row = Task::from_dto(&shown());
    assert!(row.has_status(Status::Submitted));
    assert!(!row.has_status(Status::Started));
    assert!(!row.has_status(Status::Completed));
}

#[test]
fn duplicate_copies_rows() {
    let row = Task::from_dto(&shown());
    let copy = row.duplicate();
    assert_eq!(copy.id, row.id);
    assert_eq!(copy.status, row.status);
    assert_eq!(copy.problem_values, row.problem_values);
    let solution =
        Solution { id: 1, packed_items: vec![Some(1), Some(3)], total_value: 90, task_id: 42 };
    let copy = solution.duplicate();
    assert_eq!(copy.id, 1);
    assert_eq!(copy.packed_items, vec![Some(1), Some(3)]);
    assert_eq!(copy.total_value, 90);
    assert_eq!(copy.task_id, 42);
}
