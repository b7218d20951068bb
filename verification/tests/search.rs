use genevo::ga::genetic_algorithm;
use genevo::genetic::FitnessFunction;
use genevo::mutation::value::RandomValueMutator;
use genevo::population::{build_population, BinaryEncodedGenomeBuilder, Population};
use genevo::recombination::discrete::SinglePointCrossBreeder;
use genevo::reinsertion::elitist::ElitistReinserter;
use genevo::selection::truncation::MaximizeSelector;
use genevo::simulation::simulator::simulate;
use genevo::simulation::{SimResult, Simulation, SimulationBuilder};
use genevo::termination::limit::GenerationLimit;
use knapsack_jobs::dto::{MyOption, Problem as Submitted, ProblemBody};
use knapsack_jobs::models::{map_arr, Task};
use knapsack_jobs::service::{status, submit};
use knapsack_jobs::solver::{solve, Problem};
use knapsack_jobs::status::Status;
use knapsack_jobs::store::{insert_solution, set_task_status_started, Store};
use smallvec::SmallVec;

type Selection = SmallVec<[bool; 16]>;

#[derive(Debug, Clone)]
struct Evaluation<'a> {
    problem: &'a Problem,
}

impl<'a> FitnessFunction<Selection, i64> for Evaluation<'a> {
    fn fitness_of(&self, selection: &Selection) -> i64 {
        self.problem.fitness_of(&selection.to_vec())
    }

    fn average(&self, values: &[i64]) -> i64 {
        (values.iter().sum::<i64>() as f32 / values.len() as f32 + 0.5).floor() as i64
    }

    fn highest_possible_fitness(&self) -> i64 {
        self.problem.highest_possible_fitness()
    }

    fn lowest_possible_fitness(&self) -> i64 {
        self.problem.lowest_possible_fitness()
    }
}

fn ratio(percent: u8) -> f64 {
    f64::from(percent) / 100.0
}

fn search(problem: &Problem) -> Result<Vec<bool>, String> {
    let plan = problem.search_plan();
    let evaluation = Evaluation { problem };
    let initial_population: Population<Selection> = build_population()
        .with_genome_builder(BinaryEncodedGenomeBuilder::new(plan.genome_length))
        .of_size(plan.population_size)
        .uniform_at_random();
    let mut simulation = simulate(
        genetic_algorithm()
            .with_evaluation(evaluation.clone())
            .with_selection(MaximizeSelector::new(
                ratio(plan.selection_percent),
                plan.individuals_per_parents,
            ))
            .with_crossover(SinglePointCrossBreeder::new())
            .with_mutation(RandomValueMutator::new(ratio(plan.mutation_percent), false, true))
            .with_reinsertion(ElitistReinserter::new(
                evaluation,
                false,
                ratio(plan.reinsertion_percent),
            ))
            .with_initial_population(initial_population)
            .build(),
    )
    .until(GenerationLimit::new(plan.generation_limit))
    .build();
    loop {
        match simulation.step() {
            Ok(SimResult::Intermediate(_)) => {}
            Ok(SimResult::Final(step, _, _, _)) => {
                return Ok(step.result.best_solution.solution.genome.to_vec());
            }
            Err(error) => return Err(error.to_string()),
        }
    }
}

fn row(capacity: i32, weights: &[u32], values: &[u32]) -> Task {
    Task {
        id: 11,
        status: "started".to_string(),
        ts_submitted: 100,
        ts_started: Some(101),
        ts_completed: None,
        problem_capacity: capacity,
        problem_weights: map_arr(weights),
        problem_values: map_arr(values),
    }
}

#[test]
fn the_plan_of_the_search() {
    let problem = Problem::from_task(&row(10, &[5, 4, 6, 3], &[10, 40, 30, 50])).unwrap();
    let plan = problem.search_plan();
    assert_eq!(plan.genome_length, 4);
    assert_eq!(plan.population_size, 400);
    assert_eq!(plan.generation_limit, 20);
    assert_eq!(plan.selection_percent, 85);
    assert_eq!(plan.individuals_per_parents, 12);
    assert_eq!(plan.mutation_percent, 20);
    assert_eq!(plan.reinsertion_percent, 85);
}

#[test]
fn no_search_for_fewer_than_two_items() {
    assert!(!Problem::from_task(&row(10, &[], &[])).unwrap().needs_search());
    assert!(!Problem::from_task(&row(10, &[1], &[1])).unwrap().needs_search());
    assert!(Problem::from_task(&row(10, &[1, 2], &[1, 2])).unwrap().needs_search());
}

#[test]
fn the_search_finds_the_optimum_of_the_fixture() {
    let task = row(10, &[5, 4, 6, 3], &[10, 40, 30, 50]);
    let problem = Problem::from_task(&task).unwrap();
    let solution = solve(&task, search(&problem)).unwrap();
    let packed: Vec<i32> = solution.packed_items.iter().map(|i| i.unwrap()).collect();
    assert_eq!(packed, vec![1, 3]);
    assert_eq!(solution.total_value, 90);
    assert_eq!(solution.task_id, 11);
}

#[test]
fn the_search_ends_with_a_selection_of_the_length_of_the_problem() {
    let task = row(7, &[3, 9, 2, 8, 1, 6], &[4, 1, 7, 3, 9, 2]);
    let problem = Problem::from_task(&task).unwrap();
    let selection = search(&problem).unwrap();
    assert_eq!(selection.len(), 6);
}

#[test]
fn what_the_search_finds_is_never_too_heavy() {
    let weights = [3u32, 9, 2, 8, 1, 6, 7, 4];
    let values = [4u32, 1, 7, 3, 9, 2, 8, 5];
    for capacity in [0, 1, 5, 12, 100] {
        let task = row(capacity, &weights, &values);
        let problem = Problem::from_task(&task).unwrap();
        let solution = solve(&task, search(&problem)).unwrap();
        let mut weight = 0;
        let mut value = 0;
        let mut seen = [false; 8];
        for i in solution.packed_items.iter().map(|i| i.unwrap() as usize) {
            assert!(i < 8);
            assert!(!seen[i]);
            seen[i] = true;
            weight += weights[i];
            value += values[i];
        }
        assert!(weight <= capacity as u32);
        assert_eq!(solution.total_value as u32, value);
    }
}

#[test]
fn a_submitted_fixture_is_completed_with_the_optimum() {
    let mut store = Store::new();
    let fixture =
        Submitted { capacity: 10, weights: vec![5, 4, 6, 3], values: vec![10, 40, 30, 50] };
    let (knapsack, publication) = submit(ProblemBody::Problem(fixture), &mut store).unwrap();
    let id = String::from_utf8(publication.payload).unwrap();

    let task = set_task_status_started(knapsack.task, &mut store).unwrap();
    let problem = Problem::from_task(&task).unwrap();
    assert!(problem.needs_search());
    let solution = solve(&task, search(&problem)).unwrap();
    insert_solution(solution, &mut store).unwrap();

    let shown = status(&id, &store).unwrap();
    assert_eq!(shown.status, Status::Completed);
    match shown.solution {
        MyOption::Present(s) => {
            let weight: u32 = s.packed_items.iter().map(|i| [5, 4, 6, 3][*i as usize]).sum();
            assert!(weight <= 10);
            assert_eq!(weight, 7);
            assert_eq!(s.total_value, 90);
            assert_eq!(s.packed_items, vec![1, 3]);
        }
        MyOption::Absent(_) => panic!("a completed task has a solution"),
    }
}
