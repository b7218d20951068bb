//! The knapsack problem of a task, the evaluation of candidate selections, and
//! the solution row that a selection gives.
//!
//! A candidate is a list of booleans, one per item. The randomised search for
//! a good candidate is not part of this module: it asks `Problem::fitness_of`
//! for the score of each candidate, and `solve` takes the candidate it ends
//! with.

use vstd::prelude::*;
use vstd::std_specs::convert::FromSpecImpl;
use crate::ids::fresh_id;
use crate::models::{map_arr, map_arr_inv, stored, loaded, unsigned_of, Solution, SolutionData, Task, TaskData, all_present, lemma_array_round_trip};

verus! {

/// The sum of `numbers`.
pub open spec fn total(numbers: Seq<u32>) -> int
    decreases numbers.len(),
{
    if numbers.len() == 0 {
        0
    } else {
        total(numbers.drop_last()) + numbers.last()
    }
}

/// The positions at which `picks` is true, in increasing order.
pub open spec fn chosen(picks: Seq<bool>) -> Seq<int>
    decreases picks.len(),
{
    if picks.len() == 0 {
        Seq::empty()
    } else if picks.last() {
        chosen(picks.drop_last()).push(picks.len() - 1)
    } else {
        chosen(picks.drop_last())
    }
}

/// The sum of the numbers at the positions `indices`.
pub open spec fn sum_at(numbers: Seq<u32>, indices: Seq<int>) -> int
    decreases indices.len(),
{
    if indices.len() == 0 {
        0
    } else {
        sum_at(numbers, indices.drop_last()) + numbers[indices.last()]
    }
}

/// `chosen(picks)` lists exactly the positions at which `picks` is true, each
/// once, in increasing order.
pub proof fn lemma_chosen(picks: Seq<bool>)
    ensures
        chosen(picks).len() <= picks.len(),
        forall|k: int|
            0 <= k < chosen(picks).len() ==> 0 <= (#[trigger] chosen(picks)[k]) < picks.len()
                && picks[chosen(picks)[k]],
        forall|j: int, k: int|
            0 <= j < k < chosen(picks).len() ==> (#[trigger] chosen(picks)[j]) < (
            #[trigger] chosen(picks)[k]),
        forall|i: int| 0 <= i < picks.len() && picks[i] ==> chosen(picks).contains(i),
    decreases picks.len(),
{
    if picks.len() > 0 {
        let front = picks.drop_last();
        let rest = chosen(front);
        let n = picks.len() - 1;
        lemma_chosen(front);
        assert forall|i: int| 0 <= i < picks.len() && picks[i] implies chosen(picks).contains(
            i,
        ) by {
            if i < n {
                assert(front[i]);
                let k = choose|k: int| 0 <= k < rest.len() && rest[k] == i;
                assert(chosen(picks)[k] == i);
            } else {
                assert(chosen(picks)[rest.len() as int] == i);
            }
        }
    }
}

/// Adding a position to a list adds its number to the sum.
pub proof fn lemma_sum_at_push(numbers: Seq<u32>, indices: Seq<int>, i: int)
    ensures
        sum_at(numbers, indices.push(i)) == sum_at(numbers, indices) + numbers[i],
{
    assert(indices.push(i).drop_last() =~= indices);
}

/// The sum of a prefix is at most the sum of the whole.
pub proof fn lemma_total_prefix(numbers: Seq<u32>, k: int)
    requires
        0 <= k <= numbers.len(),
    ensures
        0 <= total(numbers.take(k)) <= total(numbers),
    decreases numbers.len(),
{
    if numbers.len() == 0 {
        assert(numbers.take(k) =~= numbers);
    } else if k == numbers.len() {
        lemma_total_prefix(numbers.drop_last(), k - 1);
        assert(numbers.drop_last().take(k - 1) =~= numbers.drop_last());
        assert(numbers.take(k) =~= numbers);
    } else {
        lemma_total_prefix(numbers.drop_last(), k);
        assert(numbers.drop_last().take(k) =~= numbers.take(k));
    }
}

/// What a candidate selects sums to at most the sum of the items it ranges
/// over.
pub proof fn lemma_chosen_sum_bounded(numbers: Seq<u32>, picks: Seq<bool>)
    requires
        picks.len() <= numbers.len(),
    ensures
        0 <= sum_at(numbers, chosen(picks)) <= total(numbers.take(picks.len() as int)),
        sum_at(numbers, chosen(picks)) <= total(numbers),
    decreases picks.len(),
{
    lemma_total_prefix(numbers, picks.len() as int);
    if picks.len() > 0 {
        let n = picks.len() - 1;
        lemma_chosen_sum_bounded(numbers, picks.drop_last());
        assert(numbers.take(n + 1).drop_last() =~= numbers.take(n));
        if picks.last() {
            lemma_sum_at_push(numbers, chosen(picks.drop_last()), n);
        }
    }
}

/// One item that may go into the knapsack.
#[derive(Debug, Clone, Copy)]
pub struct Item {
    pub value: u32,
    pub weight: u32,
}

impl Item {
    /// The item with the given value and weight.
    pub fn from(value: u32, weight: u32) -> (item: Item)
        ensures
            item.value == value,
            item.weight == weight,
    {
        Item { value, weight }
    }
}

/// The items of a problem, in the order of the problem's lists.
#[derive(Debug)]
pub struct GivenItems {
    pub list: Vec<Item>,
}

impl GivenItems {
    /// The values of the items, in order.
    pub open spec fn values(&self) -> Seq<u32> {
        Seq::new(self.list@.len(), |k: int| self.list@[k].value)
    }

    /// The weights of the items, in order.
    pub open spec fn weights(&self) -> Seq<u32> {
        Seq::new(self.list@.len(), |k: int| self.list@[k].weight)
    }

    /// Whether the value of all items together fits the fitness type, and their
    /// weight the weight type. Then no selection overflows either.
    pub open spec fn fits(&self) -> bool {
        total(self.values()) <= i64::MAX && total(self.weights()) <= u64::MAX
    }
}

impl From<Vec<Item>> for GivenItems {
    fn from(items: Vec<Item>) -> (given: GivenItems) {
        GivenItems { list: items }
    }
}

impl FromSpecImpl<Vec<Item>> for GivenItems {
    open spec fn obeys_from_spec() -> bool {
        true
    }

    open spec fn from_spec(items: Vec<Item>) -> GivenItems {
        GivenItems { list: items }
    }
}

/// What a selection packs: the chosen items with their positions, and their
/// value and weight together.
#[derive(Debug)]
pub struct Knapsack {
    pub items: Vec<Item>,
    pub value: i64,
    pub weight: u64,
    pub indices: Vec<usize>,
}

/// A candidate: one boolean per item, true where the item is packed.
pub type Selection = Vec<bool>;

/// A list of positions as mathematical integers.
pub open spec fn positions(indices: Seq<usize>) -> Seq<int> {
    Seq::new(indices.len(), |k: int| indices[k] as int)
}

/// The knapsack that `selection` packs from `given_items`.
pub fn as_knapsack(selection: &Selection, given_items: &GivenItems) -> (knapsack: Knapsack)
    requires
        selection.len() <= given_items.list.len(),
        given_items.fits(),
    ensures
        positions(knapsack.indices@) == chosen(selection@),
        knapsack.items@.len() == knapsack.indices@.len(),
        forall|k: int|
            0 <= k < knapsack.items@.len() ==> (#[trigger] knapsack.items@[k])
                == given_items.list@[knapsack.indices@[k] as int],
        knapsack.value == sum_at(given_items.values(), chosen(selection@)),
        knapsack.weight == sum_at(given_items.weights(), chosen(selection@)),
{
    let mut indices: Vec<usize> = Vec::new();
    let mut items: Vec<Item> = Vec::new();
    let mut value: i64 = 0;
    let mut weight: u64 = 0;
    let mut index: usize = 0;
    while index < selection.len()
        invariant
            index <= selection.len() <= given_items.list.len(),
            given_items.fits(),
            positions(indices@) == chosen(selection@.take(index as int)),
            items@.len() == indices@.len(),
            forall|k: int|
                0 <= k < items@.len() ==> (#[trigger] items@[k]) == given_items.list@[indices@[k] as int],
            value == sum_at(given_items.values(), chosen(selection@.take(index as int))),
            weight == sum_at(given_items.weights(), chosen(selection@.take(index as int))),
        decreases selection.len() - index,
    {
        proof {
            let next = selection@.take(index + 1);
            assert(next.drop_last() =~= selection@.take(index as int));
            lemma_chosen_sum_bounded(given_items.values(), next);
            lemma_chosen_sum_bounded(given_items.weights(), next);
            if selection@[index as int] {
                lemma_sum_at_push(given_items.values(), chosen(next.drop_last()), index as int);
                lemma_sum_at_push(given_items.weights(), chosen(next.drop_last()), index as int);
            }
        }
        if selection[index] {
            let item = given_items.list[index];
            indices.push(index);
            items.push(item);
            value = value + item.value as i64;
            weight = weight + item.weight as u64;
        }
        index += 1;
        assert(positions(indices@) =~= chosen(selection@.take(index as int)));
    }
    assert(selection@.take(index as int) =~= selection@);
    Knapsack { items, value, weight, indices }
}

/// A knapsack problem: which selection of the given items has the greatest
/// value among those that weigh no more than the allowed weight?
#[derive(Debug)]
pub struct Problem {
    pub given_items: GivenItems,
    pub allowed_weight: u64,
    pub highest_possible_fitness: i64,
}

/// How the search for a good candidate is run: a population of fixed size is
/// bred for a fixed number of generations; the better part of each
/// generation is selected as parents, children are crossed from them at one
/// point and mutated bit by bit, and the best of the old generation survive
/// beside them. Ratios are in percent.
#[derive(Clone, Copy, Debug, PartialEq, Eq, Structural)]
pub struct SearchPlan {
    /// The length of a candidate: the number of items.
    pub genome_length: usize,
    /// The number of candidates in each generation.
    pub population_size: usize,
    /// The number of generations.
    pub generation_limit: u64,
    /// The part of a generation that is selected as parents.
    pub selection_percent: u8,
    /// The number of parents of one breeding.
    pub individuals_per_parents: usize,
    /// The chance that a bit of a child is flipped.
    pub mutation_percent: u8,
    /// The part of a generation that children replace.
    pub reinsertion_percent: u8,
}

/// Why no solution was made for a task.
#[derive(Debug)]
pub enum SolveError {
    /// The row holds no problem: an entry of a list is absent, or the lists
    /// differ in length.
    Malformed,
    /// The problem has more items than the store has numbers for positions.
    TooLarge,
    /// The search failed, with its message.
    Search(String),
    /// The search ended with a candidate of another length than the problem.
    Selection,
    /// The total value exceeds what a column of the store holds.
    Unstorable,
}

impl SolveError {
    /// The failure in words: for a failed search its own message.
    pub open spec fn text(self) -> Seq<char> {
        match self {
            SolveError::Malformed => "the task holds no problem"@,
            SolveError::TooLarge => "the problem has too many items"@,
            SolveError::Search(message) => message@,
            SolveError::Selection => "the search ended with a selection of another length"@,
            SolveError::Unstorable => "the total value does not fit the store"@,
        }
    }

    /// The failure in words.
    pub fn message(&self) -> (message: String)
        ensures
            message@ == self.text(),
    {
        match self {
            SolveError::Malformed => "the task holds no problem".to_owned(),
            SolveError::TooLarge => "the problem has too many items".to_owned(),
            SolveError::Search(message) => message.clone(),
            SolveError::Selection => "the search ended with a selection of another length".to_owned(),
            SolveError::Unstorable => "the total value does not fit the store".to_owned(),
        }
    }
}

impl Problem {
    /// The problem is consistent: no selection overflows, and the highest
    /// possible fitness is the value of all items together.
    pub open spec fn wf(&self) -> bool {
        &&& self.given_items.fits()
        &&& self.highest_possible_fitness == total(self.given_items.values())
    }

    /// The weight of what `picks` selects.
    pub open spec fn weight(&self, picks: Seq<bool>) -> int {
        sum_at(self.given_items.weights(), chosen(picks))
    }

    /// The value of what `picks` selects.
    pub open spec fn value(&self, picks: Seq<bool>) -> int {
        sum_at(self.given_items.values(), chosen(picks))
    }

    /// The score of a candidate: the value of what it selects if that weighs no
    /// more than allowed, and zero otherwise.
    pub open spec fn fitness(&self, picks: Seq<bool>) -> int {
        if self.weight(picks) <= self.allowed_weight {
            self.value(picks)
        } else {
            0
        }
    }

    /// The problem of packing `given_items` into `allowed_weight`.
    pub fn new(allowed_weight: u64, given_items: GivenItems) -> (problem: Problem)
        requires
            given_items.fits(),
        ensures
            problem.wf(),
            problem.allowed_weight == allowed_weight,
            problem.given_items == given_items,
    {
        let mut highest: i64 = 0;
        let mut index: usize = 0;
        while index < given_items.list.len()
            invariant
                index <= given_items.list.len(),
                given_items.fits(),
                highest == total(given_items.values().take(index as int)),
            decreases given_items.list.len() - index,
        {
            proof {
                let values = given_items.values();
                lemma_total_prefix(values, index + 1);
                assert(values.take(index + 1).drop_last() =~= values.take(index as int));
            }
            highest = highest + given_items.list[index].value as i64;
            index += 1;
        }
        assert(given_items.values().take(index as int) =~= given_items.values());
        Problem { given_items, allowed_weight, highest_possible_fitness: highest }
    }

    /// The score of `selection`.
    pub fn fitness_of(&self, selection: &Selection) -> (fitness: i64)
        requires
            self.wf(),
            selection.len() <= self.given_items.list.len(),
        ensures
            fitness == self.fitness(selection@),
            0 <= fitness <= self.highest_possible_fitness,
    {
        let mut total_weight: u64 = 0;
        let mut total_value: i64 = 0;
        let mut index: usize = 0;
        while index < selection.len()
            invariant
                index <= selection.len() <= self.given_items.list.len(),
                self.wf(),
                total_weight == self.weight(selection@.take(index as int)),
                total_value == self.value(selection@.take(index as int)),
            decreases selection.len() - index,
        {
            proof {
                let next = selection@.take(index + 1);
                assert(next.drop_last() =~= selection@.take(index as int));
                lemma_chosen_sum_bounded(self.given_items.values(), next);
                lemma_chosen_sum_bounded(self.given_items.weights(), next);
                if selection@[index as int] {
                    lemma_sum_at_push(
                        self.given_items.values(),
                        chosen(next.drop_last()),
                        index as int,
                    );
                    lemma_sum_at_push(
                        self.given_items.weights(),
                        chosen(next.drop_last()),
                        index as int,
                    );
                }
            }
            if selection[index] {
                let item = &self.given_items.list[index];
                total_weight = total_weight + item.weight as u64;
                total_value = total_value + item.value as i64;
            }
            index += 1;
        }
        proof {
            assert(selection@.take(index as int) =~= selection@);
            lemma_chosen_sum_bounded(self.given_items.values(), selection@);
        }
        if total_weight > self.allowed_weight {
            0
        } else {
            total_value
        }
    }

    /// The greatest score that any candidate could have: the value of all
    /// items together.
    pub fn highest_possible_fitness(&self) -> (fitness: i64)
        ensures
            fitness == self.highest_possible_fitness,
    {
        self.highest_possible_fitness
    }

    /// The least score that a candidate can have.
    pub fn lowest_possible_fitness(&self) -> (fitness: i64)
        ensures
            fitness == 0,
    {
        0
    }
}

/// The sum of a list is at most as many times the greatest number as the
/// list is long. So up to `i32::MAX` items always fit together.
pub proof fn lemma_total_bound(numbers: Seq<u32>)
    ensures
        total(numbers) <= numbers.len() * u32::MAX,
        numbers.len() <= i32::MAX ==> total(numbers) <= i64::MAX,
    decreases numbers.len(),
{
    if numbers.len() > 0 {
        lemma_total_bound(numbers.drop_last());
        assert((numbers.len() - 1) * u32::MAX + u32::MAX == numbers.len() * u32::MAX)
            by (nonlinear_arith);
    }
    if numbers.len() <= i32::MAX {
        assert(numbers.len() * u32::MAX <= i32::MAX * u32::MAX) by (nonlinear_arith)
            requires
                numbers.len() <= i32::MAX,
        ;
    }
}

/// The items with the given values and weights, position by position.
fn pair_items(values: &Vec<u32>, weights: &Vec<u32>) -> (given: GivenItems)
    requires
        values.len() == weights.len(),
    ensures
        given.values() == values@,
        given.weights() == weights@,
{
    let mut list: Vec<Item> = Vec::new();
    let mut index: usize = 0;
    while index < values.len()
        invariant
            index <= values.len() == weights.len(),
            list@.len() == index,
            forall|k: int|
                0 <= k < index ==> (#[trigger] list@[k]).value == values@[k] && list@[k].weight
                    == weights@[k],
        decreases values.len() - index,
    {
        list.push(Item::from(values[index], weights[index]));
        index += 1;
    }
    let given = GivenItems { list };
    proof {
        assert(given.values() =~= values@);
        assert(given.weights() =~= weights@);
    }
    given
}

impl Problem {
    /// Whether the problem of the row `task` can be solved: the row holds a
    /// problem, with no more items than a column of the store has numbers for
    /// their positions.
    pub open spec fn readable(task: TaskData) -> bool {
        &&& task.holds_problem()
        &&& task.values().len() <= i32::MAX
    }

    /// The problem that the row `task` holds.
    pub fn from_task(task: &Task) -> (problem: Result<Problem, SolveError>)
        ensures
            problem is Ok <==> Problem::readable(task@),
            problem matches Ok(p) ==> {
                &&& p.wf()
                &&& p.given_items.values() == task@.values()
                &&& p.given_items.weights() == task@.weights()
                &&& p.allowed_weight == task@.capacity()
            },
            problem matches Err(e) ==> e == (if task@.holds_problem() {
                SolveError::TooLarge
            } else {
                SolveError::Malformed
            }),
    {
        let values = match map_arr_inv(task.problem_values.as_slice()) {
            Ok(values) => values,
            Err(_) => {
                return Err(SolveError::Malformed);
            },
        };
        let weights = match map_arr_inv(task.problem_weights.as_slice()) {
            Ok(weights) => weights,
            Err(_) => {
                return Err(SolveError::Malformed);
            },
        };
        if values.len() != weights.len() {
            return Err(SolveError::Malformed);
        }
        if values.len() > i32::MAX as usize {
            return Err(SolveError::TooLarge);
        }
        proof {
            lemma_total_bound(values@);
            lemma_total_bound(weights@);
        }
        let capacity = unsigned_of(task.problem_capacity) as u64;
        Ok(Problem::new(capacity, pair_items(&values, &weights)))
    }

    /// The number of items.
    pub fn len(&self) -> (n: usize)
        ensures
            n == self.given_items.list@.len(),
    {
        self.given_items.list.len()
    }

    /// The settings of the search for this problem.
    pub fn search_plan(&self) -> (plan: SearchPlan)
        ensures
            plan == (SearchPlan {
                genome_length: self.given_items.list@.len() as usize,
                population_size: 400,
                generation_limit: 20,
                selection_percent: 85,
                individuals_per_parents: 12,
                mutation_percent: 20,
                reinsertion_percent: 85,
            }),
    {
        SearchPlan {
            genome_length: self.given_items.list.len(),
            population_size: 400,
            generation_limit: 20,
            selection_percent: 85,
            individuals_per_parents: 12,
            mutation_percent: 20,
            reinsertion_percent: 85,
        }
    }

    /// Whether a search is to be made. It crosses candidates at a point
    /// between two items, so it needs at least two; with fewer, `solve`
    /// finds the best selection by itself.
    pub fn needs_search(&self) -> (needed: bool)
        ensures
            needed == (self.given_items.list@.len() >= 2),
    {
        self.given_items.list.len() >= 2
    }
}

/// A list of numbers as mathematical integers.
pub open spec fn as_ints(numbers: Seq<u32>) -> Seq<int> {
    Seq::new(numbers.len(), |k: int| numbers[k] as int)
}

/// A list of positions as 32-bit numbers; meaningful where each fits.
pub open spec fn as_numbers(indices: Seq<int>) -> Seq<u32> {
    Seq::new(indices.len(), |k: int| indices[k] as u32)
}

/// Whether `solution` is a solution of the problem of `task`: it names the
/// task, it packs positions of the problem, each once, its total value is the
/// sum of their values, and their weights sum to no more than the capacity.
pub open spec fn answers(solution: SolutionData, task: TaskData) -> bool {
    let packed = as_ints(loaded(solution.packed_items));
    &&& solution.task_id == task.id
    &&& task.holds_problem()
    &&& all_present(solution.packed_items)
    &&& forall|k: int| 0 <= k < packed.len() ==> 0 <= (#[trigger] packed[k]) < task.values().len()
    &&& forall|j: int, k: int|
        0 <= j < k < packed.len() ==> (#[trigger] packed[j]) != (#[trigger] packed[k])
    &&& solution.total_value == sum_at(task.values(), packed)
    &&& sum_at(task.weights(), packed) <= task.capacity()
}

/// The sum over the first positions of a list is at most the sum over all.
pub proof fn lemma_sum_at_prefix(numbers: Seq<u32>, indices: Seq<int>, k: int)
    requires
        0 <= k <= indices.len(),
    ensures
        0 <= sum_at(numbers, indices.take(k)) <= sum_at(numbers, indices),
    decreases indices.len(),
{
    if indices.len() == 0 {
        assert(indices.take(k) =~= indices);
    } else if k == indices.len() {
        lemma_sum_at_prefix(numbers, indices.drop_last(), k - 1);
        assert(indices.drop_last().take(k - 1) =~= indices.drop_last());
        assert(indices.take(k) =~= indices);
    } else {
        lemma_sum_at_prefix(numbers, indices.drop_last(), k);
        assert(indices.drop_last().take(k) =~= indices.take(k));
    }
}

/// Whether `solution` is a solution of the problem of `task`.
pub fn is_solution(solution: &Solution, task: &Task) -> (ok: bool)
    ensures
        ok == answers(solution@, task@),
{
    if solution.task_id != task.id {
        return false;
    }
    let values = match map_arr_inv(task.problem_values.as_slice()) {
        Ok(values) => values,
        Err(_) => {
            return false;
        },
    };
    let weights = match map_arr_inv(task.problem_weights.as_slice()) {
        Ok(weights) => weights,
        Err(_) => {
            return false;
        },
    };
    if values.len() != weights.len() {
        return false;
    }
    let packed = match map_arr_inv(solution.packed_items.as_slice()) {
        Ok(packed) => packed,
        Err(_) => {
            return false;
        },
    };
    let capacity = unsigned_of(task.problem_capacity) as u64;
    let n = values.len();
    let mut seen: Vec<bool> = Vec::new();
    while seen.len() < n
        invariant
            seen@.len() <= n,
            forall|i: int| 0 <= i < seen@.len() ==> !(#[trigger] seen@[i]),
        decreases n - seen.len(),
    {
        seen.push(false);
    }
    let ghost positions = as_ints(packed@);
    let mut value: u64 = 0;
    let mut weight: u64 = 0;
    let mut k: usize = 0;
    while k < packed.len()
        invariant
            k <= packed@.len(),
            positions == as_ints(packed@),
            positions == as_ints(loaded(solution@.packed_items)),
            values@ == task@.values(),
            weights@ == task@.weights(),
            capacity == task@.capacity(),
            n == values@.len() == weights@.len() == seen@.len(),
            forall|j: int| 0 <= j < k ==> 0 <= (#[trigger] positions[j]) < n,
            forall|i: int, j: int|
                0 <= i < j < k ==> (#[trigger] positions[i]) != (#[trigger] positions[j]),
            forall|i: int|
                0 <= i < n ==> ((#[trigger] seen@[i]) <==> exists|j: int|
                    0 <= j < k && #[trigger] positions[j] == i),
            value == sum_at(values@, positions.take(k as int)),
            weight == sum_at(weights@, positions.take(k as int)),
            value <= i32::MAX,
            weight <= capacity,
        decreases packed.len() - k,
    {
        let at = packed[k] as usize;
        proof {
            assert(positions[k as int] == at);
            assert(positions.take(k + 1).drop_last() =~= positions.take(k as int));
            lemma_sum_at_prefix(values@, positions, k + 1);
            lemma_sum_at_prefix(weights@, positions, k + 1);
        }
        if at >= n {
            assert(!(0 <= positions[k as int] < task@.values().len()));
            return false;
        }
        if seen[at] {
            proof {
                let j = choose|j: int| 0 <= j < k && #[trigger] positions[j] == at;
                assert(positions[j] == positions[k as int]);
            }
            return false;
        }
        seen.set(at, true);
        value = value + values[at] as u64;
        weight = weight + weights[at] as u64;
        if value > i32::MAX as u64 || weight > capacity {
            return false;
        }
        k += 1;
        proof {
            assert forall|i: int| 0 <= i < n implies ((#[trigger] seen@[i]) <==> exists|j: int|
                0 <= j < k && #[trigger] positions[j] == i) by {
                if i == at {
                    assert(positions[k - 1] == i);
                } else if seen@[i] {
                    let j = choose|j: int| 0 <= j < k - 1 && #[trigger] positions[j] == i;
                    assert(0 <= j < k && positions[j] == i);
                }
            }
            assert forall|i: int, j: int| 0 <= i < j < k implies (#[trigger] positions[i]) != (
            #[trigger] positions[j]) by {
                if j == k - 1 && positions[i] == positions[j] {
                    assert(0 <= i < k - 1 && positions[i] == at);
                }
            }
        }
    }
    assert(positions.take(k as int) =~= positions);
    solution.total_value >= 0 && value == solution.total_value as u64
}

/// The best selection of a problem with fewer than two items: nothing where
/// there is no item, and else the one item exactly if it is not too heavy.
pub open spec fn small_selection(weights: Seq<u32>, capacity: int) -> Seq<bool> {
    if weights.len() == 0 {
        Seq::empty()
    } else {
        seq![weights[0] <= capacity]
    }
}

/// The candidate that `solve` settles on for a task whose problem is
/// readable: its own for fewer than two items, and else the one that the
/// search ended with, if it has ended with one of the problem's length.
pub open spec fn settled(task: TaskData, outcome: Result<Selection, String>) -> Option<Seq<bool>> {
    if task.values().len() < 2 {
        Some(small_selection(task.weights(), task.capacity() as int))
    } else {
        match outcome {
            Ok(selection) => if selection@.len() == task.values().len() {
                Some(selection@)
            } else {
                None
            },
            Err(_) => None,
        }
    }
}

/// The positions that are packed for the candidate `picks`: those it selects,
/// if they weigh no more than the capacity. A candidate that is too heavy has
/// fitness zero, which is the fitness of packing nothing: nothing is packed
/// for it.
pub open spec fn packed(task: TaskData, picks: Seq<bool>) -> Seq<int> {
    if sum_at(task.weights(), chosen(picks)) <= task.capacity() {
        chosen(picks)
    } else {
        Seq::empty()
    }
}

/// Why `solve` makes no solution, or `None` where it makes one.
pub open spec fn solve_failure(task: TaskData, outcome: Result<Selection, String>) -> Option<
    SolveError,
> {
    if !task.holds_problem() {
        Some(SolveError::Malformed)
    } else if !Problem::readable(task) {
        Some(SolveError::TooLarge)
    } else if task.values().len() >= 2 && outcome is Err {
        Some(SolveError::Search(outcome->Err_0))
    } else {
        match settled(task, outcome) {
            None => Some(SolveError::Selection),
            Some(picks) => if sum_at(task.values(), packed(task, picks)) > i32::MAX {
                Some(SolveError::Unstorable)
            } else {
                None
            },
        }
    }
}

/// The best selection of a problem with fewer than two items.
fn small(problem: &Problem) -> (selection: Selection)
    requires
        problem.given_items.list@.len() < 2,
    ensures
        selection@ == small_selection(
            problem.given_items.weights(),
            problem.allowed_weight as int,
        ),
{
    let mut selection: Vec<bool> = Vec::new();
    if problem.given_items.list.len() == 1 {
        selection.push(problem.given_items.list[0].weight as u64 <= problem.allowed_weight);
    }
    assert(selection@ =~= small_selection(
        problem.given_items.weights(),
        problem.allowed_weight as int,
    ));
    selection
}

/// The positions as 32-bit numbers.
fn narrow(indices: &Vec<usize>) -> (numbers: Vec<u32>)
    requires
        forall|k: int| 0 <= k < indices@.len() ==> (#[trigger] indices@[k]) <= i32::MAX,
    ensures
        numbers@ == as_numbers(positions(indices@)),
        as_ints(numbers@) == positions(indices@),
{
    let mut numbers: Vec<u32> = Vec::new();
    let mut k: usize = 0;
    while k < indices.len()
        invariant
            k <= indices.len(),
            forall|j: int| 0 <= j < indices@.len() ==> (#[trigger] indices@[j]) <= i32::MAX,
            numbers@.len() == k,
            forall|j: int| 0 <= j < k ==> (#[trigger] numbers@[j]) == indices@[j],
        decreases indices.len() - k,
    {
        numbers.push(indices[k] as u32);
        k += 1;
    }
    assert(numbers@ =~= as_numbers(positions(indices@)));
    assert(as_ints(numbers@) =~= positions(indices@));
    numbers
}

/// The solution row for the task `task`, given how the search for a candidate
/// ended. With fewer than two items no search is made, and `outcome` is not
/// looked at. The row gets a new random identifier; all else is determined.
pub fn solve(task: &Task, outcome: Result<Selection, String>) -> (solution: Result<
    Solution,
    SolveError,
>)
    ensures
        solve_failure(task@, outcome) matches Some(e) ==> solution == Err::<Solution, SolveError>(e),
        solve_failure(task@, outcome) is None ==> solution is Ok,
        solution matches Ok(s) ==> {
            let positions = packed(task@, settled(task@, outcome).unwrap());
            &&& s.task_id == task.id
            &&& s.packed_items@ == stored(as_numbers(positions))
            &&& s.total_value == sum_at(task@.values(), positions)
            &&& answers(s@, task@)
        },
{
    let problem = match Problem::from_task(task) {
        Ok(problem) => problem,
        Err(e) => {
            return Err(e);
        },
    };
    let n = problem.len();
    let selection = if n < 2 {
        small(&problem)
    } else {
        match outcome {
            Ok(selection) => {
                if selection.len() != n {
                    return Err(SolveError::Selection);
                }
                selection
            },
            Err(message) => {
                return Err(SolveError::Search(message));
            },
        }
    };
    let knapsack = as_knapsack(&selection, &problem.given_items);
    proof {
        lemma_chosen(selection@);
    }
    let (indices, value) = if knapsack.weight > problem.allowed_weight {
        (Vec::new(), 0)
    } else {
        (knapsack.indices, knapsack.value)
    };
    proof {
        assert(positions(indices@) =~= packed(task@, selection@));
        lemma_chosen_sum_bounded(task@.values(), selection@);
        assert forall|k: int| 0 <= k < indices@.len() implies (#[trigger] indices@[k])
            <= i32::MAX by {
            assert(positions(indices@)[k] == chosen(selection@)[k]);
        }
    }
    if value > i32::MAX as i64 {
        return Err(SolveError::Unstorable);
    }
    let numbers = narrow(&indices);
    let solution = Solution {
        id: fresh_id(),
        packed_items: map_arr(numbers.as_slice()),
        total_value: value as i32,
        task_id: task.id,
    };
    proof {
        lemma_array_round_trip(numbers@);
        assert(as_ints(loaded(solution@.packed_items)) =~= packed(task@, selection@));
    }
    Ok(solution)
}

/// A problem without items is solved, whatever the search gave, by packing
/// nothing, with a total value of zero.
pub proof fn lemma_nothing_to_pack(task: TaskData, outcome: Result<Selection, String>)
    requires
        task.holds_problem(),
        task.values().len() == 0,
    ensures
        solve_failure(task, outcome) is None,
        packed(task, settled(task, outcome).unwrap()) == Seq::<int>::empty(),
        sum_at(task.values(), packed(task, settled(task, outcome).unwrap())) == 0,
{
    assert(task.values() =~= Seq::empty());
    assert(task.weights() =~= Seq::empty());
    assert(small_selection(task.weights(), task.capacity() as int) =~= Seq::empty());
}

/// With fewer than two items, what `solve` packs by itself is best: no
/// candidate has a greater fitness.
pub proof fn lemma_small_is_best(task: TaskData, picks: Seq<bool>)
    requires
        task.weights().len() == task.values().len() < 2,
        picks.len() == task.values().len(),
    ensures
        ({
            let value = sum_at(task.values(), chosen(picks));
            let fitness = if sum_at(task.weights(), chosen(picks)) <= task.capacity() {
                value
            } else {
                0
            };
            fitness <= sum_at(
                task.values(),
                packed(task, small_selection(task.weights(), task.capacity() as int)),
            )
        }),
{
    let best = small_selection(task.weights(), task.capacity() as int);
    reveal_with_fuel(chosen, 2);
    reveal_with_fuel(sum_at, 2);
    if picks.len() == 1 {
        assert(picks.drop_last() =~= Seq::<bool>::empty());
        assert(best.drop_last() =~= Seq::<bool>::empty());
        assert(chosen(picks.drop_last()) =~= Seq::<int>::empty());
        if picks[0] {
            assert(chosen(picks) =~= seq![0int]);
            assert(chosen(picks).drop_last() =~= Seq::<int>::empty());
        }
        if best[0] {
            assert(chosen(best) =~= seq![0int]);
            assert(chosen(best).drop_last() =~= Seq::<int>::empty());
        }
    }
}

/// What is packed is never too heavy: for every candidate, the weights at
/// the packed positions sum to no more than the capacity, and the positions
/// are positions of the problem, in increasing order.
pub proof fn lemma_packed_is_feasible(task: TaskData, picks: Seq<bool>)
    requires
        picks.len() == task.weights().len(),
    ensures
        sum_at(task.weights(), packed(task, picks)) <= task.capacity(),
        forall|k: int|
            0 <= k < packed(task, picks).len() ==> 0 <= (#[trigger] packed(task, picks)[k])
                < task.weights().len(),
        forall|j: int, k: int|
            0 <= j < k < packed(task, picks).len() ==> (#[trigger] packed(task, picks)[j]) < (
            #[trigger] packed(task, picks)[k]),
{
    lemma_chosen(picks);
}

} // verus!
