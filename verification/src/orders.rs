//! The interleaving of contenders and input sizes over the sample rounds.
//!
//! Four cyclic orders stand in for all permutations of the four contenders:
//! across the four, every contender takes every position exactly once, and
//! every ordered pair "Y runs right after X" of distinct contenders occurs
//! exactly once. Each round runs every input size once, the size order
//! rotated by the round, and at each size every contender once, in the
//! round's order.
use vstd::prelude::*;

verus! {

/// Number of contenders.
pub const ALGORITHM_COUNT: usize = 4;

/// Number of input sizes.
pub const INPUT_COUNT: usize = 16;

/// Number of sample rounds.
pub const SAMPLE_ROUNDS: usize = 128;

/// Number of cyclic contender orders.
pub const ORDER_COUNT: usize = 4;

/// The contender orders, by index into the contender list.
pub const ALGORITHM_ORDERS: [[usize; ALGORITHM_COUNT]; ORDER_COUNT] = [
    [0, 1, 2, 3],
    [1, 3, 0, 2],
    [2, 0, 3, 1],
    [3, 2, 1, 0],
];

/// Rows `0..rows` of `orders` in which `algorithm` stands at `position`.
pub open spec fn occupancy(
    orders: [[usize; ALGORITHM_COUNT]; ORDER_COUNT],
    algorithm: int,
    position: int,
    rows: int,
) -> nat
    decreases rows,
{
    if rows <= 0 {
        0
    } else {
        occupancy(orders, algorithm, position, rows - 1) + if orders[rows - 1][position] == algorithm {
            1nat
        } else {
            0nat
        }
    }
}

/// Places `1..positions` of `row` at which `follower` runs right after `first`.
pub open spec fn adjacency_in_row(
    row: [usize; ALGORITHM_COUNT],
    first: int,
    follower: int,
    positions: int,
) -> nat
    decreases positions,
{
    if positions <= 1 {
        0
    } else {
        adjacency_in_row(row, first, follower, positions - 1) + if row[positions - 2] == first
            && row[positions - 1] == follower {
            1nat
        } else {
            0nat
        }
    }
}

/// Places in rows `0..rows` of `orders` at which `follower` runs right after `first`.
pub open spec fn adjacency(
    orders: [[usize; ALGORITHM_COUNT]; ORDER_COUNT],
    first: int,
    follower: int,
    rows: int,
) -> nat
    decreases rows,
{
    if rows <= 0 {
        0
    } else {
        adjacency(orders, first, follower, rows - 1) + adjacency_in_row(
            orders[rows - 1],
            first,
            follower,
            ALGORITHM_COUNT as int,
        )
    }
}

/// Every entry of `orders` names a contender.
pub open spec fn entries_in_range(orders: [[usize; ALGORITHM_COUNT]; ORDER_COUNT]) -> bool {
    forall|row: int, position: int|
        0 <= row < ORDER_COUNT && 0 <= position < ALGORITHM_COUNT ==> #[trigger] orders[row][position]
            < ALGORITHM_COUNT
}

/// Every contender in every position exactly once, and every ordered pair of
/// distinct contenders adjacent exactly once (a contender never follows itself).
pub open spec fn orders_are_balanced(orders: [[usize; ALGORITHM_COUNT]; ORDER_COUNT]) -> bool {
    &&& forall|algorithm: int, position: int|
        0 <= algorithm < ALGORITHM_COUNT && 0 <= position < ALGORITHM_COUNT ==> #[trigger] occupancy(
            orders,
            algorithm,
            position,
            ORDER_COUNT as int,
        ) == 1
    &&& forall|first: int, follower: int|
        0 <= first < ALGORITHM_COUNT && 0 <= follower < ALGORITHM_COUNT ==> #[trigger] adjacency(
            orders,
            first,
            follower,
            ORDER_COUNT as int,
        ) == if first != follower {
            1nat
        } else {
            0nat
        }
}

proof fn lemma_occupancy_bound(
    orders: [[usize; ALGORITHM_COUNT]; ORDER_COUNT],
    algorithm: int,
    position: int,
    rows: int,
)
    requires
        0 <= rows,
    ensures
        occupancy(orders, algorithm, position, rows) <= rows,
    decreases rows,
{
    if rows > 0 {
        lemma_occupancy_bound(orders, algorithm, position, rows - 1);
    }
}

proof fn lemma_adjacency_in_row_bound(row: [usize; ALGORITHM_COUNT], first: int, follower: int, positions: int)
    requires
        1 <= positions,
    ensures
        adjacency_in_row(row, first, follower, positions) <= positions - 1,
    decreases positions,
{
    if positions > 1 {
        lemma_adjacency_in_row_bound(row, first, follower, positions - 1);
    }
}

proof fn lemma_adjacency_bound(
    orders: [[usize; ALGORITHM_COUNT]; ORDER_COUNT],
    first: int,
    follower: int,
    rows: int,
)
    requires
        0 <= rows,
    ensures
        adjacency(orders, first, follower, rows) <= 3 * rows,
    decreases rows,
{
    if rows > 0 {
        lemma_adjacency_bound(orders, first, follower, rows - 1);
        lemma_adjacency_in_row_bound(orders[rows - 1], first, follower, 4);
    }
}

/// Whether `orders` is balanced, counted as the orders are read.
pub fn orders_balanced(orders: &[[usize; ALGORITHM_COUNT]; ORDER_COUNT]) -> (balanced: bool)
    requires
        entries_in_range(*orders),
    ensures
        balanced == orders_are_balanced(*orders),
{
    let mut positions: Vec<usize> = vec![0; ALGORITHM_COUNT * ALGORITHM_COUNT];
    let mut adjacencies: Vec<usize> = vec![0; ALGORITHM_COUNT * ALGORITHM_COUNT];

    let mut row: usize = 0;
    while row < ORDER_COUNT
        invariant
            row <= ORDER_COUNT,
            entries_in_range(*orders),
            positions@.len() == 16,
            adjacencies@.len() == 16,
            forall|algorithm: int, position: int|
                0 <= algorithm < 4 && 0 <= position < 4 ==> positions@[algorithm * 4 + position]
                    == occupancy(*orders, algorithm, position, row as int),
            forall|first: int, follower: int|
                0 <= first < 4 && 0 <= follower < 4 ==> adjacencies@[first * 4 + follower]
                    == adjacency(*orders, first, follower, row as int),
        decreases ORDER_COUNT - row,
    {
        let order = orders[row];
        let mut position: usize = 0;
        while position < ALGORITHM_COUNT
            invariant
                row < ORDER_COUNT,
                position <= ALGORITHM_COUNT,
                order == orders[row as int],
                entries_in_range(*orders),
                positions@.len() == 16,
                adjacencies@.len() == 16,
                forall|algorithm: int, column: int|
                    0 <= algorithm < 4 && 0 <= column < 4 ==> positions@[algorithm * 4 + column]
                        == occupancy(*orders, algorithm, column, row as int) + if column
                        < position && order[column] == algorithm {
                        1nat
                    } else {
                        0nat
                    },
                forall|first: int, follower: int|
                    0 <= first < 4 && 0 <= follower < 4 ==> adjacencies@[first * 4 + follower]
                        == adjacency(*orders, first, follower, row as int) + adjacency_in_row(
                        order,
                        first,
                        follower,
                        position as int,
                    ),
            decreases ALGORITHM_COUNT - position,
        {
            let algorithm = order[position];
            assert(algorithm < 4);
            let slot = algorithm * ALGORITHM_COUNT + position;
            assert(positions@[slot as int] == occupancy(*orders, algorithm as int, position as int, row as int));
            proof {
                lemma_occupancy_bound(*orders, algorithm as int, position as int, row as int);
            }
            positions.set(slot, positions[slot] + 1);
            if position > 0 {
                let previous = order[position - 1];
                assert(previous < 4);
                let pair = previous * ALGORITHM_COUNT + algorithm;
                assert(adjacencies@[pair as int] == adjacency(*orders, previous as int, algorithm as int, row as int)
                    + adjacency_in_row(order, previous as int, algorithm as int, position as int));
                proof {
                    lemma_adjacency_bound(*orders, previous as int, algorithm as int, row as int);
                    lemma_adjacency_in_row_bound(order, previous as int, algorithm as int, position as int);
                }
                adjacencies.set(pair, adjacencies[pair] + 1);
            }
            position += 1;
        }
        assert forall|algorithm: int, position: int|
            0 <= algorithm < 4 && 0 <= position < 4 implies positions@[algorithm * 4 + position]
                == #[trigger] occupancy(*orders, algorithm, position, row + 1) by {
            assert(occupancy(*orders, algorithm, position, row + 1) == occupancy(*orders, algorithm, position, row as int)
                + if orders[row as int][position] == algorithm { 1nat } else { 0nat });
        }
        assert forall|first: int, follower: int|
            0 <= first < 4 && 0 <= follower < 4 implies adjacencies@[first * 4 + follower]
                == #[trigger] adjacency(*orders, first, follower, row + 1) by {
            assert(adjacency(*orders, first, follower, row + 1) == adjacency(*orders, first, follower, row as int)
                + adjacency_in_row(orders[row as int], first, follower, 4));
        }
        row += 1;
    }

    let mut algorithm: usize = 0;
    while algorithm < ALGORITHM_COUNT
        invariant
            algorithm <= ALGORITHM_COUNT,
            positions@.len() == 16,
            adjacencies@.len() == 16,
            forall|a: int, position: int|
                0 <= a < 4 && 0 <= position < 4 ==> positions@[a * 4 + position] == occupancy(
                    *orders,
                    a,
                    position,
                    4,
                ),
            forall|first: int, follower: int|
                0 <= first < 4 && 0 <= follower < 4 ==> adjacencies@[first * 4 + follower]
                    == adjacency(*orders, first, follower, 4),
            forall|a: int, position: int|
                0 <= a < algorithm && 0 <= position < 4 ==> occupancy(*orders, a, position, 4) == 1,
            forall|first: int, follower: int|
                0 <= first < algorithm && 0 <= follower < 4 ==> adjacency(
                    *orders,
                    first,
                    follower,
                    4,
                ) == if first != follower {
                    1nat
                } else {
                    0nat
                },
        decreases ALGORITHM_COUNT - algorithm,
    {
        let mut position: usize = 0;
        while position < ALGORITHM_COUNT
            invariant
                algorithm < ALGORITHM_COUNT,
                position <= ALGORITHM_COUNT,
                positions@.len() == 16,
                forall|a: int, column: int|
                    0 <= a < 4 && 0 <= column < 4 ==> positions@[a * 4 + column] == occupancy(
                        *orders,
                        a,
                        column,
                        4,
                    ),
                forall|column: int|
                    0 <= column < position ==> occupancy(*orders, algorithm as int, column, 4) == 1,
            decreases ALGORITHM_COUNT - position,
        {
            if positions[algorithm * ALGORITHM_COUNT + position] != 1 {
                assert(occupancy(*orders, algorithm as int, position as int, 4) != 1);
                return false;
            }
            position += 1;
        }
        let mut follower: usize = 0;
        while follower < ALGORITHM_COUNT
            invariant
                algorithm < ALGORITHM_COUNT,
                follower <= ALGORITHM_COUNT,
                adjacencies@.len() == 16,
                forall|first: int, f: int|
                    0 <= first < 4 && 0 <= f < 4 ==> adjacencies@[first * 4 + f] == adjacency(
                        *orders,
                        first,
                        f,
                        4,
                    ),
                forall|f: int|
                    0 <= f < follower ==> adjacency(*orders, algorithm as int, f, 4) == if algorithm
                        != f {
                        1nat
                    } else {
                        0nat
                    },
            decreases ALGORITHM_COUNT - follower,
        {
            let expected: usize = if follower != algorithm {
                1
            } else {
                0
            };
            if adjacencies[algorithm * ALGORITHM_COUNT + follower] != expected {
                assert(adjacency(*orders, algorithm as int, follower as int, 4) != if algorithm != follower { 1nat } else { 0nat });
                return false;
            }
            follower += 1;
        }
        algorithm += 1;
    }
    true
}

/// The four contender orders are balanced: every contender takes every
/// position exactly once, and every ordered pair of distinct contenders runs
/// back to back exactly once, so the four stand in for all 24 permutations.
pub proof fn lemma_algorithm_orders_balanced()
    ensures
        entries_in_range(ALGORITHM_ORDERS),
        orders_are_balanced(ALGORITHM_ORDERS),
{
    let orders = ALGORITHM_ORDERS;
    assert(orders[0][0] == 0 && orders[0][1] == 1 && orders[0][2] == 2 && orders[0][3] == 3);
    assert(orders[1][0] == 1 && orders[1][1] == 3 && orders[1][2] == 0 && orders[1][3] == 2);
    assert(orders[2][0] == 2 && orders[2][1] == 0 && orders[2][2] == 3 && orders[2][3] == 1);
    assert(orders[3][0] == 3 && orders[3][1] == 2 && orders[3][2] == 1 && orders[3][3] == 0);
    assert forall|algorithm: int, position: int|
        0 <= algorithm < ALGORITHM_COUNT && 0 <= position < ALGORITHM_COUNT implies #[trigger] occupancy(
            orders,
            algorithm,
            position,
            ORDER_COUNT as int,
        ) == 1 by {
        reveal_with_fuel(occupancy, 5);
    }
    assert forall|first: int, follower: int|
        0 <= first < ALGORITHM_COUNT && 0 <= follower < ALGORITHM_COUNT implies #[trigger] adjacency(
            orders,
            first,
            follower,
            ORDER_COUNT as int,
        ) == if first != follower {
            1nat
        } else {
            0nat
        } by {
        reveal_with_fuel(adjacency, 5);
        reveal_with_fuel(adjacency_in_row, 5);
    }
}

/// Confirms, as the benchmark does before measuring, that `ALGORITHM_ORDERS`
/// is balanced; it is, so this never fails.
pub fn assert_orders_balanced()
    ensures
        orders_are_balanced(ALGORITHM_ORDERS),
{
    proof {
        lemma_algorithm_orders_balanced();
    }
    let balanced = orders_balanced(&ALGORITHM_ORDERS);
    assert(balanced);
}

/// The sample rounds use every contender order, and every rotation of the
/// input sizes, equally often.
pub proof fn lemma_sample_rounds_divide_evenly()
    ensures
        SAMPLE_ROUNDS % ORDER_COUNT == 0,
        SAMPLE_ROUNDS % INPUT_COUNT == 0,
{
}

/// The cell (input size index, contender index) that runs at `step` of `round`.
pub open spec fn scheduled_cell(round: int, step: int) -> (int, int) {
    (
        (step / ALGORITHM_COUNT as int + round) % INPUT_COUNT as int,
        ALGORITHM_ORDERS[round % ORDER_COUNT as int][step % ALGORITHM_COUNT as int] as int,
    )
}

/// The cells of one round (or one warm-up round), in the order they run: every
/// input size once, starting at size `round` modulo the size count, and at each
/// size every contender once, in the order `ALGORITHM_ORDERS[round % 4]`.
pub fn round_schedule(round: usize) -> (schedule: Vec<(usize, usize)>)
    ensures
        schedule@.len() == INPUT_COUNT * ALGORITHM_COUNT,
        forall|step: int|
            0 <= step < INPUT_COUNT * ALGORITHM_COUNT ==> (
            #[trigger] schedule@[step].0 as int,
            schedule@[step].1 as int,
        ) == scheduled_cell(round as int, step),
{
    let order = ALGORITHM_ORDERS[round % ORDER_COUNT];
    let mut schedule: Vec<(usize, usize)> = Vec::new();
    let mut size_offset: usize = 0;
    while size_offset < INPUT_COUNT
        invariant
            size_offset <= INPUT_COUNT,
            order == ALGORITHM_ORDERS[(round % ORDER_COUNT) as int],
            schedule@.len() == size_offset * ALGORITHM_COUNT,
            forall|step: int|
                0 <= step < schedule@.len() ==> (
                #[trigger] schedule@[step].0 as int,
                schedule@[step].1 as int,
            ) == scheduled_cell(round as int, step),
        decreases INPUT_COUNT - size_offset,
    {
        let size_index = (size_offset + round % INPUT_COUNT) % INPUT_COUNT;
        let mut position: usize = 0;
        while position < ALGORITHM_COUNT
            invariant
                size_offset < INPUT_COUNT,
                position <= ALGORITHM_COUNT,
                order == ALGORITHM_ORDERS[(round % ORDER_COUNT) as int],
                size_index == (size_offset + round) % INPUT_COUNT as int,
                schedule@.len() == size_offset * ALGORITHM_COUNT + position,
                forall|step: int|
                    0 <= step < schedule@.len() ==> (
                    #[trigger] schedule@[step].0 as int,
                    schedule@[step].1 as int,
                ) == scheduled_cell(round as int, step),
            decreases ALGORITHM_COUNT - position,
        {
            schedule.push((size_index, order[position]));
            position += 1;
        }
        size_offset += 1;
    }
    schedule
}

/// Some step of `round` runs input size `size` with contender `algorithm`.
pub open spec fn round_runs(round: int, size: int, algorithm: int) -> bool {
    exists|step: int|
        0 <= step < INPUT_COUNT * ALGORITHM_COUNT && #[trigger] scheduled_cell(round, step) == (size, algorithm)
}

/// Each contender order lists every contender exactly once.
proof fn lemma_orders_are_permutations(row: int, algorithm: int)
    requires
        0 <= row < ORDER_COUNT,
        0 <= algorithm < ALGORITHM_COUNT,
    ensures
        exists|position: int| 0 <= position < ALGORITHM_COUNT && ALGORITHM_ORDERS[row][position] == algorithm,
        forall|first: int, second: int|
            0 <= first < ALGORITHM_COUNT && 0 <= second < ALGORITHM_COUNT && #[trigger] ALGORITHM_ORDERS[row][first]
                == #[trigger] ALGORITHM_ORDERS[row][second] ==> first == second,
{
    let orders = ALGORITHM_ORDERS;
    assert(orders[0][0] == 0 && orders[0][1] == 1 && orders[0][2] == 2 && orders[0][3] == 3);
    assert(orders[1][0] == 1 && orders[1][1] == 3 && orders[1][2] == 0 && orders[1][3] == 2);
    assert(orders[2][0] == 2 && orders[2][1] == 0 && orders[2][2] == 3 && orders[2][3] == 1);
    assert(orders[3][0] == 3 && orders[3][1] == 2 && orders[3][2] == 1 && orders[3][3] == 0);
    if orders[row][0] == algorithm {
    } else if orders[row][1] == algorithm {
    } else if orders[row][2] == algorithm {
    } else {
    }
}

/// Every round runs each (input size, contender) cell exactly once: some step
/// runs it, and no two steps run the same cell.
pub proof fn lemma_round_runs_every_cell_once(round: int)
    requires
        0 <= round,
    ensures
        forall|size: int, algorithm: int|
            0 <= size < INPUT_COUNT && 0 <= algorithm < ALGORITHM_COUNT ==> #[trigger] round_runs(
                round,
                size,
                algorithm,
            ),
        forall|first: int, second: int|
            0 <= first < INPUT_COUNT * ALGORITHM_COUNT && 0 <= second < INPUT_COUNT * ALGORITHM_COUNT
                && #[trigger] scheduled_cell(round, first) == #[trigger] scheduled_cell(round, second) ==> first
                == second,
{
    let row = round % ORDER_COUNT as int;
    assert forall|size: int, algorithm: int|
        0 <= size < INPUT_COUNT && 0 <= algorithm < ALGORITHM_COUNT implies #[trigger] round_runs(
            round,
            size,
            algorithm,
        ) by {
        lemma_orders_are_permutations(row, algorithm);
        let position = choose|position: int|
            0 <= position < ALGORITHM_COUNT && ALGORITHM_ORDERS[row][position] == algorithm;
        let offset = (size - round % 16 + 16) % 16;
        let step = offset * 4 + position;
        assert(step / 4 == offset && step % 4 == position);
        assert(scheduled_cell(round, step) == (size, algorithm));
    }
    assert forall|first: int, second: int|
        0 <= first < INPUT_COUNT * ALGORITHM_COUNT && 0 <= second < INPUT_COUNT * ALGORITHM_COUNT
            && #[trigger] scheduled_cell(round, first) == #[trigger] scheduled_cell(round, second) implies first
            == second by {
        lemma_orders_are_permutations(row, 0);
        assert(first / 4 == second / 4);
        assert(ALGORITHM_ORDERS[row][first % 4] == ALGORITHM_ORDERS[row][second % 4]);
        assert(first % 4 == second % 4);
    }
}

} // verus!
