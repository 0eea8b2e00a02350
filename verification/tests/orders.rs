use bench_hashes::orders::assert_orders_balanced;
use bench_hashes::orders::orders_balanced;
use bench_hashes::orders::round_schedule;
use bench_hashes::orders::ALGORITHM_COUNT;
use bench_hashes::orders::ALGORITHM_ORDERS;
use bench_hashes::orders::INPUT_COUNT;
use bench_hashes::orders::ORDER_COUNT;
use bench_hashes::orders::SAMPLE_ROUNDS;

#[test]
fn algorithm_orders_are_balanced() {
    assert!(orders_balanced(&ALGORITHM_ORDERS));
    assert_orders_balanced();
}

#[test]
fn repeated_order_is_not_balanced() {
    let orders = [[0, 1, 2, 3], [0, 1, 2, 3], [0, 1, 2, 3], [0, 1, 2, 3]];
    assert!(!orders_balanced(&orders));
}

#[test]
fn latin_square_without_every_adjacency_is_not_balanced() {
    let orders = [[0, 1, 2, 3], [1, 2, 3, 0], [2, 3, 0, 1], [3, 0, 1, 2]];
    assert!(!orders_balanced(&orders));
}

#[test]
fn every_position_and_adjacency_once() {
    let mut positions = [[0usize; ALGORITHM_COUNT]; ALGORITHM_COUNT];
    let mut adjacencies = [[0usize; ALGORITHM_COUNT]; ALGORITHM_COUNT];
    for order in ALGORITHM_ORDERS {
        for (position, &algorithm) in order.iter().enumerate() {
            positions[algorithm][position] += 1;
            if position > 0 {
                adjacencies[order[position - 1]][algorithm] += 1;
            }
        }
    }
    for algorithm in 0..ALGORITHM_COUNT {
        for other in 0..ALGORITHM_COUNT {
            assert_eq!(positions[algorithm][other], 1);
            assert_eq!(adjacencies[algorithm][other], usize::from(algorithm != other));
        }
    }
}

#[test]
fn sample_rounds_use_every_order_and_offset_equally() {
    assert_eq!(SAMPLE_ROUNDS % ORDER_COUNT, 0);
    assert_eq!(SAMPLE_ROUNDS % INPUT_COUNT, 0);
}

#[test]
fn first_round_schedule() {
    let schedule = round_schedule(0);
    assert_eq!(schedule.len(), INPUT_COUNT * ALGORITHM_COUNT);
    assert_eq!(&schedule[..5], &[(0, 0), (0, 1), (0, 2), (0, 3), (1, 0)]);
    assert_eq!(schedule[63], (15, 3));
}

#[test]
fn second_round_rotates_sizes_and_order() {
    let schedule = round_schedule(1);
    assert_eq!(&schedule[..4], &[(1, 1), (1, 3), (1, 0), (1, 2)]);
    assert_eq!(&schedule[60..], &[(0, 1), (0, 3), (0, 0), (0, 2)]);
}

#[test]
fn every_round_runs_every_cell_once() {
    for round in 0..SAMPLE_ROUNDS + 5 {
        let schedule = round_schedule(round);
        let mut seen = [[0usize; ALGORITHM_COUNT]; INPUT_COUNT];
        for (size, algorithm) in &schedule {
            seen[*size][*algorithm] += 1;
        }
        assert!(seen.iter().flatten().all(|count| *count == 1));
        let order = ALGORITHM_ORDERS[round % ORDER_COUNT];
        for offset in 0..INPUT_COUNT {
            for (position, algorithm) in order.iter().enumerate() {
                assert_eq!(
                    schedule[offset * ALGORITHM_COUNT + position],
                    ((offset + round) % INPUT_COUNT, *algorithm)
                );
            }
        }
    }
}
