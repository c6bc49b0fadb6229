use arb_core::scan::{check_walk_usable, copied, extended, scan_for_cycle, scan_from};
use arb_core::search::{
    check_negative_cycle, find_negative_cycles, holds_walk, same_walk, WeightedEdge,
};
use arb_core::token::Address;
use arb_core::v2::UniswapV2Pool;

fn edge(source: usize, target: usize, weight: i64) -> WeightedEdge {
    WeightedEdge { source, target, weight }
}

// costs in millionths
fn losing_triangle() -> Vec<WeightedEdge> {
    vec![edge(0, 1, -500_000), edge(1, 2, 300_000), edge(2, 0, 100_000)]
}

#[test]
fn negative_triangle_is_reported() {
    let edges = losing_triangle();
    let found = find_negative_cycles(3, &edges, 1, 3, 1_000);
    assert_eq!(found, vec![vec![0usize, 1, 2]]);
}

#[test]
fn positive_triangle_is_not_reported() {
    let edges = vec![edge(0, 1, -500_000), edge(1, 2, 300_000), edge(2, 0, 250_000)];
    assert!(find_negative_cycles(3, &edges, 1, 3, 1_000).is_empty());
    assert!(find_negative_cycles(3, &edges, 1, 10, 1_000).is_empty());
}

#[test]
fn cycle_within_epsilon_is_not_reported() {
    let edges = losing_triangle();
    assert!(find_negative_cycles(3, &edges, 100_000, 3, 1_000).is_empty());
    assert_eq!(find_negative_cycles(3, &edges, 99_999, 3, 1_000).len(), 1);
}

#[test]
fn cycle_longer_than_the_bound_is_not_reported() {
    let edges = losing_triangle();
    assert!(find_negative_cycles(3, &edges, 1, 2, 1_000).is_empty());
}

#[test]
fn search_without_steps_or_nodes_finds_nothing() {
    let edges = losing_triangle();
    assert!(find_negative_cycles(3, &edges, 1, 3, 0).is_empty());
    assert!(find_negative_cycles(0, &edges, 1, 3, 1_000).is_empty());
    assert!(find_negative_cycles(3, &Vec::new(), 1, 3, 1_000).is_empty());
    // edges that name missing nodes are passed over
    assert!(find_negative_cycles(2, &edges, 1, 3, 1_000).is_empty());
}

#[test]
fn parallel_edges_give_their_own_cycles() {
    // two pools between nodes 0 and 1: one cheap way there, two ways back
    let edges = vec![edge(0, 1, -700_000), edge(1, 0, 100_000), edge(1, 0, 900_000)];
    let found = find_negative_cycles(2, &edges, 1, 2, 1_000);
    assert_eq!(found, vec![vec![0usize, 1]]);
    for walk in found.iter() {
        assert!(check_negative_cycle(&edges, walk, 1, 2));
    }
}

#[test]
fn cycle_check_is_exact() {
    let edges = losing_triangle();
    assert!(check_negative_cycle(&edges, &vec![0, 1, 2], 99_999, 3));
    assert!(!check_negative_cycle(&edges, &vec![0, 1, 2], 100_000, 3));
    assert!(check_negative_cycle(&edges, &vec![1, 2, 0], 0, 3));
    assert!(!check_negative_cycle(&edges, &vec![0, 1, 2], 0, 2));
    assert!(!check_negative_cycle(&edges, &vec![0, 2, 1], 0, 3));
    assert!(!check_negative_cycle(&edges, &vec![0, 1], 0, 3));
    assert!(!check_negative_cycle(&edges, &vec![0, 1, 7], 0, 3));
    assert!(!check_negative_cycle(&edges, &Vec::new(), 0, 3));
    let extreme = vec![edge(0, 0, i64::MIN)];
    assert!(check_negative_cycle(&extreme, &vec![0, 0, 0], i64::MAX, 3));
    let dear = vec![edge(0, 0, i64::MAX)];
    assert!(!check_negative_cycle(&dear, &vec![0], -i64::MAX, 3));
    assert!(check_negative_cycle(&dear, &vec![0], i64::MIN, 3));
}

#[test]
fn walks_are_compared_edge_by_edge() {
    assert!(same_walk(&vec![1, 2, 3], &vec![1, 2, 3]));
    assert!(!same_walk(&vec![1, 2, 3], &vec![1, 2]));
    assert!(!same_walk(&vec![1, 2, 3], &vec![1, 2, 4]));
    let list = vec![vec![4usize, 5], vec![1, 2, 3]];
    assert!(holds_walk(&list, &vec![1, 2, 3]));
    assert!(!holds_walk(&list, &vec![5, 4]));
}

#[test]
fn marginal_rate_is_reserve_out_over_reserve_in() {
    let zero = Address::zero();
    let pool = UniswapV2Pool::new(zero, zero, zero, 100, 250, 30);
    assert_eq!(pool.marginal_rate(true), (250, 100));
    assert_eq!(pool.marginal_rate(false), (100, 250));
}

// a cheap way into node 1 uses up the hops before the queue gets round the
// cycle between nodes 1 and 2
fn hidden_cycle() -> Vec<WeightedEdge> {
    vec![edge(0, 1, -100), edge(1, 2, -5), edge(2, 1, 1)]
}

#[test]
fn cycle_that_the_queue_misses_is_found_with_steps_enough() {
    let edges = hidden_cycle();
    assert_eq!(find_negative_cycles(3, &edges, 1, 2, 6), vec![vec![1usize, 2]]);
    assert_eq!(find_negative_cycles(3, &edges, 1, 2, 1_000), vec![vec![1usize, 2]]);
    // one step short of a step for each node and each number of edges
    assert!(find_negative_cycles(3, &edges, 1, 2, 5).is_empty());
    // the cycle costs -4
    assert!(find_negative_cycles(3, &edges, 4, 2, 1_000).is_empty());
    assert_eq!(find_negative_cycles(3, &edges, 3, 2, 1_000), vec![vec![1usize, 2]]);
    assert!(find_negative_cycles(3, &edges, 1, 1, 1_000).is_empty());
}

#[test]
fn every_start_node_is_gone_through() {
    let edges = hidden_cycle();
    assert_eq!(scan_for_cycle(3, &edges, 1, 2), Some(vec![1usize, 2]));
    assert_eq!(scan_for_cycle(3, &edges, 1, 1), None);
    // twice round the cycle costs -8
    assert_eq!(scan_for_cycle(3, &edges, 4, 3), None);
    assert_eq!(scan_for_cycle(3, &edges, 4, 8), Some(vec![1usize, 2, 1, 2]));
    assert_eq!(scan_for_cycle(3, &edges, 8, 5), None);
    assert_eq!(scan_for_cycle(3, &edges, 7, 4), Some(vec![1usize, 2, 1, 2]));
    assert_eq!(scan_for_cycle(2, &edges, 1, 2), None);
    assert_eq!(scan_for_cycle(0, &edges, 1, 2), None);
    assert_eq!(scan_from(3, &edges, 1, 2, 0), None);
    assert_eq!(scan_from(3, &edges, 1, 2, 1), Some(vec![1usize, 2]));
    assert_eq!(scan_from(3, &edges, 1, 2, 2), Some(vec![2usize, 1]));
    assert_eq!(scan_from(3, &edges, 1, 0, 1), None);
    let triangle = losing_triangle();
    assert_eq!(scan_for_cycle(3, &triangle, 1, 3), Some(vec![0usize, 1, 2]));
    assert_eq!(scan_for_cycle(3, &triangle, 1, 2), None);
    let choice = vec![edge(0, 0, -2), edge(0, 0, -9), edge(0, 0, 5)];
    assert_eq!(scan_from(1, &choice, 1, 1, 0), Some(vec![1usize]));
    assert_eq!(scan_from(1, &choice, 9, 3, 0), Some(vec![1usize, 1]));
}

#[test]
fn walks_are_copied_and_tested_for_their_edges() {
    assert_eq!(extended(&vec![4, 5], 6), vec![4usize, 5, 6]);
    assert_eq!(extended(&Vec::new(), 6), vec![6usize]);
    assert_eq!(copied(&vec![4, 5]), vec![4usize, 5]);
    let edges = hidden_cycle();
    assert!(check_walk_usable(&edges, 3, &vec![0, 1, 2]));
    assert!(!check_walk_usable(&edges, 2, &vec![0, 1]));
    assert!(check_walk_usable(&edges, 2, &vec![0]));
    assert!(!check_walk_usable(&edges, 3, &vec![0, 3]));
    assert!(check_walk_usable(&edges, 0, &Vec::new()));
}
