use arb_core::amount::Amount;
use arb_core::cycle::{check_closed, compose, realized_profit};
use arb_core::edge::GraphEdge;
use arb_core::error::EngineError;
use arb_core::event::{OrderingKey, ReserveUpdate, StateChange};
use arb_core::graph::GraphManager;
use arb_core::pool::PoolVariant;
use arb_core::token::{Address, Token};
use arb_core::v2::UniswapV2Pool;

fn id(last: u8) -> Address {
    let mut bytes = [0u8; 20];
    bytes[19] = last;
    Address::new(bytes)
}

fn v2(pool: u8, t0: u8, t1: u8, r0: u128, r1: u128) -> PoolVariant {
    PoolVariant::V2(UniswapV2Pool::new(id(pool), id(t0), id(t1), r0, r1, 30))
}

fn reserves_of(g: &GraphManager, edge: usize) -> (u128, u128) {
    match &g.edge(edge).unwrap().pool {
        PoolVariant::V2(p) => (p.reserve0, p.reserve1),
        _ => panic!("another design came back"),
    }
}

#[test]
fn token_is_added_once() {
    let mut g = GraphManager::new();
    assert_eq!(g.node_count(), 0);
    let a = g.add_or_get_token(Token::new(id(1), "AAA".to_string(), 18));
    let b = g.add_or_get_token(Token::new(id(2), "BBB".to_string(), 6));
    let again = g.add_or_get_token(Token::new(id(1), "other".to_string(), 0));
    assert_eq!((a, b, again), (0, 1, 0));
    assert_eq!(g.node_count(), 2);
    assert_eq!(g.token(0).unwrap().symbol, "AAA");
    assert_eq!(g.token(1).unwrap().symbol, "BBB");
    assert!(g.token(2).is_none());
    assert_eq!(g.find_token(&id(2)), Some(1));
    assert_eq!(g.find_token(&id(3)), None);
    assert_eq!(g.node_map.len(), 2);
    assert_eq!(g.node_map.get(&2), Some(&1));
}

#[test]
fn addresses_that_end_alike_are_told_apart() {
    let mut first = [0u8; 20];
    first[0] = 1;
    first[19] = 7;
    let mut second = [0u8; 20];
    second[0] = 2;
    second[19] = 7;
    let mut third = [0u8; 20];
    third[0] = 3;
    third[19] = 7;
    let mut g = GraphManager::new();
    let a = g.add_or_get_token(Token::new(Address::new(first), "AAA".to_string(), 18));
    let b = g.add_or_get_token(Token::new(Address::new(second), "BBB".to_string(), 18));
    assert_eq!((a, b), (0, 1));
    assert_eq!(g.node_count(), 2);
    assert_eq!(g.find_token(&Address::new(first)), Some(0));
    assert_eq!(g.find_token(&Address::new(second)), Some(1));
    assert_eq!(g.find_token(&Address::new(third)), None);
    assert_eq!(g.add_or_get_token(Token::new(Address::new(second), "BBB".to_string(), 18)), 1);
    assert_eq!(g.add_or_get_token(Token::new(Address::new(first), "AAA".to_string(), 18)), 0);
    assert_eq!(g.node_count(), 2);
}

#[test]
fn two_pools_on_one_pair_give_four_edges() {
    let mut g = GraphManager::new();
    let a = g.add_or_get_token(Token::new(id(1), "AAA".to_string(), 18));
    let b = g.add_or_get_token(Token::new(id(2), "BBB".to_string(), 6));
    assert_eq!(g.add_pool_edges(v2(10, 1, 2, 100, 200), a, b), Ok((0, 1)));
    assert_eq!(g.edge_count(), 2);
    assert_eq!(g.add_pool_edges(v2(11, 1, 2, 300, 400), a, b), Ok((2, 3)));
    assert_eq!(g.node_count(), 2);
    assert_eq!(g.edge_count(), 4);
    assert_eq!(g.edge_endpoints(0), Some((0, 1)));
    assert_eq!(g.edge_endpoints(1), Some((1, 0)));
    assert_eq!(g.edge_endpoints(2), Some((0, 1)));
    assert_eq!(g.edge_endpoints(3), Some((1, 0)));
    assert_eq!(g.edge_endpoints(4), None);
    assert!(g.edge(0).unwrap().zero_for_one);
    assert!(!g.edge(1).unwrap().zero_for_one);
    assert!(g.edge(0).unwrap().pool.address().same(&id(10)));
    assert!(g.edge(1).unwrap().pool.address().same(&id(10)));
    assert!(g.edge(2).unwrap().pool.address().same(&id(11)));
    assert!(g.edge(3).unwrap().pool.address().same(&id(11)));
    assert_eq!(reserves_of(&g, 0), (100, 200));
    assert_eq!(reserves_of(&g, 3), (300, 400));
    assert!(g.edge(4).is_none());
}

#[test]
fn pool_between_missing_nodes_is_refused() {
    let mut g = GraphManager::new();
    let a = g.add_or_get_token(Token::new(id(1), "AAA".to_string(), 18));
    assert_eq!(
        g.add_pool_edges(v2(10, 1, 2, 100, 200), a, 1),
        Err(EngineError::InvalidGraphReference)
    );
    assert_eq!(
        g.add_pool_edges(v2(10, 1, 2, 100, 200), 5, a),
        Err(EngineError::InvalidGraphReference)
    );
    assert_eq!(g.edge_count(), 0);
    assert_eq!(g.node_count(), 1);
}

#[test]
fn state_change_reaches_both_legs_of_its_pool_only() {
    let mut g = GraphManager::new();
    let a = g.add_or_get_token(Token::new(id(1), "AAA".to_string(), 18));
    let b = g.add_or_get_token(Token::new(id(2), "BBB".to_string(), 6));
    g.add_pool_edges(v2(10, 1, 2, 100, 200), a, b).unwrap();
    g.add_pool_edges(v2(11, 1, 2, 300, 400), a, b).unwrap();
    let event = StateChange::Reserves(ReserveUpdate {
        pool_id: id(11),
        key: OrderingKey { block: 5, log_index: 2 },
        reserve_a: 310,
        reserve_b: 390,
    });
    assert_eq!(g.apply_event(&event), Ok(()));
    assert_eq!(reserves_of(&g, 0), (100, 200));
    assert_eq!(reserves_of(&g, 1), (100, 200));
    assert_eq!(reserves_of(&g, 2), (310, 390));
    assert_eq!(reserves_of(&g, 3), (310, 390));
    assert_eq!(g.edge_endpoints(2), Some((0, 1)));
    assert!(g.edge(2).unwrap().zero_for_one);
    assert!(!g.edge(3).unwrap().zero_for_one);

    // the same change again, then an earlier one, then one for no pool at all
    assert_eq!(g.apply_event(&event), Err(EngineError::StateDesync));
    let stale = StateChange::Reserves(ReserveUpdate {
        pool_id: id(11),
        key: OrderingKey { block: 5, log_index: 1 },
        reserve_a: 1,
        reserve_b: 1,
    });
    assert_eq!(g.apply_event(&stale), Err(EngineError::StateDesync));
    let unknown = StateChange::Reserves(ReserveUpdate {
        pool_id: id(99),
        key: OrderingKey { block: 9, log_index: 0 },
        reserve_a: 1,
        reserve_b: 1,
    });
    assert_eq!(g.apply_event(&unknown), Err(EngineError::StateDesync));
    assert_eq!(reserves_of(&g, 2), (310, 390));
    assert_eq!(reserves_of(&g, 3), (310, 390));
    assert_eq!(g.edge_count(), 4);

    // processing goes on with the next change
    let next = StateChange::Reserves(ReserveUpdate {
        pool_id: id(10),
        key: OrderingKey { block: 6, log_index: 0 },
        reserve_a: 7,
        reserve_b: 8,
    });
    assert_eq!(g.apply_event(&next), Ok(()));
    assert_eq!(reserves_of(&g, 0), (7, 8));
    assert_eq!(reserves_of(&g, 1), (7, 8));
}

#[test]
fn cycles_are_sought_along_the_edges_of_the_graph() {
    let mut g = GraphManager::new();
    let a = g.add_or_get_token(Token::new(id(1), "AAA".to_string(), 18));
    let b = g.add_or_get_token(Token::new(id(2), "BBB".to_string(), 6));
    let c = g.add_or_get_token(Token::new(id(3), "CCC".to_string(), 6));
    g.add_pool_edges(v2(10, 1, 2, 100, 200), a, b).unwrap();
    g.add_pool_edges(v2(11, 2, 3, 300, 400), b, c).unwrap();
    g.add_pool_edges(v2(12, 3, 1, 300, 400), c, a).unwrap();
    // edges 0, 2, 4 go a -> b -> c -> a; edges 1, 3, 5 go back
    let weights = vec![-500_000, 600_000, 300_000, -200_000, 100_000, 50_000];
    let seen = g.weighted_edges(&weights);
    assert_eq!(seen.len(), 6);
    assert_eq!((seen[2].source, seen[2].target, seen[2].weight), (1, 2, 300_000));
    assert_eq!((seen[5].source, seen[5].target, seen[5].weight), (0, 2, 50_000));
    assert_eq!(g.find_cycles(&weights, 1, 3, 1_000), vec![vec![0usize, 2, 4]]);
    assert!(g.find_cycles(&weights, 100_000, 3, 1_000).is_empty());
    let dear = vec![-500_000, 600_000, 300_000, -200_000, 250_000, 50_000];
    assert!(g.find_cycles(&dear, 1, 3, 1_000).is_empty());
    // with weights for the first two edges only, the search sees those two
    assert_eq!(g.weighted_edges(&vec![-5, -5]).len(), 2);
    assert_eq!(g.find_cycles(&vec![-5, 1], 1, 3, 1_000), vec![vec![0usize, 1]]);
    assert_eq!(g.find_cycles(&vec![-5, 1], 1, 2, 1_000), vec![vec![0usize, 1]]);
    assert!(g.find_cycles(&vec![-5, 1], 1, 1, 1_000).is_empty());
    assert!(g.find_cycles(&vec![-5, 5], 1, 3, 1_000).is_empty());
}

fn two_hop_cycle() -> Vec<GraphEdge> {
    // asset 1 is cheap in pool 10 and dear in pool 11
    vec![
        GraphEdge::new(v2(10, 1, 2, 1_000_000, 2_000_000), true),
        GraphEdge::new(v2(11, 1, 2, 1_000_000, 1_000_000), false),
    ]
}

#[test]
fn amount_is_threaded_through_the_legs() {
    let hops = two_hop_cycle();
    let x: u128 = 10_000;
    let a1 = x * 9970;
    let mid = a1 * 2_000_000 / (1_000_000 * 10000 + a1);
    let a2 = mid * 9970;
    let out = a2 * 1_000_000 / (1_000_000 * 10000 + a2);
    assert_eq!(mid, 19_743);
    assert_eq!(out, 19_303);
    assert_eq!(compose(&hops, Amount::from_u128(x)), Ok(Amount::from_u128(out)));
    assert_eq!(compose(&Vec::new(), Amount::from_u128(x)), Ok(Amount::from_u128(x)));
}

#[test]
fn profit_is_reported_only_where_the_trade_pays() {
    let hops = two_hop_cycle();
    let t = realized_profit(&hops, Amount::from_u64(10_000)).unwrap();
    assert_eq!(t.input_amount, Amount::from_u64(10_000));
    assert_eq!(t.expected_output_amount, Amount::from_u64(19_303));
    assert_eq!(t.expected_profit, Amount::from_u64(9_303));

    let back: Vec<GraphEdge> = vec![
        GraphEdge::new(v2(11, 1, 2, 1_000_000, 1_000_000), true),
        GraphEdge::new(v2(10, 1, 2, 1_000_000, 2_000_000), false),
    ];
    assert_eq!(
        realized_profit(&back, Amount::from_u64(10_000)),
        Err(EngineError::NoProfitableCycle)
    );
    assert_eq!(
        realized_profit(&Vec::new(), Amount::from_u64(10_000)),
        Err(EngineError::NoProfitableCycle)
    );
    let dry: Vec<GraphEdge> = vec![GraphEdge::new(v2(12, 1, 2, 0, 0), true)];
    assert_eq!(
        realized_profit(&dry, Amount::zero()),
        Err(EngineError::InsufficientLiquidity)
    );
}

#[test]
fn cycle_must_close() {
    assert!(check_closed(&two_hop_cycle()));
    let open: Vec<GraphEdge> = vec![
        GraphEdge::new(v2(10, 1, 2, 5, 5), true),
        GraphEdge::new(v2(11, 2, 3, 5, 5), true),
    ];
    assert!(!check_closed(&open));
    let three: Vec<GraphEdge> = vec![
        GraphEdge::new(v2(10, 1, 2, 5, 5), true),
        GraphEdge::new(v2(11, 2, 3, 5, 5), true),
        GraphEdge::new(v2(12, 1, 3, 5, 5), false),
    ];
    assert!(check_closed(&three));
    assert!(!check_closed(&Vec::new()));
}
