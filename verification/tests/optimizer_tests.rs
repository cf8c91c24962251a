use treasury_agent::defi_optimizer::{filter_valid, DefiError, DefiOptimizer, PoolData};

fn pool(protocol: &str, chain: &str, apy: Option<i64>, tvl: i64) -> PoolData {
    PoolData { protocol: protocol.to_string(), chain: chain.to_string(), apy, tvl }
}

#[test]
fn test_pool_validation() {
    // yields in hundredths of a percent: 5.00% is 500
    let p = pool("Test Protocol", "Ethereum", Some(500), 1_000_000);
    assert!(p.is_valid());

    let zero_apy_pool = pool("Zero APY", "Ethereum", Some(0), 1_000_000);
    assert!(zero_apy_pool.is_valid());

    let no_apy_pool = pool("No APY", "Ethereum", None, 1_000_000);
    assert!(no_apy_pool.is_valid());

    let negative_tvl_pool = pool("Negative TVL", "Ethereum", Some(500), -1000);
    assert!(!negative_tvl_pool.is_valid());
}

#[test]
fn test_mock_data() {
    let optimizer = DefiOptimizer::with_mock();
    let pools = DefiOptimizer::get_mock_data();
    let best_pool = optimizer.get_best_pool(&pools).unwrap();
    assert_eq!(best_pool.protocol, "Aave".to_string());
    assert_eq!(best_pool.chain, "Ethereum".to_string());
    assert_eq!(best_pool.apy, Some(520)); // 5.2%
    assert_eq!(best_pool.tvl, 1_000_000);
}

#[test]
fn test_empty_pool_handling() {
    let mut optimizer = DefiOptimizer::with_mock();
    optimizer.use_mock = true;
    let result = optimizer.get_best_pool(&Vec::new());
    assert!(result.is_err());
    assert!(matches!(result, Err(DefiError::NoPoolsFound)));
}

#[test]
fn test_no_valid_pools() {
    let optimizer = DefiOptimizer::new();
    let pools = vec![
        pool("Bad", "Ethereum", Some(500), -1),
        pool("Worse", "Ethereum", Some(-1), 1_000_000),
    ];
    assert!(matches!(optimizer.get_best_pool(&pools), Err(DefiError::NoValidPools)));
}

#[test]
fn test_select_best_prefers_dampened_score() {
    // 5.2% on 1_000_000 beats 4.8% on 800_000: 520*6 > 480*5
    let optimizer = DefiOptimizer::new();
    let pools = vec![
        pool("Aave", "Ethereum", Some(520), 1_000_000),
        pool("Compound", "Ethereum", Some(480), 800_000),
    ];
    let best = optimizer.select_best(&pools).unwrap();
    assert_eq!(best.protocol, "Aave".to_string());
    assert!(best.tvl >= 0);
}

#[test]
fn test_select_best_empty_is_no_valid_pools() {
    let optimizer = DefiOptimizer::new();
    assert!(matches!(optimizer.select_best(&Vec::new()), Err(DefiError::NoValidPools)));
}

#[test]
fn test_best_pool_dampened_scoring() {
    // 5.2% on a 1e6 pool scores 520 * 6 = 3120;
    // 4.8% on an 8e5 pool scores 480 * 5 = 2400.
    let optimizer = DefiOptimizer::new();
    let pools = vec![
        pool("Aave", "Ethereum", Some(520), 1_000_000),
        pool("Compound", "Ethereum", Some(480), 800_000),
    ];
    let best = optimizer.get_best_pool(&pools).unwrap();
    assert_eq!(best.protocol, "Aave".to_string());
    assert_eq!(best.tvl, 1_000_000);
}

#[test]
fn test_best_pool_skips_invalid() {
    // the invalid high scorer loses to the modest valid one
    let optimizer = DefiOptimizer::new();
    let pools = vec![
        pool("Phantom", "Ethereum", Some(99_999), -5),
        pool("Steady", "Ethereum", Some(100), 1_000),
    ];
    let best = optimizer.get_best_pool(&pools).unwrap();
    assert_eq!(best.protocol, "Steady".to_string());
}

#[test]
fn test_best_pool_tie_keeps_first() {
    let optimizer = DefiOptimizer::new();
    let pools = vec![
        pool("First", "Ethereum", Some(100), 1_000),
        pool("Second", "Ethereum", Some(100), 1_000),
    ];
    let best = optimizer.get_best_pool(&pools).unwrap();
    assert_eq!(best.protocol, "First".to_string());
}

#[test]
fn test_zero_tvl_scores_zero() {
    // a zero TVL pins the undefined logarithm to score 0
    let p = pool("Dust", "Ethereum", Some(10_000), 0);
    assert_eq!(p.score(), 0);
    let q = pool("Tiny", "Ethereum", Some(300), 9);
    assert_eq!(q.score(), 0);
    let r = pool("Even", "Ethereum", Some(300), 10);
    assert_eq!(r.score(), 300);
}

#[test]
fn test_score_exact_values() {
    assert_eq!(pool("A", "E", Some(520), 1_000_000).score(), 3120);
    assert_eq!(pool("C", "E", Some(480), 800_000).score(), 2400);
    assert_eq!(pool("N", "E", None, 800_000).score(), 0);
}

#[test]
fn test_filter_valid_keeps_order_and_is_idempotent() {
    let pools = vec![
        pool("A", "Ethereum", Some(500), 1_000_000),
        pool("B", "Ethereum", Some(500), -1),
        pool("C", "Ethereum", None, 2_000),
        pool("D", "Ethereum", Some(-2), 2_000),
    ];
    let once = filter_valid(&pools);
    assert_eq!(once.len(), 2);
    assert_eq!(once[0].protocol, "A".to_string());
    assert_eq!(once[1].protocol, "C".to_string());
    // every survivor still satisfies the predicate, and a second pass
    // changes nothing
    assert!(once.iter().all(|p| p.is_valid()));
    let twice = filter_valid(&once);
    assert_eq!(twice.len(), once.len());
    for (a, b) in once.iter().zip(twice.iter()) {
        assert_eq!(a.protocol, b.protocol);
        assert_eq!(a.chain, b.chain);
        assert_eq!(a.apy, b.apy);
        assert_eq!(a.tvl, b.tvl);
    }
}
