use treasury_agent::cross_chain_router::{
    BridgePhase, BridgeTransfer, CrossChainError, CrossChainRouter,
};

#[test]
fn test_unsupported_chain() {
    let router = CrossChainRouter::new();
    // 100 tokens, in thousandths
    let result = router.route_funds(100_000, "Ethereum", "Unsupported");
    assert!(matches!(result, Err(CrossChainError::InvalidChain(_, _))));
}

#[test]
fn test_amount_too_low() {
    let router = CrossChainRouter::new();
    // 0.05 token, in thousandths
    let result = router.route_funds(50, "Ethereum", "Arbitrum");
    assert!(matches!(
        result,
        Err(CrossChainError::AmountTooLow { amount: 50, minimum: 100 })
    ));
}

#[test]
fn test_insufficient_liquidity() {
    let router = CrossChainRouter::new();
    // 2000 tokens against a 1000-token corridor, in thousandths
    let result = router.route_funds(2_000_000, "Ethereum", "Arbitrum");
    assert!(matches!(
        result,
        Err(CrossChainError::InsufficientLiquidity { required: 2_000_000, available: 1_000_000 })
    ));
}

#[test]
fn test_supported_chains() {
    let router = CrossChainRouter::new();
    let chains = router.get_supported_chains();
    assert!(chains.contains(&"Ethereum".to_string()));
    assert!(chains.contains(&"Arbitrum".to_string()));
    assert!(chains.contains(&"Optimism".to_string()));
    assert!(chains.contains(&"Polygon".to_string()));
    assert!(chains.contains(&"Fantom".to_string()));
}

#[test]
fn test_successful_transfer() {
    let router = CrossChainRouter::new();
    // 100 tokens, in thousandths
    let result = router.route_funds(100_000, "Ethereum", "Arbitrum");
    assert!(result.is_ok());
}

#[test]
fn test_invalid_chain_names_offender_and_supported() {
    let router = CrossChainRouter::new();
    match router.route_funds(100_000, "Nowhere", "Arbitrum") {
        Err(CrossChainError::InvalidChain(chain, supported)) => {
            assert_eq!(chain, "Nowhere".to_string());
            assert_eq!(supported.len(), 5);
            assert!(supported.contains(&"Ethereum".to_string()));
        }
        other => panic!("expected an invalid-chain failure, got {:?}", other),
    }
    // the source chain is checked first, then the target
    match router.route_funds(100_000, "Ethereum", "Nowhere") {
        Err(CrossChainError::InvalidChain(chain, _)) => {
            assert_eq!(chain, "Nowhere".to_string());
        }
        other => panic!("expected an invalid-chain failure, got {:?}", other),
    }
}

#[test]
fn test_contains_chain() {
    let router = CrossChainRouter::new();
    assert!(router.contains_chain("Polygon"));
    assert!(!router.contains_chain("polygon"));
    assert!(!router.contains_chain(""));
}

#[test]
fn test_bridge_happy_path() {
    let mut t = BridgeTransfer::begin(100_000, "Ethereum".to_string(), "Arbitrum".to_string());
    assert_eq!(t.phase, BridgePhase::Pending);
    assert!(t.advance(Ok(())).is_ok());
    assert_eq!(t.phase, BridgePhase::Locked);
    assert!(t.advance(Ok(())).is_ok());
    assert_eq!(t.phase, BridgePhase::ProofGenerated);
    assert!(t.advance(Ok(())).is_ok());
    assert_eq!(t.phase, BridgePhase::Released);
}

#[test]
fn test_bridge_failure_before_lock_aborts() {
    let mut t = BridgeTransfer::begin(100_000, "Ethereum".to_string(), "Arbitrum".to_string());
    let r = t.advance(Err("lock rejected".to_string()));
    assert!(matches!(r, Err(CrossChainError::BridgeError(_))));
    assert_eq!(t.phase, BridgePhase::Aborted);
}

#[test]
fn test_bridge_failure_after_lock_needs_unlock() {
    let mut t = BridgeTransfer::begin(100_000, "Ethereum".to_string(), "Arbitrum".to_string());
    assert!(t.advance(Ok(())).is_ok());
    let r = t.advance(Err("proof failed".to_string()));
    match r {
        Err(CrossChainError::BridgeError(m)) => assert_eq!(m, "proof failed".to_string()),
        other => panic!("expected a bridge failure, got {:?}", other),
    }
    assert_eq!(t.phase, BridgePhase::FailedAfterLock);
    t.unlock();
    assert_eq!(t.phase, BridgePhase::Aborted);
}
