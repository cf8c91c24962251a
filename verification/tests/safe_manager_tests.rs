use treasury_agent::safe_manager::{BalanceHealth, SafeError, SafeManager, SafeTransaction};

fn test_manager() -> SafeManager {
    SafeManager::new("0x0000000000000000000000000000000000000000".to_string())
}

fn test_tx(value: u128) -> SafeTransaction {
    SafeTransaction {
        to: "0x0000000000000000000000000000000000000000".to_string(),
        value,
        data: vec![],
        operation: 0,
        safe_tx_gas: 0,
        nonce: None,
    }
}

#[test]
fn test_balance_threshold() {
    let mut manager = test_manager();
    manager.set_min_balance(1_000_000_000_000_000); // 0.001 ETH
    let result = manager.check_balance_threshold(0);
    assert!(result.is_err());
    assert!(matches!(result, Err(SafeError::CriticalBalance { .. })));
}

#[test]
fn test_critical_balance() {
    let mut manager = test_manager();
    manager.set_min_balance(1_000_000_000_000_000); // 0.001 ETH
    let result = manager.check_balance_threshold(0);
    assert!(result.is_err());
    assert!(matches!(result, Err(SafeError::CriticalBalance { .. })));
}

#[test]
fn test_transaction_validation() {
    let manager = test_manager();
    let invalid_tx = test_tx(1_000_000_000_000_000_000); // 1 ETH
    let result = manager.simulate_transaction(0, &invalid_tx, Ok(21_000));
    assert!(result.is_err());
}

#[test]
fn test_get_address() {
    let manager = test_manager();
    let addr = manager.get_address();
    assert_eq!(addr, "0x0000000000000000000000000000000000000000".to_string());
}

#[test]
fn test_set_min_balance() {
    let mut manager = test_manager();
    let new_min: u128 = 3_000_000_000_000_000; // 0.003 ETH
    manager.set_min_balance(new_min);
    assert_eq!(manager.critical_balance, new_min / 2);
    assert_eq!(manager.min_balance, new_min);
}

#[test]
fn test_set_min_balance_odd_value() {
    let mut manager = test_manager();
    manager.set_min_balance(3);
    assert_eq!(manager.critical_balance, 1);
    assert_eq!(manager.min_balance, 3);
}

#[test]
fn test_threshold_boundaries() {
    let mut manager = test_manager();
    manager.set_min_balance(1_000_000_000_000_000);
    let critical: u128 = 500_000_000_000_000;

    // at or under the critical floor: a hard failure with both amounts
    match manager.check_balance_threshold(critical) {
        Err(SafeError::CriticalBalance { current, minimum }) => {
            assert_eq!(current, critical);
            assert_eq!(minimum, critical);
        }
        other => panic!("expected a critical-balance failure, got {:?}", other),
    }

    // strictly between the thresholds: below minimum
    assert!(matches!(manager.check_balance_threshold(critical + 1), Ok(true)));
    assert!(matches!(
        manager.check_balance_threshold(999_999_999_999_999),
        Ok(true)
    ));

    // at or above the minimum: sufficient
    assert!(matches!(
        manager.check_balance_threshold(1_000_000_000_000_000),
        Ok(false)
    ));
}

#[test]
fn test_classify_balance() {
    let manager = test_manager(); // min 0.001 ETH, critical half of it
    assert_eq!(manager.classify_balance(0), BalanceHealth::Critical);
    assert_eq!(manager.classify_balance(500_000_000_000_000), BalanceHealth::Critical);
    assert_eq!(manager.classify_balance(500_000_000_000_001), BalanceHealth::Warning);
    assert_eq!(manager.classify_balance(1_000_000_000_000_000), BalanceHealth::Healthy);
}

#[test]
fn test_simulate_gas_estimation_failed() {
    let manager = test_manager();
    let tx = test_tx(50);
    match manager.simulate_transaction(100, &tx, Err("fee oracle down".to_string())) {
        Err(SafeError::GasEstimationFailed(m)) => assert_eq!(m, "fee oracle down".to_string()),
        other => panic!("expected a gas-estimation failure, got {:?}", other),
    }
}

#[test]
fn test_simulate_returns_cost() {
    let manager = test_manager();
    let tx = test_tx(50);
    assert!(matches!(manager.simulate_transaction(100, &tx, Ok(21_000)), Ok(21_000)));
}

#[test]
fn test_execute_insufficient_for_total() {
    let manager = test_manager();
    let tx = test_tx(50);
    match manager.execute_transaction(100, &tx, Ok(60)) {
        Err(SafeError::InsufficientBalance { required, available }) => {
            assert_eq!(required, 110);
            assert_eq!(available, 100);
        }
        other => panic!("expected an insufficient-balance failure, got {:?}", other),
    }
}

#[test]
fn test_execute_success() {
    let manager = test_manager();
    let tx = test_tx(50);
    assert!(manager.execute_transaction(200, &tx, Ok(60)).is_ok());
}

#[test]
fn test_execute_insufficient_for_value() {
    let manager = test_manager();
    let tx = test_tx(500);
    match manager.execute_transaction(100, &tx, Ok(60)) {
        Err(SafeError::InsufficientBalance { required, available }) => {
            assert_eq!(required, 500);
            assert_eq!(available, 100);
        }
        other => panic!("expected an insufficient-balance failure, got {:?}", other),
    }
}
