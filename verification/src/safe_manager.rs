//! Balance monitoring and pre-transaction simulation for the managed
//! account.
//!
//! The account carries two thresholds: `min_balance`, under which the
//! balance is merely low, and `critical_balance`, at or under which the
//! cycle must abort. The single mutator keeps the invariant
//! `critical_balance == min_balance / 2`.
//!
//! Ledger reads and fee estimation are network calls made by the caller;
//! every function here takes the observed balance (and, where needed, the
//! fee-estimation outcome) as an argument and is verified for every value
//! of it.

use vstd::prelude::*;

verus! {

/// Failures raised by account monitoring and transaction simulation.
#[derive(Debug)]
pub enum SafeError {
    TransactionFailed(String),
    InsufficientBalance { required: u128, available: u128 },
    InvalidAddress(String),
    ProviderError(String),
    GasEstimationFailed(String),
    CriticalBalance { current: u128, minimum: u128 },
}

/// A proposed transaction from the managed account, before signing.
#[derive(Debug)]
pub struct SafeTransaction {
    pub to: String,
    pub value: u128,
    pub data: Vec<u8>,
    pub operation: u8,
    pub safe_tx_gas: u128,
    pub nonce: Option<u128>,
}

/// Health of the account balance against the two thresholds.
#[derive(Debug, PartialEq, Eq, Structural)]
pub enum BalanceHealth {
    Healthy,
    Warning,
    Critical,
}

/// Default minimum balance: 0.001 ether in wei.
pub const DEFAULT_MIN_BALANCE: u128 = 1_000_000_000_000_000;

/// Monitors one account's balance against its thresholds and validates
/// transactions before they would be signed.
pub struct SafeManager {
    pub address: String,
    pub min_balance: u128,
    pub critical_balance: u128,
}

impl SafeManager {
    /// The threshold invariant: the critical floor is half the minimum.
    pub open spec fn wf(&self) -> bool {
        self.critical_balance == self.min_balance / 2
    }

    /// Where a balance stands relative to the thresholds.
    pub open spec fn health_of(&self, balance: u128) -> BalanceHealth {
        if balance <= self.critical_balance {
            BalanceHealth::Critical
        } else if balance < self.min_balance {
            BalanceHealth::Warning
        } else {
            BalanceHealth::Healthy
        }
    }

    /// What the threshold check returns for a given balance.
    pub open spec fn threshold_outcome(&self, balance: u128) -> Result<bool, SafeError> {
        if balance <= self.critical_balance {
            Err(SafeError::CriticalBalance { current: balance, minimum: self.critical_balance })
        } else {
            Ok(balance < self.min_balance)
        }
    }

    pub fn new(address: String) -> (m: SafeManager)
        ensures
            m.address == address,
            m.min_balance == DEFAULT_MIN_BALANCE,
            m.critical_balance == DEFAULT_MIN_BALANCE / 2,
            m.wf(),
    {
        SafeManager {
            address,
            min_balance: DEFAULT_MIN_BALANCE,
            critical_balance: DEFAULT_MIN_BALANCE / 2,
        }
    }

    /// Classifies an observed balance against the thresholds.
    pub fn classify_balance(&self, balance: u128) -> (h: BalanceHealth)
        ensures
            h == self.health_of(balance),
    {
        if balance <= self.critical_balance {
            BalanceHealth::Critical
        } else if balance < self.min_balance {
            BalanceHealth::Warning
        } else {
            BalanceHealth::Healthy
        }
    }

    /// Checks an observed balance: fails hard at or under the critical
    /// floor, otherwise reports whether the balance is below the minimum.
    pub fn check_balance_threshold(&self, balance: u128) -> (r: Result<bool, SafeError>)
        ensures
            r == self.threshold_outcome(balance),
    {
        if balance <= self.critical_balance {
            Err(SafeError::CriticalBalance { current: balance, minimum: self.critical_balance })
        } else {
            Ok(balance < self.min_balance)
        }
    }

    /// The threshold check and the health states agree: it fails exactly
    /// in `Critical`, reports a shortfall exactly in `Warning`, and reports
    /// a sufficient balance exactly in `Healthy`. The minimum must lie
    /// strictly above the critical floor for the three cases to partition.
    pub proof fn lemma_threshold_trichotomy(&self, balance: u128)
        requires
            self.critical_balance < self.min_balance,
        ensures
            (self.threshold_outcome(balance) matches Err(e)
                && e == (SafeError::CriticalBalance {
                    current: balance,
                    minimum: self.critical_balance,
                })) <==> balance <= self.critical_balance,
            self.threshold_outcome(balance) == Ok::<bool, SafeError>(true)
                <==> self.critical_balance < balance < self.min_balance,
            self.threshold_outcome(balance) == Ok::<bool, SafeError>(false)
                <==> balance >= self.min_balance,
            balance <= self.critical_balance <==> self.health_of(balance) == BalanceHealth::Critical,
    {
    }

    /// Pre-flight check: a transaction may only proceed when the balance
    /// covers its value, and the cost estimate handed back by the fee
    /// oracle must be available.
    pub fn simulate_transaction(
        &self,
        balance: u128,
        tx: &SafeTransaction,
        fee_estimate: Result<u128, String>,
    ) -> (r: Result<u128, SafeError>)
        ensures
            balance < tx.value ==> r == Err::<u128, SafeError>(SafeError::InsufficientBalance {
                required: tx.value,
                available: balance,
            }),
            balance >= tx.value ==> (match fee_estimate {
                Ok(cost) => r == Ok::<u128, SafeError>(cost),
                Err(m) => r == Err::<u128, SafeError>(SafeError::GasEstimationFailed(m)),
            }),
    {
        if balance < tx.value {
            return Err(SafeError::InsufficientBalance { required: tx.value, available: balance });
        }
        match fee_estimate {
            Ok(cost) => Ok(cost),
            Err(m) => Err(SafeError::GasEstimationFailed(m)),
        }
    }

    /// Final validation before a transfer would execute: re-runs the
    /// simulation, then checks the balance against the value plus the
    /// estimated cost. Nothing is signed or broadcast.
    pub fn execute_transaction(
        &self,
        balance: u128,
        tx: &SafeTransaction,
        fee_estimate: Result<u128, String>,
    ) -> (r: Result<(), SafeError>)
        requires
            fee_estimate matches Ok(cost) ==> tx.value + cost <= u128::MAX,
        ensures
            balance < tx.value ==> r == Err::<(), SafeError>(SafeError::InsufficientBalance {
                required: tx.value,
                available: balance,
            }),
            balance >= tx.value ==> (match fee_estimate {
                Err(m) => r == Err::<(), SafeError>(SafeError::GasEstimationFailed(m)),
                Ok(cost) => if balance < tx.value + cost {
                    r == Err::<(), SafeError>(SafeError::InsufficientBalance {
                        required: (tx.value + cost) as u128,
                        available: balance,
                    })
                } else {
                    r == Ok::<(), SafeError>(())
                },
            }),
    {
        let estimated_cost = match self.simulate_transaction(balance, tx, fee_estimate) {
            Ok(cost) => cost,
            Err(e) => {
                return Err(e);
            },
        };
        let total_required = tx.value + estimated_cost;
        if balance < total_required {
            return Err(SafeError::InsufficientBalance {
                required: total_required,
                available: balance,
            });
        }
        Ok(())
    }

    pub fn get_address(&self) -> (r: String)
        ensures
            r == self.address,
    {
        self.address.clone()
    }

    /// The single threshold mutator: updates both thresholds together so
    /// the critical floor stays at half the minimum.
    pub fn set_min_balance(&mut self, min_balance: u128)
        ensures
            final(self).min_balance == min_balance,
            final(self).critical_balance == min_balance / 2,
            final(self).address == old(self).address,
            final(self).wf(),
    {
        self.min_balance = min_balance;
        self.critical_balance = min_balance / 2;
    }
}

} // verus!
