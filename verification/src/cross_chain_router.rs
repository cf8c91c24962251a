//! Cross-chain transfer validation and the staged bridge protocol.
//!
//! Token amounts are fixed-point integers in thousandths of a token, so
//! the default minimum transfer of 0.1 token is 100 and the simulated
//! corridor liquidity of 1000 tokens is 1_000_000.
//!
//! A transfer that passes validation moves through the bridge protocol in
//! strict order: lock on the source chain, generate the transfer proof,
//! release on the destination chain. The caller performs each phase's
//! outside work and reports its outcome; the state machine here decides
//! what each outcome means and never skips a phase. A failure once funds
//! are locked parks the transfer in a state that demands an explicit
//! unlock, rather than losing track of the locked funds.

use vstd::prelude::*;

verus! {

/// Failures raised while validating or driving a cross-chain transfer.
#[derive(Debug)]
pub enum CrossChainError {
    /// The offending chain, with the supported chains.
    InvalidChain(String, Vec<String>),
    InsufficientLiquidity { required: u64, available: u64 },
    AmountTooLow { amount: u64, minimum: u64 },
    BridgeError(String),
}

/// Metadata for one supported chain.
#[derive(Debug)]
pub struct ChainInfo {
    pub name: String,
    pub chain_id: u64,
    pub is_active: bool,
    pub min_transfer: u64,
}

/// Default minimum transfer: 0.1 token.
pub const MIN_TRANSFER_MILLI: u64 = 100;

/// Simulated per-corridor bridge liquidity: 1000 tokens.
pub const CORRIDOR_LIQUIDITY_MILLI: u64 = 1_000_000;

/// Where a transfer stands in the bridge protocol.
#[derive(Clone, Copy, Debug, PartialEq, Eq, Structural)]
pub enum BridgePhase {
    /// Validated, nothing locked yet.
    Pending,
    /// Funds are locked on the source chain.
    Locked,
    /// The transfer proof has been generated.
    ProofGenerated,
    /// Funds are released on the destination chain.
    Released,
    /// Ended before anything was locked; no funds are at risk.
    Aborted,
    /// A phase failed after the lock; the locked funds await `unlock`.
    FailedAfterLock,
}

/// The phase a successful step leads to.
pub open spec fn next_phase(p: BridgePhase) -> BridgePhase {
    match p {
        BridgePhase::Pending => BridgePhase::Locked,
        BridgePhase::Locked => BridgePhase::ProofGenerated,
        BridgePhase::ProofGenerated => BridgePhase::Released,
        other => other,
    }
}

/// One validated transfer moving through the bridge protocol.
#[derive(Debug)]
pub struct BridgeTransfer {
    pub amount: u64,
    pub source: String,
    pub target: String,
    pub phase: BridgePhase,
}

impl BridgeTransfer {
    /// Whether the transfer still has phases ahead of it.
    pub open spec fn in_flight(&self) -> bool {
        self.phase == BridgePhase::Pending || self.phase == BridgePhase::Locked || self.phase
            == BridgePhase::ProofGenerated
    }

    pub fn begin(amount: u64, source: String, target: String) -> (t: BridgeTransfer)
        ensures
            t.amount == amount,
            t.source == source,
            t.target == target,
            t.phase == BridgePhase::Pending,
    {
        BridgeTransfer { amount, source, target, phase: BridgePhase::Pending }
    }

    /// Applies the outcome of the next phase's outside work. A success
    /// advances exactly one phase; a failure before the lock abandons the
    /// transfer cleanly, and a failure after it parks the locked funds
    /// until `unlock`.
    pub fn advance(&mut self, outcome: Result<(), String>) -> (r: Result<(), CrossChainError>)
        requires
            old(self).in_flight(),
        ensures
            final(self).amount == old(self).amount,
            final(self).source == old(self).source,
            final(self).target == old(self).target,
            outcome is Ok ==> r is Ok && final(self).phase == next_phase(old(self).phase),
            outcome matches Err(m) ==> r == Err::<(), CrossChainError>(
                CrossChainError::BridgeError(m),
            ) && final(self).phase == (if old(self).phase == BridgePhase::Pending {
                BridgePhase::Aborted
            } else {
                BridgePhase::FailedAfterLock
            }),
    {
        match outcome {
            Ok(()) => {
                self.phase = match self.phase {
                    BridgePhase::Pending => BridgePhase::Locked,
                    BridgePhase::Locked => BridgePhase::ProofGenerated,
                    _ => BridgePhase::Released,
                };
                Ok(())
            },
            Err(m) => {
                self.phase = match self.phase {
                    BridgePhase::Pending => BridgePhase::Aborted,
                    _ => BridgePhase::FailedAfterLock,
                };
                Err(CrossChainError::BridgeError(m))
            },
        }
    }

    /// Recovers the funds left locked by a failed phase.
    pub fn unlock(&mut self)
        requires
            old(self).phase == BridgePhase::FailedAfterLock,
        ensures
            final(self).amount == old(self).amount,
            final(self).source == old(self).source,
            final(self).target == old(self).target,
            final(self).phase == BridgePhase::Aborted,
    {
        self.phase = BridgePhase::Aborted;
    }
}

/// Validates proposed transfers against the supported chains, the minimum
/// amount, and the corridor liquidity, then drives the bridge protocol.
pub struct CrossChainRouter {
    pub supported_chains: Vec<String>,
    pub min_amount: u64,
}

impl CrossChainRouter {
    /// Whether a chain name is in the registry.
    pub open spec fn supports(&self, chain: Seq<char>) -> bool {
        exists|k: int|
            0 <= k < self.supported_chains@.len() && #[trigger] self.supported_chains@[k]@ == chain
    }

    /// Every validation a transfer must pass.
    pub open spec fn transfer_allowed(&self, amount: u64, source: Seq<char>, target: Seq<char>) -> bool {
        &&& self.supports(source)
        &&& self.supports(target)
        &&& amount >= self.min_amount
        &&& amount <= CORRIDOR_LIQUIDITY_MILLI
    }

    pub fn new() -> (r: CrossChainRouter)
        ensures
            r.supported_chains@.len() == 5,
            r.supported_chains@[0]@ == "Ethereum"@,
            r.supported_chains@[1]@ == "Arbitrum"@,
            r.supported_chains@[2]@ == "Optimism"@,
            r.supported_chains@[3]@ == "Polygon"@,
            r.supported_chains@[4]@ == "Fantom"@,
            r.min_amount == MIN_TRANSFER_MILLI,
            r.supports("Ethereum"@) && r.supports("Arbitrum"@) && r.supports("Optimism"@)
                && r.supports("Polygon"@) && r.supports("Fantom"@),
    {
        let mut supported_chains: Vec<String> = Vec::new();
        supported_chains.push("Ethereum".to_owned());
        supported_chains.push("Arbitrum".to_owned());
        supported_chains.push("Optimism".to_owned());
        supported_chains.push("Polygon".to_owned());
        supported_chains.push("Fantom".to_owned());
        let r = CrossChainRouter { supported_chains, min_amount: MIN_TRANSFER_MILLI };
        proof {
            assert(r.supported_chains@[0]@ == "Ethereum"@);
            assert(r.supported_chains@[1]@ == "Arbitrum"@);
            assert(r.supported_chains@[2]@ == "Optimism"@);
            assert(r.supported_chains@[3]@ == "Polygon"@);
            assert(r.supported_chains@[4]@ == "Fantom"@);
        }
        r
    }

    /// Membership test against the registry.
    pub fn contains_chain(&self, chain: &str) -> (r: bool)
        ensures
            r == self.supports(chain@),
    {
        let owned: String = chain.to_owned();
        let n = self.supported_chains.len();
        let mut k: usize = 0;
        while k < n
            invariant
                n == self.supported_chains@.len(),
                k <= n,
                owned@ == chain@,
                forall|t: int| 0 <= t < k ==> #[trigger] self.supported_chains@[t]@ != chain@,
            decreases n - k,
        {
            if owned == self.supported_chains[k] {
                return true;
            }
            k = k + 1;
        }
        false
    }

    /// A copy of the registry, in order.
    pub fn get_supported_chains(&self) -> (r: Vec<String>)
        ensures
            r@ == self.supported_chains@,
    {
        let n = self.supported_chains.len();
        let mut r: Vec<String> = Vec::new();
        let mut k: usize = 0;
        while k < n
            invariant
                n == self.supported_chains@.len(),
                k <= n,
                r@.len() == k,
                forall|t: int| 0 <= t < k ==> r@[t] == self.supported_chains@[t],
            decreases n - k,
        {
            r.push(self.supported_chains[k].clone());
            k = k + 1;
        }
        proof {
            assert(r@ =~= self.supported_chains@);
        }
        r
    }

    /// Rejects a chain outside the registry, naming it and the supported
    /// chains.
    pub fn validate_chain(&self, chain: &str) -> (r: Result<(), CrossChainError>)
        ensures
            r is Ok <==> self.supports(chain@),
            r matches Err(e) ==> (e matches CrossChainError::InvalidChain(c, list) && c@ == chain@
                && list@ == self.supported_chains@),
    {
        if self.contains_chain(chain) {
            Ok(())
        } else {
            Err(CrossChainError::InvalidChain(chain.to_owned(), self.get_supported_chains()))
        }
    }

    /// Validates a transfer in order — source chain, destination chain,
    /// amount floor, corridor liquidity — then drives the three bridge
    /// phases, which the simulated bridge always completes.
    pub fn route_funds(&self, amount: u64, source_chain: &str, target_chain: &str) -> (r: Result<
        (),
        CrossChainError,
    >)
        ensures
            r is Ok <==> self.transfer_allowed(amount, source_chain@, target_chain@),
            !self.supports(source_chain@) ==> (r matches Err(
                CrossChainError::InvalidChain(c, list),
            ) && c@ == source_chain@ && list@ == self.supported_chains@),
            self.supports(source_chain@) && !self.supports(target_chain@) ==> (r matches Err(
                CrossChainError::InvalidChain(c, list),
            ) && c@ == target_chain@ && list@ == self.supported_chains@),
            self.supports(source_chain@) && self.supports(target_chain@) && amount
                < self.min_amount ==> r == Err::<(), CrossChainError>(
                CrossChainError::AmountTooLow { amount, minimum: self.min_amount },
            ),
            self.supports(source_chain@) && self.supports(target_chain@) && amount
                >= self.min_amount && amount > CORRIDOR_LIQUIDITY_MILLI ==> r == Err::<
                (),
                CrossChainError,
            >(
                CrossChainError::InsufficientLiquidity {
                    required: amount,
                    available: CORRIDOR_LIQUIDITY_MILLI,
                },
            ),
    {
        match self.validate_chain(source_chain) {
            Ok(()) => (),
            Err(e) => {
                return Err(e);
            },
        }
        match self.validate_chain(target_chain) {
            Ok(()) => (),
            Err(e) => {
                return Err(e);
            },
        }
        if amount < self.min_amount {
            return Err(CrossChainError::AmountTooLow { amount, minimum: self.min_amount });
        }
        if amount > CORRIDOR_LIQUIDITY_MILLI {
            return Err(CrossChainError::InsufficientLiquidity {
                required: amount,
                available: CORRIDOR_LIQUIDITY_MILLI,
            });
        }
        let mut transfer = BridgeTransfer::begin(
            amount,
            source_chain.to_owned(),
            target_chain.to_owned(),
        );
        let lock = transfer.advance(Ok(()));
        match lock {
            Ok(()) => (),
            Err(e) => {
                return Err(e);
            },
        }
        let prove = transfer.advance(Ok(()));
        match prove {
            Ok(()) => (),
            Err(e) => {
                return Err(e);
            },
        }
        let release = transfer.advance(Ok(()));
        match release {
            Ok(()) => (),
            Err(e) => {
                return Err(e);
            },
        }
        Ok(())
    }
}

} // verus!
