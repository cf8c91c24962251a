//! Core decision logic of an automated treasury agent for a single managed
//! account: balance/threshold monitoring with pre-transaction simulation,
//! yield-pool selection, and cross-chain transfer validation with a staged
//! bridge protocol.
//!
//! All amounts are plain integers: account balances in atomic ledger units
//! (wei), transfer amounts in thousandths of a token, and yields in
//! hundredths of a percent. The surrounding process performs the network
//! calls (ledger queries, fee estimation, pool-data fetches) and hands the
//! results to these functions as values.

pub mod cross_chain_router;
pub mod defi_optimizer;
pub mod numeric;
pub mod pool_feed;
pub mod safe_manager;
