//! Yield-pool selection: validity filtering and scoring of candidate
//! pools, and the choice of the best-scoring one.
//!
//! A pool's annualized yield is a fixed-point integer in hundredths of a
//! percent (5.2% is 520) and may be missing, in which case it counts as
//! zero. Total value locked (TVL) is in whole currency units. A candidate
//! is valid when its TVL is not negative and its yield, missing counted
//! as zero, is not negative.
//!
//! The score is `yield * log10_floor(tvl)`: the base-10 integer logarithm
//! dampens raw TVL so a tenfold larger pool does not automatically beat a
//! higher-yield smaller one. A TVL of zero (or any TVL under 10) makes
//! the logarithm zero and therefore scores zero; this pins down the
//! otherwise-undefined logarithm of zero.

use vstd::prelude::*;
use crate::numeric::{log10_floor, log10_floor_i64, lemma_log10_nonneg, lemma_log10_le};

verus! {

/// Failures raised while fetching or choosing yield pools.
#[derive(Debug)]
pub enum DefiError {
    NoPoolsFound,
    NoValidPools,
    ApiError(String),
}

/// One candidate yield pool.
#[derive(Debug)]
pub struct PoolData {
    pub protocol: String,
    pub chain: String,
    /// Annualized yield in hundredths of a percent, if reported.
    pub apy: Option<i64>,
    /// Total value locked, in whole currency units.
    pub tvl: i64,
}

/// The yield used for validity and scoring: a missing yield counts as 0.
pub open spec fn apy_or_zero(p: PoolData) -> int {
    match p.apy {
        Some(a) => a as int,
        None => 0,
    }
}

/// The validity predicate: TVL and yield (missing counted as zero) are
/// both non-negative.
pub open spec fn pool_valid(p: PoolData) -> bool {
    p.tvl >= 0 && apy_or_zero(p) >= 0
}

/// The score of a valid pool: yield times the base-10 integer logarithm
/// of TVL.
pub open spec fn pool_score(p: PoolData) -> int {
    apy_or_zero(p) * log10_floor(p.tvl as int)
}

impl PoolData {
    pub fn is_valid(&self) -> (r: bool)
        ensures
            r == pool_valid(*self),
    {
        self.tvl >= 0 && (match self.apy {
            Some(a) => a >= 0,
            None => true,
        })
    }

    /// A fresh pool with the same fields.
    pub fn duplicate(&self) -> (r: PoolData)
        ensures
            r == *self,
    {
        PoolData {
            protocol: self.protocol.clone(),
            chain: self.chain.clone(),
            apy: self.apy,
            tvl: self.tvl,
        }
    }

    /// Computes the score of a valid pool.
    pub fn score(&self) -> (s: i128)
        requires
            pool_valid(*self),
        ensures
            s == pool_score(*self),
            s >= 0,
    {
        let apy: i64 = match self.apy {
            Some(a) => a,
            None => 0,
        };
        let lg: i64 = log10_floor_i64(self.tvl);
        proof {
            let a = apy as int;
            let l = lg as int;
            assert(a * l <= 0x7fff_ffff_ffff_ffff * 0x7fff_ffff_ffff_ffff && a * l >= 0)
                by (nonlinear_arith)
                requires
                    0 <= a <= 0x7fff_ffff_ffff_ffff,
                    0 <= l <= 0x7fff_ffff_ffff_ffff,
            ;
        }
        (apy as i128) * (lg as i128)
    }
}

/// Whether any candidate in the list is valid.
pub open spec fn has_valid(s: Seq<PoolData>) -> bool {
    exists|i: int| 0 <= i < s.len() && pool_valid(#[trigger] s[i])
}

/// `p` is the candidate at `i`: valid, scoring at least every valid
/// candidate, and scoring strictly above every earlier valid one — the
/// first-seen maximum.
pub open spec fn is_best_at(s: Seq<PoolData>, p: PoolData, i: int) -> bool {
    &&& 0 <= i < s.len()
    &&& s[i] == p
    &&& pool_valid(p)
    &&& forall|j: int|
        0 <= j < s.len() && pool_valid(#[trigger] s[j]) ==> pool_score(s[j]) <= pool_score(p)
    &&& forall|j: int|
        0 <= j < i && pool_valid(#[trigger] s[j]) ==> pool_score(s[j]) < pool_score(p)
}

/// `p` is the first-seen maximum-scoring valid candidate of `s`.
pub open spec fn is_best_choice(s: Seq<PoolData>, p: PoolData) -> bool {
    exists|i: int| #[trigger] is_best_at(s, p, i)
}

/// The subsequence of valid candidates, in order.
pub open spec fn filter_valid_spec(s: Seq<PoolData>) -> Seq<PoolData>
    decreases s.len(),
{
    if s.len() == 0 {
        Seq::empty()
    } else {
        let rest = filter_valid_spec(s.drop_last());
        if pool_valid(s.last()) {
            rest.push(s.last())
        } else {
            rest
        }
    }
}

pub proof fn lemma_filter_valid_all_valid(s: Seq<PoolData>)
    ensures
        forall|i: int|
            0 <= i < filter_valid_spec(s).len() ==> pool_valid(#[trigger] filter_valid_spec(s)[i]),
    decreases s.len(),
{
    if s.len() > 0 {
        lemma_filter_valid_all_valid(s.drop_last());
        let rest = filter_valid_spec(s.drop_last());
        assert forall|i: int| 0 <= i < filter_valid_spec(s).len() implies pool_valid(
            #[trigger] filter_valid_spec(s)[i],
        ) by {
            if pool_valid(s.last()) {
                if i < rest.len() {
                    assert(filter_valid_spec(s)[i] == rest[i]);
                } else {
                    assert(filter_valid_spec(s)[i] == s.last());
                }
            } else {
                assert(filter_valid_spec(s)[i] == rest[i]);
            }
        }
    }
}

proof fn lemma_filter_valid_fixed(s: Seq<PoolData>)
    requires
        forall|i: int| 0 <= i < s.len() ==> pool_valid(#[trigger] s[i]),
    ensures
        filter_valid_spec(s) == s,
    decreases s.len(),
{
    if s.len() > 0 {
        assert forall|i: int| 0 <= i < s.drop_last().len() implies pool_valid(
            #[trigger] s.drop_last()[i],
        ) by {
            assert(s.drop_last()[i] == s[i]);
        }
        lemma_filter_valid_fixed(s.drop_last());
        assert(filter_valid_spec(s) =~= s);
    } else {
        assert(filter_valid_spec(s) =~= s);
    }
}

/// The validity filter is pure and deterministic, so it is idempotent:
/// every candidate that survives it satisfies the validity predicate
/// again, and filtering a second time changes nothing.
pub proof fn lemma_filter_valid_idempotent(s: Seq<PoolData>)
    ensures
        forall|i: int|
            0 <= i < filter_valid_spec(s).len() ==> pool_valid(#[trigger] filter_valid_spec(s)[i]),
        filter_valid_spec(filter_valid_spec(s)) == filter_valid_spec(s),
{
    lemma_filter_valid_all_valid(s);
    lemma_filter_valid_fixed(filter_valid_spec(s));
}

/// Keeps the valid candidates, in order.
pub fn filter_valid(pools: &Vec<PoolData>) -> (r: Vec<PoolData>)
    ensures
        r@ == filter_valid_spec(pools@),
{
    let n = pools.len();
    let mut r: Vec<PoolData> = Vec::new();
    let mut k: usize = 0;
    while k < n
        invariant
            n == pools@.len(),
            k <= n,
            r@ == filter_valid_spec(pools@.take(k as int)),
        decreases n - k,
    {
        proof {
            assert(pools@.take((k + 1) as int).drop_last() =~= pools@.take(k as int));
            assert(pools@.take((k + 1) as int).last() == pools@[k as int]);
        }
        let p = &pools[k];
        if p.is_valid() {
            r.push(p.duplicate());
        }
        k = k + 1;
    }
    proof {
        assert(pools@.take(n as int) =~= pools@);
    }
    r
}

/// Fetches, filters, and scores candidate pools. The fetch itself is a
/// network call made by the caller, which hands the candidate list in.
pub struct DefiOptimizer {
    pub use_mock: bool,
}

impl DefiOptimizer {
    pub fn new() -> (r: DefiOptimizer)
        ensures
            !r.use_mock,
    {
        DefiOptimizer { use_mock: false }
    }

    pub fn with_mock() -> (r: DefiOptimizer)
        ensures
            r.use_mock,
    {
        DefiOptimizer { use_mock: true }
    }

    /// The fixture candidates used in mock mode.
    pub fn get_mock_data() -> (r: Vec<PoolData>)
        ensures
            r@.len() == 2,
            r@[0].protocol@ == "Aave"@,
            r@[0].chain@ == "Ethereum"@,
            r@[0].apy == Some(520i64),
            r@[0].tvl == 1_000_000,
            r@[1].protocol@ == "Compound"@,
            r@[1].chain@ == "Ethereum"@,
            r@[1].apy == Some(480i64),
            r@[1].tvl == 800_000,
    {
        let mut r: Vec<PoolData> = Vec::new();
        r.push(PoolData {
            protocol: "Aave".to_owned(),
            chain: "Ethereum".to_owned(),
            apy: Some(520),
            tvl: 1_000_000,
        });
        r.push(PoolData {
            protocol: "Compound".to_owned(),
            chain: "Ethereum".to_owned(),
            apy: Some(480),
            tvl: 800_000,
        });
        r
    }

    /// Picks the first-seen maximum-scoring valid candidate, or fails
    /// when no candidate passes the validity filter. A chosen candidate
    /// is always valid, so its TVL is never negative.
    pub fn select_best(&self, pools: &Vec<PoolData>) -> (r: Result<PoolData, DefiError>)
        ensures
            has_valid(pools@) <==> r is Ok,
            !has_valid(pools@) <==> r == Err::<PoolData, DefiError>(DefiError::NoValidPools),
            r matches Ok(p) ==> is_best_choice(pools@, p) && p.tvl >= 0,
    {
        let n = pools.len();
        let mut found = false;
        let mut best_idx: usize = 0;
        let mut best_score: i128 = 0;
        let mut k: usize = 0;
        while k < n
            invariant
                n == pools@.len(),
                k <= n,
                !found ==> forall|j: int| 0 <= j < k ==> !pool_valid(#[trigger] pools@[j]),
                found ==> best_idx < k && pool_valid(pools@[best_idx as int]) && best_score
                    == pool_score(pools@[best_idx as int]),
                found ==> forall|j: int|
                    0 <= j < k && pool_valid(#[trigger] pools@[j]) ==> pool_score(pools@[j])
                        <= best_score,
                found ==> forall|j: int|
                    0 <= j < best_idx && pool_valid(#[trigger] pools@[j]) ==> pool_score(pools@[j])
                        < best_score,
            decreases n - k,
        {
            let p = &pools[k];
            if p.is_valid() {
                let sc = p.score();
                if !found || sc > best_score {
                    found = true;
                    best_idx = k;
                    best_score = sc;
                }
            }
            k = k + 1;
        }
        if !found {
            return Err(DefiError::NoValidPools);
        }
        let chosen = {
            let p = &pools[best_idx];
            p.duplicate()
        };
        proof {
            assert(is_best_at(pools@, chosen, best_idx as int));
        }
        Ok(chosen)
    }

    /// Chooses the best candidate of a fetched list: fails on an empty
    /// list, fails when no candidate is valid, and otherwise returns the
    /// first-seen maximum-scoring valid candidate.
    pub fn get_best_pool(&self, pools: &Vec<PoolData>) -> (r: Result<PoolData, DefiError>)
        ensures
            (pools@.len() == 0) <==> r == Err::<PoolData, DefiError>(DefiError::NoPoolsFound),
            (pools@.len() > 0 && !has_valid(pools@)) <==> r == Err::<PoolData, DefiError>(
                DefiError::NoValidPools,
            ),
            has_valid(pools@) <==> r is Ok,
            r matches Ok(p) ==> is_best_choice(pools@, p) && p.tvl >= 0,
    {
        if pools.len() == 0 {
            return Err(DefiError::NoPoolsFound);
        }
        self.select_best(pools)
    }
}

} // verus!
