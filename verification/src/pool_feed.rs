//! Tolerant reading of the yield-data feed.
//!
//! The feed is a JSON array of protocol records whose field names vary
//! between sources. Each record is reduced to a `RecordFields` capture —
//! which candidate fields were present and what they held — and
//! `resolve_record` turns a capture into a pool candidate under exact,
//! verified precedence rules:
//!
//! - the protocol name comes from `name`, else `slug`; a record with
//!   neither is skipped;
//! - TVL comes from `tvl`, else `totalLiquidityUSD`, else 0;
//! - the chain comes from `chain`, else the first entry of `chains`,
//!   else `"Unknown"`;
//! - the yield comes from `apy` given as a number, a numeric string, or
//!   an object exposing `total` (else `base`); failing all of those, from
//!   `apyBase`; else it is missing.
//!
//! Numeric field values arrive as their decimal text and are read by the
//! verified fixed-point parser. This narrows the tolerated numeric-string
//! forms: a text in exponent form (`"1e5"`), which a general float parse
//! would accept, and a magnitude beyond the `i64` range are both treated
//! as if the field were absent. JSON numbers within range are unaffected,
//! since serde_json prints them in plain decimal.
//!
//! The capture itself — JSON text to the array of `RecordFields` — is a
//! deterministic function of the text alone; `feed_doc` names its result,
//! `capture_feed` is the one trusted item that computes it, and
//! `parse_protocols` is verified to return exactly the in-order
//! resolution (`resolves_feed`) of the captured records.

use vstd::prelude::*;
use crate::defi_optimizer::{DefiError, PoolData};
use crate::numeric::{parse_fixed, parse_fixed_spec};

verus! {

#[verifier::external_type_specification]
#[verifier::external_body]
pub struct ExValue(serde_json::Value);

/// Relies on serde_json::Value::get: looks a key up in a JSON object.
#[verifier::external_body]
fn json_get<'a>(v: &'a serde_json::Value, key: &str) -> (r: Option<&'a serde_json::Value>) {
    v.get(key)
}

/// Relies on serde_json::Value::as_str: the string payload, for a JSON
/// string.
#[verifier::external_body]
fn json_as_str(v: &serde_json::Value) -> (r: Option<String>) {
    match v.as_str() {
        Some(s) => Some(s.to_owned()),
        None => None,
    }
}

/// Relies on serde_json::Value::as_array: the elements, for a JSON
/// array.
#[verifier::external_body]
fn json_as_array<'a>(v: &'a serde_json::Value) -> (r: Option<&'a Vec<serde_json::Value>>) {
    v.as_array()
}

/// Relies on serde_json::Value::is_object.
#[verifier::external_body]
fn json_is_object(v: &serde_json::Value) -> (r: bool) {
    v.is_object()
}

/// Relies on the Display impl of serde_json::Number: the decimal text of
/// a JSON number.
#[verifier::external_body]
fn json_number_text(v: &serde_json::Value) -> (r: Option<String>) {
    match v {
        serde_json::Value::Number(n) => Some(n.to_string()),
        _ => None,
    }
}

/// What a rate entry (`total` or `base`) of a yield object held.
#[derive(Debug)]
pub enum RateField {
    /// The key was absent.
    Missing,
    /// The key held a number, captured as its decimal text.
    Number(String),
    /// The key held something other than a number.
    Other,
}

/// What the `apy` field of a record held.
#[derive(Debug)]
pub enum ApyField {
    /// The key was absent.
    Absent,
    /// A number, captured as its decimal text.
    Number(String),
    /// A string value.
    Text(String),
    /// An object; only its `total` and `base` entries matter.
    Rates { total: RateField, base: RateField },
    /// Any other kind of value.
    Other,
}

/// The candidate fields of one protocol record, as found in the feed.
/// Numeric fields are captured only when the key held a JSON number, as
/// that number's decimal text.
#[derive(Debug)]
pub struct RecordFields {
    pub name: Option<String>,
    pub slug: Option<String>,
    pub tvl: Option<String>,
    pub total_liquidity: Option<String>,
    pub chain: Option<String>,
    pub first_chain: Option<String>,
    pub apy: ApyField,
    pub apy_base: Option<String>,
}

/// Whether the record names its protocol at all.
pub open spec fn has_name(f: RecordFields) -> bool {
    f.name is Some || f.slug is Some
}

/// The protocol name: `name`, else `slug`.
pub open spec fn name_of(f: RecordFields) -> Seq<char> {
    match f.name {
        Some(n) => n@,
        None => match f.slug {
            Some(s) => s@,
            None => Seq::empty(),
        },
    }
}

/// The chain: `chain`, else the head of `chains`, else `"Unknown"`.
pub open spec fn chain_of(f: RecordFields) -> Seq<char> {
    match f.chain {
        Some(c) => c@,
        None => match f.first_chain {
            Some(c) => c@,
            None => "Unknown"@,
        },
    }
}

/// A captured numeric text read at `frac` decimal places.
pub open spec fn num_opt(o: Option<String>, frac: nat) -> Option<int> {
    match o {
        Some(t) => parse_fixed_spec(t@, frac),
        None => None,
    }
}

/// The TVL: `tvl`, else `totalLiquidityUSD`, else 0.
pub open spec fn tvl_of(f: RecordFields) -> int {
    match num_opt(f.tvl, 0) {
        Some(v) => v,
        None => match num_opt(f.total_liquidity, 0) {
            Some(v) => v,
            None => 0,
        },
    }
}

/// A rate entry's reading, in hundredths of a percent.
pub open spec fn rate_value(r: RateField) -> Option<int> {
    match r {
        RateField::Number(t) => parse_fixed_spec(t@, 2),
        _ => None,
    }
}

/// The yield taken from the `apy` field alone: a number or numeric
/// string as given; for an object, `total` when present, else `base`.
pub open spec fn apy_direct(a: ApyField) -> Option<int> {
    match a {
        ApyField::Number(t) => parse_fixed_spec(t@, 2),
        ApyField::Text(t) => parse_fixed_spec(t@, 2),
        ApyField::Rates { total, base } => match total {
            RateField::Missing => rate_value(base),
            other => rate_value(other),
        },
        _ => None,
    }
}

/// The yield: the `apy` field's reading, falling back to `apyBase`.
pub open spec fn apy_of(f: RecordFields) -> Option<int> {
    match apy_direct(f.apy) {
        Some(v) => Some(v),
        None => num_opt(f.apy_base, 2),
    }
}

/// `pools` is the in-order resolution of `records`: one candidate per
/// record that names a protocol, each the exact resolution of its record,
/// and records naming none skipped silently.
pub open spec fn resolves_feed(records: Seq<RecordFields>, pools: Seq<PoolData>) -> bool
    decreases records.len(),
{
    if records.len() == 0 {
        pools.len() == 0
    } else if has_name(records.last()) {
        &&& pools.len() > 0
        &&& resolves_to(records.last(), pools.last())
        &&& resolves_feed(records.drop_last(), pools.drop_last())
    } else {
        resolves_feed(records.drop_last(), pools)
    }
}

/// `p` is exactly what the precedence rules make of the capture `f`.
pub open spec fn resolves_to(f: RecordFields, p: PoolData) -> bool {
    &&& has_name(f)
    &&& p.protocol@ == name_of(f)
    &&& p.chain@ == chain_of(f)
    &&& (match apy_of(f) {
        Some(v) => p.apy == Some(v as i64),
        None => p.apy is None,
    })
    &&& p.tvl as int == tvl_of(f)
}

/// Reads a captured numeric text at `frac` decimal places.
fn parse_opt_text(o: &Option<String>, frac: u32) -> (r: Option<i64>)
    requires
        frac <= 18,
    ensures
        match num_opt(*o, frac as nat) {
            Some(v) => r == Some(v as i64) && -(i64::MAX as int) <= v <= i64::MAX as int,
            None => r is None,
        },
{
    match o {
        Some(t) => {
            proof {
                crate::numeric::lemma_parse_fixed_range(t@, frac as nat);
            }
            parse_fixed(t.as_str(), frac)
        },
        None => None,
    }
}

fn rate_num(b: &RateField) -> (r: Option<i64>)
    ensures
        match rate_value(*b) {
            Some(v) => r == Some(v as i64),
            None => r is None,
        },
{
    match b {
        RateField::Number(t) => parse_fixed(t.as_str(), 2),
        _ => None,
    }
}

fn apy_from_field(a: &ApyField) -> (r: Option<i64>)
    ensures
        match apy_direct(*a) {
            Some(v) => r == Some(v as i64),
            None => r is None,
        },
{
    match a {
        ApyField::Number(t) => parse_fixed(t.as_str(), 2),
        ApyField::Text(t) => parse_fixed(t.as_str(), 2),
        ApyField::Rates { total, base } => match total {
            RateField::Missing => rate_num(base),
            RateField::Number(t) => parse_fixed(t.as_str(), 2),
            RateField::Other => None,
        },
        _ => None,
    }
}

/// Applies the precedence rules to one captured record: `None` exactly
/// when the record names no protocol.
pub fn resolve_record(f: &RecordFields) -> (r: Option<PoolData>)
    ensures
        r is Some <==> has_name(*f),
        r matches Some(p) ==> resolves_to(*f, p),
{
    let protocol: String = match &f.name {
        Some(n) => n.clone(),
        None => match &f.slug {
            Some(s) => s.clone(),
            None => {
                return None;
            },
        },
    };
    let chain: String = match &f.chain {
        Some(c) => c.clone(),
        None => match &f.first_chain {
            Some(c) => c.clone(),
            None => "Unknown".to_owned(),
        },
    };
    let tvl: i64 = match parse_opt_text(&f.tvl, 0) {
        Some(v) => v,
        None => match parse_opt_text(&f.total_liquidity, 0) {
            Some(v) => v,
            None => 0,
        },
    };
    let apy: Option<i64> = match apy_from_field(&f.apy) {
        Some(v) => Some(v),
        None => parse_opt_text(&f.apy_base, 2),
    };
    Some(PoolData { protocol, chain, apy, tvl })
}

/// Pulls a string-valued key out of a record.
fn capture_str_field(v: &serde_json::Value, key: &str) -> (r: Option<String>) {
    match json_get(v, key) {
        Some(x) => json_as_str(x),
        None => None,
    }
}

/// Pulls a number-valued key out of a record, as its decimal text.
fn capture_num_field(v: &serde_json::Value, key: &str) -> (r: Option<String>) {
    match json_get(v, key) {
        Some(x) => json_number_text(x),
        None => None,
    }
}

fn capture_rate_field(v: &serde_json::Value, key: &str) -> (r: RateField) {
    match json_get(v, key) {
        None => RateField::Missing,
        Some(x) => match json_number_text(x) {
            Some(t) => RateField::Number(t),
            None => RateField::Other,
        },
    }
}

/// Captures the candidate fields of one record of the feed.
fn capture_record(v: &serde_json::Value) -> (r: RecordFields) {
    let name = capture_str_field(v, "name");
    let slug = capture_str_field(v, "slug");
    let tvl = capture_num_field(v, "tvl");
    let total_liquidity = capture_num_field(v, "totalLiquidityUSD");
    let chain = capture_str_field(v, "chain");
    let first_chain = match json_get(v, "chains") {
        Some(c) => match json_as_array(c) {
            Some(arr) => if arr.len() > 0 {
                json_as_str(&arr[0])
            } else {
                None
            },
            None => None,
        },
        None => None,
    };
    let apy = match json_get(v, "apy") {
        None => ApyField::Absent,
        Some(a) => match json_as_str(a) {
            Some(t) => ApyField::Text(t),
            None => match json_number_text(a) {
                Some(t) => ApyField::Number(t),
                None => if json_is_object(a) {
                    ApyField::Rates {
                        total: capture_rate_field(a, "total"),
                        base: capture_rate_field(a, "base"),
                    }
                } else {
                    ApyField::Other
                },
            },
        },
    };
    let apy_base = capture_num_field(v, "apyBase");
    RecordFields { name, slug, tvl, total_liquidity, chain, first_chain, apy, apy_base }
}

/// What capturing the feed text yields: the `RecordFields` of each
/// element of the JSON array, in order, or nothing when the text is not
/// a JSON array. The capture depends on the text alone.
pub uninterp spec fn feed_doc(text: Seq<char>) -> Option<Seq<RecordFields>>;

/// Relies on serde_json::from_str and serde_json::Value::as_array: a
/// JSON array parses to its elements, anything else fails; the captured
/// fields of each element are a function of the text alone, named
/// `feed_doc`.
#[verifier::external_body]
fn capture_feed(text: &str) -> (r: Option<Vec<RecordFields>>)
    ensures
        match feed_doc(text@) {
            Some(s) => r matches Some(v) && v@ == s,
            None => r is None,
        },
{
    let parsed: serde_json::Value = match serde_json::from_str(text) {
        Ok(v) => v,
        Err(_) => return None,
    };
    let arr = match parsed.as_array() {
        Some(a) => a,
        None => return None,
    };
    Some(arr.iter().map(capture_record).collect())
}

/// Parses the feed's JSON text into pool candidates: it fails, with an
/// `ApiError`, exactly when the text does not capture as a JSON array,
/// and otherwise returns the in-order resolution of the captured
/// records — one candidate per record that names a protocol, the rest
/// skipped.
pub fn parse_protocols(text: &str) -> (r: Result<Vec<PoolData>, DefiError>)
    ensures
        r is Ok <==> feed_doc(text@) is Some,
        feed_doc(text@) matches Some(records) ==> (r matches Ok(pools) && resolves_feed(
            records,
            pools@,
        )),
        r matches Err(e) ==> e is ApiError,
{
    let records = match capture_feed(text) {
        Some(v) => v,
        None => {
            return Err(DefiError::ApiError("the response is not a JSON array of protocols".to_owned()));
        },
    };
    let n = records.len();
    let mut pools: Vec<PoolData> = Vec::new();
    let mut k: usize = 0;
    while k < n
        invariant
            n == records@.len(),
            k <= n,
            resolves_feed(records@.take(k as int), pools@),
        decreases n - k,
    {
        proof {
            assert(records@.take((k + 1) as int).drop_last() =~= records@.take(k as int));
            assert(records@.take((k + 1) as int).last() == records@[k as int]);
        }
        let fields = &records[k];
        match resolve_record(fields) {
            Some(p) => {
                let ghost prev = pools@;
                proof {
                    assert(resolves_to(*fields, p));
                }
                pools.push(p);
                proof {
                    assert(pools@.drop_last() =~= prev);
                    assert(pools@.last() == p);
                }
            },
            None => (),
        }
        k = k + 1;
    }
    proof {
        assert(records@.take(n as int) =~= records@);
    }
    Ok(pools)
}

} // verus!
