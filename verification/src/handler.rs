//! The calculation endpoint's decisions: which block-number lookups a
//! request calls for, how the upstream replies resolve into a block range,
//! and what the reply to the caller holds.

use vstd::prelude::*;
use crate::gas::{aggregate_gas, gas_sum, gas_values_ok, views_of, GasError, TxRecord};
use crate::numbers::{dec_val, is_u32_numeral, parse_u32_numeral};
use crate::period::{lemma_period_offset_bounds, period_offset_seconds, spec_period_offset};
use crate::text::str_eq;

verus! {

/// A calculation request: the address whose gas is summed and the name of
/// the time window.
pub struct CalculationRequest {
    pub address: String,
    pub time_period: String,
}

/// The reply to a successful calculation: the summed gas.
pub struct GasUsedResponse {
    pub gas_used: u32,
}

/// Whether a period name asks for the whole chain history.
pub open spec fn is_all_time(p: Seq<char>) -> bool {
    p == "AllTime"@
}

/// The block-number lookups a request calls for: one at the end of the
/// window, and, unless the whole history is asked for, one at its start.
pub struct BlockQueryPlan {
    pub end_timestamp: i64,
    pub start_timestamp: Option<i64>,
}

/// Plans the block-number lookups for a request made at UNIX time `now`.
/// The end of the window is always `now` itself; the start is `now` less the
/// period's offset; "AllTime" plans no start lookup at all, whatever the
/// time is.
pub fn plan_block_queries(now: i64, period: &str) -> (r: BlockQueryPlan)
    requires
        i64::MIN + 31536000 <= now,
    ensures
        r.end_timestamp == now,
        (r.start_timestamp is None) <==> is_all_time(period@),
        !is_all_time(period@) ==> (r.start_timestamp matches Some(t) && t == now
            - spec_period_offset(period@)),
{
    if str_eq(period, "AllTime") {
        BlockQueryPlan { end_timestamp: now, start_timestamp: None }
    } else {
        let off: u64 = period_offset_seconds(period);
        proof {
            lemma_period_offset_bounds(period@);
        }
        BlockQueryPlan { end_timestamp: now, start_timestamp: Some(now - off as i64) }
    }
}

/// Parses an upstream block-number reply: the `result` field of the
/// block-by-timestamp lookup, a decimal numeral. A reply that is not an
/// in-range numeral is rejected, not crashed on.
pub fn parse_block_number(s: &str) -> (r: Result<u32, GasError>)
    ensures
        r is Ok <==> is_u32_numeral(s@),
        r is Ok ==> r->Ok_0 == dec_val(s@),
        r is Err ==> r == Err::<u32, GasError>(GasError::InvalidBlockNumber),
{
    match parse_u32_numeral(s) {
        Some(v) => Ok(v),
        None => Err(GasError::InvalidBlockNumber),
    }
}

/// The block range a transaction query covers.
pub struct BlockRange {
    pub start_block: u32,
    pub end_block: u32,
}

/// Resolves the upstream block-number replies into the block range of the
/// transaction query. The reply for the end of the window is always present;
/// the start reply is absent exactly when the whole history was asked for,
/// and the start block is then 0 whatever the clock said.
pub fn resolve_block_range(end_reply: &str, start_reply: Option<&str>) -> (r: Result<
    BlockRange,
    GasError,
>)
    ensures
        r is Ok <==> is_u32_numeral(end_reply@) && (match start_reply {
            Some(s) => is_u32_numeral(s@),
            None => true,
        }),
        r is Ok ==> r->Ok_0.end_block == dec_val(end_reply@),
        r is Ok ==> r->Ok_0.start_block == (match start_reply {
            Some(s) => dec_val(s@),
            None => 0,
        }),
        r is Err ==> r == Err::<BlockRange, GasError>(GasError::InvalidBlockNumber),
{
    let end_block: u32 = match parse_block_number(end_reply) {
        Ok(v) => v,
        Err(e) => {
            return Err(e);
        },
    };
    let start_block: u32 = match start_reply {
        Some(s) => match parse_block_number(s) {
            Ok(v) => v,
            Err(e) => {
                return Err(e);
            },
        },
        None => 0u32,
    };
    Ok(BlockRange { start_block, end_block })
}

/// The final step of the calculation: sums the gas of the fetched
/// transactions sent from the requested address and builds the reply.
pub fn gas_for_transactions(req: &CalculationRequest, txs: &Vec<TxRecord>) -> (r: Result<
    GasUsedResponse,
    GasError,
>)
    ensures
        r is Ok <==> gas_values_ok(views_of(txs@), req.address@) && gas_sum(
            views_of(txs@),
            req.address@,
        ) <= u32::MAX,
        r is Ok ==> r->Ok_0.gas_used == gas_sum(views_of(txs@), req.address@),
        r is Err ==> (r->Err_0 == GasError::InvalidGasValue <==> !gas_values_ok(
            views_of(txs@),
            req.address@,
        )),
        r is Err ==> (r->Err_0 == GasError::GasOverflow <==> gas_values_ok(
            views_of(txs@),
            req.address@,
        ) && gas_sum(views_of(txs@), req.address@) > u32::MAX),
{
    match aggregate_gas(req.address.as_str(), txs) {
        Ok(total) => Ok(GasUsedResponse { gas_used: total }),
        Err(e) => Err(e),
    }
}

} // verus!
