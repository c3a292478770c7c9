use gas_tracker::gas::{aggregate_gas, GasError, TxRecord};
use gas_tracker::handler::{
    gas_for_transactions, parse_block_number, plan_block_queries, resolve_block_range,
    CalculationRequest,
};
use gas_tracker::numbers::parse_u32_numeral;
use gas_tracker::period::period_offset_seconds;

fn tx(from: &str, gas_used: &str) -> TxRecord {
    TxRecord { from: String::from(from), gas_used: String::from(gas_used) }
}

#[test]
fn period_offsets_are_exact() {
    assert_eq!(period_offset_seconds("Last24Hours"), 86400);
    assert_eq!(period_offset_seconds("Last7Days"), 604800);
    assert_eq!(period_offset_seconds("Last30Days"), 2592000);
    assert_eq!(period_offset_seconds("Last3Months"), 7776000);
    assert_eq!(period_offset_seconds("Last6Months"), 15552000);
    assert_eq!(period_offset_seconds("Last12Months"), 31536000);
}

#[test]
fn unknown_period_names_map_to_zero() {
    assert_eq!(period_offset_seconds(""), 0);
    assert_eq!(period_offset_seconds("LastCentury"), 0);
    assert_eq!(period_offset_seconds("last24hours"), 0);
    assert_eq!(period_offset_seconds("AllTime"), 0);
}

#[test]
fn all_time_plans_no_start_lookup() {
    assert!(plan_block_queries(0, "AllTime").start_timestamp.is_none());
    assert!(plan_block_queries(1_700_000_000, "AllTime").start_timestamp.is_none());
    assert!(plan_block_queries(123_456_789, "AllTime").start_timestamp.is_none());
}

#[test]
fn plan_subtracts_the_period_offset() {
    let plan = plan_block_queries(1_700_000_000, "Last24Hours");
    assert_eq!(plan.end_timestamp, 1_700_000_000);
    assert_eq!(plan.start_timestamp, Some(1_700_000_000 - 86400));

    let plan = plan_block_queries(1_700_000_000, "Last12Months");
    assert_eq!(plan.start_timestamp, Some(1_700_000_000 - 31536000));

    let plan = plan_block_queries(1_700_000_000, "SomethingElse");
    assert_eq!(plan.start_timestamp, Some(1_700_000_000));
}

#[test]
fn numerals_parse_exactly() {
    assert_eq!(parse_u32_numeral("0"), Some(0));
    assert_eq!(parse_u32_numeral("123"), Some(123));
    assert_eq!(parse_u32_numeral("4294967295"), Some(u32::MAX));
    assert_eq!(parse_u32_numeral("4294967296"), None);
    assert_eq!(parse_u32_numeral(""), None);
    assert_eq!(parse_u32_numeral("12a"), None);
    assert_eq!(parse_u32_numeral("-5"), None);
    assert_eq!(parse_u32_numeral(" 5"), None);
}

#[test]
fn non_numeric_block_reply_is_an_error_not_a_crash() {
    assert_eq!(parse_block_number("not-a-number"), Err(GasError::InvalidBlockNumber));
    assert_eq!(parse_block_number("Max rate limit reached"), Err(GasError::InvalidBlockNumber));
    assert_eq!(parse_block_number("18000000"), Ok(18000000));
}

#[test]
fn block_range_resolves_both_replies() {
    let range = resolve_block_range("200", Some("100")).unwrap();
    assert_eq!(range.start_block, 100);
    assert_eq!(range.end_block, 200);
}

#[test]
fn all_time_range_starts_at_block_zero() {
    let range = resolve_block_range("18000000", None).unwrap();
    assert_eq!(range.start_block, 0);
    assert_eq!(range.end_block, 18000000);
}

#[test]
fn bad_block_replies_are_rejected() {
    assert!(resolve_block_range("oops", None).is_err());
    assert!(resolve_block_range("200", Some("oops")).is_err());
}

#[test]
fn aggregation_sums_matching_transactions_case_insensitively() {
    let txs = vec![tx("0xabc", "21000"), tx("0xabc", "50000"), tx("0xdef", "99999")];
    assert_eq!(aggregate_gas("0xABC", &txs), Ok(71000));
}

#[test]
fn aggregation_excludes_other_senders() {
    let txs = vec![tx("0xdef", "21000"), tx("0xdef", "50000")];
    assert_eq!(aggregate_gas("0xabc", &txs), Ok(0));
}

#[test]
fn aggregation_of_no_transactions_is_zero() {
    let txs: Vec<TxRecord> = Vec::new();
    assert_eq!(aggregate_gas("0xabc", &txs), Ok(0));
}

#[test]
fn aggregation_is_order_independent() {
    let a = vec![tx("0xabc", "21000"), tx("0xDEF", "7"), tx("0xAbC", "50000")];
    let b = vec![tx("0xAbC", "50000"), tx("0xabc", "21000"), tx("0xDEF", "7")];
    assert_eq!(aggregate_gas("0xABC", &a), aggregate_gas("0xABC", &b));
    assert_eq!(aggregate_gas("0xABC", &a), Ok(71000));
}

#[test]
fn malformed_gas_on_a_matching_transaction_is_an_error() {
    let txs = vec![tx("0xabc", "21000"), tx("0xABC", "lots")];
    assert_eq!(aggregate_gas("0xabc", &txs), Err(GasError::InvalidGasValue));
}

#[test]
fn malformed_gas_on_another_sender_is_ignored() {
    let txs = vec![tx("0xabc", "21000"), tx("0xdef", "lots")];
    assert_eq!(aggregate_gas("0xabc", &txs), Ok(21000));
}

#[test]
fn overflowing_total_is_an_error() {
    let txs = vec![tx("0xabc", "4294967295"), tx("0xabc", "1")];
    assert_eq!(aggregate_gas("0xabc", &txs), Err(GasError::GasOverflow));
}

#[test]
fn calculation_round_trip_with_synthetic_upstream() {
    // A request made at a known time, with synthetic upstream replies.
    let req = CalculationRequest {
        address: String::from("0xABC"),
        time_period: String::from("Last24Hours"),
    };
    let now: i64 = 1_700_000_000;

    let plan = plan_block_queries(now, req.time_period.as_str());
    assert_eq!(plan.end_timestamp, now);
    assert_eq!(plan.start_timestamp, Some(now - 86400));

    // The upstream maps each queried timestamp to a block-number reply.
    let end_reply = "18000000";
    let start_reply = if plan.start_timestamp.is_some() { Some("17993000") } else { None };
    let range = resolve_block_range(end_reply, start_reply).unwrap();
    assert_eq!(range.start_block, 17993000);
    assert_eq!(range.end_block, 18000000);

    // The upstream returns three transactions in the range; two match.
    let txs = vec![tx("0xabc", "21000"), tx("0xabc", "50000"), tx("0xdef", "99999")];
    let reply = gas_for_transactions(&req, &txs).unwrap();
    assert_eq!(reply.gas_used, 71000);
}

#[test]
fn all_time_round_trip_uses_block_zero() {
    let req = CalculationRequest {
        address: String::from("0xABC"),
        time_period: String::from("AllTime"),
    };
    let plan = plan_block_queries(1_700_000_000, req.time_period.as_str());
    assert!(plan.start_timestamp.is_none());
    let range = resolve_block_range("18000000", None).unwrap();
    assert_eq!(range.start_block, 0);
    let txs = vec![tx("0xAbC", "300")];
    let reply = gas_for_transactions(&req, &txs).unwrap();
    assert_eq!(reply.gas_used, 300);
}
