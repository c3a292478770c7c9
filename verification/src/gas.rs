//! The transaction aggregator: filters a transaction list by sender address
//! (case-insensitively) and sums the gas used by the matching transactions.

use vstd::prelude::*;
use vstd::seq_lib::group_to_multiset_ensures;
use crate::numbers::{
    all_digits, dec_val, is_u32_numeral, lemma_dec_val_nonneg, parse_u32_numeral,
};
use crate::text::{eq_ignore_case, str_eq_ignore_case};

verus! {

/// One transaction as the upstream API reports it, reduced to the two fields
/// the aggregator consumes: the sender address and the gas used, the latter a
/// decimal string.
pub struct TxRecord {
    pub from: String,
    pub gas_used: String,
}

/// The mathematical content of a `TxRecord`.
#[verifier::ext_equal]
pub ghost struct TxView {
    pub from: Seq<char>,
    pub gas_used: Seq<char>,
}

impl View for TxRecord {
    type V = TxView;

    open spec fn view(&self) -> TxView {
        TxView { from: self.from@, gas_used: self.gas_used@ }
    }
}

/// The views of a list of transaction records.
pub open spec fn views_of(txs: Seq<TxRecord>) -> Seq<TxView> {
    txs.map_values(|t: TxRecord| t@)
}

/// Whether a transaction was sent from `addr`, compared case-insensitively.
pub open spec fn tx_matches(t: TxView, addr: Seq<char>) -> bool {
    eq_ignore_case(t.from, addr)
}

/// What a transaction adds to the total: its gas value if it matches the
/// address, nothing otherwise.
pub open spec fn tx_contribution(t: TxView, addr: Seq<char>) -> int {
    if tx_matches(t, addr) {
        dec_val(t.gas_used)
    } else {
        0
    }
}

/// The summed gas of the transactions sent from `addr`.
pub open spec fn gas_sum(txs: Seq<TxView>, addr: Seq<char>) -> int
    decreases txs.len(),
{
    if txs.len() == 0 {
        0
    } else {
        gas_sum(txs.drop_last(), addr) + tx_contribution(txs.last(), addr)
    }
}

/// Whether every matching transaction carries a well-formed gas value.
pub open spec fn gas_values_ok(txs: Seq<TxView>, addr: Seq<char>) -> bool {
    forall|i: int|
        0 <= i < txs.len() ==> (tx_matches(#[trigger] txs[i], addr) ==> is_u32_numeral(
            txs[i].gas_used,
        ))
}

/// Errors of the calculation pipeline.
#[derive(Clone, Copy, Debug, PartialEq, Eq, Structural)]
pub enum GasError {
    /// An upstream block-number reply was not an in-range decimal numeral.
    InvalidBlockNumber,
    /// A matching transaction's gas value was not an in-range decimal numeral.
    InvalidGasValue,
    /// The summed gas does not fit an unsigned 32-bit total.
    GasOverflow,
}

/// A matching transaction with a well-formed gas value contributes its
/// non-negative gas; any other contributes zero.
pub proof fn lemma_contribution_nonneg(t: TxView, addr: Seq<char>)
    requires
        tx_matches(t, addr) ==> is_u32_numeral(t.gas_used),
    ensures
        0 <= tx_contribution(t, addr),
        tx_contribution(t, addr) <= u32::MAX,
{
    if tx_matches(t, addr) {
        lemma_dec_val_nonneg(t.gas_used);
    }
}

/// Summing one more transaction adds its contribution.
pub proof fn lemma_gas_sum_take_step(txs: Seq<TxView>, addr: Seq<char>, i: int)
    requires
        0 <= i < txs.len(),
    ensures
        gas_sum(txs.take(i + 1), addr) == gas_sum(txs.take(i), addr) + tx_contribution(
            txs[i],
            addr,
        ),
{
    assert(txs.take(i + 1).drop_last() =~= txs.take(i));
    assert(txs.take(i + 1).last() == txs[i]);
}

/// When every matching gas value is well formed, a prefix never sums to more
/// than the whole list.
pub proof fn lemma_gas_sum_prefix_le(txs: Seq<TxView>, addr: Seq<char>, i: int)
    requires
        gas_values_ok(txs, addr),
        0 <= i <= txs.len(),
    ensures
        gas_sum(txs.take(i), addr) <= gas_sum(txs, addr),
    decreases txs.len() - i,
{
    if i == txs.len() {
        assert(txs.take(i) =~= txs);
    } else {
        lemma_gas_sum_take_step(txs, addr, i);
        lemma_contribution_nonneg(txs[i], addr);
        lemma_gas_sum_prefix_le(txs, addr, i + 1);
    }
}

/// Removing a transaction removes exactly its contribution from the sum.
pub proof fn lemma_gas_sum_remove(txs: Seq<TxView>, addr: Seq<char>, i: int)
    requires
        0 <= i < txs.len(),
    ensures
        gas_sum(txs.remove(i), addr) == gas_sum(txs, addr) - tx_contribution(txs[i], addr),
    decreases txs.len(),
{
    if i == txs.len() - 1 {
        assert(txs.remove(i) =~= txs.drop_last());
    } else {
        assert(txs.remove(i).drop_last() =~= txs.drop_last().remove(i));
        assert(txs.remove(i).last() == txs.last());
        lemma_gas_sum_remove(txs.drop_last(), addr, i);
    }
}

/// Law: aggregation counts exactly the matching transactions. Appending a
/// transaction sent from the requested address (compared case-insensitively)
/// adds its gas value to the total; appending one sent from any other
/// address leaves the total unchanged.
pub proof fn lemma_aggregation_counts_only_matching(s: Seq<TxView>, t: TxView, addr: Seq<char>)
    ensures
        tx_matches(t, addr) ==> gas_sum(s.push(t), addr) == gas_sum(s, addr) + dec_val(
            t.gas_used,
        ),
        !tx_matches(t, addr) ==> gas_sum(s.push(t), addr) == gas_sum(s, addr),
{
    assert(s.push(t).drop_last() =~= s);
    assert(s.push(t).last() == t);
}

/// Law: aggregation is order-independent. Two transaction lists that hold the
/// same transactions, in any order, sum to the same gas total, and one has a
/// malformed matching gas value exactly when the other does.
pub proof fn lemma_aggregation_order_independent(s1: Seq<TxView>, s2: Seq<TxView>, addr: Seq<char>)
    requires
        s1.to_multiset() == s2.to_multiset(),
    ensures
        gas_sum(s1, addr) == gas_sum(s2, addr),
        gas_values_ok(s1, addr) == gas_values_ok(s2, addr),
    decreases s1.len(),
{
    broadcast use group_to_multiset_ensures;

    assert(s1.to_multiset().len() == s1.len());
    assert(s2.to_multiset().len() == s2.len());
    if s1.len() == 0 {
        assert(s2.len() == 0);
    } else {
        let last: int = s1.len() - 1;
        let x = s1[last];
        assert(s1.contains(x));
        assert(s1.to_multiset().count(x) > 0);
        assert(s2.to_multiset().count(x) > 0);
        assert(s2.contains(x));
        let j = choose|j: int| 0 <= j < s2.len() && s2[j] == x;
        assert(s1.remove(last).to_multiset() == s1.to_multiset().remove(x));
        assert(s2.remove(j).to_multiset() == s2.to_multiset().remove(x));
        lemma_aggregation_order_independent(s1.remove(last), s2.remove(j), addr);
        lemma_gas_sum_remove(s1, addr, last);
        lemma_gas_sum_remove(s2, addr, j);
        assert forall|t: TxView| s1.contains(t) <==> s2.contains(t) by {
            assert(s1.contains(t) <==> s1.to_multiset().count(t) > 0);
            assert(s2.contains(t) <==> s2.to_multiset().count(t) > 0);
        }
        lemma_gas_values_ok_by_contains(s1, s2, addr);
    }
}

/// Two lists with the same elements agree on whether every matching gas value
/// is well formed.
proof fn lemma_gas_values_ok_by_contains(s1: Seq<TxView>, s2: Seq<TxView>, addr: Seq<char>)
    requires
        forall|t: TxView| s1.contains(t) <==> s2.contains(t),
    ensures
        gas_values_ok(s1, addr) == gas_values_ok(s2, addr),
{
    if gas_values_ok(s1, addr) {
        assert forall|i: int|
            0 <= i < s2.len() implies (tx_matches(#[trigger] s2[i], addr) ==> is_u32_numeral(
            s2[i].gas_used,
        )) by {
            assert(s2.contains(s2[i]));
            assert(s1.contains(s2[i]));
            let k = choose|k: int| 0 <= k < s1.len() && s1[k] == s2[i];
            assert(tx_matches(s1[k], addr) ==> is_u32_numeral(s1[k].gas_used));
        }
    }
    if gas_values_ok(s2, addr) {
        assert forall|i: int|
            0 <= i < s1.len() implies (tx_matches(#[trigger] s1[i], addr) ==> is_u32_numeral(
            s1[i].gas_used,
        )) by {
            assert(s1.contains(s1[i]));
            assert(s2.contains(s1[i]));
            let k = choose|k: int| 0 <= k < s2.len() && s2[k] == s1[i];
            assert(tx_matches(s2[k], addr) ==> is_u32_numeral(s2[k].gas_used));
        }
    }
}

/// Sums the gas used by the transactions sent from `address`, compared
/// case-insensitively. Returns the exact sum when every matching gas value is
/// a well-formed numeral and the total fits a `u32`; reports a malformed gas
/// value ahead of an overflowing total.
pub fn aggregate_gas(address: &str, txs: &Vec<TxRecord>) -> (r: Result<u32, GasError>)
    ensures
        r is Ok <==> gas_values_ok(views_of(txs@), address@) && gas_sum(
            views_of(txs@),
            address@,
        ) <= u32::MAX,
        r is Ok ==> r->Ok_0 == gas_sum(views_of(txs@), address@),
        r == Err::<u32, GasError>(GasError::InvalidGasValue) <==> !gas_values_ok(
            views_of(txs@),
            address@,
        ),
        r == Err::<u32, GasError>(GasError::GasOverflow) <==> gas_values_ok(
            views_of(txs@),
            address@,
        ) && gas_sum(views_of(txs@), address@) > u32::MAX,
{
    let ghost vs: Seq<TxView> = views_of(txs@);
    let ghost addr: Seq<char> = address@;
    let n: usize = txs.len();
    let mut i: usize = 0;
    while i < n
        invariant
            0 <= i <= n,
            n == txs.len(),
            vs == views_of(txs@),
            addr == address@,
            vs.len() == n,
            forall|j: int|
                0 <= j < i ==> (tx_matches(#[trigger] vs[j], addr) ==> is_u32_numeral(
                    vs[j].gas_used,
                )),
        decreases n - i,
    {
        let tx: &TxRecord = &txs[i];
        if str_eq_ignore_case(tx.from.as_str(), address) {
            if parse_u32_numeral(tx.gas_used.as_str()).is_none() {
                proof {
                    assert(tx_matches(vs[i as int], addr));
                    assert(!is_u32_numeral(vs[i as int].gas_used));
                }
                return Err(GasError::InvalidGasValue);
            }
        }
        i = i + 1;
    }
    proof {
        assert(gas_values_ok(vs, addr));
    }
    let mut total: u32 = 0;
    i = 0;
    while i < n
        invariant
            0 <= i <= n,
            n == txs.len(),
            vs == views_of(txs@),
            addr == address@,
            vs.len() == n,
            gas_values_ok(vs, addr),
            total == gas_sum(vs.take(i as int), addr),
        decreases n - i,
    {
        let tx: &TxRecord = &txs[i];
        proof {
            lemma_gas_sum_take_step(vs, addr, i as int);
            lemma_contribution_nonneg(vs[i as int], addr);
        }
        if str_eq_ignore_case(tx.from.as_str(), address) {
            let g: u32 = match parse_u32_numeral(tx.gas_used.as_str()) {
                Some(g) => g,
                None => {
                    proof {
                        assert(tx_matches(vs[i as int], addr));
                    }
                    vstd::pervasive::unreached()
                },
            };
            let t: u64 = total as u64 + g as u64;
            if t > u32::MAX as u64 {
                proof {
                    lemma_gas_sum_prefix_le(vs, addr, i + 1);
                }
                return Err(GasError::GasOverflow);
            }
            total = t as u32;
        }
        i = i + 1;
    }
    proof {
        assert(vs.take(i as int) =~= vs);
    }
    Ok(total)
}

} // verus!
