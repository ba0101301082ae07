//! The fee-rate calculator.
//!
//! A transaction's fee is the sum of the values of its inputs' referenced
//! prior outputs, looked up in the store before any of them is removed,
//! minus the sum of its own output values. The fee rate is the fee divided
//! by the transaction's serialized byte length, truncating toward zero. The
//! value is computed once per transaction and repeated in every spend record
//! the transaction produces.

use vstd::prelude::*;

use crate::block::{OutPoint, Transaction, TxOutput};
use crate::store::{Utxo, UtxoStore};

verus! {

/// Sum of the output values of a transaction.
pub open spec fn sum_outputs(outs: Seq<TxOutput>) -> int
    decreases outs.len(),
{
    if outs.len() == 0 {
        0
    } else {
        sum_outputs(outs.drop_last()) + outs.last().value
    }
}

/// What one input contributes to the fee: the stored value of its referenced
/// output, or nothing when the reference is not in the store.
pub open spec fn input_value(m: Map<OutPoint, Utxo>, outpoint: OutPoint) -> int {
    if m.contains_key(outpoint) {
        m[outpoint].value as int
    } else {
        0
    }
}

/// Sum of the looked-up values of a transaction's inputs.
pub open spec fn sum_inputs(m: Map<OutPoint, Utxo>, ins: Seq<OutPoint>) -> int
    decreases ins.len(),
{
    if ins.len() == 0 {
        0
    } else {
        sum_inputs(m, ins.drop_last()) + input_value(m, ins.last())
    }
}

/// The fee rate written into spend records: fee divided by serialized size,
/// truncating. A transaction whose known input value does not cover its
/// output value — possible when referenced outputs were never observed — is
/// treated as paying no fee, and a quotient beyond the record field's range
/// is capped at that range.
pub open spec fn fee_rate_of(m: Map<OutPoint, Utxo>, tx: Transaction) -> u64 {
    let fee = sum_inputs(m, tx.inputs@) - sum_outputs(tx.outputs@);
    if fee < 0 {
        0u64
    } else if fee / (tx.size as int) > u64::MAX {
        u64::MAX
    } else {
        (fee / (tx.size as int)) as u64
    }
}

/// Sums the output values of a transaction.
fn output_value_sum(tx: &Transaction) -> (r: u128)
    ensures
        r == sum_outputs(tx.outputs@),
{
    let mut total: u128 = 0;
    let mut i: usize = 0;
    while i < tx.outputs.len()
        invariant
            0 <= i <= tx.outputs@.len(),
            total == sum_outputs(tx.outputs@.take(i as int)),
            total <= (i as int) * (u64::MAX as int),
        decreases tx.outputs@.len() - i,
    {
        proof {
            assert(tx.outputs@.take(i + 1).drop_last() =~= tx.outputs@.take(i as int));
            assert(tx.outputs@.take(i + 1).last() == tx.outputs@[i as int]);
        }
        total = total + (tx.outputs[i].value as u128);
        i += 1;
    }
    proof {
        assert(tx.outputs@.take(tx.outputs@.len() as int) =~= tx.outputs@);
    }
    total
}

/// Sums the looked-up values of a transaction's inputs against the store.
fn input_value_sum(store: &UtxoStore, tx: &Transaction) -> (r: u128)
    requires
        store.wf(),
    ensures
        r == sum_inputs(store@, tx.inputs@),
{
    let mut total: u128 = 0;
    let mut i: usize = 0;
    while i < tx.inputs.len()
        invariant
            store.wf(),
            0 <= i <= tx.inputs@.len(),
            total == sum_inputs(store@, tx.inputs@.take(i as int)),
            total <= (i as int) * (u64::MAX as int),
        decreases tx.inputs@.len() - i,
    {
        proof {
            assert(tx.inputs@.take(i + 1).drop_last() =~= tx.inputs@.take(i as int));
            assert(tx.inputs@.take(i + 1).last() == tx.inputs@[i as int]);
        }
        match store.lookup(&tx.inputs[i]) {
            Some(utxo) => {
                total = total + (utxo.value as u128);
            },
            None => {
            },
        }
        i += 1;
    }
    proof {
        assert(tx.inputs@.take(tx.inputs@.len() as int) =~= tx.inputs@);
    }
    total
}

/// Derives the transaction's fee rate from the store's current contents.
pub fn fee_rate(store: &UtxoStore, tx: &Transaction) -> (r: u64)
    requires
        store.wf(),
        tx.wf(),
    ensures
        r == fee_rate_of(store@, *tx),
{
    let inputs = input_value_sum(store, tx);
    let outputs = output_value_sum(tx);
    if inputs < outputs {
        0
    } else {
        let quotient = (inputs - outputs) / (tx.size as u128);
        if quotient > u64::MAX as u128 {
            u64::MAX
        } else {
            quotient as u64
        }
    }
}

} // verus!
