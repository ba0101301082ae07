//! The abstract model of block processing: how one input, one transaction
//! and one block transform the store's mapping and the log of emitted spend
//! records. The executable controller is proved to follow these functions
//! step by step, and the laws at the end of this module are stated over
//! them.

use vstd::prelude::*;

use crate::block::{OutPoint, Transaction, TxOutput, COINBASE_INDEX};
use crate::fees::fee_rate_of;
use crate::lines::SpendRecord;
use crate::store::Utxo;

verus! {

/// All creation heights stored in the mapping are at most `h`.
pub open spec fn heights_at_most(m: Map<OutPoint, Utxo>, h: u64) -> bool {
    forall|op: OutPoint| #[trigger] m.contains_key(op) ==> m[op].height <= h
}

/// Processing one input at `height` with the transaction's `fee_rate`: a
/// coinbase input is skipped entirely; a reference found in the store emits
/// one spend record and leaves the store; an unknown reference is skipped
/// silently.
pub open spec fn step_input(
    m: Map<OutPoint, Utxo>,
    log: Seq<SpendRecord>,
    height: u64,
    fee_rate: u64,
    op: OutPoint,
) -> (Map<OutPoint, Utxo>, Seq<SpendRecord>) {
    if op.index == COINBASE_INDEX {
        (m, log)
    } else if m.contains_key(op) {
        let utxo = m[op];
        (
            m.remove(op),
            log.push(
                SpendRecord {
                    height,
                    coin_age: (height - utxo.height) as u64,
                    fee_rate,
                    value: utxo.value,
                },
            ),
        )
    } else {
        (m, log)
    }
}

/// Processing a transaction's inputs in declaration order.
pub open spec fn step_inputs(
    m: Map<OutPoint, Utxo>,
    log: Seq<SpendRecord>,
    height: u64,
    fee_rate: u64,
    ins: Seq<OutPoint>,
) -> (Map<OutPoint, Utxo>, Seq<SpendRecord>)
    decreases ins.len(),
{
    if ins.len() == 0 {
        (m, log)
    } else {
        let (m1, l1) = step_inputs(m, log, height, fee_rate, ins.drop_last());
        step_input(m1, l1, height, fee_rate, ins.last())
    }
}

/// Inserting a transaction's outputs: position `i` in the output list is
/// stored under the reference (transaction id, `i`) with creation height
/// `height`.
pub open spec fn insert_outputs(
    m: Map<OutPoint, Utxo>,
    txid: [u8; 32],
    outs: Seq<TxOutput>,
    height: u64,
) -> Map<OutPoint, Utxo>
    decreases outs.len(),
{
    if outs.len() == 0 {
        m
    } else {
        insert_outputs(m, txid, outs.drop_last(), height).insert(
            OutPoint { txid, index: (outs.len() - 1) as u32 },
            Utxo { value: outs.last().value, height },
        )
    }
}

/// Processing one transaction: the fee rate is fixed from the store as it
/// stands when the transaction is reached, the inputs are consumed, then
/// the outputs are inserted.
pub open spec fn step_tx(
    m: Map<OutPoint, Utxo>,
    log: Seq<SpendRecord>,
    height: u64,
    tx: Transaction,
) -> (Map<OutPoint, Utxo>, Seq<SpendRecord>) {
    let fee_rate = fee_rate_of(m, tx);
    let (m1, l1) = step_inputs(m, log, height, fee_rate, tx.inputs@);
    (insert_outputs(m1, tx.txid, tx.outputs@, height), l1)
}

/// Processing a block's transactions in order.
pub open spec fn step_txs(
    m: Map<OutPoint, Utxo>,
    log: Seq<SpendRecord>,
    height: u64,
    txs: Seq<Transaction>,
) -> (Map<OutPoint, Utxo>, Seq<SpendRecord>)
    decreases txs.len(),
{
    if txs.len() == 0 {
        (m, log)
    } else {
        let (m1, l1) = step_txs(m, log, height, txs.drop_last());
        step_tx(m1, l1, height, txs.last())
    }
}

/// The store's mapping after one block.
pub open spec fn block_store(
    m: Map<OutPoint, Utxo>,
    txs: Seq<Transaction>,
    height: u64,
) -> Map<OutPoint, Utxo> {
    step_txs(m, Seq::empty(), height, txs).0
}

/// The spend records one block emits, in discovery order.
pub open spec fn block_records(
    m: Map<OutPoint, Utxo>,
    txs: Seq<Transaction>,
    height: u64,
) -> Seq<SpendRecord> {
    step_txs(m, Seq::empty(), height, txs).1
}

/// Unfolding step for a prefix of a transaction's inputs.
pub proof fn lemma_step_inputs_take(
    m: Map<OutPoint, Utxo>,
    log: Seq<SpendRecord>,
    height: u64,
    fee_rate: u64,
    ins: Seq<OutPoint>,
    i: int,
)
    requires
        0 <= i < ins.len(),
    ensures
        step_inputs(m, log, height, fee_rate, ins.take(i + 1)) == ({
            let (m1, l1) = step_inputs(m, log, height, fee_rate, ins.take(i));
            step_input(m1, l1, height, fee_rate, ins[i])
        }),
{
    assert(ins.take(i + 1).drop_last() =~= ins.take(i));
    assert(ins.take(i + 1).last() == ins[i]);
}

/// Unfolding step for a prefix of a transaction's outputs.
pub proof fn lemma_insert_outputs_take(
    m: Map<OutPoint, Utxo>,
    txid: [u8; 32],
    outs: Seq<TxOutput>,
    height: u64,
    i: int,
)
    requires
        0 <= i < outs.len() <= COINBASE_INDEX,
    ensures
        insert_outputs(m, txid, outs.take(i + 1), height) == insert_outputs(
            m,
            txid,
            outs.take(i),
            height,
        ).insert(
            OutPoint { txid, index: i as u32 },
            Utxo { value: outs[i].value, height },
        ),
{
    assert(outs.take(i + 1).drop_last() =~= outs.take(i));
    assert(outs.take(i + 1).last() == outs[i]);
    assert((outs.take(i + 1).len() - 1) as u32 == i as u32);
}

/// Unfolding step for a prefix of a block's transactions.
pub proof fn lemma_step_txs_take(
    m: Map<OutPoint, Utxo>,
    log: Seq<SpendRecord>,
    height: u64,
    txs: Seq<Transaction>,
    i: int,
)
    requires
        0 <= i < txs.len(),
    ensures
        step_txs(m, log, height, txs.take(i + 1)) == ({
            let (m1, l1) = step_txs(m, log, height, txs.take(i));
            step_tx(m1, l1, height, txs[i])
        }),
{
    assert(txs.take(i + 1).drop_last() =~= txs.take(i));
    assert(txs.take(i + 1).last() == txs[i]);
}

/// The records already in the log neither change what the inputs do to the
/// store nor mix with what they emit: the log after the step is the old log
/// followed by the step's own records.
pub proof fn lemma_step_inputs_log(
    m: Map<OutPoint, Utxo>,
    log: Seq<SpendRecord>,
    height: u64,
    fee_rate: u64,
    ins: Seq<OutPoint>,
)
    ensures
        step_inputs(m, log, height, fee_rate, ins).0 == step_inputs(
            m,
            Seq::empty(),
            height,
            fee_rate,
            ins,
        ).0,
        step_inputs(m, log, height, fee_rate, ins).1 == log + step_inputs(
            m,
            Seq::empty(),
            height,
            fee_rate,
            ins,
        ).1,
    decreases ins.len(),
{
    if ins.len() == 0 {
        assert(log + Seq::<SpendRecord>::empty() =~= log);
    } else {
        lemma_step_inputs_log(m, log, height, fee_rate, ins.drop_last());
        let (ma, la) = step_inputs(m, log, height, fee_rate, ins.drop_last());
        let (mb, lb) = step_inputs(m, Seq::empty(), height, fee_rate, ins.drop_last());
        assert(ma == mb && la == log + lb);
        let op = ins.last();
        if op.index != COINBASE_INDEX && ma.contains_key(op) {
            let utxo = ma[op];
            let r = SpendRecord {
                height,
                coin_age: (height - utxo.height) as u64,
                fee_rate,
                value: utxo.value,
            };
            assert((log + lb).push(r) =~= log + lb.push(r));
        }
    }
}

/// The same locality for one whole transaction.
pub proof fn lemma_step_tx_log(
    m: Map<OutPoint, Utxo>,
    log: Seq<SpendRecord>,
    height: u64,
    tx: Transaction,
)
    ensures
        step_tx(m, log, height, tx).0 == step_tx(m, Seq::empty(), height, tx).0,
        step_tx(m, log, height, tx).1 == log + step_tx(m, Seq::empty(), height, tx).1,
{
    lemma_step_inputs_log(m, log, height, fee_rate_of(m, tx), tx.inputs@);
}

/// Consuming inputs only removes entries, so a height bound on the store is
/// kept.
proof fn lemma_step_inputs_heights(
    m: Map<OutPoint, Utxo>,
    log: Seq<SpendRecord>,
    height: u64,
    fee_rate: u64,
    ins: Seq<OutPoint>,
    bound: u64,
)
    requires
        heights_at_most(m, bound),
    ensures
        heights_at_most(step_inputs(m, log, height, fee_rate, ins).0, bound),
    decreases ins.len(),
{
    if ins.len() > 0 {
        lemma_step_inputs_heights(m, log, height, fee_rate, ins.drop_last(), bound);
    }
}

/// Inserting outputs created at `height` keeps a height bound of at least
/// `height`.
proof fn lemma_insert_outputs_heights(
    m: Map<OutPoint, Utxo>,
    txid: [u8; 32],
    outs: Seq<TxOutput>,
    height: u64,
    bound: u64,
)
    requires
        heights_at_most(m, bound),
        height <= bound,
    ensures
        heights_at_most(insert_outputs(m, txid, outs, height), bound),
    decreases outs.len(),
{
    if outs.len() > 0 {
        lemma_insert_outputs_heights(m, txid, outs.drop_last(), height, bound);
    }
}

/// Processing a whole block at `height` keeps every stored creation height
/// within a bound of at least `height`. Ascending-height processing
/// therefore always meets the premise under which an emitted record's coin
/// age is the exact, non-negative difference of spend and creation height.
pub proof fn lemma_step_txs_heights(
    m: Map<OutPoint, Utxo>,
    log: Seq<SpendRecord>,
    height: u64,
    txs: Seq<Transaction>,
    bound: u64,
)
    requires
        heights_at_most(m, bound),
        height <= bound,
    ensures
        heights_at_most(step_txs(m, log, height, txs).0, bound),
    decreases txs.len(),
{
    if txs.len() > 0 {
        lemma_step_txs_heights(m, log, height, txs.drop_last(), bound);
        let (m1, l1) = step_txs(m, log, height, txs.drop_last());
        let tx = txs.last();
        lemma_step_inputs_heights(m1, l1, height, fee_rate_of(m1, tx), tx.inputs@, bound);
        lemma_insert_outputs_heights(
            step_inputs(m1, l1, height, fee_rate_of(m1, tx), tx.inputs@).0,
            tx.txid,
            tx.outputs@,
            height,
            bound,
        );
    }
}

/// Law: a non-coinbase input whose referenced output is in the store
/// produces exactly one spend record — carrying the spend height, the
/// transaction's fee rate and the stored value — and the reference is
/// absent from the store immediately afterward.
pub proof fn lemma_spend_removes(
    m: Map<OutPoint, Utxo>,
    log: Seq<SpendRecord>,
    height: u64,
    fee_rate: u64,
    op: OutPoint,
)
    requires
        op.index != COINBASE_INDEX,
        m.contains_key(op),
    ensures
        ({
            let (m1, l1) = step_input(m, log, height, fee_rate, op);
            &&& l1 == log.push(
                SpendRecord {
                    height,
                    coin_age: (height - m[op].height) as u64,
                    fee_rate,
                    value: m[op].value,
                },
            )
            &&& l1.len() == log.len() + 1
            &&& !m1.contains_key(op)
            &&& m1 == m.remove(op)
        }),
{
}

/// Law: a coinbase input never produces a spend record and never touches
/// the store.
pub proof fn lemma_coinbase_skipped(
    m: Map<OutPoint, Utxo>,
    log: Seq<SpendRecord>,
    height: u64,
    fee_rate: u64,
    op: OutPoint,
)
    requires
        op.index == COINBASE_INDEX,
    ensures
        step_input(m, log, height, fee_rate, op) == (m, log),
{
}

/// Law: an input referencing an output the store never observed is skipped
/// silently — no record, no change, no error.
pub proof fn lemma_unknown_reference_skipped(
    m: Map<OutPoint, Utxo>,
    log: Seq<SpendRecord>,
    height: u64,
    fee_rate: u64,
    op: OutPoint,
)
    requires
        !m.contains_key(op),
    ensures
        step_input(m, log, height, fee_rate, op) == (m, log),
{
}

/// Law: when every stored creation height is at most the spend height, the
/// emitted record's coin age is exactly the spend height minus the
/// referenced output's creation height, a non-negative difference.
pub proof fn lemma_coin_age_exact(
    m: Map<OutPoint, Utxo>,
    log: Seq<SpendRecord>,
    height: u64,
    fee_rate: u64,
    op: OutPoint,
)
    requires
        heights_at_most(m, height),
        op.index != COINBASE_INDEX,
        m.contains_key(op),
    ensures
        ({
            let (m1, l1) = step_input(m, log, height, fee_rate, op);
            &&& l1.last().coin_age as int == height as int - m[op].height as int
            &&& height as int - m[op].height as int >= 0
        }),
{
}

} // verus!
