//! The lifecycle controller.
//!
//! The external driver delivers a start call, one call per block in strictly
//! ascending height order, and a completion call. The controller owns the
//! UTXO set store and the running counters, emits the spend log lines for
//! each block, and reports the accumulated totals at completion. The caller
//! appends the returned bytes to the working file and renames it to the
//! final name only after completion succeeds.

use vstd::prelude::*;

use crate::block::{Block, OutPoint, Transaction};
use crate::fees::fee_rate;
use crate::lines::{lemma_spec_lines_concat, lemma_spec_lines_push, push_line, spec_lines,
    SpendRecord};
use crate::steps::{block_records, block_store, heights_at_most, insert_outputs,
    lemma_insert_outputs_take, lemma_step_inputs_take, lemma_step_tx_log, lemma_step_txs_take,
    step_inputs, step_tx, step_txs};
use crate::store::{Utxo, UtxoStore};

verus! {

/// The controller's lifecycle. Failures abort the run instead of reaching a
/// state of their own.
#[derive(Clone, Copy, Debug, PartialEq, Eq, Structural)]
pub enum Phase {
    /// Constructed, stream not yet started.
    Idle,
    /// The stream has started; no block processed yet.
    Started,
    /// At least one block has been processed.
    Running,
    /// The stream has ended and the log may be finalized.
    Completed,
}

/// The totals reported when the stream completes.
#[derive(Clone, Copy, Debug, PartialEq, Eq, Structural)]
pub struct RunSummary {
    /// The height reported by the driver at completion.
    pub final_height: u64,
    /// Blocks processed.
    pub blocks: u64,
    /// Transactions processed.
    pub transactions: u64,
    /// Transaction inputs seen.
    pub inputs: u64,
    /// Transaction outputs seen.
    pub outputs: u64,
}

/// The controller's abstract state: its phase, the recorded heights, the
/// store's mapping, the log of every spend record emitted so far, and the
/// running counters.
pub struct DumpView {
    /// Current lifecycle phase.
    pub phase: Phase,
    /// Height recorded when the stream started.
    pub start_height: u64,
    /// Height recorded when the stream completed.
    pub end_height: u64,
    /// The least height the next delivered block may have.
    pub next_height: u64,
    /// The store's mapping from output reference to value and creation
    /// height.
    pub store: Map<OutPoint, Utxo>,
    /// Every spend record emitted so far, in discovery order.
    pub log: Seq<SpendRecord>,
    /// Blocks processed.
    pub block_count: u64,
    /// Transactions processed.
    pub tx_count: u64,
    /// Transaction inputs seen.
    pub in_count: u64,
    /// Transaction outputs seen.
    pub out_count: u64,
}

/// Counter addition: the running totals stick at the top of their range
/// instead of wrapping.
pub open spec fn sat_add_u64(a: u64, n: int) -> u64 {
    if a + n > u64::MAX {
        u64::MAX
    } else {
        (a + n) as u64
    }
}

/// Inputs carried by a sequence of transactions.
pub open spec fn total_inputs(txs: Seq<Transaction>) -> int
    decreases txs.len(),
{
    if txs.len() == 0 {
        0
    } else {
        total_inputs(txs.drop_last()) + txs.last().inputs@.len()
    }
}

/// Outputs carried by a sequence of transactions.
pub open spec fn total_outputs(txs: Seq<Transaction>) -> int
    decreases txs.len(),
{
    if txs.len() == 0 {
        0
    } else {
        total_outputs(txs.drop_last()) + txs.last().outputs@.len()
    }
}

/// A transaction count is never negative.
proof fn lemma_total_inputs_nonneg(txs: Seq<Transaction>)
    ensures
        total_inputs(txs) >= 0,
    decreases txs.len(),
{
    if txs.len() > 0 {
        lemma_total_inputs_nonneg(txs.drop_last());
    }
}

/// An output count is never negative.
proof fn lemma_total_outputs_nonneg(txs: Seq<Transaction>)
    ensures
        total_outputs(txs) >= 0,
    decreases txs.len(),
{
    if txs.len() > 0 {
        lemma_total_outputs_nonneg(txs.drop_last());
    }
}

/// The state of a freshly constructed controller: idle, with an empty store
/// and an empty log.
pub open spec fn init_view() -> DumpView {
    DumpView {
        phase: Phase::Idle,
        start_height: 0,
        end_height: 0,
        next_height: 0,
        store: Map::empty(),
        log: Seq::empty(),
        block_count: 0,
        tx_count: 0,
        in_count: 0,
        out_count: 0,
    }
}

/// Starting the stream records the start height; the store stays as loaded
/// (empty, since resuming is not implemented).
pub open spec fn spec_on_start(v: DumpView, start_height: u64) -> DumpView {
    DumpView { phase: Phase::Started, start_height, next_height: start_height, ..v }
}

/// Processing one block: the store and the log advance by the block's
/// transactions, the counters accumulate, and the next block must be
/// strictly higher.
pub open spec fn spec_on_block(v: DumpView, txs: Seq<Transaction>, height: u64) -> DumpView {
    DumpView {
        phase: Phase::Running,
        next_height: (height + 1) as u64,
        store: block_store(v.store, txs, height),
        log: v.log + block_records(v.store, txs, height),
        block_count: sat_add_u64(v.block_count, 1),
        tx_count: sat_add_u64(v.tx_count, txs.len() as int),
        in_count: sat_add_u64(v.in_count, total_inputs(txs)),
        out_count: sat_add_u64(v.out_count, total_outputs(txs)),
        ..v
    }
}

/// Completing the stream records the final height and reaches the phase in
/// which the log may be finalized.
pub open spec fn spec_on_complete(v: DumpView, final_height: u64) -> DumpView {
    DumpView { phase: Phase::Completed, end_height: final_height, ..v }
}

/// Every creation height in the store lies below the next acceptable block
/// height, so a spend at any accepted height yields a non-negative coin
/// age.
pub open spec fn store_heights_ok(v: DumpView) -> bool {
    forall|op: OutPoint| #[trigger] v.store.contains_key(op) ==> v.store[op].height
        < v.next_height
}

/// The lifecycle controller: dumps the spent transaction outputs as log
/// lines while maintaining the UTXO set.
pub struct TXODump {
    phase: Phase,
    start_height: u64,
    end_height: u64,
    next_height: u64,
    utxo_set: UtxoStore,
    block_count: u64,
    tx_count: u64,
    in_count: u64,
    out_count: u64,
    emitted: Ghost<Seq<SpendRecord>>,
}

impl View for TXODump {
    type V = DumpView;

    closed spec fn view(&self) -> DumpView {
        DumpView {
            phase: self.phase,
            start_height: self.start_height,
            end_height: self.end_height,
            next_height: self.next_height,
            store: self.utxo_set@,
            log: self.emitted@,
            block_count: self.block_count,
            tx_count: self.tx_count,
            in_count: self.in_count,
            out_count: self.out_count,
        }
    }
}

/// Processes one transaction against the store: fixes the fee rate, consumes
/// the inputs, appending one log line per spend, then inserts the outputs.
/// Returns the spend records the transaction emitted.
fn apply_tx(store: &mut UtxoStore, height: u64, tx: &Transaction, lines: &mut Vec<u8>) -> (recs:
    Ghost<Seq<SpendRecord>>)
    requires
        old(store).wf(),
        tx.wf(),
        heights_at_most(old(store)@, height),
    ensures
        final(store).wf(),
        heights_at_most(final(store)@, height),
        ({
            let (m1, l1) = step_tx(old(store)@, Seq::empty(), height, *tx);
            final(store)@ == m1 && recs@ == l1
        }),
        final(lines)@ == old(lines)@ + spec_lines(recs@),
{
    let fr = fee_rate(store, tx);
    let ghost m0 = store@;
    let ghost mut recs: Seq<SpendRecord> = Seq::empty();
    let mut i: usize = 0;
    proof {
        assert(lines@ =~= old(lines)@ + spec_lines(recs));
    }
    while i < tx.inputs.len()
        invariant
            store.wf(),
            heights_at_most(store@, height),
            0 <= i <= tx.inputs@.len(),
            (store@, recs) == step_inputs(m0, Seq::empty(), height, fr, tx.inputs@.take(i as int)),
            lines@ == old(lines)@ + spec_lines(recs),
        decreases tx.inputs@.len() - i,
    {
        proof {
            lemma_step_inputs_take(m0, Seq::empty(), height, fr, tx.inputs@, i as int);
        }
        let op = tx.inputs[i];
        if !op.is_coinbase() {
            match store.remove(&op) {
                Some(utxo) => {
                    let record = SpendRecord {
                        height,
                        coin_age: height - utxo.height,
                        fee_rate: fr,
                        value: utxo.value,
                    };
                    push_line(lines, &record);
                    proof {
                        lemma_spec_lines_push(recs, record);
                        recs = recs.push(record);
                    }
                },
                None => {
                },
            }
        }
        i += 1;
    }
    proof {
        assert(tx.inputs@.take(tx.inputs@.len() as int) =~= tx.inputs@);
    }
    let ghost m1 = store@;
    let mut j: usize = 0;
    while j < tx.outputs.len()
        invariant
            store.wf(),
            heights_at_most(store@, height),
            0 <= j <= tx.outputs@.len(),
            tx.wf(),
            store@ == insert_outputs(m1, tx.txid, tx.outputs@.take(j as int), height),
            lines@ == old(lines)@ + spec_lines(recs),
        decreases tx.outputs@.len() - j,
    {
        proof {
            lemma_insert_outputs_take(m1, tx.txid, tx.outputs@, height, j as int);
        }
        let op = OutPoint { txid: tx.txid, index: j as u32 };
        store.insert(op, tx.outputs[j].value, height);
        j += 1;
    }
    proof {
        assert(tx.outputs@.take(tx.outputs@.len() as int) =~= tx.outputs@);
    }
    Ghost(recs)
}

impl TXODump {
    /// The store's keys are unique; while idle, nothing has been stored or
    /// emitted; and stored creation heights lie below the next acceptable
    /// block height.
    pub closed spec fn wf(self) -> bool {
        &&& self.utxo_set.wf()
        &&& store_heights_ok(self@)
        &&& self@.phase == Phase::Idle ==> self@.store == Map::<OutPoint, Utxo>::empty()
            && self@.log == Seq::<SpendRecord>::empty()
    }

    /// A fresh controller with an empty store and an empty log. The caller
    /// owns the working file the emitted bytes are appended to.
    pub fn new() -> (r: TXODump)
        ensures
            r.wf(),
            r@ == init_view(),
    {
        TXODump {
            phase: Phase::Idle,
            start_height: 0,
            end_height: 0,
            next_height: 0,
            utxo_set: UtxoStore::new(),
            block_count: 0,
            tx_count: 0,
            in_count: 0,
            out_count: 0,
            emitted: Ghost(Seq::empty()),
        }
    }

    /// Placeholder for resuming from a persisted UTXO set. The on-disk
    /// format for resuming is undefined, so this deliberately loads nothing
    /// and reports zero entries; runs always begin from an empty store.
    fn load_utxo_set(&mut self) -> (loaded: u64)
        ensures
            *final(self) == *old(self),
            loaded == 0,
    {
        0
    }

    /// Starts the stream at the given height.
    pub fn on_start(&mut self, start_height: u64)
        requires
            old(self).wf(),
            old(self)@.phase == Phase::Idle,
        ensures
            final(self).wf(),
            final(self)@ == spec_on_start(old(self)@, start_height),
    {
        self.start_height = start_height;
        self.next_height = start_height;
        self.phase = Phase::Started;
        let _loaded: u64 = self.load_utxo_set();
    }

    /// Processes one delivered block, returning the log lines its spends
    /// produced, in discovery order. Heights must arrive strictly
    /// increasing, starting no lower than the recorded start height.
    pub fn on_block(&mut self, block: &Block, height: u64) -> (lines: Vec<u8>)
        requires
            old(self).wf(),
            old(self)@.phase == Phase::Started || old(self)@.phase == Phase::Running,
            block.wf(),
            height >= old(self)@.next_height,
            height < u64::MAX,
        ensures
            final(self).wf(),
            final(self)@ == spec_on_block(old(self)@, block.txs@, height),
            lines@ == spec_lines(block_records(old(self)@.store, block.txs@, height)),
    {
        let mut lines: Vec<u8> = Vec::new();
        let ghost m0 = self.utxo_set@;
        let ghost mut recs: Seq<SpendRecord> = Seq::empty();
        proof {
            assert(heights_at_most(self.utxo_set@, height));
        }
        let mut t: usize = 0;
        while t < block.txs.len()
            invariant
                self.utxo_set.wf(),
                heights_at_most(self.utxo_set@, height),
                0 <= t <= block.txs@.len(),
                block.wf(),
                (self.utxo_set@, recs) == step_txs(
                    m0,
                    Seq::empty(),
                    height,
                    block.txs@.take(t as int),
                ),
                lines@ == spec_lines(recs),
                self.in_count == sat_add_u64(
                    old(self)@.in_count,
                    total_inputs(block.txs@.take(t as int)),
                ),
                self.out_count == sat_add_u64(
                    old(self)@.out_count,
                    total_outputs(block.txs@.take(t as int)),
                ),
                self.phase == old(self)@.phase,
                self.start_height == old(self)@.start_height,
                self.end_height == old(self)@.end_height,
                self.next_height == old(self)@.next_height,
                self.block_count == old(self)@.block_count,
                self.tx_count == old(self)@.tx_count,
                self.emitted@ == old(self)@.log,
            decreases block.txs@.len() - t,
        {
            proof {
                lemma_step_txs_take(m0, Seq::empty(), height, block.txs@, t as int);
                assert(block.txs@.take(t + 1).drop_last() =~= block.txs@.take(t as int));
                assert(block.txs@.take(t + 1).last() == block.txs@[t as int]);
                lemma_total_inputs_nonneg(block.txs@.take(t as int));
                lemma_total_outputs_nonneg(block.txs@.take(t as int));
            }
            let tx = &block.txs[t];
            self.in_count = self.in_count.saturating_add(tx.inputs.len() as u64);
            self.out_count = self.out_count.saturating_add(tx.outputs.len() as u64);
            let ghost recs_before = recs;
            let new_recs = apply_tx(&mut self.utxo_set, height, tx, &mut lines);
            proof {
                lemma_step_tx_log(
                    step_txs(m0, Seq::empty(), height, block.txs@.take(t as int)).0,
                    recs_before,
                    height,
                    *tx,
                );
                recs = recs_before + new_recs@;
                lemma_spec_lines_concat(recs_before, new_recs@);
            }
            t += 1;
        }
        proof {
            assert(block.txs@.take(block.txs@.len() as int) =~= block.txs@);
        }
        self.tx_count = self.tx_count.saturating_add(block.txs.len() as u64);
        self.block_count = self.block_count.saturating_add(1);
        self.phase = Phase::Running;
        self.next_height = height + 1;
        proof {
            self.emitted@ = old(self)@.log + recs;
        }
        lines
    }

    /// Ends the stream: records the final height, reaches the phase in
    /// which the caller may atomically finalize the log file, and reports
    /// the accumulated totals.
    pub fn on_complete(&mut self, final_height: u64) -> (summary: RunSummary)
        requires
            old(self).wf(),
            old(self)@.phase == Phase::Started || old(self)@.phase == Phase::Running,
        ensures
            final(self).wf(),
            final(self)@ == spec_on_complete(old(self)@, final_height),
            final(self)@.phase == Phase::Completed,
            summary == (RunSummary {
                final_height,
                blocks: old(self)@.block_count,
                transactions: old(self)@.tx_count,
                inputs: old(self)@.in_count,
                outputs: old(self)@.out_count,
            }),
    {
        self.end_height = final_height;
        self.phase = Phase::Completed;
        RunSummary {
            final_height,
            blocks: self.block_count,
            transactions: self.tx_count,
            inputs: self.in_count,
            outputs: self.out_count,
        }
    }

    /// The controller's current lifecycle phase.
    pub fn current_phase(&self) -> (p: Phase)
        ensures
            p == self@.phase,
    {
        self.phase
    }
}

/// A run over a sequence of blocks, each given as its transactions and its
/// height.
pub open spec fn run_blocks(v: DumpView, blocks: Seq<(Seq<Transaction>, u64)>) -> DumpView
    decreases blocks.len(),
{
    if blocks.len() == 0 {
        v
    } else {
        spec_on_block(run_blocks(v, blocks.drop_last()), blocks.last().0, blocks.last().1)
    }
}

/// Law: block processing is deterministic. A run's outcome is a function of
/// the starting state and the delivered block sequence alone, so re-running
/// the same blocks from an equal (for instance, fresh and empty) state
/// reproduces the identical store, counters and emitted log.
pub proof fn lemma_rerun_reproduces_log(
    v1: DumpView,
    v2: DumpView,
    blocks: Seq<(Seq<Transaction>, u64)>,
)
    requires
        v1 == v2,
    ensures
        run_blocks(v1, blocks) == run_blocks(v2, blocks),
        run_blocks(v1, blocks).log == run_blocks(v2, blocks).log,
{
}

/// Law: the log is append-only. No lifecycle operation rewrites or drops a
/// record already emitted: starting and completing leave the log as it is,
/// and a processed block only appends its own records after it, so each
/// spend record is written exactly once, in discovery order.
pub proof fn lemma_log_append_only(
    v: DumpView,
    txs: Seq<Transaction>,
    start_height: u64,
    height: u64,
    final_height: u64,
)
    ensures
        spec_on_start(v, start_height).log == v.log,
        spec_on_block(v, txs, height).log.take(v.log.len() as int) == v.log,
        spec_on_block(v, txs, height).log == v.log + block_records(v.store, txs, height),
        spec_on_complete(v, final_height).log == v.log,
{
    assert((v.log + block_records(v.store, txs, height)).take(v.log.len() as int) =~= v.log);
}

/// Law: only completion reaches the `Completed` phase. Neither the fresh
/// state, nor starting, nor any processed block yields it, so an
/// interrupted run never looks complete and the caller finalizes the log
/// file only after a completed run.
pub proof fn lemma_completed_only_by_completion(
    v: DumpView,
    txs: Seq<Transaction>,
    start_height: u64,
    height: u64,
    final_height: u64,
)
    ensures
        init_view().phase != Phase::Completed,
        spec_on_start(v, start_height).phase != Phase::Completed,
        spec_on_block(v, txs, height).phase != Phase::Completed,
        spec_on_complete(v, final_height).phase == Phase::Completed,
{
}

} // verus!
