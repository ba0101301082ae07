//! The chain data consumed by the aggregator: output references,
//! transactions and blocks, with their well-formedness conditions.

use vstd::prelude::*;

verus! {

broadcast use vstd::array::group_array_axioms;

/// The reserved output index that marks a coinbase input; such an input
/// never references a real prior output.
pub const COINBASE_INDEX: u32 = 0xFFFF_FFFF;

/// A reference to one specific transaction output: the id of the
/// transaction that created it and the output's position in that
/// transaction's output list.
#[derive(Clone, Copy, Debug)]
pub struct OutPoint {
    /// Fixed-size hash identifying the creating transaction.
    pub txid: [u8; 32],
    /// Position of the output within the creating transaction.
    pub index: u32,
}

impl OutPoint {
    /// Whether this reference is the coinbase sentinel.
    pub open spec fn spec_is_coinbase(self) -> bool {
        self.index == COINBASE_INDEX
    }

    /// Coinbase inputs carry the reserved index and are skipped entirely.
    pub fn is_coinbase(&self) -> (r: bool)
        ensures
            r == self.spec_is_coinbase(),
    {
        self.index == COINBASE_INDEX
    }

    /// Whether two references point at the same output.
    pub fn same_as(&self, other: &OutPoint) -> (r: bool)
        ensures
            r == (*self == *other),
    {
        if self.index != other.index {
            return false;
        }
        let mut i: usize = 0;
        while i < 32
            invariant
                0 <= i <= 32,
                self.index == other.index,
                forall|j: int| 0 <= j < i ==> self.txid@[j] == other.txid@[j],
            decreases 32 - i,
        {
            if self.txid[i] != other.txid[i] {
                assert(self.txid@[i as int] != other.txid@[i as int]);
                assert(self.txid != other.txid);
                return false;
            }
            i += 1;
        }
        proof {
            assert(self.txid =~= other.txid);
        }
        true
    }
}

/// One output carried by a transaction: the amount it locks up.
#[derive(Clone, Copy, Debug)]
pub struct TxOutput {
    /// Unsigned 64-bit amount.
    pub value: u64,
}

/// One transaction: its id, the references its inputs consume, the outputs
/// it creates, and its serialized byte length.
pub struct Transaction {
    /// Fixed-size hash identifying this transaction.
    pub txid: [u8; 32],
    /// The output references consumed, in declaration order.
    pub inputs: Vec<OutPoint>,
    /// The outputs created, in declaration order.
    pub outputs: Vec<TxOutput>,
    /// Serialized byte length of the transaction.
    pub size: u64,
}

impl Transaction {
    /// A transaction's serialization is never empty, and output positions
    /// must be expressible as 32-bit indices below the coinbase sentinel.
    pub open spec fn wf(self) -> bool {
        &&& self.size >= 1
        &&& self.outputs@.len() <= COINBASE_INDEX
    }
}

/// One block: its transactions in order. The height is supplied by the
/// driver alongside the block.
pub struct Block {
    /// The block's transactions, in order.
    pub txs: Vec<Transaction>,
}

impl Block {
    /// Every transaction of the block is well formed.
    pub open spec fn wf(self) -> bool {
        forall|i: int| 0 <= i < self.txs@.len() ==> (#[trigger] self.txs@[i]).wf()
    }
}

} // verus!
