//! The chain store and the block acceptance protocol.

use crate::block::{GorpcoinBlock, Transaction};
use crate::difficulty::{difficulty_function, difficulty_spec};
use crate::prefix::{has_valid_prefix, valid_prefix};
use vstd::prelude::*;

verus! {

broadcast use {
    vstd::std_specs::hash::group_hash_axioms,
    vstd::laws_eq::group_laws_eq,
    vstd::std_specs::vec::lemma_vec_obeys_view_eq,
};

/// Why a candidate block was refused. Either way the chain is left as it was.
#[derive(Clone, Copy, Debug, PartialEq, Eq, Structural)]
pub enum GorpcoinError {
    /// The candidate's hash does not meet the chain's current difficulty level.
    IncorrectDifficulty,
    /// The candidate does not point at the current tip.
    InvalidPreviousHash,
}

pub type GorpcoinResult<T> = Result<T, GorpcoinError>;

/// The previous hash that the first block of a chain must carry: one zero byte.
pub open spec fn genesis_previous_hash() -> Seq<u8> {
    seq![0u8]
}

/// The hash that the next block of `blocks` must point at: the last block's
/// hash, or the genesis sentinel when there is no block.
pub open spec fn tip_hash(blocks: Seq<GorpcoinBlock>) -> Seq<u8> {
    if blocks.len() == 0 {
        genesis_previous_hash()
    } else {
        blocks.last().hash@
    }
}

/// Block `i` of `blocks` was admissible when the chain held the blocks before it.
pub open spec fn accepted_at(blocks: Seq<GorpcoinBlock>, i: int) -> bool {
    &&& valid_prefix(blocks[i].hash@, difficulty_spec(i as nat))
    &&& blocks[i].previous_hash@ == tip_hash(blocks.take(i))
}

/// Every block is linked to its predecessor (the first to the genesis
/// sentinel) and met the difficulty level of the length it was appended at.
pub open spec fn valid_chain(blocks: Seq<GorpcoinBlock>) -> bool {
    forall|i: int| 0 <= i < blocks.len() ==> #[trigger] accepted_at(blocks, i)
}

/// What the inputs `inputs` draw from one block's transactions: the output
/// totals of the records they name, an input counted once per occurrence.
pub open spec fn block_input_total(records: Map<u64, Transaction>, inputs: Seq<u64>) -> int
    decreases inputs.len(),
{
    if inputs.len() == 0 {
        0
    } else {
        block_input_total(records, inputs.drop_last()) + if records.contains_key(inputs.last()) {
            records[inputs.last()].output_total as int
        } else {
            0
        }
    }
}

/// What the inputs `inputs` draw from the whole of `blocks`.
pub open spec fn chain_input_total(blocks: Seq<GorpcoinBlock>, inputs: Seq<u64>) -> int
    decreases blocks.len(),
{
    if blocks.len() == 0 {
        0
    } else {
        chain_input_total(blocks.drop_last(), inputs) + block_input_total(
            blocks.last().data.transactions@,
            inputs,
        )
    }
}

/// On the empty chain the next block must point at the one-byte genesis
/// sentinel and meet difficulty level one.
pub proof fn lemma_empty_chain(blocks: Seq<GorpcoinBlock>)
    requires
        blocks.len() == 0,
    ensures
        tip_hash(blocks) == seq![0u8],
        difficulty_spec(blocks.len()) == 1,
{
}

proof fn lemma_no_records_block(records: Map<u64, Transaction>, inputs: Seq<u64>)
    requires
        records.dom().is_empty(),
    ensures
        block_input_total(records, inputs) == 0,
    decreases inputs.len(),
{
    if inputs.len() > 0 {
        assert(!records.dom().contains(inputs.last()));
        lemma_no_records_block(records, inputs.drop_last());
    }
}

proof fn lemma_no_records_total(blocks: Seq<GorpcoinBlock>, inputs: Seq<u64>)
    requires
        forall|i: int| 0 <= i < blocks.len() ==> (#[trigger] blocks[i]).data.transactions@.dom().is_empty(),
    ensures
        chain_input_total(blocks, inputs) == 0,
    decreases blocks.len(),
{
    if blocks.len() > 0 {
        let rest = blocks.drop_last();
        assert forall|i: int| 0 <= i < rest.len() implies (#[trigger] rest[i]).data.transactions@.dom().is_empty() by {
            assert(rest[i] == blocks[i]);
        }
        lemma_no_records_total(rest, inputs);
        lemma_no_records_block(blocks.last().data.transactions@, inputs);
    }
}

/// When no block of the chain records any transaction, a transaction passes
/// the balance check exactly when its output total is at most zero.
pub proof fn lemma_no_recorded_transactions(blocks: Seq<GorpcoinBlock>, transaction: Transaction)
    requires
        forall|i: int| 0 <= i < blocks.len() ==> (#[trigger] blocks[i]).data.transactions@.dom().is_empty(),
    ensures
        (chain_input_total(blocks, transaction.inputs@) >= transaction.output_total) <==> (
        transaction.output_total <= 0),
{
    lemma_no_records_total(blocks, transaction.inputs@);
}

/// `total` capped at the largest `u64`.
pub open spec fn min_total(total: int) -> int {
    if total > u64::MAX {
        u64::MAX as int
    } else {
        total
    }
}

/// An append-only sequence of blocks, each linked to the one before it.
#[derive(Debug)]
pub struct GorpcoinBlockchain {
    blocks: Vec<GorpcoinBlock>,
}

impl View for GorpcoinBlockchain {
    type V = Seq<GorpcoinBlock>;

    closed spec fn view(&self) -> Seq<GorpcoinBlock> {
        self.blocks@
    }
}

impl GorpcoinBlockchain {
    #[verifier::type_invariant]
    closed spec fn inv(&self) -> bool {
        valid_chain(self.blocks@)
    }

    /// The empty chain.
    pub fn new() -> (r: Self)
        ensures
            r@ == Seq::<GorpcoinBlock>::empty(),
    {
        GorpcoinBlockchain { blocks: Vec::new() }
    }

    /// The blocks, oldest first. They always form a valid chain.
    pub fn blocks(&self) -> (r: &[GorpcoinBlock])
        ensures
            r@ == self@,
            valid_chain(r@),
    {
        proof {
            use_type_invariant(self);
        }
        self.blocks.as_slice()
    }

    /// The number of blocks.
    pub fn len(&self) -> (r: usize)
        ensures
            r == self@.len(),
    {
        self.blocks.len()
    }

    /// The hash the next block must point at.
    pub fn last_hash(&self) -> (r: Vec<u8>)
        ensures
            r@ == tip_hash(self@),
    {
        match self.blocks.last() {
            Some(block) => block.hash.clone(),
            None => {
                let mut sentinel: Vec<u8> = Vec::new();
                sentinel.push(0u8);
                proof {
                    assert(sentinel@ =~= genesis_previous_hash());
                }
                sentinel
            },
        }
    }

    /// The difficulty level the next block must meet.
    pub fn current_difficulty(&self) -> (r: u8)
        ensures
            r as nat == difficulty_spec(self@.len()),
    {
        difficulty_function(self.len())
    }

    /// Appends `block` if its hash meets the current difficulty level and it
    /// points at the current tip; otherwise refuses it and changes nothing.
    /// The difficulty is checked first.
    pub fn add_block(&mut self, block: GorpcoinBlock) -> (r: GorpcoinResult<()>)
        ensures
            !valid_prefix(block.hash@, difficulty_spec(old(self)@.len())) ==> r == Err::<
                (),
                GorpcoinError,
            >(GorpcoinError::IncorrectDifficulty),
            valid_prefix(block.hash@, difficulty_spec(old(self)@.len())) && block.previous_hash@
                != tip_hash(old(self)@) ==> r == Err::<(), GorpcoinError>(
                GorpcoinError::InvalidPreviousHash,
            ),
            r is Ok <==> valid_prefix(block.hash@, difficulty_spec(old(self)@.len()))
                && block.previous_hash@ == tip_hash(old(self)@),
            r is Ok ==> final(self)@ == old(self)@.push(block),
            r is Ok ==> final(self)@.len() == old(self)@.len() + 1 && tip_hash(final(self)@)
                == block.hash@,
            r is Err ==> final(self)@ == old(self)@,
    {
        proof {
            use_type_invariant(&*self);
        }
        let difficulty = self.current_difficulty();
        if !has_valid_prefix(block.hash.as_slice(), difficulty) {
            return Err(GorpcoinError::IncorrectDifficulty);
        }
        let expected_previous_hash = self.last_hash();
        proof {
            // `==` on byte vectors compares their contents.
            reveal(vstd::laws_eq::obeys_view_eq);
            assert(vstd::laws_eq::obeys_view_eq::<Vec<u8>>());
        }
        if !(expected_previous_hash == block.previous_hash) {
            return Err(GorpcoinError::InvalidPreviousHash);
        }
        let mut taken = GorpcoinBlockchain::new();
        core::mem::swap(self, &mut taken);
        proof {
            use_type_invariant(&taken);
        }
        let GorpcoinBlockchain { blocks: mut blocks } = taken;
        let ghost before = blocks@;
        blocks.push(block);
        proof {
            let after = blocks@;
            assert forall|i: int| 0 <= i < after.len() implies #[trigger] accepted_at(after, i) by {
                assert(after.take(i) =~= if i < before.len() {
                    before.take(i)
                } else {
                    before
                });
                if i < before.len() {
                    assert(accepted_at(before, i));
                }
            }
        }
        *self = GorpcoinBlockchain { blocks };
        Ok(())
    }

    /// Whether the inputs of `transaction` draw at least its output total from
    /// the transactions recorded anywhere in the chain.
    ///
    /// This check is deliberately naive. It proves no ownership of the records
    /// drawn from (no signature is checked) and keeps no index of spent
    /// outputs, so one record may fund any number of transactions, and a
    /// transaction that spends nothing always passes.
    pub fn is_transaction_valid(&self, transaction: &Transaction) -> (r: bool)
        ensures
            r == (chain_input_total(self@, transaction.inputs@) >= transaction.output_total),
    {
        let inputs = &transaction.inputs;
        let ghost ins = inputs@;
        // The running total, saturated at u64::MAX: past that bound it already
        // exceeds any output total.
        let mut input_total: u64 = 0;
        let mut b: usize = 0;
        while b < self.blocks.len()
            invariant
                ins == transaction.inputs@,
                ins == inputs@,
                b <= self.blocks@.len(),
                input_total == min_total(chain_input_total(self.blocks@.take(b as int), ins)),
                chain_input_total(self.blocks@.take(b as int), ins) >= 0,
            decreases self.blocks@.len() - b,
        {
            let records = &self.blocks[b].data.transactions;
            let ghost before = chain_input_total(self.blocks@.take(b as int), ins);
            let mut k: usize = 0;
            while k < inputs.len()
                invariant
                    ins == inputs@,
                    k <= ins.len(),
                    before >= 0,
                    block_input_total(records@, ins.take(k as int)) >= 0,
                    input_total == min_total(
                        before + block_input_total(records@, ins.take(k as int)),
                    ),
                decreases ins.len() - k,
            {
                assert(ins.take(k as int + 1).drop_last() =~= ins.take(k as int));
                if let Some(record) = records.get(&inputs[k]) {
                    input_total = input_total.saturating_add(record.output_total);
                }
                k = k + 1;
            }
            assert(ins.take(ins.len() as int) =~= ins);
            assert(self.blocks@.take(b as int + 1).drop_last() =~= self.blocks@.take(b as int));
            b = b + 1;
        }
        assert(self.blocks@.take(self.blocks@.len() as int) =~= self.blocks@);
        input_total >= transaction.output_total
    }
}

} // verus!
