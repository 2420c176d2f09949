//! The block and transaction values that the chain stores and reads.
//! How a block's hash is produced (header layout, nonce search) is decided
//! by whoever builds the block: here it is a value the block carries.

use std::collections::HashMap;
use vstd::prelude::*;

verus! {

/// A transaction: the keys of the earlier records it draws from, and the
/// total it spends.
#[derive(Clone, Debug)]
pub struct Transaction {
    pub inputs: Vec<u64>,
    pub output_total: u64,
}

impl Transaction {
    pub fn new(inputs: Vec<u64>, output_total: u64) -> (r: Self)
        ensures
            r.inputs@ == inputs@,
            r.output_total == output_total,
    {
        Transaction { inputs, output_total }
    }

    pub fn inputs(&self) -> (r: &Vec<u64>)
        ensures
            r@ == self.inputs@,
    {
        &self.inputs
    }

    pub fn output_total(&self) -> (r: u64)
        ensures
            r == self.output_total,
    {
        self.output_total
    }
}

/// The payload of a block: the transactions it records, by key.
#[derive(Clone, Debug)]
pub struct GorpcoinBlockData {
    pub transactions: HashMap<u64, Transaction>,
}

impl GorpcoinBlockData {
    pub fn new(transactions: HashMap<u64, Transaction>) -> (r: Self)
        ensures
            r.transactions@ == transactions@,
    {
        GorpcoinBlockData { transactions }
    }

    pub fn transactions(&self) -> (r: &HashMap<u64, Transaction>)
        ensures
            r@ == self.transactions@,
    {
        &self.transactions
    }
}

/// A block: its own hash, the hash of the block it extends, and its payload.
#[derive(Clone, Debug)]
pub struct GorpcoinBlock {
    pub previous_hash: Vec<u8>,
    pub hash: Vec<u8>,
    pub data: GorpcoinBlockData,
}

impl GorpcoinBlock {
    pub fn new(previous_hash: Vec<u8>, hash: Vec<u8>, data: GorpcoinBlockData) -> (r: Self)
        ensures
            r.previous_hash@ == previous_hash@,
            r.hash@ == hash@,
            r.data.transactions@ == data.transactions@,
    {
        GorpcoinBlock { previous_hash, hash, data }
    }

    pub fn hash(&self) -> (r: &Vec<u8>)
        ensures
            r@ == self.hash@,
    {
        &self.hash
    }

    pub fn previous_hash(&self) -> (r: &Vec<u8>)
        ensures
            r@ == self.previous_hash@,
    {
        &self.previous_hash
    }

    pub fn data(&self) -> (r: &GorpcoinBlockData)
        ensures
            r.transactions@ == self.data.transactions@,
    {
        &self.data
    }
}

} // verus!
