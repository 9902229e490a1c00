//! A block of the plain (non-mined) chain: an index, a creation-time
//! snapshot, an opaque payload, the predecessor's digest, and the block's own
//! digest over its canonical rendering.

use crate::clock::now_rfc3339;
use crate::digest::{dec_of, is_hex_char, sha256_hex, sha_hex_of, u64_to_dec};
use vstd::prelude::*;
use vstd::string::StringExecFns;

verus! {

pub struct Block {
    pub index: u32,
    pub timestamp: String,
    pub data: String,
    pub prev_hash: String,
    pub hash: String,
}

/// The canonical rendering that is hashed: the decimal index, then the
/// predecessor digest, the timestamp, and the payload, concatenated.
pub open spec fn hash_input(
    index: nat,
    prev_hash: Seq<char>,
    timestamp: Seq<char>,
    data: Seq<char>,
) -> Seq<char> {
    dec_of(index) + prev_hash + timestamp + data
}

/// What a block's digest ought to be, given its current stored fields.
pub open spec fn spec_hash_of(b: Block) -> Seq<char> {
    sha_hex_of(hash_input(b.index as nat, b.prev_hash@, b.timestamp@, b.data@))
}

/// A sealed block: its stored digest equals a fresh recomputation over its
/// current stored fields.
pub open spec fn sealed(b: Block) -> bool {
    b.hash@ == spec_hash_of(b)
}

impl Block {
    /// Pure recomputation of what `self.hash` should be; mutates nothing.
    pub fn calculate_hash(&self) -> (r: String)
        ensures
            r@ == spec_hash_of(*self),
            r@.len() == 64,
            forall|i: int| 0 <= i < r@.len() ==> is_hex_char(#[trigger] r@[i]),
    {
        let mut input = u64_to_dec(self.index as u64);
        input.append(self.prev_hash.as_str());
        input.append(self.timestamp.as_str());
        input.append(self.data.as_str());
        proof {
            assert(input@ =~= hash_input(
                self.index as nat,
                self.prev_hash@,
                self.timestamp@,
                self.data@,
            ));
        }
        sha256_hex(input.as_str())
    }

    /// Constructs a block from its index, payload and predecessor digest,
    /// snapshots the clock once for the timestamp, and seals the block.
    pub fn new(index: u32, data: String, prev_hash: String) -> (b: Block)
        ensures
            b.index == index,
            b.data@ == data@,
            b.prev_hash@ == prev_hash@,
            b.timestamp@.len() > 0,
            sealed(b),
            b.hash@.len() == 64,
    {
        let timestamp = now_rfc3339();
        let mut block = Block { index, timestamp, data, prev_hash, hash: String::new() };
        let h = block.calculate_hash();
        block.hash = h;
        block
    }
}

} // verus!
