//! The proof-of-work variant: blocks carry a nonce, and sealing goes through
//! a mining search that increments the nonce until the block's digest meets
//! the difficulty target of leading zero hexadecimal characters.

use crate::chain::genesis_prev;
use crate::clock::now_rfc3339;
use crate::digest::{dec_of, is_hex_char, sha256_hex, sha_hex_of, u64_to_dec};
use vstd::prelude::*;
use vstd::string::{StrSliceExecFns, StringExecFns};

verus! {

pub struct Block {
    pub index: u32,
    pub timestamp: String,
    pub data: String,
    pub prev_hash: String,
    pub hash: String,
    pub nonce: u64,
}

/// The canonical rendering that is hashed: the decimal index, then the
/// predecessor digest, the timestamp, the payload, and the decimal nonce.
pub open spec fn hash_input(
    index: nat,
    prev_hash: Seq<char>,
    timestamp: Seq<char>,
    data: Seq<char>,
    nonce: nat,
) -> Seq<char> {
    dec_of(index) + prev_hash + timestamp + data + dec_of(nonce)
}

/// What a block's digest ought to be, given its current stored fields.
pub open spec fn spec_hash_of(b: Block) -> Seq<char> {
    sha_hex_of(
        hash_input(b.index as nat, b.prev_hash@, b.timestamp@, b.data@, b.nonce as nat),
    )
}

/// A sealed block: its stored digest equals a fresh recomputation over its
/// current stored fields, nonce included.
pub open spec fn sealed(b: Block) -> bool {
    b.hash@ == spec_hash_of(b)
}

/// The difficulty predicate: the first `d` characters of the digest are '0'.
pub open spec fn meets_difficulty(h: Seq<char>, d: nat) -> bool {
    &&& d <= h.len()
    &&& forall|i: int| 0 <= i < d ==> h[i] == '0'
}

/// Some nonce at or above `start` gives a block with these fields a digest
/// that meets the target. Exactly this decides whether the mining search
/// succeeds.
pub open spec fn nonce_exists(
    index: nat,
    prev_hash: Seq<char>,
    timestamp: Seq<char>,
    data: Seq<char>,
    start: u64,
    difficulty: nat,
) -> bool {
    exists|n: u64|
        start <= n && #[trigger] meets_difficulty(
            sha_hex_of(hash_input(index, prev_hash, timestamp, data, n as nat)),
            difficulty,
        )
}

/// The two per-position checks of validation: the block at `i` is sealed and
/// its stored predecessor digest equals the predecessor's stored digest.
pub open spec fn valid_at(s: Seq<Block>, i: int) -> bool
    recommends
        1 <= i < s.len(),
{
    &&& sealed(s[i])
    &&& s[i].prev_hash@ == s[i - 1].hash@
}

/// Chain-wide validity: every block after the genesis passes both checks.
pub open spec fn spec_valid(s: Seq<Block>) -> bool {
    forall|i: int| 1 <= i < s.len() ==> #[trigger] valid_at(s, i)
}

/// Checks the difficulty predicate on a digest string.
pub fn has_leading_zeros(s: &str, d: usize) -> (r: bool)
    requires
        d <= s@.len(),
    ensures
        r == meets_difficulty(s@, d as nat),
{
    let mut i: usize = 0;
    while i < d
        invariant
            i <= d,
            d <= s@.len(),
            forall|j: int| 0 <= j < i ==> s@[j] == '0',
        decreases d - i,
    {
        if s.get_char(i) != '0' {
            return false;
        }
        i = i + 1;
    }
    true
}

impl Block {
    /// Pure recomputation of what `self.hash` should be; mutates nothing.
    pub fn calculate_hash(&self) -> (r: String)
        ensures
            r@ == spec_hash_of(*self),
            r@.len() == 64,
            forall|i: int| 0 <= i < r@.len() ==> is_hex_char(#[trigger] r@[i]),
    {
        let mut input = u64_to_dec(self.index as u64);
        input.append(self.prev_hash.as_str());
        input.append(self.timestamp.as_str());
        input.append(self.data.as_str());
        let nonce_dec = u64_to_dec(self.nonce);
        input.append(nonce_dec.as_str());
        proof {
            assert(input@ =~= hash_input(
                self.index as nat,
                self.prev_hash@,
                self.timestamp@,
                self.data@,
                self.nonce as nat,
            ));
        }
        sha256_hex(input.as_str())
    }

    /// Constructs a block with nonce 0, snapshots the clock once for the
    /// timestamp, and seals the block. Mining comes separately.
    pub fn new(index: u32, data: String, prev_hash: String) -> (b: Block)
        ensures
            b.index == index,
            b.data@ == data@,
            b.prev_hash@ == prev_hash@,
            b.timestamp@.len() > 0,
            b.nonce == 0,
            sealed(b),
            b.hash@.len() == 64,
    {
        let timestamp = now_rfc3339();
        let mut block = Block { index, timestamp, data, prev_hash, hash: String::new(), nonce: 0 };
        let h = block.calculate_hash();
        block.hash = h;
        block
    }

    /// The mining search: re-seals the block, then increments the nonce and
    /// re-seals until the digest meets the difficulty target. The search
    /// succeeds exactly when some nonce at or above the starting one meets
    /// the target (in practice one always does — the expected cost is about
    /// 16^difficulty digests); otherwise it stops with the nonce space
    /// exhausted. A block already sealed and on target is left untouched.
    pub fn mine_block(&mut self, difficulty: usize) -> (found: bool)
        requires
            difficulty <= 64,
        ensures
            final(self).index == old(self).index,
            final(self).timestamp@ == old(self).timestamp@,
            final(self).data@ == old(self).data@,
            final(self).prev_hash@ == old(self).prev_hash@,
            final(self).nonce >= old(self).nonce,
            sealed(*final(self)),
            found ==> meets_difficulty(final(self).hash@, difficulty as nat),
            !found ==> final(self).nonce == u64::MAX,
            found == nonce_exists(
                old(self).index as nat,
                old(self).prev_hash@,
                old(self).timestamp@,
                old(self).data@,
                old(self).nonce,
                difficulty as nat,
            ),
            sealed(*old(self)) && meets_difficulty(old(self).hash@, difficulty as nat)
                ==> final(self).nonce == old(self).nonce && final(self).hash@ == old(
                self,
            ).hash@,
    {
        let h = self.calculate_hash();
        self.hash = h;
        loop
            invariant
                difficulty <= 64,
                self.index == old(self).index,
                self.timestamp@ == old(self).timestamp@,
                self.data@ == old(self).data@,
                self.prev_hash@ == old(self).prev_hash@,
                self.nonce >= old(self).nonce,
                sealed(*self),
                self.hash@.len() == 64,
                forall|n: u64|
                    #![trigger meets_difficulty(
                        sha_hex_of(hash_input(old(self).index as nat, old(self).prev_hash@,
                            old(self).timestamp@, old(self).data@, n as nat)),
                        difficulty as nat,
                    )]
                    old(self).nonce <= n < self.nonce ==> !meets_difficulty(
                        sha_hex_of(
                            hash_input(
                                old(self).index as nat,
                                old(self).prev_hash@,
                                old(self).timestamp@,
                                old(self).data@,
                                n as nat,
                            ),
                        ),
                        difficulty as nat,
                    ),
                sealed(*old(self)) && meets_difficulty(old(self).hash@, difficulty as nat)
                    ==> self.nonce == old(self).nonce && self.hash@ == old(self).hash@,
            decreases u64::MAX - self.nonce,
        {
            if has_leading_zeros(self.hash.as_str(), difficulty) {
                proof {
                    assert(meets_difficulty(
                        sha_hex_of(
                            hash_input(
                                old(self).index as nat,
                                old(self).prev_hash@,
                                old(self).timestamp@,
                                old(self).data@,
                                self.nonce as nat,
                            ),
                        ),
                        difficulty as nat,
                    ));
                }
                return true;
            }
            proof {
                assert(!meets_difficulty(
                    sha_hex_of(
                        hash_input(
                            old(self).index as nat,
                            old(self).prev_hash@,
                            old(self).timestamp@,
                            old(self).data@,
                            self.nonce as nat,
                        ),
                    ),
                    difficulty as nat,
                ));
            }
            if self.nonce == u64::MAX {
                return false;
            }
            self.nonce = self.nonce + 1;
            let h = self.calculate_hash();
            self.hash = h;
        }
    }
}

pub struct Blockchain {
    pub chain: Vec<Block>,
    pub difficulty: usize,
}

impl Blockchain {
    /// Well-formedness kept by every operation: the genesis block exists,
    /// block indices equal their positions, the genesis block stores the
    /// sentinel predecessor digest, and the difficulty fits the digest.
    pub open spec fn wf(self) -> bool {
        &&& self.chain@.len() >= 1
        &&& forall|i: int| 0 <= i < self.chain@.len() ==> #[trigger] self.chain@[i].index == i
        &&& self.chain@[0].prev_hash@ == genesis_prev()
        &&& self.difficulty <= 64
    }

    /// Constructs a chain whose genesis block has been mined at the given
    /// difficulty. The genesis digest meets the target exactly when some
    /// nonce does for the genesis fields.
    pub fn new(difficulty: usize) -> (c: Blockchain)
        requires
            difficulty <= 64,
        ensures
            c.wf(),
            c.difficulty == difficulty,
            c.chain@.len() == 1,
            c.chain@[0].index == 0,
            c.chain@[0].prev_hash@ == genesis_prev(),
            c.chain@[0].data@ == "Genesis Block"@,
            sealed(c.chain@[0]),
            spec_valid(c.chain@),
            meets_difficulty(c.chain@[0].hash@, difficulty as nat) == nonce_exists(
                0,
                genesis_prev(),
                c.chain@[0].timestamp@,
                c.chain@[0].data@,
                0,
                difficulty as nat,
            ),
    {
        let mut genesis = Block::new(0, String::from_str("Genesis Block"), String::from_str("0"));
        let found = genesis.mine_block(difficulty);
        proof {
            reveal_strlit("0");
            assert("0"@ =~= genesis_prev());
            if meets_difficulty(genesis.hash@, difficulty as nat) {
                assert(meets_difficulty(
                    sha_hex_of(
                        hash_input(
                            0,
                            genesis.prev_hash@,
                            genesis.timestamp@,
                            genesis.data@,
                            genesis.nonce as nat,
                        ),
                    ),
                    difficulty as nat,
                ));
            }
        }
        let mut chain: Vec<Block> = Vec::new();
        chain.push(genesis);
        Blockchain { chain, difficulty }
    }

    /// Appends one block carrying the given payload: its index equals the old
    /// length, its predecessor digest is the tail's stored digest, it has
    /// been mined at the chain's difficulty, and its digest meets the target
    /// exactly when some nonce does for its fields. A valid chain stays valid
    /// and a well-formed one well-formed.
    pub fn add_block(&mut self, data: String)
        requires
            old(self).chain@.len() >= 1,
            old(self).chain@.len() < u32::MAX,
            old(self).difficulty <= 64,
        ensures
            final(self).difficulty == old(self).difficulty,
            final(self).chain@.len() == old(self).chain@.len() + 1,
            forall|i: int|
                0 <= i < old(self).chain@.len() ==> final(self).chain@[i] == old(self).chain@[i],
            final(self).chain@.last().index == old(self).chain@.len(),
            final(self).chain@.last().data@ == data@,
            final(self).chain@.last().prev_hash@ == old(self).chain@.last().hash@,
            sealed(final(self).chain@.last()),
            meets_difficulty(final(self).chain@.last().hash@, old(self).difficulty as nat)
                == nonce_exists(
                old(self).chain@.len() as nat,
                old(self).chain@.last().hash@,
                final(self).chain@.last().timestamp@,
                data@,
                0,
                old(self).difficulty as nat,
            ),
            old(self).wf() ==> final(self).wf(),
            spec_valid(old(self).chain@) ==> spec_valid(final(self).chain@),
    {
        let n = self.chain.len();
        let prev_hash = self.chain[n - 1].hash.clone();
        let mut block = Block::new(n as u32, data, prev_hash);
        let found = block.mine_block(self.difficulty);
        proof {
            if meets_difficulty(block.hash@, self.difficulty as nat) {
                assert(meets_difficulty(
                    sha_hex_of(
                        hash_input(
                            block.index as nat,
                            block.prev_hash@,
                            block.timestamp@,
                            block.data@,
                            block.nonce as nat,
                        ),
                    ),
                    self.difficulty as nat,
                ));
            }
        }
        self.chain.push(block);
        proof {
            let pre = old(self).chain@;
            let post = self.chain@;
            assert(post.last() == post[pre.len() as int]);
            if spec_valid(pre) {
                assert forall|i: int| 1 <= i < post.len() implies #[trigger] valid_at(post, i) by {
                    if i < pre.len() {
                        assert(valid_at(pre, i));
                    }
                }
            }
        }
    }

    /// Validation: walks the chain from the second block on, failing if a
    /// block's stored digest does not equal a fresh recomputation (nonce
    /// included) or its stored predecessor digest does not equal the
    /// predecessor's stored digest. Pure and total; the difficulty target is
    /// not re-checked.
    pub fn is_valid(&self) -> (r: bool)
        ensures
            r == spec_valid(self.chain@),
    {
        let n = self.chain.len();
        let mut i: usize = 1;
        while i < n
            invariant
                1 <= i,
                n == self.chain@.len(),
                forall|j: int| 1 <= j < i ==> #[trigger] valid_at(self.chain@, j),
            decreases n - i,
        {
            let fresh = self.chain[i].calculate_hash();
            if !self.chain[i].hash.eq(&fresh) {
                proof {
                    assert(!valid_at(self.chain@, i as int));
                }
                return false;
            }
            if !self.chain[i].prev_hash.eq(&self.chain[i - 1].hash) {
                proof {
                    assert(!valid_at(self.chain@, i as int));
                }
                return false;
            }
            i = i + 1;
        }
        true
    }
}

} // verus!
