//! The chain itself: an owned, growable sequence of blocks, with whole-chain
//! validation, and the demonstration operations that break and then repair
//! the linkage invariant.

use crate::block::{sealed, spec_hash_of, Block};
use vstd::prelude::*;
use vstd::string::StringExecFns;

verus! {

/// The sentinel stored as the genesis block's predecessor digest.
pub open spec fn genesis_prev() -> Seq<char> {
    seq!['0']
}

/// The two per-position checks of validation: the block at `i` is sealed and
/// its stored predecessor digest equals the predecessor's stored digest.
pub open spec fn valid_at(s: Seq<Block>, i: int) -> bool
    recommends
        1 <= i < s.len(),
{
    &&& sealed(s[i])
    &&& s[i].prev_hash@ == s[i - 1].hash@
}

/// Chain-wide validity: every block after the genesis passes both checks.
/// The genesis block itself is never checked for linkage.
pub open spec fn spec_valid(s: Seq<Block>) -> bool {
    forall|i: int| 1 <= i < s.len() ==> #[trigger] valid_at(s, i)
}

/// What `tamper_block` leaves behind at an in-range position: only the
/// payload and the block's own digest change, and the block is re-sealed;
/// its stored predecessor digest and every other block stay as they were.
pub open spec fn tampered(pre: Seq<Block>, post: Seq<Block>, index: int, new_data: Seq<char>) -> bool {
    &&& 0 <= index < pre.len()
    &&& post.len() == pre.len()
    &&& forall|j: int| 0 <= j < pre.len() && j != index ==> post[j] == pre[j]
    &&& post[index].index == pre[index].index
    &&& post[index].timestamp@ == pre[index].timestamp@
    &&& post[index].prev_hash@ == pre[index].prev_hash@
    &&& post[index].data@ == new_data
    &&& sealed(post[index])
}

/// What `recompute_hashes_from` leaves behind: blocks before `index` stay as
/// they were; from `index` on, each block keeps its index, timestamp and
/// payload, takes the sentinel (at position 0) or the already-updated
/// predecessor's digest as its predecessor digest, and is re-sealed.
pub open spec fn repaired_from(pre: Seq<Block>, post: Seq<Block>, index: int) -> bool {
    &&& post.len() == pre.len()
    &&& forall|j: int| 0 <= j < index && j < pre.len() ==> post[j] == pre[j]
    &&& forall|j: int|
        #![trigger post[j]]
        index <= j < pre.len() ==> {
            &&& post[j].index == pre[j].index
            &&& post[j].timestamp@ == pre[j].timestamp@
            &&& post[j].data@ == pre[j].data@
            &&& post[j].prev_hash@ == if j == 0 {
                genesis_prev()
            } else {
                post[j - 1].hash@
            }
            &&& sealed(post[j])
        }
}

pub struct Blockchain {
    pub chain: Vec<Block>,
}

impl Blockchain {
    /// Well-formedness kept by every operation: the genesis block exists,
    /// block indices equal their positions, and the genesis block stores the
    /// sentinel predecessor digest.
    pub open spec fn wf(self) -> bool {
        &&& self.chain@.len() >= 1
        &&& forall|i: int| 0 <= i < self.chain@.len() ==> #[trigger] self.chain@[i].index == i
        &&& self.chain@[0].prev_hash@ == genesis_prev()
    }

    /// Constructs a chain holding only the sealed genesis block.
    pub fn new() -> (c: Blockchain)
        ensures
            c.wf(),
            c.chain@.len() == 1,
            c.chain@[0].index == 0,
            c.chain@[0].prev_hash@ == genesis_prev(),
            c.chain@[0].data@ == "Genesis Block"@,
            sealed(c.chain@[0]),
            spec_valid(c.chain@),
    {
        let genesis = Block::new(0, String::from_str("Genesis Block"), String::from_str("0"));
        let mut chain: Vec<Block> = Vec::new();
        chain.push(genesis);
        proof {
            reveal_strlit("0");
            assert("0"@ =~= genesis_prev());
        }
        Blockchain { chain }
    }

    /// Appends one block carrying the given payload: its index is one past
    /// the tail's, its predecessor digest is the tail's stored digest, and it
    /// is sealed. A valid chain stays valid and a well-formed one
    /// well-formed.
    pub fn add_block(&mut self, data: String)
        requires
            old(self).chain@.len() >= 1,
            old(self).chain@.last().index < u32::MAX,
        ensures
            final(self).chain@.len() == old(self).chain@.len() + 1,
            forall|i: int|
                0 <= i < old(self).chain@.len() ==> final(self).chain@[i] == old(self).chain@[i],
            final(self).chain@.last().index == old(self).chain@.last().index + 1,
            final(self).chain@.last().data@ == data@,
            final(self).chain@.last().prev_hash@ == old(self).chain@.last().hash@,
            sealed(final(self).chain@.last()),
            old(self).wf() ==> final(self).wf(),
            spec_valid(old(self).chain@) ==> spec_valid(final(self).chain@),
    {
        let n = self.chain.len();
        let prev_index = self.chain[n - 1].index;
        let prev_hash = self.chain[n - 1].hash.clone();
        let block = Block::new(prev_index + 1, data, prev_hash);
        self.chain.push(block);
        proof {
            let pre = old(self).chain@;
            let post = self.chain@;
            assert(post.last() == post[pre.len() as int]);
            if spec_valid(pre) {
                assert forall|i: int| 1 <= i < post.len() implies #[trigger] valid_at(post, i) by {
                    if i < pre.len() {
                        assert(valid_at(pre, i));
                    }
                }
            }
        }
    }

    /// Validation: walks the chain from the second block on, failing if a
    /// block's stored digest does not equal a fresh recomputation or its
    /// stored predecessor digest does not equal the predecessor's stored
    /// digest. Pure and total.
    pub fn is_valid(&self) -> (r: bool)
        ensures
            r == spec_valid(self.chain@),
    {
        let n = self.chain.len();
        let mut i: usize = 1;
        while i < n
            invariant
                1 <= i,
                n == self.chain@.len(),
                forall|j: int| 1 <= j < i ==> #[trigger] valid_at(self.chain@, j),
            decreases n - i,
        {
            let fresh = self.chain[i].calculate_hash();
            if !self.chain[i].hash.eq(&fresh) {
                proof {
                    assert(!valid_at(self.chain@, i as int));
                }
                return false;
            }
            if !self.chain[i].prev_hash.eq(&self.chain[i - 1].hash) {
                proof {
                    assert(!valid_at(self.chain@, i as int));
                }
                return false;
            }
            i = i + 1;
        }
        true
    }

    /// Demonstration-only corruption: overwrites the payload at `index` and
    /// re-seals that block's own digest, touching neither its stored
    /// predecessor digest nor any other block — so the successor's linkage
    /// check is left stale. A no-op when `index` is out of range.
    pub fn tamper_block(&mut self, index: usize, new_data: &str)
        ensures
            index < old(self).chain@.len() ==> tampered(
                old(self).chain@,
                final(self).chain@,
                index as int,
                new_data@,
            ),
            index >= old(self).chain@.len() ==> *final(self) == *old(self),
            old(self).wf() ==> final(self).wf(),
    {
        if index < self.chain.len() {
            self.chain[index].data = String::from_str(new_data);
            let fresh = self.chain[index].calculate_hash();
            self.chain[index].hash = fresh;
        }
    }

    /// Repair cascade: from `index` to the end, in increasing order, resets
    /// each block's stored predecessor digest (to the sentinel at position 0,
    /// else to the already-updated predecessor's digest) and re-seals the
    /// block. A no-op when `index` is out of range.
    pub fn recompute_hashes_from(&mut self, index: usize)
        ensures
            repaired_from(old(self).chain@, final(self).chain@, index as int),
            old(self).wf() ==> final(self).wf(),
    {
        let n = self.chain.len();
        let mut i: usize = index;
        while i < n
            invariant
                index <= i,
                n == self.chain@.len(),
                old(self).chain@.len() == n,
                forall|j: int| 0 <= j < index && j < n ==> self.chain@[j] == old(self).chain@[j],
                forall|j: int| i <= j < n ==> self.chain@[j] == old(self).chain@[j],
                forall|j: int|
                    #![trigger self.chain@[j]]
                    index <= j < i ==> {
                        &&& self.chain@[j].index == old(self).chain@[j].index
                        &&& self.chain@[j].timestamp@ == old(self).chain@[j].timestamp@
                        &&& self.chain@[j].data@ == old(self).chain@[j].data@
                        &&& self.chain@[j].prev_hash@ == if j == 0 {
                            genesis_prev()
                        } else {
                            self.chain@[j - 1].hash@
                        }
                        &&& sealed(self.chain@[j])
                    },
            decreases n - i,
        {
            if i == 0 {
                let sentinel = String::from_str("0");
                proof {
                    reveal_strlit("0");
                    assert("0"@ =~= genesis_prev());
                }
                self.chain[0].prev_hash = sentinel;
            } else {
                let prev = self.chain[i - 1].hash.clone();
                self.chain[i].prev_hash = prev;
            }
            let fresh = self.chain[i].calculate_hash();
            self.chain[i].hash = fresh;
            i = i + 1;
        }
    }
}

/// The genesis block of a well-formed chain sits at position 0, carries
/// index 0 and stores the sentinel predecessor digest.
pub proof fn lemma_genesis_form(c: Blockchain)
    requires
        c.wf(),
    ensures
        c.chain@[0].index == 0,
        c.chain@[0].prev_hash@ == genesis_prev(),
{
}

/// Tampering at a position that has a successor breaks whole-chain validity,
/// provided the tampered block's re-sealed digest actually differs from its
/// old one. That the digest does change when the payload changes is the
/// collision resistance of the hash function: it cannot be stated of the
/// digest here, so it stands as a hypothesis, and running the demonstration
/// exercises it on real digests.
pub proof fn lemma_tamper_breaks_validity(
    pre: Seq<Block>,
    post: Seq<Block>,
    index: int,
    new_data: Seq<char>,
)
    requires
        spec_valid(pre),
        tampered(pre, post, index, new_data),
        index + 1 < pre.len(),
        post[index].hash@ != pre[index].hash@,
    ensures
        !spec_valid(post),
{
    assert(valid_at(pre, index + 1));
    assert(post[index + 1] == pre[index + 1]);
    assert(!valid_at(post, index + 1));
}

/// Repairing from `index` restores whole-chain validity, provided the blocks
/// before `index` already passed validation among themselves.
pub proof fn lemma_repair_restores_validity(pre: Seq<Block>, post: Seq<Block>, index: int)
    requires
        0 <= index,
        repaired_from(pre, post, index),
        forall|j: int| 1 <= j < index && j < pre.len() ==> #[trigger] valid_at(pre, j),
    ensures
        spec_valid(post),
{
    assert forall|i: int| 1 <= i < post.len() implies #[trigger] valid_at(post, i) by {
        if i < index {
            assert(post[i] == pre[i]);
            assert(post[i - 1] == pre[i - 1]);
            assert(valid_at(pre, i));
        }
    }
}

/// Tampering anywhere and then repairing from the same position restores
/// whole-chain validity — the demonstration that hash linkage alone cannot
/// prevent a rewritten history.
pub proof fn lemma_tamper_then_repair(
    pre: Seq<Block>,
    mid: Seq<Block>,
    post: Seq<Block>,
    index: int,
    new_data: Seq<char>,
)
    requires
        spec_valid(pre),
        tampered(pre, mid, index, new_data),
        repaired_from(mid, post, index),
    ensures
        spec_valid(post),
{
    assert forall|j: int| 1 <= j < index && j < mid.len() implies #[trigger] valid_at(mid, j) by {
        assert(valid_at(pre, j));
        assert(mid[j] == pre[j]);
        assert(mid[j - 1] == pre[j - 1]);
    }
    lemma_repair_restores_validity(mid, post, index);
}

/// Two blocks agreeing on every stored field, digest included.
pub open spec fn same_content(a: Block, b: Block) -> bool {
    &&& a.index == b.index
    &&& a.timestamp@ == b.timestamp@
    &&& a.data@ == b.data@
    &&& a.prev_hash@ == b.prev_hash@
    &&& a.hash@ == b.hash@
}

proof fn lemma_repair_idempotent_at(pre: Seq<Block>, mid: Seq<Block>, post: Seq<Block>, index: int, j: int)
    requires
        0 <= index,
        repaired_from(pre, mid, index),
        repaired_from(mid, post, index),
        0 <= j < pre.len(),
    ensures
        same_content(post[j], mid[j]),
    decreases j,
{
    if j < index {
        assert(post[j] == mid[j]);
    } else if j == 0 {
        assert(post[0].prev_hash@ == genesis_prev());
        assert(mid[0].prev_hash@ == genesis_prev());
    } else {
        if j - 1 < index {
            assert(post[j - 1] == mid[j - 1]);
        } else {
            lemma_repair_idempotent_at(pre, mid, post, index, j - 1);
        }
        assert(post[j].prev_hash@ == post[j - 1].hash@);
        assert(mid[j].prev_hash@ == mid[j - 1].hash@);
    }
}

/// Repairing is idempotent: a second repair from the same position leaves
/// every block's stored fields, digests included, exactly as the first
/// repair left them.
pub proof fn lemma_repair_idempotent(pre: Seq<Block>, mid: Seq<Block>, post: Seq<Block>, index: int)
    requires
        0 <= index,
        repaired_from(pre, mid, index),
        repaired_from(mid, post, index),
    ensures
        forall|j: int| 0 <= j < pre.len() ==> #[trigger] same_content(post[j], mid[j]),
{
    assert forall|j: int| 0 <= j < pre.len() implies #[trigger] same_content(post[j], mid[j]) by {
        lemma_repair_idempotent_at(pre, mid, post, index, j);
    }
}

} // verus!
