//! The append-only, hash-linked ledger of registration blocks.
use vstd::prelude::*;
use crate::digest::{block_digest, compute_hash, genesis, genesis_hash, is_digest_shaped};

verus! {

/// One ledger entry, anchoring the registration of an evidence item.
pub struct Block {
    pub index: usize,
    pub previous_hash: String,
    pub evidence_id: String,
    pub timestamp: u64,
    pub hash: String,
}

/// Which of the two checks on a block failed.
#[derive(Clone, Copy, Debug, PartialEq, Eq, Structural)]
pub enum Fault {
    /// The block's `previous_hash` does not match its predecessor's hash
    /// (or, for the first block, the genesis sentinel).
    BrokenLink,
    /// The block's stored hash differs from the seal recomputed from its fields.
    HashMismatch,
}

/// The outcome of verifying a ledger.
#[derive(Clone, Copy, Debug, PartialEq, Eq, Structural)]
pub enum ChainStatus {
    Valid,
    /// The first block, by index, that fails a check, and which check it fails.
    Invalid(usize, Fault),
}

/// Block `i` links to its predecessor, or to the genesis sentinel when it is the first.
pub open spec fn link_ok(c: Seq<Block>, i: int) -> bool {
    if i == 0 {
        c[0].previous_hash@ == genesis()
    } else {
        c[i].previous_hash@ == c[i - 1].hash@
    }
}

/// Block `i` carries the seal recomputed from its position, its predecessor's
/// hash, its evidence id and its timestamp. The first block's seal is not
/// recomputed: it is only ever checked through its successor's link.
pub open spec fn seal_ok(c: Seq<Block>, i: int) -> bool {
    i == 0 || c[i].hash@ == block_digest(i as nat, c[i - 1].hash@, c[i].evidence_id@, c[i].timestamp as nat)
}

/// The verdict on the blocks from `i` on: the first failing block and check.
pub open spec fn status_from(c: Seq<Block>, i: nat) -> ChainStatus
    decreases c.len() - i,
{
    if i >= c.len() {
        ChainStatus::Valid
    } else if !link_ok(c, i as int) {
        ChainStatus::Invalid(i as usize, Fault::BrokenLink)
    } else if !seal_ok(c, i as int) {
        ChainStatus::Invalid(i as usize, Fault::HashMismatch)
    } else {
        status_from(c, i + 1)
    }
}

/// The verdict on a whole chain.
pub open spec fn chain_status(c: Seq<Block>) -> ChainStatus {
    status_from(c, 0)
}

/// Every block passes both checks.
pub open spec fn all_ok(c: Seq<Block>) -> bool {
    forall|i: int| 0 <= i < c.len() ==> link_ok(c, i) && seal_ok(c, i)
}

proof fn lemma_status_from_ok(c: Seq<Block>, i: nat)
    requires
        i <= c.len(),
        forall|j: int| i <= j < c.len() ==> link_ok(c, j) && seal_ok(c, j),
    ensures
        status_from(c, i) == ChainStatus::Valid,
    decreases c.len() - i,
{
    if i < c.len() {
        lemma_status_from_ok(c, i + 1);
    }
}

proof fn lemma_status_from_first_bad(c: Seq<Block>, i: nat, k: nat)
    requires
        i <= k < c.len(),
        forall|j: int| i <= j < k ==> link_ok(c, j) && seal_ok(c, j),
        !(link_ok(c, k as int) && seal_ok(c, k as int)),
    ensures
        status_from(c, i) == (if !link_ok(c, k as int) {
            ChainStatus::Invalid(k as usize, Fault::BrokenLink)
        } else {
            ChainStatus::Invalid(k as usize, Fault::HashMismatch)
        }),
    decreases k - i,
{
    if i < k {
        lemma_status_from_first_bad(c, i + 1, k);
    }
}

/// A chain is reported valid exactly when every block passes both checks.
pub proof fn lemma_valid_iff_all_ok(c: Seq<Block>)
    ensures
        chain_status(c) == ChainStatus::Valid <==> all_ok(c),
{
    if all_ok(c) {
        lemma_status_from_ok(c, 0);
    } else {
        let k = choose|k: int| 0 <= k < c.len() && !(link_ok(c, k) && seal_ok(c, k));
        lemma_first_bad_exists(c, k);
    }
}

proof fn lemma_first_bad_exists(c: Seq<Block>, k: int)
    requires
        0 <= k < c.len(),
        !(link_ok(c, k) && seal_ok(c, k)),
    ensures
        chain_status(c) != ChainStatus::Valid,
    decreases k,
{
    if exists|j: int| 0 <= j < k && !(link_ok(c, j) && seal_ok(c, j)) {
        let j = choose|j: int| 0 <= j < k && !(link_ok(c, j) && seal_ok(c, j));
        lemma_first_bad_exists(c, j);
    } else {
        lemma_status_from_first_bad(c, 0, k as nat);
    }
}

/// Appending a block that links to the last block and carries its own seal
/// keeps a valid chain valid.
pub proof fn lemma_extend_valid(c: Seq<Block>, b: Block)
    requires
        chain_status(c) == ChainStatus::Valid,
        link_ok(c.push(b), c.len() as int),
        seal_ok(c.push(b), c.len() as int),
    ensures
        chain_status(c.push(b)) == ChainStatus::Valid,
{
    lemma_valid_iff_all_ok(c);
    let d = c.push(b);
    assert forall|i: int| 0 <= i < d.len() implies link_ok(d, i) && seal_ok(d, i) by {
        if i < c.len() {
            assert(link_ok(c, i) && seal_ok(c, i));
            assert(d[i] == c[i]);
            if i > 0 {
                assert(d[i - 1] == c[i - 1]);
            }
        }
    }
    lemma_valid_iff_all_ok(d);
}

/// Tamper detection: in a valid chain, replacing block `i` by a block that
/// differs in exactly one of `previous_hash`, `hash`, `evidence_id` or
/// `timestamp` makes verification report block `i`. A change of
/// `previous_hash` is caught at any position; the other changes are caught
/// from the second block on, and a change of `evidence_id` or `timestamp` is
/// caught where the recomputed seal differs from the stored one.
pub proof fn lemma_tamper_detected(c: Seq<Block>, i: int, b: Block)
    requires
        chain_status(c) == ChainStatus::Valid,
        c.len() <= usize::MAX,
        0 <= i < c.len(),
        i == 0 ==> b.previous_hash@ != c[i].previous_hash@,
        b.index == c[i].index,
        ({
            let same_link = b.previous_hash@ == c[i].previous_hash@;
            let same_hash = b.hash@ == c[i].hash@;
            let same_id = b.evidence_id@ == c[i].evidence_id@;
            let same_time = b.timestamp == c[i].timestamp;
            ||| !same_link && same_hash && same_id && same_time
            ||| same_link && !same_hash && same_id && same_time
            ||| same_link && same_hash && (same_id != same_time)
                && block_digest(i as nat, c[i - 1].hash@, b.evidence_id@, b.timestamp as nat) != c[i].hash@
        }),
    ensures
        chain_status(c.update(i, b)) is Invalid,
        chain_status(c.update(i, b))->Invalid_0 == i,
{
    lemma_valid_iff_all_ok(c);
    let d = c.update(i, b);
    assert forall|j: int| 0 <= j < i implies link_ok(d, j) && seal_ok(d, j) by {
        assert(link_ok(c, j) && seal_ok(c, j));
        assert(d[j] == c[j]);
        if j > 0 {
            assert(d[j - 1] == c[j - 1]);
        }
    }
    assert(link_ok(c, i) && seal_ok(c, i));
    if i > 0 {
        assert(d[i - 1] == c[i - 1]);
    }
    assert(!(link_ok(d, i) && seal_ok(d, i)));
    lemma_status_from_first_bad(d, 0, i as nat);
}

/// Corrupting the hash of the first block of a valid chain of two or more
/// blocks is first detected as a broken link at the second block.
pub proof fn lemma_genesis_tamper_detected_at_successor(c: Seq<Block>, b: Block)
    requires
        chain_status(c) == ChainStatus::Valid,
        c.len() >= 2,
        b.previous_hash@ == c[0].previous_hash@,
        b.hash@ != c[0].hash@,
    ensures
        chain_status(c.update(0, b)) == ChainStatus::Invalid(1, Fault::BrokenLink),
{
    lemma_valid_iff_all_ok(c);
    let d = c.update(0, b);
    assert(link_ok(c, 0) && link_ok(c, 1));
    assert(d[1] == c[1]);
    assert(link_ok(d, 0) && seal_ok(d, 0));
    assert(!link_ok(d, 1));
    lemma_status_from_first_bad(d, 0, 1);
}

/// The ledger: blocks in the order they were appended.
pub struct Ledger {
    pub chain: Vec<Block>,
}

impl Ledger {
    /// An empty ledger.
    pub fn new() -> (r: Ledger)
        ensures
            r.chain@.len() == 0,
    {
        Ledger { chain: Vec::new() }
    }

    /// The number of blocks.
    pub fn length(&self) -> (r: usize)
        ensures
            r == self.chain@.len(),
    {
        self.chain.len()
    }

    /// The block at `index`, if there is one.
    pub fn get(&self, index: usize) -> (r: Option<&Block>)
        ensures
            index < self.chain@.len() ==> r == Some(&self.chain@[index as int]),
            index >= self.chain@.len() ==> r.is_none(),
    {
        if index < self.chain.len() {
            Some(&self.chain[index])
        } else {
            None
        }
    }

    /// Appends the block that anchors `evidence_id` at time `now`, and returns its index.
    pub fn append(&mut self, evidence_id: &str, now: u64) -> (r: usize)
        requires
            old(self).chain@.len() < usize::MAX,
        ensures
            r == old(self).chain@.len(),
            final(self).chain@.len() == old(self).chain@.len() + 1,
            final(self).chain@.subrange(0, r as int) == old(self).chain@,
            final(self).chain@[r as int].index == r,
            final(self).chain@[r as int].evidence_id@ == evidence_id@,
            final(self).chain@[r as int].timestamp == now,
            final(self).chain@[r as int].previous_hash@ == (if r == 0 {
                genesis()
            } else {
                old(self).chain@[r - 1].hash@
            }),
            final(self).chain@[r as int].hash@ == block_digest(
                r as nat,
                final(self).chain@[r as int].previous_hash@,
                evidence_id@,
                now as nat,
            ),
            link_ok(final(self).chain@, r as int),
            seal_ok(final(self).chain@, r as int),
            is_digest_shaped(final(self).chain@[r as int].hash@),
            chain_status(old(self).chain@) == ChainStatus::Valid ==> chain_status(final(self).chain@)
                == ChainStatus::Valid,
    {
        let index = self.chain.len();
        let previous_hash = if index == 0 {
            genesis_hash()
        } else {
            self.chain[index - 1].hash.clone()
        };
        let hash = compute_hash(index, previous_hash.as_str(), evidence_id, now);
        let block = Block {
            index,
            previous_hash,
            evidence_id: evidence_id.to_owned(),
            timestamp: now,
            hash,
        };
        self.chain.push(block);
        assert(self.chain@.subrange(0, index as int) =~= old(self).chain@);
        proof {
            assert(self.chain@ =~= old(self).chain@.push(self.chain@[index as int]));
            if chain_status(old(self).chain@) == ChainStatus::Valid {
                lemma_extend_valid(old(self).chain@, self.chain@[index as int]);
            }
        }
        index
    }

    /// Checks every block in order and reports the first that fails, with the
    /// check it fails, or `Valid`.
    pub fn verify(&self) -> (r: ChainStatus)
        ensures
            r == chain_status(self.chain@),
    {
        let n = self.chain.len();
        let mut i: usize = 0;
        while i < n
            invariant
                n == self.chain@.len(),
                i <= n,
                forall|j: int| 0 <= j < i ==> link_ok(self.chain@, j) && seal_ok(self.chain@, j),
            decreases n - i,
        {
            let linked = if i == 0 {
                let g = genesis_hash();
                self.chain[0].previous_hash == g
            } else {
                self.chain[i].previous_hash == self.chain[i - 1].hash
            };
            if !linked {
                proof {
                    lemma_status_from_first_bad(self.chain@, 0, i as nat);
                }
                return ChainStatus::Invalid(i, Fault::BrokenLink);
            }
            if i > 0 {
                let expected = compute_hash(
                    i,
                    self.chain[i - 1].hash.as_str(),
                    self.chain[i].evidence_id.as_str(),
                    self.chain[i].timestamp,
                );
                if expected != self.chain[i].hash {
                    proof {
                        lemma_status_from_first_bad(self.chain@, 0, i as nat);
                    }
                    return ChainStatus::Invalid(i, Fault::HashMismatch);
                }
            }
            i = i + 1;
        }
        proof {
            lemma_status_from_ok(self.chain@, 0);
        }
        ChainStatus::Valid
    }
}

} // verus!
