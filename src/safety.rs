use vstd::prelude::*;
use crate::aggregator::{authors, has_key, sound_signers, Aggregator};
use crate::messages::{Block, Digest, RoundNumber, SignedBy, Vote, VoteKind};
use crate::replica::{
    advances, ancestors_linked, delivered, same_qc, three_chain, Ancestors, Core, Delivery,
};

verus! {

/// No replica emits two block-votes, or two timeout-votes, for the same
/// round. Every handler keeps `wf`, so this holds after any sequence of inputs.
pub proof fn lemma_non_equivocation(c: Core)
    requires
        c.wf(),
    ensures
        forall|i: int, j: int| 0 <= i < c.block_votes@.len() && 0 <= j < c.block_votes@.len() && i != j
            ==> (#[trigger] c.block_votes@[i]).0 != (#[trigger] c.block_votes@[j]).0,
        forall|i: int, j: int| 0 <= i < c.timeout_votes@.len() && 0 <= j < c.timeout_votes@.len() && i != j
            ==> #[trigger] c.timeout_votes@[i] != #[trigger] c.timeout_votes@[j],
{
    assert forall|i: int, j: int| 0 <= i < c.block_votes@.len() && 0 <= j < c.block_votes@.len() && i != j
        implies (#[trigger] c.block_votes@[i]).0 != (#[trigger] c.block_votes@[j]).0 by {
        if i < j {
            assert(c.block_votes@[i].0 < c.block_votes@[j].0);
        } else {
            assert(c.block_votes@[j].0 < c.block_votes@[i].0);
        }
    }
    assert forall|i: int, j: int| 0 <= i < c.timeout_votes@.len() && 0 <= j < c.timeout_votes@.len() && i != j
        implies #[trigger] c.timeout_votes@[i] != #[trigger] c.timeout_votes@[j] by {
        if i < j {
            assert(c.timeout_votes@[i] < c.timeout_votes@[j]);
        } else {
            assert(c.timeout_votes@[j] < c.timeout_votes@[i]);
        }
    }
}

/// Every handler's step satisfies `advances`, and steps compose: over any
/// run, `round`, `last_voted_round` and `preferred_round` never decrease.
pub proof fn lemma_monotonic_state(a: Core, b: Core, c: Core)
    requires
        advances(a, b),
        advances(b, c),
    ensures
        advances(a, c),
        c.round >= a.round,
        c.last_voted_round >= a.last_voted_round,
        c.preferred_round >= a.preferred_round,
{
    assert(a.block_votes@.is_prefix_of(c.block_votes@)) by {
        assert forall|i: int| 0 <= i < a.block_votes@.len() implies a.block_votes@[i] == c.block_votes@[i] by {
            assert(a.block_votes@[i] == b.block_votes@[i]);
        }
    }
    assert(a.timeout_votes@.is_prefix_of(c.timeout_votes@)) by {
        assert forall|i: int| 0 <= i < a.timeout_votes@.len() implies a.timeout_votes@[i] == c.timeout_votes@[i] by {
            assert(a.timeout_votes@[i] == b.timeout_votes@[i]);
        }
    }
}

/// A quorum the aggregator hands out holds exactly the quorum threshold of
/// signers, all distinct and all committee members.
pub proof fn lemma_quorum_integrity(agg: Aggregator, vote: Vote, signature_valid: bool)
    requires
        agg.wf(),
        agg.quorum_after(vote, signature_valid) is Some,
    ensures
        ({
            let q = agg.quorum_after(vote, signature_valid)->Some_0;
            q.len() == agg.committee.spec_quorum() && sound_signers(agg.committee, q)
        }),
{
    let cur = agg.votes_for(vote.round, vote.kind, vote.hash);
    let sv = SignedBy { author: vote.author, signature: vote.signature };
    let q = cur.push(sv);
    if exists|i: int| 0 <= i < agg.tallies@.len() && has_key(#[trigger] agg.tallies@[i], vote.round, vote.kind, vote.hash) {
        let i = choose|i: int| 0 <= i < agg.tallies@.len() && has_key(#[trigger] agg.tallies@[i], vote.round, vote.kind, vote.hash);
        assert(sound_signers(agg.committee, agg.tallies@[i].votes@));
    }
    assert(sound_signers(agg.committee, cur));
    assert(authors(q) =~= authors(cur).push(vote.author));
    assert forall|a: int, b: int| 0 <= a < authors(q).len() && 0 <= b < authors(q).len() && a != b
        implies authors(q)[a] != authors(q)[b] by {
        if a < cur.len() && b < cur.len() {
            assert(authors(cur)[a] == authors(q)[a]);
            assert(authors(cur)[b] == authors(q)[b]);
        } else if a < cur.len() {
            assert(authors(cur)[a] == authors(q)[a]);
        } else {
            assert(authors(cur)[b] == authors(q)[b]);
        }
    }
    assert forall|j: int| 0 <= j < q.len() implies agg.committee.authorities@.contains(#[trigger] q[j].author) by {
        if j < cur.len() {
            assert(q[j] == cur[j]);
        }
    }
}

/// A block leaves on the commit channel only as the `b0` of a linked
/// chain `b0 <- b1 <- b2 <- block` with consecutive rounds.
pub proof fn lemma_commit_safety(pre: Core, post: Core, block: Block, digest: Digest, anc: Ancestors, r: Delivery)
    requires
        ancestors_linked(block, anc),
        delivered(pre, post, block, digest, anc, r),
    ensures
        r.commit matches Some(b) ==> b == anc.b0 && three_chain(block, anc) && ancestors_linked(block, anc)
            && b.round + 3 == block.round,
{
}

/// A block that moves the replica to a new round was stored first: the
/// store write is recorded before delivery, and delivery keeps the record.
pub proof fn lemma_durability_before_advancement(pre: Core, post: Core, block: Block, digest: Digest, anc: Ancestors, r: Delivery)
    requires
        pre.stored@.contains(digest),
        delivered(pre, post, block, digest, anc, r),
    ensures
        r.entered_round is Some ==> post.stored@.contains(digest) && pre.stored@.contains(digest),
{
}

/// Once a block has been delivered, proposing it again is stale, so
/// `handle_propose` drops it without effect: a second delivery is a no-op.
pub proof fn lemma_proposal_idempotence(pre: Core, post: Core, block: Block, digest: Digest, anc: Ancestors, r: Delivery)
    requires
        block.round == block.spec_justified_round(),
        delivered(pre, post, block, digest, anc, r),
    ensures
        post.is_stale(block),
{
}

/// Delivery is a function of the state and the block: a self-proposal that
/// comes back through the loopback channel and the same block accepted from
/// the network reach `process_block` with the same arguments and so lead to
/// the same state and the same effects.
pub proof fn lemma_loopback_equivalence(
    pre: Core,
    post1: Core,
    post2: Core,
    block: Block,
    digest: Digest,
    anc: Ancestors,
    r1: Delivery,
    r2: Delivery,
)
    requires
        delivered(pre, post1, block, digest, anc, r1),
        delivered(pre, post2, block, digest, anc, r2),
    ensures
        r1 == r2,
        post1.round == post2.round,
        post1.last_voted_round == post2.last_voted_round,
        post1.preferred_round == post2.preferred_round,
        same_qc(post1.highest_qc, post2.highest_qc),
        post1.block_votes == post2.block_votes,
        post1.stored == post2.stored,
        forall|rd: RoundNumber, k: VoteKind, h: Digest|
            #[trigger] post1.aggregator.votes_for(rd, k, h) == post2.aggregator.votes_for(rd, k, h),
{
    assert forall|rd: RoundNumber, k: VoteKind, h: Digest|
        #[trigger] post1.aggregator.votes_for(rd, k, h) == post2.aggregator.votes_for(rd, k, h) by {
        assert(post1.aggregator.votes_for(rd, k, h) == post2.aggregator.votes_for(rd, k, h));
    }
}

} // verus!
