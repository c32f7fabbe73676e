use vstd::prelude::*;
use crate::aggregator::{authors, sound_signers, Aggregator, AggregatorError};
use crate::committee::Committee;
use crate::messages::{Block, Digest, PublicKey, QC, RoundNumber, Signature, SignedBy, TC, Vote, VoteKind};

verus! {

/// What the core consumes from its inbound channel.
#[derive(Clone, Debug)]
pub enum CoreMessage {
    Propose(Block),
    Vote(Vote),
    LoopBack(Block),
    SyncRequest(Digest, PublicKey),
}

/// Why a message was dropped.
#[derive(Clone, Copy, Debug, PartialEq, Eq, Structural)]
pub enum ConsensusError {
    MalformedBlock(Digest),
    WrongLeader { digest: Digest, leader: PublicKey, round: RoundNumber },
    InvalidSignature,
    UnknownAuthority(PublicKey),
    AuthorityReuse(PublicKey),
    QCRequiresQuorum,
    TCRequiresQuorum,
}

/// A vote for the caller to sign and deliver: through the loopback channel
/// when `loopback` holds (the recipient is this replica), else by unicast.
#[derive(Clone, Copy, Debug, PartialEq, Eq, Structural)]
pub struct VoteOrder {
    pub hash: Digest,
    pub round: RoundNumber,
    pub kind: VoteKind,
    pub recipient: PublicKey,
    pub loopback: bool,
}

/// A block for the caller to fill with a payload, sign, broadcast and loop back.
#[derive(Clone, Debug)]
pub struct ProposalOrder {
    pub qc: QC,
    pub tc: Option<TC>,
    pub round: RoundNumber,
}

/// The three ancestors `b0 <- b1 <- b2` of a block, oldest first.
#[derive(Clone, Debug)]
pub struct Ancestors {
    pub b0: Block,
    pub b1: Block,
    pub b2: Block,
}

/// The effects of delivering a block: the round entered (cancel the timer
/// of `left_round`, schedule one for the new round), the block to commit,
/// and the vote to sign and send.
#[derive(Clone, Debug)]
pub struct Delivery {
    pub entered_round: Option<RoundNumber>,
    pub left_round: RoundNumber,
    pub commit: Option<Block>,
    pub vote: Option<VoteOrder>,
}

/// Signature checks made by the caller on a proposal: the block's own
/// signature, the signatures inside its QC, and those inside its TC.
#[derive(Clone, Copy, Debug, PartialEq, Eq, Structural)]
pub struct ProposalSignatures {
    pub block: bool,
    pub qc: bool,
    pub tc: bool,
}

/// The consensus state of one replica. Only the core changes it.
pub struct Core {
    pub name: PublicKey,
    pub committee: Committee,
    pub round: RoundNumber,
    pub last_voted_round: RoundNumber,
    pub preferred_round: RoundNumber,
    pub highest_qc: QC,
    pub aggregator: Aggregator,
    /// Digests whose store write has completed.
    pub stored: Ghost<Set<Digest>>,
    /// Every block-vote emitted so far, as (round, block digest).
    pub block_votes: Ghost<Seq<(RoundNumber, Digest)>>,
    /// The round of every timeout-vote emitted so far.
    pub timeout_votes: Ghost<Seq<RoundNumber>>,
}

/// The digest carried by timeout-votes in place of a block digest.
pub open spec fn timeout_marker() -> Digest {
    Digest { hi: 0, lo: 0 }
}

pub open spec fn error_of(e: AggregatorError, author: PublicKey) -> ConsensusError {
    match e {
        AggregatorError::UnknownAuthority => ConsensusError::UnknownAuthority(author),
        AggregatorError::InvalidSignature => ConsensusError::InvalidSignature,
        AggregatorError::AuthorityReuse => ConsensusError::AuthorityReuse(author),
    }
}

/// The state only moves forward: round, last voted round and preferred
/// round never decrease, and no emitted vote or stored block is forgotten.
pub open spec fn advances(pre: Core, post: Core) -> bool {
    &&& post.name == pre.name
    &&& post.committee == pre.committee
    &&& post.round >= pre.round
    &&& post.last_voted_round >= pre.last_voted_round
    &&& post.preferred_round >= pre.preferred_round
    &&& pre.block_votes@.is_prefix_of(post.block_votes@)
    &&& pre.timeout_votes@.is_prefix_of(post.timeout_votes@)
    &&& pre.stored@.subset_of(post.stored@)
}

/// A certificate's signer set and signatures are acceptable.
pub open spec fn certificate_ok(committee: Committee, votes: Seq<SignedBy>, signatures_valid: bool) -> bool {
    &&& sound_signers(committee, votes)
    &&& votes.len() >= committee.spec_quorum()
    &&& signatures_valid
}

/// Checks a certificate's signers (each a committee member, none twice, at
/// least a quorum of them), then the caller's verdict on their signatures.
pub fn check_certificate(
    committee: &Committee,
    votes: &Vec<SignedBy>,
    signatures_valid: bool,
    below_quorum: ConsensusError,
) -> (r: Result<(), ConsensusError>)
    ensures
        (r is Ok) == certificate_ok(*committee, votes@, signatures_valid),
        !sound_signers(*committee, votes@) ==> (r matches Err(e) && (
            (e matches ConsensusError::UnknownAuthority(a) && authors(votes@).contains(a)
                && !committee.authorities@.contains(a))
            || (e matches ConsensusError::AuthorityReuse(a) && exists|i: int, j: int|
                0 <= i < j < votes@.len() && votes@[i].author == a && votes@[j].author == a))),
        sound_signers(*committee, votes@) && votes@.len() < committee.spec_quorum() ==> r == Err::<(), ConsensusError>(below_quorum),
        sound_signers(*committee, votes@) && votes@.len() >= committee.spec_quorum() && !signatures_valid
            ==> r == Err::<(), ConsensusError>(ConsensusError::InvalidSignature),
{
    let mut i: usize = 0;
    while i < votes.len()
        invariant
            i <= votes@.len(),
            forall|a: int, b: int| 0 <= a < b < i ==> votes@[a].author != votes@[b].author,
            forall|a: int| 0 <= a < i ==> committee.authorities@.contains(#[trigger] votes@[a].author),
        decreases votes@.len() - i,
    {
        let author = votes[i].author;
        let mut j: usize = 0;
        while j < i
            invariant
                i < votes@.len(),
                j <= i,
                author == votes@[i as int].author,
                forall|a: int| 0 <= a < j ==> votes@[a].author != author,
            decreases i - j,
        {
            if votes[j].author == author {
                assert(authors(votes@)[j as int] == authors(votes@)[i as int]);
                return Err(ConsensusError::AuthorityReuse(author));
            }
            j += 1;
        }
        if !committee.contains(&author) {
            assert(authors(votes@)[i as int] == author);
            assert(!committee.authorities@.contains(votes@[i as int].author));
            return Err(ConsensusError::UnknownAuthority(author));
        }
        i += 1;
    }
    assert forall|a: int, b: int| 0 <= a < authors(votes@).len() && 0 <= b < authors(votes@).len() && a != b
        implies authors(votes@)[a] != authors(votes@)[b] by {
        if a < b {
            assert(votes@[a].author != votes@[b].author);
        } else {
            assert(votes@[b].author != votes@[a].author);
        }
    }
    if votes.len() < committee.quorum_threshold() {
        return Err(below_quorum);
    }
    if !signatures_valid {
        return Err(ConsensusError::InvalidSignature);
    }
    Ok(())
}

/// Two certificates with the same fields.
pub open spec fn same_qc(a: QC, b: QC) -> bool {
    a.hash == b.hash && a.round == b.round && a.votes@ == b.votes@
}

/// The ancestors as the synchronizer hands them over: `block.qc` certifies
/// `b2`, `b2.qc` certifies `b1`, `b1.qc` certifies `b0`, with rounds that
/// never decrease along the chain and `b2` strictly older than `block`.
pub open spec fn ancestors_linked(block: Block, anc: Ancestors) -> bool {
    &&& block.qc.round == anc.b2.round
    &&& anc.b2.qc.round == anc.b1.round
    &&& anc.b1.qc.round == anc.b0.round
    &&& anc.b0.round <= anc.b1.round
    &&& anc.b1.round <= anc.b2.round
    &&& anc.b2.round < block.round
}

impl Ancestors {
    /// Whether these are linked ancestors of `block`, as `ancestors_linked` states.
    pub fn linked_to(&self, block: &Block) -> (r: bool)
        ensures
            r == ancestors_linked(*block, *self),
    {
        block.qc.round == self.b2.round && self.b2.qc.round == self.b1.round
            && self.b1.qc.round == self.b0.round && self.b0.round <= self.b1.round
            && self.b1.round <= self.b2.round && self.b2.round < block.round
    }
}

/// The three-chain rule: `b0`, `b1`, `b2` and `block` have consecutive rounds.
pub open spec fn three_chain(block: Block, anc: Ancestors) -> bool {
    &&& anc.b0.round + 1 == anc.b1.round
    &&& anc.b1.round + 1 == anc.b2.round
    &&& anc.b2.round + 1 == block.round
}

/// Both safety rules hold for `block` in state `pre`: its `b2` is not older
/// than the preferred round, and its round is above the last voted round.
pub open spec fn safe_to_vote(pre: Core, block: Block, anc: Ancestors) -> bool {
    &&& anc.b2.round >= pre.preferred_round
    &&& block.round > pre.last_voted_round
}

/// The state `post` and the effects `r` that delivering `block` (digest
/// `digest`, ancestors `anc`) produces from state `pre`.
pub open spec fn delivered(pre: Core, post: Core, block: Block, digest: Digest, anc: Ancestors, r: Delivery) -> bool {
    let advanced = pre.round < block.round;
    let voting = safe_to_vote(pre, block, anc);
    &&& post.name == pre.name
    &&& post.committee == pre.committee
    &&& post.stored == pre.stored
    &&& post.timeout_votes == pre.timeout_votes
    &&& post.round == if advanced { block.round } else { pre.round }
    &&& r.left_round == pre.round
    &&& r.entered_round == if advanced { Some(block.round) } else { None }
    &&& forall|rd: RoundNumber, k: VoteKind, h: Digest| #[trigger] post.aggregator.votes_for(rd, k, h)
        == if advanced && rd < block.round { Seq::<SignedBy>::empty() } else { pre.aggregator.votes_for(rd, k, h) }
    &&& if block.qc.round > pre.highest_qc.round {
        same_qc(post.highest_qc, block.qc)
    } else {
        post.highest_qc == pre.highest_qc
    }
    &&& r.commit == if three_chain(block, anc) { Some(anc.b0) } else { None }
    &&& r.vote == if voting {
        Some(post.spec_vote_order(digest, block.round, VoteKind::Block, (post.round + 1) as RoundNumber))
    } else {
        None
    }
    &&& post.preferred_round == if voting && anc.b1.round > pre.preferred_round { anc.b1.round } else { pre.preferred_round }
    &&& post.last_voted_round == if voting { block.round } else { pre.last_voted_round }
    &&& post.block_votes@ == if voting { pre.block_votes@.push((block.round, digest)) } else { pre.block_votes@ }
}

impl Core {
    /// The invariants that hold between two handlers.
    pub open spec fn wf(&self) -> bool {
        &&& self.committee.wf()
        &&& self.aggregator.wf()
        &&& self.aggregator.committee.authorities@ == self.committee.authorities@
        &&& self.last_voted_round <= self.round
        &&& self.preferred_round <= self.last_voted_round
        &&& forall|i: int| 0 <= i < self.block_votes@.len() ==> (#[trigger] self.block_votes@[i]).0 <= self.last_voted_round
        &&& forall|i: int, j: int| 0 <= i < j < self.block_votes@.len()
            ==> (#[trigger] self.block_votes@[i]).0 < (#[trigger] self.block_votes@[j]).0
        &&& forall|i: int| 0 <= i < self.timeout_votes@.len() ==> #[trigger] self.timeout_votes@[i] <= self.round
        &&& forall|i: int, j: int| 0 <= i < j < self.timeout_votes@.len()
            ==> #[trigger] self.timeout_votes@[i] < #[trigger] self.timeout_votes@[j]
    }

    pub open spec fn spec_vote_order(&self, hash: Digest, round: RoundNumber, kind: VoteKind, target: RoundNumber) -> VoteOrder {
        let recipient = self.committee.spec_leader(target);
        VoteOrder { hash, round, kind, recipient, loopback: recipient == self.name }
    }

    /// A fresh replica at round 0, with the genesis QC as its highest QC.
    pub fn new(name: PublicKey, committee: Committee) -> (r: Core)
        requires
            committee.wf(),
        ensures
            r.wf(),
            r.name == name,
            r.committee == committee,
            r.round == 0,
            r.last_voted_round == 0,
            r.preferred_round == 0,
            r.highest_qc.spec_is_genesis(),
            r.stored@ == Set::<Digest>::empty(),
            r.block_votes@.len() == 0,
            r.timeout_votes@.len() == 0,
            forall|rd: RoundNumber, k: VoteKind, h: Digest| r.aggregator.votes_for(rd, k, h) == Seq::<SignedBy>::empty(),
    {
        let aggregator = Aggregator::new(committee.clone_committee());
        Core {
            name,
            committee,
            round: 0,
            last_voted_round: 0,
            preferred_round: 0,
            highest_qc: QC::genesis(),
            aggregator,
            stored: Ghost(Set::empty()),
            block_votes: Ghost(Seq::empty()),
            timeout_votes: Ghost(Seq::empty()),
        }
    }

    /// At start-up the leader of round 1 proposes on top of the genesis QC.
    pub fn boot(&self) -> (r: Option<ProposalOrder>)
        requires
            self.wf(),
        ensures
            (r is Some) == (self.committee.spec_leader(1) == self.name),
            r matches Some(p) ==> p.round == 1 && p.qc.spec_is_genesis() && p.tc is None,
    {
        if self.committee.leader(1) == self.name {
            Some(ProposalOrder { qc: QC::genesis(), tc: None, round: 1 })
        } else {
            None
        }
    }

    /// The round's timer fired: move to the next round and emit a
    /// timeout-vote for it, addressed to the leader of the round after.
    pub fn make_timeout(&mut self) -> (r: VoteOrder)
        requires
            old(self).wf(),
            old(self).round < u64::MAX - 1,
        ensures
            final(self).wf(),
            advances(*old(self), *final(self)),
            final(self).round == old(self).round + 1,
            final(self).last_voted_round == old(self).last_voted_round,
            final(self).preferred_round == old(self).preferred_round,
            final(self).highest_qc == old(self).highest_qc,
            final(self).aggregator == old(self).aggregator,
            final(self).stored == old(self).stored,
            final(self).block_votes == old(self).block_votes,
            final(self).timeout_votes@ == old(self).timeout_votes@.push(final(self).round),
            r == final(self).spec_vote_order(timeout_marker(), final(self).round, VoteKind::Timeout, (final(self).round + 1) as RoundNumber),
    {
        self.round = self.round + 1;
        proof {
            self.timeout_votes@ = self.timeout_votes@.push(self.round);
        }
        let recipient = self.committee.leader(self.round + 1);
        VoteOrder {
            hash: Digest::zero(),
            round: self.round,
            kind: VoteKind::Timeout,
            recipient,
            loopback: recipient == self.name,
        }
    }
    /// Votes of an older round are dropped. Others go to the aggregator;
    /// when one completes a quorum and this replica leads the next round,
    /// the result asks for a proposal carrying the new QC, or the new TC
    /// together with the highest known QC.
    pub fn handle_vote(&mut self, vote: &Vote, signature_valid: bool) -> (r: Result<Option<ProposalOrder>, ConsensusError>)
        requires
            old(self).wf(),
            vote.round < u64::MAX,
        ensures
            final(self).wf(),
            advances(*old(self), *final(self)),
            final(self).round == old(self).round,
            final(self).last_voted_round == old(self).last_voted_round,
            final(self).preferred_round == old(self).preferred_round,
            final(self).highest_qc == old(self).highest_qc,
            final(self).stored == old(self).stored,
            final(self).block_votes == old(self).block_votes,
            final(self).timeout_votes == old(self).timeout_votes,
            vote.round < old(self).round ==> r == Ok::<Option<ProposalOrder>, ConsensusError>(None)
                && final(self).aggregator == old(self).aggregator,
            vote.round >= old(self).round ==> ({
                let agg = old(self).aggregator;
                let cur = agg.votes_for(vote.round, vote.kind, vote.hash);
                let sv = SignedBy { author: vote.author, signature: vote.signature };
                &&& (r is Ok) == (agg.rejection(*vote, signature_valid) is None)
                &&& (r matches Err(e) ==> agg.rejection(*vote, signature_valid) matches Some(a) && e == error_of(a, vote.author))
                &&& final(self).aggregator.votes_for(vote.round, vote.kind, vote.hash)
                    == if agg.rejection(*vote, signature_valid) is None && cur.len() < agg.committee.spec_quorum() {
                        cur.push(sv)
                    } else {
                        cur
                    }
                &&& forall|rd: RoundNumber, k: VoteKind, h: Digest|
                    !(rd == vote.round && k == vote.kind && h == vote.hash) ==>
                    #[trigger] final(self).aggregator.votes_for(rd, k, h) == agg.votes_for(rd, k, h)
                &&& (r matches Ok(Some(_))) == (agg.quorum_after(*vote, signature_valid) is Some
                    && old(self).committee.spec_leader((vote.round + 1) as RoundNumber) == old(self).name)
                &&& r matches Ok(Some(p)) ==> {
                    let quorum = agg.quorum_after(*vote, signature_valid)->Some_0;
                    &&& p.round == vote.round + 1
                    &&& quorum.len() == old(self).committee.spec_quorum()
                    &&& sound_signers(old(self).committee, quorum)
                    &&& vote.kind == VoteKind::Block ==> p.qc.hash == vote.hash && p.qc.round == vote.round
                        && p.qc.votes@ == quorum && p.tc is None
                    &&& vote.kind == VoteKind::Timeout ==> p.qc.hash == old(self).highest_qc.hash
                        && p.qc.round == old(self).highest_qc.round
                        && p.qc.votes@ == old(self).highest_qc.votes@
                        && (p.tc matches Some(tc) && tc.round == vote.round && tc.votes@ == quorum)
                }
            }),
    {
        if vote.round < self.round {
            return Ok(None);
        }
        let added = self.aggregator.add_vote(vote, signature_valid);
        match added {
            Err(AggregatorError::UnknownAuthority) => Err(ConsensusError::UnknownAuthority(vote.author)),
            Err(AggregatorError::InvalidSignature) => Err(ConsensusError::InvalidSignature),
            Err(AggregatorError::AuthorityReuse) => Err(ConsensusError::AuthorityReuse(vote.author)),
            Ok(None) => Ok(None),
            Ok(Some(quorum)) => {
                let next_round = vote.round + 1;
                if self.name == self.committee.leader(next_round) {
                    match vote.kind {
                        VoteKind::Timeout => {
                            let tc = TC { round: vote.round, votes: quorum };
                            Ok(Some(ProposalOrder { qc: self.highest_qc.copy(), tc: Some(tc), round: next_round }))
                        },
                        VoteKind::Block => {
                            let qc = QC { hash: vote.hash, round: vote.round, votes: quorum };
                            Ok(Some(ProposalOrder { qc, tc: None, round: next_round }))
                        },
                    }
                } else {
                    Ok(None)
                }
            },
        }
    }
    /// A proposal for a round this replica has already reached.
    pub open spec fn is_stale(&self, block: Block) -> bool {
        block.round <= self.round
    }

    /// The checks a proposal passes before it reaches the block processor.
    pub open spec fn proposal_ok(&self, block: Block, sigs: ProposalSignatures) -> bool {
        &&& !self.is_stale(block)
        &&& block.round == block.spec_justified_round()
        &&& block.author == self.committee.spec_leader(block.round)
        &&& sigs.block
        &&& block.qc.spec_is_genesis() || certificate_ok(self.committee, block.qc.votes@, sigs.qc)
        &&& block.tc matches Some(tc) ==> certificate_ok(self.committee, tc.votes@, sigs.tc)
    }

    /// Validates a proposal whose digest is `digest`, in order: freshness,
    /// round consistency, authorship, block signature, embedded QC (unless
    /// genesis) and embedded TC. `Ok(true)` sends it on to `process_block`;
    /// `Ok(false)` drops a stale one silently.
    pub fn handle_propose(&self, block: &Block, digest: Digest, sigs: ProposalSignatures) -> (r: Result<bool, ConsensusError>)
        requires
            self.wf(),
        ensures
            self.is_stale(*block) ==> r == Ok::<bool, ConsensusError>(false),
            (r == Ok::<bool, ConsensusError>(true)) == self.proposal_ok(*block, sigs),
            !self.is_stale(*block) ==> r != Ok::<bool, ConsensusError>(false),
            !self.is_stale(*block) && block.round != block.spec_justified_round()
                ==> r == Err::<bool, ConsensusError>(ConsensusError::MalformedBlock(digest)),
            !self.is_stale(*block) && block.round == block.spec_justified_round()
                && block.author != self.committee.spec_leader(block.round)
                ==> r == Err::<bool, ConsensusError>(ConsensusError::WrongLeader { digest, leader: block.author, round: block.round }),
            !self.is_stale(*block) && block.round == block.spec_justified_round()
                && block.author == self.committee.spec_leader(block.round) && !sigs.block
                ==> r == Err::<bool, ConsensusError>(ConsensusError::InvalidSignature),
    {
        if block.round <= self.round {
            return Ok(false);
        }
        if !block.has_consistent_round() {
            return Err(ConsensusError::MalformedBlock(digest));
        }
        if block.author != self.committee.leader(block.round) {
            return Err(ConsensusError::WrongLeader { digest, leader: block.author, round: block.round });
        }
        if !sigs.block {
            return Err(ConsensusError::InvalidSignature);
        }
        if !block.qc.is_genesis() {
            match check_certificate(&self.committee, &block.qc.votes, sigs.qc, ConsensusError::QCRequiresQuorum) {
                Ok(()) => {},
                Err(e) => { return Err(e); },
            }
        }
        match &block.tc {
            Some(tc) => {
                match check_certificate(&self.committee, &tc.votes, sigs.tc, ConsensusError::TCRequiresQuorum) {
                    Ok(()) => {},
                    Err(e) => { return Err(e); },
                }
            },
            None => {},
        }
        Ok(true)
    }
    /// Notes that the store write of the block with `digest` has completed.
    pub fn record_stored(&mut self, digest: Digest)
        requires
            old(self).wf(),
        ensures
            final(self).wf(),
            advances(*old(self), *final(self)),
            final(self).stored@ == old(self).stored@.insert(digest),
            final(self).round == old(self).round,
            final(self).last_voted_round == old(self).last_voted_round,
            final(self).preferred_round == old(self).preferred_round,
            final(self).highest_qc == old(self).highest_qc,
            final(self).aggregator == old(self).aggregator,
            final(self).block_votes == old(self).block_votes,
            final(self).timeout_votes == old(self).timeout_votes,
    {
        proof {
            self.stored@ = self.stored@.insert(digest);
        }
    }

    /// Delivers a structurally valid block whose payload is available, whose
    /// ancestors are known and which is already stored: enters its round if
    /// that is new, adopts its QC if higher, commits `b0` on a three-chain,
    /// and votes for it when both safety rules allow.
    pub fn process_block(&mut self, block: &Block, digest: Digest, ancestors: Ancestors) -> (r: Delivery)
        requires
            old(self).wf(),
            old(self).round < u64::MAX,
            block.round < u64::MAX,
            block.round == block.spec_justified_round(),
            ancestors_linked(*block, ancestors),
            old(self).stored@.contains(digest),
        ensures
            final(self).wf(),
            advances(*old(self), *final(self)),
            delivered(*old(self), *final(self), *block, digest, ancestors, r),
    {
        let ghost pre = *self;
        let left_round = self.round;
        let next = block.cert_round() + 1;
        let entered_round = if self.round < next {
            self.round = next;
            self.aggregator.cleanup(next);
            Some(next)
        } else {
            None
        };
        if block.qc.round > self.highest_qc.round {
            self.highest_qc = block.qc.copy();
        }
        let commit_rule = ancestors.b0.round + 1 == ancestors.b1.round
            && ancestors.b1.round + 1 == ancestors.b2.round
            && ancestors.b2.round + 1 == block.round;
        let safety_rule_1 = ancestors.b2.round >= self.preferred_round;
        let safety_rule_2 = block.round > self.last_voted_round;
        let vote = if safety_rule_1 && safety_rule_2 {
            let recipient = self.committee.leader(self.round + 1);
            if ancestors.b1.round > self.preferred_round {
                self.preferred_round = ancestors.b1.round;
            }
            self.last_voted_round = block.round;
            proof {
                self.block_votes@ = self.block_votes@.push((block.round, digest));
            }
            Some(VoteOrder {
                hash: digest,
                round: block.round,
                kind: VoteKind::Block,
                recipient,
                loopback: recipient == self.name,
            })
        } else {
            None
        };
        let commit = if commit_rule { Some(ancestors.b0) } else { None };
        Delivery { entered_round, left_round, commit, vote }
    }
    /// Assembles this replica's block for `order` around `payload`. Its
    /// signature is left zero: the caller signs the block's digest and
    /// fills it in.
    pub fn make_block(&self, order: ProposalOrder, payload: Digest) -> (r: Block)
        ensures
            r.author == self.name,
            r.round == order.round,
            r.payload == payload,
            r.qc == order.qc,
            r.tc == order.tc,
            r.signature == (Signature { w0: 0, w1: 0, w2: 0, w3: 0 }),
    {
        Block {
            qc: order.qc,
            tc: order.tc,
            author: self.name,
            round: order.round,
            payload,
            signature: Signature { w0: 0, w1: 0, w2: 0, w3: 0 },
        }
    }
}

} // verus!
