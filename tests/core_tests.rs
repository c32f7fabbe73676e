use consensus::aggregator::{Aggregator, AggregatorError};
use consensus::committee::Committee;
use consensus::messages::{Block, Digest, PublicKey, Signature, SignedBy, Vote, VoteKind, QC, TC};
use consensus::replica::{
    check_certificate, Ancestors, ConsensusError, Core, Delivery, ProposalSignatures,
};

fn key(n: u128) -> PublicKey {
    PublicKey { hi: 7, lo: n }
}

fn digest(n: u128) -> Digest {
    Digest { hi: 1, lo: n }
}

fn sig(n: u128) -> Signature {
    Signature { w0: n, w1: n, w2: n, w3: n }
}

fn committee(n: u128) -> Committee {
    Committee::new((0..n).map(key).collect())
}

fn signed(n: u128) -> SignedBy {
    SignedBy { author: key(n), signature: sig(n) }
}

fn genesis_block() -> Block {
    Block { qc: QC::genesis(), tc: None, author: key(0), round: 0, payload: Digest::zero(), signature: sig(0) }
}

fn block(round: u64, qc: QC, tc: Option<TC>, author: PublicKey) -> Block {
    Block { qc, tc, author, round, payload: digest(1000 + round as u128), signature: sig(round as u128) }
}

fn qc_over(hash: Digest, round: u64, signers: &[u128]) -> QC {
    QC { hash, round, votes: signers.iter().map(|n| signed(*n)).collect() }
}

fn all_valid() -> ProposalSignatures {
    ProposalSignatures { block: true, qc: true, tc: true }
}

fn ancestors(b0: &Block, b1: &Block, b2: &Block) -> Ancestors {
    Ancestors { b0: b0.clone(), b1: b1.clone(), b2: b2.clone() }
}

fn deliver(core: &mut Core, b: &Block, d: Digest, anc: Ancestors) -> Delivery {
    core.record_stored(d);
    core.process_block(b, d, anc)
}

fn block_vote(hash: Digest, round: u64, author: u128) -> Vote {
    Vote { hash, round, author: key(author), signature: sig(author), kind: VoteKind::Block }
}

fn timeout_vote(round: u64, author: u128) -> Vote {
    Vote { hash: Digest::zero(), round, author: key(author), signature: sig(author), kind: VoteKind::Timeout }
}

#[test]
fn quorum_threshold_values() {
    assert_eq!(committee(1).quorum_threshold(), 1);
    assert_eq!(committee(3).quorum_threshold(), 3);
    assert_eq!(committee(4).quorum_threshold(), 3);
    assert_eq!(committee(7).quorum_threshold(), 5);
    assert_eq!(committee(10).quorum_threshold(), 7);
}

#[test]
fn leaders_rotate_in_committee_order() {
    let c = committee(4);
    assert_eq!(c.leader(0), key(0));
    assert_eq!(c.leader(1), key(1));
    assert_eq!(c.leader(5), key(1));
    assert_eq!(c.leader(7), key(3));
    assert!(c.contains(&key(2)));
    assert!(!c.contains(&key(9)));
}

#[test]
fn single_node_bootstrap() {
    let a = key(0);
    let mut core = Core::new(a, committee(1));
    let order = core.boot().expect("sole replica leads round 1");
    assert_eq!(order.round, 1);
    assert!(order.qc.is_genesis());
    assert!(order.tc.is_none());

    let g = genesis_block();
    let b1 = block(1, order.qc, None, a);
    let mut chain = vec![g.clone(), g.clone(), g.clone(), b1];
    let mut commits_of_round_1 = 0;
    for round in 1..=4u64 {
        let b = chain[chain.len() - 1].clone();
        assert_eq!(b.round, round);
        let n = chain.len();
        let anc = ancestors(&chain[n - 4], &chain[n - 3], &chain[n - 2]);
        let d = digest(round as u128);
        let out = deliver(&mut core, &b, d, anc);
        assert_eq!(core.round, round);
        if let Some(c) = &out.commit {
            if c.round == 1 {
                commits_of_round_1 += 1;
            }
        }
        let v = out.vote.expect("the replica votes for its own block");
        assert!(v.loopback);
        assert_eq!(v.recipient, a);
        assert_eq!(v.round, round);
        let vote = Vote { hash: v.hash, round: v.round, author: a, signature: sig(0), kind: v.kind };
        let next = core.handle_vote(&vote, true).unwrap().expect("a quorum of one");
        assert_eq!(next.round, round + 1);
        assert_eq!(next.qc.hash, d);
        assert_eq!(next.qc.round, round);
        assert_eq!(next.qc.votes.len(), 1);
        if round < 4 {
            chain.push(block(round + 1, next.qc, None, a));
        }
    }
    assert_eq!(commits_of_round_1, 1);
}

#[test]
fn timeout_and_skip() {
    let (a, c_name) = (key(0), key(2));
    let mut core_a = Core::new(a, committee(4));
    assert!(core_a.boot().is_none());
    let v = core_a.make_timeout();
    assert_eq!(core_a.round, 1);
    assert_eq!(v.round, 1);
    assert_eq!(v.kind, VoteKind::Timeout);
    assert_eq!(v.hash, Digest::zero());
    assert_eq!(v.recipient, c_name);
    assert!(!v.loopback);

    let mut core_c = Core::new(c_name, committee(4));
    let own = core_c.make_timeout();
    assert!(own.loopback);
    assert_eq!(core_c.handle_vote(&timeout_vote(1, 0), true).unwrap().is_none(), true);
    assert_eq!(core_c.handle_vote(&timeout_vote(1, 2), true).unwrap().is_none(), true);
    let p = core_c.handle_vote(&timeout_vote(1, 3), true).unwrap().expect("three timeouts form a TC");
    assert_eq!(p.round, 2);
    assert!(p.qc.is_genesis());
    let tc = p.tc.expect("a TC over round 1");
    assert_eq!(tc.round, 1);
    assert_eq!(tc.votes.len(), 3);
    // The quorum is reported once only.
    assert!(core_c.handle_vote(&timeout_vote(1, 1), true).unwrap().is_none());
}

#[test]
fn safety_rule_1_blocks_vote() {
    let a = key(0);
    let mut core = Core::new(a, committee(4));
    core.round = 6;
    core.last_voted_round = 5;
    core.preferred_round = 5;
    let b0 = block(2, qc_over(digest(1), 1, &[0, 1, 2]), None, key(2));
    let b1 = block(3, qc_over(digest(2), 2, &[0, 1, 2]), None, key(3));
    let b2 = block(4, qc_over(digest(3), 3, &[0, 1, 2]), None, key(0));
    let tc = TC { round: 6, votes: vec![signed(0), signed(1), signed(2)] };
    let b = block(7, qc_over(digest(4), 4, &[0, 1, 2]), Some(tc), key(3));
    let out = deliver(&mut core, &b, digest(7), ancestors(&b0, &b1, &b2));
    assert!(out.vote.is_none());
    assert_eq!(core.last_voted_round, 5);
    assert_eq!(core.preferred_round, 5);
    assert_eq!(core.round, 7);
    assert_eq!(out.entered_round, Some(7));
    assert_eq!(out.left_round, 6);
}

#[test]
fn safety_rule_2_blocks_vote() {
    let a = key(0);
    let mut core = Core::new(a, committee(4));
    core.round = 7;
    core.last_voted_round = 7;
    let b0 = block(4, qc_over(digest(3), 3, &[0, 1, 2]), None, key(0));
    let b1 = block(5, qc_over(digest(4), 4, &[0, 1, 2]), None, key(1));
    let b2 = block(6, qc_over(digest(5), 5, &[0, 1, 2]), None, key(2));
    let b = block(7, qc_over(digest(6), 6, &[1, 2, 3]), None, key(3));
    assert_eq!(core.handle_propose(&b, digest(77), all_valid()), Ok(false));
    let out = deliver(&mut core, &b, digest(77), ancestors(&b0, &b1, &b2));
    assert!(out.vote.is_none());
    assert_eq!(core.last_voted_round, 7);
    assert!(out.entered_round.is_none());
    // The chain 4, 5, 6, 7 is consecutive, so b0 is committed.
    assert_eq!(out.commit.map(|c| c.round), Some(4));
}

#[test]
fn sync_driven_catch_up() {
    let a = key(0);
    let mut core = Core::new(a, committee(4));
    let b7 = block(7, qc_over(digest(6), 6, &[0, 1, 2]), None, key(3));
    let b8 = block(8, qc_over(digest(7), 7, &[0, 1, 2]), None, key(0));
    let b9 = block(9, qc_over(digest(8), 8, &[0, 1, 2]), None, key(1));
    let b = block(10, qc_over(digest(9), 9, &[0, 1, 3]), None, key(2));
    assert_eq!(core.handle_propose(&b, digest(10), all_valid()), Ok(true));
    // The ancestors are missing: nothing is delivered and the state stays.
    assert_eq!(core.round, 0);
    assert_eq!(core.last_voted_round, 0);
    assert_eq!(core.highest_qc.round, 0);
    // Once they arrive, delivery completes.
    let out = deliver(&mut core, &b, digest(10), ancestors(&b7, &b8, &b9));
    assert_eq!(core.round, 10);
    assert_eq!(out.entered_round, Some(10));
    assert_eq!(out.left_round, 0);
    assert_eq!(core.highest_qc.round, 9);
    assert_eq!(core.last_voted_round, 10);
    assert_eq!(core.preferred_round, 8);
    let v = out.vote.expect("both safety rules hold");
    assert_eq!(v.recipient, key(3));
    assert_eq!(v.hash, digest(10));
    assert_eq!(out.commit.map(|c| c.round), Some(7));
}

#[test]
fn old_vote_discard() {
    let mut core = Core::new(key(0), committee(4));
    core.round = 12;
    assert!(matches!(core.handle_vote(&block_vote(digest(5), 5, 1), true), Ok(None)));
    assert!(core.aggregator.tallies.is_empty());
    assert_eq!(core.round, 12);
}

#[test]
fn non_equivocation_on_two_blocks_of_one_round() {
    let mut core = Core::new(key(0), committee(4));
    let g = genesis_block();
    let first = block(1, QC::genesis(), None, key(1));
    let mut second = block(1, QC::genesis(), None, key(1));
    second.payload = digest(4242);
    let out1 = deliver(&mut core, &first, digest(1), ancestors(&g, &g, &g));
    let out2 = deliver(&mut core, &second, digest(2), ancestors(&g, &g, &g));
    assert!(out1.vote.is_some());
    assert!(out2.vote.is_none());
    assert_eq!(core.last_voted_round, 1);
}

#[test]
fn proposal_idempotence() {
    let mut core = Core::new(key(0), committee(4));
    let g = genesis_block();
    let b = block(1, QC::genesis(), None, key(1));
    assert_eq!(core.handle_propose(&b, digest(1), all_valid()), Ok(true));
    let out = deliver(&mut core, &b, digest(1), ancestors(&g, &g, &g));
    assert!(out.vote.is_some());
    assert_eq!(core.handle_propose(&b, digest(1), all_valid()), Ok(false));
    assert_eq!(core.round, 1);
    assert_eq!(core.last_voted_round, 1);
}

#[test]
fn loopback_equivalence() {
    let g = genesis_block();
    let b = block(1, QC::genesis(), None, key(1));
    let mut via_network = Core::new(key(1), committee(4));
    let mut via_loopback = Core::new(key(1), committee(4));
    assert_eq!(via_network.handle_propose(&b, digest(1), all_valid()), Ok(true));
    let r1 = deliver(&mut via_network, &b, digest(1), ancestors(&g, &g, &g));
    let r2 = deliver(&mut via_loopback, &b, digest(1), ancestors(&g, &g, &g));
    assert_eq!(r1.vote, r2.vote);
    assert_eq!(r1.entered_round, r2.entered_round);
    assert_eq!(r1.left_round, r2.left_round);
    assert_eq!(r1.commit.is_some(), r2.commit.is_some());
    assert_eq!(via_network.round, via_loopback.round);
    assert_eq!(via_network.last_voted_round, via_loopback.last_voted_round);
    assert_eq!(via_network.preferred_round, via_loopback.preferred_round);
}

#[test]
fn propose_errors() {
    let core = Core::new(key(0), committee(4));
    let good_qc = qc_over(digest(1), 1, &[0, 1, 2]);
    // Round does not follow the QC.
    let b = block(3, good_qc.clone(), None, key(3));
    assert_eq!(core.handle_propose(&b, digest(3), all_valid()), Err(ConsensusError::MalformedBlock(digest(3))));
    // Round does not follow the TC.
    let tc = TC { round: 4, votes: vec![signed(0), signed(1), signed(2)] };
    let b = block(3, good_qc.clone(), Some(tc), key(3));
    assert_eq!(core.handle_propose(&b, digest(3), all_valid()), Err(ConsensusError::MalformedBlock(digest(3))));
    // Wrong leader.
    let b = block(2, good_qc.clone(), None, key(1));
    assert_eq!(
        core.handle_propose(&b, digest(2), all_valid()),
        Err(ConsensusError::WrongLeader { digest: digest(2), leader: key(1), round: 2 })
    );
    // Bad block signature.
    let b = block(2, good_qc.clone(), None, key(2));
    let bad_block = ProposalSignatures { block: false, qc: true, tc: true };
    assert_eq!(core.handle_propose(&b, digest(2), bad_block), Err(ConsensusError::InvalidSignature));
    // QC below quorum.
    let b = block(2, qc_over(digest(1), 1, &[0, 1]), None, key(2));
    assert_eq!(core.handle_propose(&b, digest(2), all_valid()), Err(ConsensusError::QCRequiresQuorum));
    // QC with a repeated signer.
    let b = block(2, qc_over(digest(1), 1, &[0, 1, 1]), None, key(2));
    assert_eq!(core.handle_propose(&b, digest(2), all_valid()), Err(ConsensusError::AuthorityReuse(key(1))));
    // QC with a stranger.
    let b = block(2, qc_over(digest(1), 1, &[0, 1, 9]), None, key(2));
    assert_eq!(core.handle_propose(&b, digest(2), all_valid()), Err(ConsensusError::UnknownAuthority(key(9))));
    // QC signatures rejected.
    let b = block(2, good_qc.clone(), None, key(2));
    let bad_qc = ProposalSignatures { block: true, qc: false, tc: true };
    assert_eq!(core.handle_propose(&b, digest(2), bad_qc), Err(ConsensusError::InvalidSignature));
    // TC below quorum.
    let tc = TC { round: 1, votes: vec![signed(0)] };
    let b = block(2, QC::genesis(), Some(tc), key(2));
    assert_eq!(core.handle_propose(&b, digest(2), all_valid()), Err(ConsensusError::TCRequiresQuorum));
    // A valid one.
    let b = block(2, good_qc, None, key(2));
    assert_eq!(core.handle_propose(&b, digest(2), all_valid()), Ok(true));
}

#[test]
fn certificate_check() {
    let c = committee(4);
    let votes = vec![signed(3), signed(2), signed(1)];
    assert_eq!(check_certificate(&c, &votes, true, ConsensusError::QCRequiresQuorum), Ok(()));
    assert_eq!(
        check_certificate(&c, &votes, false, ConsensusError::QCRequiresQuorum),
        Err(ConsensusError::InvalidSignature)
    );
    let short = vec![signed(3)];
    assert_eq!(
        check_certificate(&c, &short, true, ConsensusError::TCRequiresQuorum),
        Err(ConsensusError::TCRequiresQuorum)
    );
}

#[test]
fn aggregator_rejections_and_quorum() {
    let mut agg = Aggregator::new(committee(4));
    let h = digest(5);
    assert_eq!(agg.add_vote(&block_vote(h, 3, 9), true), Err(AggregatorError::UnknownAuthority));
    assert_eq!(agg.add_vote(&block_vote(h, 3, 0), false), Err(AggregatorError::InvalidSignature));
    assert_eq!(agg.add_vote(&block_vote(h, 3, 0), true), Ok(None));
    assert_eq!(agg.add_vote(&block_vote(h, 3, 0), true), Err(AggregatorError::AuthorityReuse));
    // A vote for another hash is tallied apart.
    assert_eq!(agg.add_vote(&block_vote(digest(6), 3, 1), true), Ok(None));
    assert_eq!(agg.add_vote(&block_vote(h, 3, 1), true), Ok(None));
    let q = agg.add_vote(&block_vote(h, 3, 2), true).unwrap().expect("third vote completes");
    assert_eq!(q.len(), 3);
    assert_eq!(q[0].author, key(0));
    assert_eq!(q[1].author, key(1));
    assert_eq!(q[2].author, key(2));
    assert_eq!(agg.add_vote(&block_vote(h, 3, 3), true), Ok(None));
    agg.cleanup(4);
    assert!(agg.tallies.is_empty());
}

#[test]
fn aggregator_cleanup_keeps_current_rounds() {
    let mut agg = Aggregator::new(committee(4));
    assert_eq!(agg.add_vote(&block_vote(digest(1), 2, 0), true), Ok(None));
    assert_eq!(agg.add_vote(&block_vote(digest(1), 5, 0), true), Ok(None));
    assert_eq!(agg.add_vote(&timeout_vote(6, 0), true), Ok(None));
    agg.cleanup(5);
    assert_eq!(agg.tallies.len(), 2);
    assert!(agg.tallies.iter().all(|t| t.round >= 5));
}

#[test]
fn highest_qc_is_adopted() {
    let mut core = Core::new(key(0), committee(4));
    let g = genesis_block();
    let b1 = block(1, QC::genesis(), None, key(1));
    let b2 = block(2, qc_over(digest(1), 1, &[0, 1, 2]), None, key(2));
    deliver(&mut core, &b1, digest(1), ancestors(&g, &g, &g));
    let out = deliver(&mut core, &b2, digest(2), ancestors(&g, &g, &b1));
    assert_eq!(core.highest_qc.round, 1);
    assert_eq!(core.highest_qc.hash, digest(1));
    assert_eq!(core.preferred_round, 0);
    let v = out.vote.expect("vote for round 2");
    assert_eq!(v.recipient, key(3));
}

#[test]
fn make_block_fills_the_order() {
    let core = Core::new(key(2), committee(4));
    let order = consensus::replica::ProposalOrder { qc: qc_over(digest(1), 1, &[0, 1, 2]), tc: None, round: 2 };
    let b = core.make_block(order, digest(99));
    assert_eq!(b.author, key(2));
    assert_eq!(b.round, 2);
    assert_eq!(b.payload, digest(99));
    assert_eq!(b.qc.hash, digest(1));
    assert!(b.tc.is_none());
    assert_eq!(core.handle_propose(&b, digest(2), all_valid()), Ok(true));
}

#[test]
fn timeout_vote_near_round_limit() {
    let mut core = Core::new(key(0), committee(4));
    core.round = u64::MAX - 2;
    core.last_voted_round = 0;
    let v = core.make_timeout();
    assert_eq!(core.round, u64::MAX - 1);
    assert_eq!(v.round, u64::MAX - 1);
    assert_eq!(v.recipient, key((u64::MAX % 4) as u128));
}
