use vstd::prelude::*;
use crate::committee::Committee;
use crate::messages::{Digest, PublicKey, RoundNumber, SignedBy, Vote, VoteKind};

verus! {

/// The votes collected so far for one (round, kind, hash).
#[derive(Clone, Debug)]
pub struct Tally {
    pub round: RoundNumber,
    pub kind: VoteKind,
    pub hash: Digest,
    pub votes: Vec<SignedBy>,
}

/// Why the aggregator refused a vote.
#[derive(Clone, Copy, Debug, PartialEq, Eq, Structural)]
pub enum AggregatorError {
    UnknownAuthority,
    InvalidSignature,
    AuthorityReuse,
}

/// Collects votes until a quorum of distinct committee members agrees on
/// the same (round, kind, hash).
#[derive(Clone, Debug)]
pub struct Aggregator {
    pub committee: Committee,
    pub tallies: Vec<Tally>,
}

pub open spec fn authors(votes: Seq<SignedBy>) -> Seq<PublicKey> {
    votes.map_values(|s: SignedBy| s.author)
}

pub open spec fn has_key(t: Tally, round: RoundNumber, kind: VoteKind, hash: Digest) -> bool {
    t.round == round && t.kind == kind && t.hash == hash
}

/// Every signer is a committee member and appears once.
pub open spec fn sound_signers(committee: Committee, votes: Seq<SignedBy>) -> bool {
    &&& authors(votes).no_duplicates()
    &&& forall|j: int| 0 <= j < votes.len() ==> committee.authorities@.contains(#[trigger] votes[j].author)
}

impl Aggregator {
    pub open spec fn wf(&self) -> bool {
        &&& self.committee.wf()
        &&& forall|i: int| 0 <= i < self.tallies@.len() ==> {
            &&& (#[trigger] self.tallies@[i]).votes@.len() <= self.committee.spec_quorum()
            &&& sound_signers(self.committee, self.tallies@[i].votes@)
        }
        &&& forall|i: int, j: int|
            #![trigger self.tallies@[i], self.tallies@[j]]
            0 <= i < self.tallies@.len() && 0 <= j < self.tallies@.len() && i != j
                ==> !has_key(self.tallies@[i], self.tallies@[j].round, self.tallies@[j].kind, self.tallies@[j].hash)
    }

    /// The votes held for (round, kind, hash); empty when none arrived.
    pub open spec fn votes_for(&self, round: RoundNumber, kind: VoteKind, hash: Digest) -> Seq<SignedBy> {
        if exists|i: int| 0 <= i < self.tallies@.len() && has_key(#[trigger] self.tallies@[i], round, kind, hash) {
            let i = choose|i: int| 0 <= i < self.tallies@.len() && has_key(#[trigger] self.tallies@[i], round, kind, hash);
            self.tallies@[i].votes@
        } else {
            Seq::empty()
        }
    }

    /// Why `vote` would be refused, if it would be.
    pub open spec fn rejection(&self, vote: Vote, signature_valid: bool) -> Option<AggregatorError> {
        if !self.committee.authorities@.contains(vote.author) {
            Some(AggregatorError::UnknownAuthority)
        } else if !signature_valid {
            Some(AggregatorError::InvalidSignature)
        } else if authors(self.votes_for(vote.round, vote.kind, vote.hash)).contains(vote.author) {
            Some(AggregatorError::AuthorityReuse)
        } else {
            None
        }
    }

    /// The quorum that accepting `vote` completes, if it completes one.
    pub open spec fn quorum_after(&self, vote: Vote, signature_valid: bool) -> Option<Seq<SignedBy>> {
        let cur = self.votes_for(vote.round, vote.kind, vote.hash);
        if self.rejection(vote, signature_valid) is None && cur.len() + 1 == self.committee.spec_quorum() {
            Some(cur.push(SignedBy { author: vote.author, signature: vote.signature }))
        } else {
            None
        }
    }

    pub fn new(committee: Committee) -> (r: Aggregator)
        requires
            committee.wf(),
        ensures
            r.wf(),
            r.committee == committee,
            forall|round: RoundNumber, kind: VoteKind, hash: Digest| r.votes_for(round, kind, hash) == Seq::<SignedBy>::empty(),
    {
        Aggregator { committee, tallies: Vec::new() }
    }

    fn find_tally(&self, vote: &Vote) -> (r: Option<usize>)
        requires
            self.wf(),
        ensures
            match r {
                Some(i) => i < self.tallies@.len() && has_key(self.tallies@[i as int], vote.round, vote.kind, vote.hash)
                    && self.votes_for(vote.round, vote.kind, vote.hash) == self.tallies@[i as int].votes@,
                None => forall|i: int| 0 <= i < self.tallies@.len() ==> !has_key(#[trigger] self.tallies@[i], vote.round, vote.kind, vote.hash),
            },
    {
        let mut i: usize = 0;
        while i < self.tallies.len()
            invariant
                self.wf(),
                i <= self.tallies@.len(),
                forall|j: int| 0 <= j < i ==> !has_key(#[trigger] self.tallies@[j], vote.round, vote.kind, vote.hash),
            decreases self.tallies@.len() - i,
        {
            let t = &self.tallies[i];
            if t.round == vote.round && t.kind == vote.kind && t.hash == vote.hash {
                proof {
                    assert(has_key(self.tallies@[i as int], vote.round, vote.kind, vote.hash));
                    let c = choose|c: int| 0 <= c < self.tallies@.len() && has_key(#[trigger] self.tallies@[c], vote.round, vote.kind, vote.hash);
                    if c != i as int {
                        assert(!has_key(self.tallies@[c], self.tallies@[i as int].round, self.tallies@[i as int].kind, self.tallies@[i as int].hash));
                    }
                }
                return Some(i);
            }
            i += 1;
        }
        None
    }
}

impl Aggregator {
    /// Records `vote`, whose signature the caller has checked
    /// (`signature_valid`), and returns the votes of its (round, kind, hash)
    /// at the moment they first reach a quorum. A returned set always holds
    /// exactly a quorum of distinct committee members.
    pub fn add_vote(&mut self, vote: &Vote, signature_valid: bool) -> (r: Result<Option<Vec<SignedBy>>, AggregatorError>)
        requires
            old(self).wf(),
        ensures
            final(self).wf(),
            final(self).committee == old(self).committee,
            ({
                let cur = old(self).votes_for(vote.round, vote.kind, vote.hash);
                let sv = SignedBy { author: vote.author, signature: vote.signature };
                let q = old(self).committee.spec_quorum();
                if !old(self).committee.authorities@.contains(vote.author) {
                    r == Err::<Option<Vec<SignedBy>>, AggregatorError>(AggregatorError::UnknownAuthority)
                        && *final(self) == *old(self)
                } else if !signature_valid {
                    r == Err::<Option<Vec<SignedBy>>, AggregatorError>(AggregatorError::InvalidSignature)
                        && *final(self) == *old(self)
                } else if authors(cur).contains(vote.author) {
                    r == Err::<Option<Vec<SignedBy>>, AggregatorError>(AggregatorError::AuthorityReuse)
                        && *final(self) == *old(self)
                } else if cur.len() >= q {
                    r == Ok::<Option<Vec<SignedBy>>, AggregatorError>(None) && *final(self) == *old(self)
                } else {
                    &&& final(self).votes_for(vote.round, vote.kind, vote.hash) == cur.push(sv)
                    &&& cur.len() + 1 == q ==> (r matches Ok(Some(v)) && v@ == cur.push(sv))
                    &&& cur.len() + 1 < q ==> r == Ok::<Option<Vec<SignedBy>>, AggregatorError>(None)
                    &&& forall|round: RoundNumber, kind: VoteKind, hash: Digest|
                        !(round == vote.round && kind == vote.kind && hash == vote.hash) ==>
                        #[trigger] final(self).votes_for(round, kind, hash) == old(self).votes_for(round, kind, hash)
                }
            }),
            r matches Ok(Some(v)) ==> v@.len() == final(self).committee.spec_quorum()
                && sound_signers(final(self).committee, v@),
            (r matches Err(e) ==> old(self).rejection(*vote, signature_valid) == Some(e)),
            r is Ok <==> old(self).rejection(*vote, signature_valid) is None,
            r matches Ok(Some(v)) ==> old(self).quorum_after(*vote, signature_valid) == Some(v@),
            r matches Ok(None) ==> old(self).quorum_after(*vote, signature_valid) is None,
    {
        if !self.committee.contains(&vote.author) {
            return Err(AggregatorError::UnknownAuthority);
        }
        if !signature_valid {
            return Err(AggregatorError::InvalidSignature);
        }
        let q = self.committee.quorum_threshold();
        let sv = SignedBy { author: vote.author, signature: vote.signature };
        let ghost pre = *self;
        match self.find_tally(vote) {
            Some(i) => {
                if signed_by(&self.tallies[i].votes, &vote.author) {
                    return Err(AggregatorError::AuthorityReuse);
                }
                if self.tallies[i].votes.len() >= q {
                    return Ok(None);
                }
                self.tallies[i].votes.push(sv);
                proof {
                    self.lemma_push_sound(pre, i as int, sv);
                    self.lemma_frame_update(pre, i as int, vote.round, vote.kind, vote.hash);
                }
                if self.tallies[i].votes.len() == q {
                    let mut out: Vec<SignedBy> = Vec::new();
                    let mut k: usize = 0;
                    while k < self.tallies[i].votes.len()
                        invariant
                            i < self.tallies@.len(),
                            k <= self.tallies@[i as int].votes@.len(),
                            out@ == self.tallies@[i as int].votes@.subrange(0, k as int),
                        decreases self.tallies@[i as int].votes@.len() - k,
                    {
                        out.push(self.tallies[i].votes[k]);
                        k += 1;
                        assert(out@ =~= self.tallies@[i as int].votes@.subrange(0, k as int));
                    }
                    assert(out@ =~= self.tallies@[i as int].votes@);
                    Ok(Some(out))
                } else {
                    Ok(None)
                }
            },
            None => {
                let mut votes: Vec<SignedBy> = Vec::new();
                votes.push(sv);
                let t = Tally { round: vote.round, kind: vote.kind, hash: vote.hash, votes };
                self.tallies.push(t);
                proof {
                    assert(pre.votes_for(vote.round, vote.kind, vote.hash) == Seq::<SignedBy>::empty());
                    self.lemma_push_new(pre, vote.round, vote.kind, vote.hash);
                    assert(authors(votes@) =~= seq![vote.author]);
                }
                if q == 1 {
                    let mut out: Vec<SignedBy> = Vec::new();
                    out.push(sv);
                    assert(out@ =~= seq![sv]);
                    assert(seq![sv] =~= Seq::<SignedBy>::empty().push(sv));
                    Ok(Some(out))
                } else {
                    assert(votes@ =~= Seq::<SignedBy>::empty().push(sv));
                    Ok(None)
                }
            },
        }
    }

    /// Forgets every vote of a round below `round`.
    pub fn cleanup(&mut self, round: RoundNumber)
        requires
            old(self).wf(),
        ensures
            final(self).wf(),
            final(self).committee == old(self).committee,
            forall|rd: RoundNumber, k: VoteKind, h: Digest|
                #[trigger] final(self).votes_for(rd, k, h) == if rd < round {
                    Seq::<SignedBy>::empty()
                } else {
                    old(self).votes_for(rd, k, h)
                },
    {
        let ghost pre = *self;
        let mut rest: Vec<Tally> = Vec::new();
        core::mem::swap(&mut rest, &mut self.tallies);
        let ghost orig = rest@;
        let mut kept: Vec<Tally> = Vec::new();
        let ghost mut src: Seq<int> = Seq::empty();
        while rest.len() > 0
            invariant
                pre.wf(),
                orig == pre.tallies@,
                self.committee == pre.committee,
                rest@.len() <= orig.len(),
                rest@ == orig.subrange(0, rest@.len() as int),
                src.len() == kept@.len(),
                forall|m: int| 0 <= m < kept@.len() ==> rest@.len() <= #[trigger] src[m] < orig.len()
                    && kept@[m] == orig[src[m]] && orig[src[m]].round >= round,
                forall|m1: int, m2: int| 0 <= m1 < m2 < kept@.len() ==> src[m1] > src[m2],
                forall|j: int| rest@.len() <= j < orig.len() && (#[trigger] orig[j]).round >= round
                    ==> exists|m: int| 0 <= m < kept@.len() && src[m] == j,
            decreases rest@.len(),
        {
            let ghost before = rest@.len() as int;
            let ghost src0 = src;
            let ghost n0 = kept@.len() as int;
            let t = rest.pop().unwrap();
            assert(t == orig[before - 1]);
            if t.round >= round {
                kept.push(t);
                proof {
                    src = src.push(before - 1);
                    assert(src[src.len() - 1] == before - 1);
                }
            }
            assert forall|j: int| rest@.len() <= j < orig.len() && (#[trigger] orig[j]).round >= round
                implies exists|m: int| 0 <= m < kept@.len() && src[m] == j by {
                if j == before - 1 {
                    assert(src[kept@.len() - 1] == j);
                } else {
                    let m = choose|m: int| 0 <= m < n0 && src0[m] == j;
                    assert(src[m] == j);
                }
            }
        }
        self.tallies = kept;
        proof {
            let fin = *self;
            assert forall|a: int, b: int|
                #![trigger fin.tallies@[a], fin.tallies@[b]]
                0 <= a < fin.tallies@.len() && 0 <= b < fin.tallies@.len() && a != b
                implies !has_key(fin.tallies@[a], fin.tallies@[b].round, fin.tallies@[b].kind, fin.tallies@[b].hash) by {
                assert(src[a] != src[b]);
                assert(!has_key(orig[src[a]], orig[src[b]].round, orig[src[b]].kind, orig[src[b]].hash));
            }
            assert forall|a: int| 0 <= a < fin.tallies@.len() implies {
                &&& (#[trigger] fin.tallies@[a]).votes@.len() <= fin.committee.spec_quorum()
                &&& sound_signers(fin.committee, fin.tallies@[a].votes@)
            } by {
                assert(fin.tallies@[a] == orig[src[a]]);
            }
            assert forall|rd: RoundNumber, k: VoteKind, h: Digest|
                #[trigger] fin.votes_for(rd, k, h) == if rd < round {
                    Seq::<SignedBy>::empty()
                } else {
                    pre.votes_for(rd, k, h)
                } by {
                if exists|j: int| 0 <= j < fin.tallies@.len() && has_key(#[trigger] fin.tallies@[j], rd, k, h) {
                    let a = choose|j: int| 0 <= j < fin.tallies@.len() && has_key(#[trigger] fin.tallies@[j], rd, k, h);
                    assert(has_key(orig[src[a]], rd, k, h));
                    let b = choose|j: int| 0 <= j < orig.len() && has_key(#[trigger] orig[j], rd, k, h);
                    if src[a] != b {
                        assert(!has_key(orig[b], orig[src[a]].round, orig[src[a]].kind, orig[src[a]].hash));
                    }
                } else if rd >= round {
                    assert forall|j: int| 0 <= j < orig.len() implies !has_key(#[trigger] orig[j], rd, k, h) by {
                        if has_key(orig[j], rd, k, h) {
                            let m = choose|m: int| 0 <= m < kept@.len() && src[m] == j;
                            assert(has_key(fin.tallies@[m], rd, k, h));
                        }
                    }
                }
            }
        }
    }

    proof fn lemma_push_sound(&self, pre: Aggregator, i: int, sv: SignedBy)
        requires
            pre.wf(),
            0 <= i < pre.tallies@.len(),
            self.committee == pre.committee,
            self.tallies@.len() == pre.tallies@.len(),
            forall|j: int| 0 <= j < pre.tallies@.len() && j != i ==> self.tallies@[j] == pre.tallies@[j],
            has_key(self.tallies@[i], pre.tallies@[i].round, pre.tallies@[i].kind, pre.tallies@[i].hash),
            self.tallies@[i].votes@ == pre.tallies@[i].votes@.push(sv),
            pre.tallies@[i].votes@.len() < pre.committee.spec_quorum(),
            pre.committee.authorities@.contains(sv.author),
            !authors(pre.tallies@[i].votes@).contains(sv.author),
        ensures
            self.wf(),
    {
        let old_votes = pre.tallies@[i].votes@;
        let new_votes = self.tallies@[i].votes@;
        assert(authors(new_votes) =~= authors(old_votes).push(sv.author));
        assert forall|a: int, b: int| 0 <= a < authors(new_votes).len() && 0 <= b < authors(new_votes).len() && a != b
            implies authors(new_votes)[a] != authors(new_votes)[b] by {
            if a < old_votes.len() && b < old_votes.len() {
                assert(authors(old_votes)[a] == authors(new_votes)[a]);
                assert(authors(old_votes)[b] == authors(new_votes)[b]);
            } else if a < old_votes.len() {
                assert(authors(old_votes)[a] == authors(new_votes)[a]);
            } else {
                assert(authors(old_votes)[b] == authors(new_votes)[b]);
            }
        }
        assert forall|j: int| 0 <= j < new_votes.len() implies self.committee.authorities@.contains(#[trigger] new_votes[j].author) by {
            if j < old_votes.len() {
                assert(new_votes[j] == old_votes[j]);
            }
        }
        assert forall|a: int, b: int|
            #![trigger self.tallies@[a], self.tallies@[b]]
            0 <= a < self.tallies@.len() && 0 <= b < self.tallies@.len() && a != b
            implies !has_key(self.tallies@[a], self.tallies@[b].round, self.tallies@[b].kind, self.tallies@[b].hash) by {
            assert(!has_key(pre.tallies@[a], pre.tallies@[b].round, pre.tallies@[b].kind, pre.tallies@[b].hash));
        }
        assert forall|a: int| 0 <= a < self.tallies@.len() implies {
            &&& (#[trigger] self.tallies@[a]).votes@.len() <= self.committee.spec_quorum()
            &&& sound_signers(self.committee, self.tallies@[a].votes@)
        } by {
            if a != i {
                assert(pre.tallies@[a] == self.tallies@[a]);
            }
        }
    }

    proof fn lemma_frame_update(&self, pre: Aggregator, i: int, round: RoundNumber, kind: VoteKind, hash: Digest)
        requires
            pre.wf(),
            self.wf(),
            0 <= i < pre.tallies@.len(),
            has_key(pre.tallies@[i], round, kind, hash),
            self.tallies@.len() == pre.tallies@.len(),
            forall|j: int| 0 <= j < pre.tallies@.len() && j != i ==> self.tallies@[j] == pre.tallies@[j],
            has_key(self.tallies@[i], round, kind, hash),
        ensures
            self.votes_for(round, kind, hash) == self.tallies@[i].votes@,
            forall|r2: RoundNumber, k2: VoteKind, h2: Digest|
                !(r2 == round && k2 == kind && h2 == hash) ==>
                #[trigger] self.votes_for(r2, k2, h2) == pre.votes_for(r2, k2, h2),
    {
        let c = choose|c: int| 0 <= c < self.tallies@.len() && has_key(#[trigger] self.tallies@[c], round, kind, hash);
        if c != i {
            assert(!has_key(self.tallies@[c], self.tallies@[i].round, self.tallies@[i].kind, self.tallies@[i].hash));
        }
        assert forall|r2: RoundNumber, k2: VoteKind, h2: Digest|
            !(r2 == round && k2 == kind && h2 == hash) implies
            #[trigger] self.votes_for(r2, k2, h2) == pre.votes_for(r2, k2, h2) by {
            if exists|j: int| 0 <= j < self.tallies@.len() && has_key(#[trigger] self.tallies@[j], r2, k2, h2) {
                let a = choose|j: int| 0 <= j < self.tallies@.len() && has_key(#[trigger] self.tallies@[j], r2, k2, h2);
                assert(a != i);
                assert(has_key(pre.tallies@[a], r2, k2, h2));
                let b = choose|j: int| 0 <= j < pre.tallies@.len() && has_key(#[trigger] pre.tallies@[j], r2, k2, h2);
                if a != b {
                    assert(!has_key(pre.tallies@[b], pre.tallies@[a].round, pre.tallies@[a].kind, pre.tallies@[a].hash));
                }
            } else {
                assert forall|j: int| 0 <= j < pre.tallies@.len() implies !has_key(#[trigger] pre.tallies@[j], r2, k2, h2) by {
                    if j != i {
                        assert(pre.tallies@[j] == self.tallies@[j]);
                    }
                }
            }
        }
    }

    proof fn lemma_push_new(&self, pre: Aggregator, round: RoundNumber, kind: VoteKind, hash: Digest)
        requires
            pre.wf(),
            forall|j: int| 0 <= j < pre.tallies@.len() ==> !has_key(#[trigger] pre.tallies@[j], round, kind, hash),
            self.committee == pre.committee,
            self.tallies@.len() == pre.tallies@.len() + 1,
            forall|j: int| 0 <= j < pre.tallies@.len() ==> self.tallies@[j] == pre.tallies@[j],
            has_key(self.tallies@[pre.tallies@.len() as int], round, kind, hash),
            self.tallies@[pre.tallies@.len() as int].votes@.len() == 1,
            self.tallies@[pre.tallies@.len() as int].votes@.len() <= self.committee.spec_quorum(),
            sound_signers(self.committee, self.tallies@[pre.tallies@.len() as int].votes@),
        ensures
            self.wf(),
            self.votes_for(round, kind, hash) == self.tallies@[pre.tallies@.len() as int].votes@,
            forall|r2: RoundNumber, k2: VoteKind, h2: Digest|
                !(r2 == round && k2 == kind && h2 == hash) ==>
                #[trigger] self.votes_for(r2, k2, h2) == pre.votes_for(r2, k2, h2),
    {
        let n = pre.tallies@.len() as int;
        assert forall|a: int, b: int|
            #![trigger self.tallies@[a], self.tallies@[b]]
            0 <= a < self.tallies@.len() && 0 <= b < self.tallies@.len() && a != b
            implies !has_key(self.tallies@[a], self.tallies@[b].round, self.tallies@[b].kind, self.tallies@[b].hash) by {
            if a < n && b < n {
                assert(!has_key(pre.tallies@[a], pre.tallies@[b].round, pre.tallies@[b].kind, pre.tallies@[b].hash));
            } else if a < n {
                assert(!has_key(pre.tallies@[a], round, kind, hash));
            } else {
                assert(!has_key(pre.tallies@[b], round, kind, hash));
            }
        }
        assert forall|a: int| 0 <= a < self.tallies@.len() implies {
            &&& (#[trigger] self.tallies@[a]).votes@.len() <= self.committee.spec_quorum()
            &&& sound_signers(self.committee, self.tallies@[a].votes@)
        } by {
            if a < n {
                assert(pre.tallies@[a] == self.tallies@[a]);
            }
        }
        let c = choose|c: int| 0 <= c < self.tallies@.len() && has_key(#[trigger] self.tallies@[c], round, kind, hash);
        if c != n {
            assert(self.tallies@[c] == pre.tallies@[c]);
        }
        assert forall|r2: RoundNumber, k2: VoteKind, h2: Digest|
            !(r2 == round && k2 == kind && h2 == hash) implies
            #[trigger] self.votes_for(r2, k2, h2) == pre.votes_for(r2, k2, h2) by {
            if exists|j: int| 0 <= j < self.tallies@.len() && has_key(#[trigger] self.tallies@[j], r2, k2, h2) {
                let a = choose|j: int| 0 <= j < self.tallies@.len() && has_key(#[trigger] self.tallies@[j], r2, k2, h2);
                assert(a != n);
                assert(has_key(pre.tallies@[a], r2, k2, h2));
                let b = choose|j: int| 0 <= j < pre.tallies@.len() && has_key(#[trigger] pre.tallies@[j], r2, k2, h2);
                if a != b {
                    assert(!has_key(pre.tallies@[b], pre.tallies@[a].round, pre.tallies@[a].kind, pre.tallies@[a].hash));
                }
            } else {
                assert forall|j: int| 0 <= j < pre.tallies@.len() implies !has_key(#[trigger] pre.tallies@[j], r2, k2, h2) by {
                    assert(pre.tallies@[j] == self.tallies@[j]);
                }
            }
        }
    }
}

fn signed_by(votes: &Vec<SignedBy>, author: &PublicKey) -> (r: bool)
    ensures
        r == authors(votes@).contains(*author),
{
    let mut i: usize = 0;
    while i < votes.len()
        invariant
            i <= votes@.len(),
            forall|j: int| 0 <= j < i ==> votes@[j].author != *author,
        decreases votes@.len() - i,
    {
        if votes[i].author == *author {
            assert(authors(votes@)[i as int] == *author);
            return true;
        }
        i += 1;
    }
    proof {
        if authors(votes@).contains(*author) {
            let k = choose|k: int| 0 <= k < authors(votes@).len() && authors(votes@)[k] == *author;
            assert(votes@[k].author == *author);
        }
    }
    false
}

} // verus!
