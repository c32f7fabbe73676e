use vstd::prelude::*;

verus! {

/// Round number of the protocol.
pub type RoundNumber = u64;

/// A 256-bit cryptographic digest, held as two 128-bit halves.
#[derive(Clone, Copy, Debug, PartialEq, Eq, Structural)]
pub struct Digest {
    pub hi: u128,
    pub lo: u128,
}

/// A replica's 256-bit public key, held as two 128-bit halves.
#[derive(Clone, Copy, Debug, PartialEq, Eq, Structural)]
pub struct PublicKey {
    pub hi: u128,
    pub lo: u128,
}

/// A 512-bit signature, held as four 128-bit words.
#[derive(Clone, Copy, Debug, PartialEq, Eq, Structural)]
pub struct Signature {
    pub w0: u128,
    pub w1: u128,
    pub w2: u128,
    pub w3: u128,
}

impl Digest {
    /// The all-zero digest, which names the genesis block.
    pub fn zero() -> (r: Digest)
        ensures
            r.hi == 0 && r.lo == 0,
    {
        Digest { hi: 0, lo: 0 }
    }
}

/// Whether a vote endorses a block or reports that a round timed out.
#[derive(Clone, Copy, Debug, PartialEq, Eq, Structural)]
pub enum VoteKind {
    Block,
    Timeout,
}

/// One signer's contribution to a certificate.
#[derive(Clone, Copy, Debug, PartialEq, Eq, Structural)]
pub struct SignedBy {
    pub author: PublicKey,
    pub signature: Signature,
}

/// Quorum certificate: proof that a quorum voted for the block `hash` of `round`.
#[derive(Clone, Debug)]
pub struct QC {
    pub hash: Digest,
    pub round: RoundNumber,
    pub votes: Vec<SignedBy>,
}

/// Timeout certificate: proof that a quorum timed out on `round`.
#[derive(Clone, Debug)]
pub struct TC {
    pub round: RoundNumber,
    pub votes: Vec<SignedBy>,
}

/// A proposal: a payload justified by a QC (and, after a timeout, a TC).
#[derive(Clone, Debug)]
pub struct Block {
    pub qc: QC,
    pub tc: Option<TC>,
    pub author: PublicKey,
    pub round: RoundNumber,
    pub payload: Digest,
    pub signature: Signature,
}

/// A block-vote or a timeout-vote of one replica.
#[derive(Clone, Copy, Debug, PartialEq, Eq, Structural)]
pub struct Vote {
    pub hash: Digest,
    pub round: RoundNumber,
    pub author: PublicKey,
    pub signature: Signature,
    pub kind: VoteKind,
}

impl QC {
    /// The distinguished certificate over the genesis block.
    pub open spec fn spec_is_genesis(&self) -> bool {
        self.hash.hi == 0 && self.hash.lo == 0 && self.round == 0 && self.votes@.len() == 0
    }

    pub fn genesis() -> (r: QC)
        ensures
            r.spec_is_genesis(),
    {
        QC { hash: Digest::zero(), round: 0, votes: Vec::new() }
    }

    /// A field-by-field copy of this certificate.
    pub fn copy(&self) -> (r: QC)
        ensures
            r.hash == self.hash,
            r.round == self.round,
            r.votes@ == self.votes@,
    {
        QC { hash: self.hash, round: self.round, votes: copy_votes(&self.votes) }
    }

    pub fn is_genesis(&self) -> (r: bool)
        ensures
            r == self.spec_is_genesis(),
    {
        self.hash.hi == 0 && self.hash.lo == 0 && self.round == 0 && self.votes.len() == 0
    }
}

pub fn copy_votes(votes: &Vec<SignedBy>) -> (r: Vec<SignedBy>)
    ensures
        r@ == votes@,
{
    let mut out: Vec<SignedBy> = Vec::new();
    let mut k: usize = 0;
    while k < votes.len()
        invariant
            k <= votes@.len(),
            out@ == votes@.subrange(0, k as int),
        decreases votes@.len() - k,
    {
        out.push(votes[k]);
        k += 1;
        assert(out@ =~= votes@.subrange(0, k as int));
    }
    assert(out@ =~= votes@);
    out
}

impl Block {
    /// The round this block justifies entering: one past its TC's round if
    /// it carries one, else one past its QC's round.
    pub open spec fn spec_justified_round(&self) -> int {
        match self.tc {
            Some(tc) => tc.round + 1,
            None => self.qc.round + 1,
        }
    }

    /// The round of the certificate that justifies this block.
    pub open spec fn spec_cert_round(&self) -> RoundNumber {
        match self.tc {
            Some(tc) => tc.round,
            None => self.qc.round,
        }
    }

    /// The block's round follows its TC, or its QC when it has no TC.
    pub fn has_consistent_round(&self) -> (r: bool)
        ensures
            r == (self.round == self.spec_justified_round()),
    {
        match &self.tc {
            Some(tc) => tc.round < u64::MAX && self.round == tc.round + 1,
            None => self.qc.round < u64::MAX && self.round == self.qc.round + 1,
        }
    }

    pub fn cert_round(&self) -> (r: RoundNumber)
        ensures
            r == self.spec_cert_round(),
    {
        match &self.tc {
            Some(tc) => tc.round,
            None => self.qc.round,
        }
    }
}

} // verus!
