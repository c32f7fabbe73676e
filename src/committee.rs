use vstd::prelude::*;
use crate::messages::{PublicKey, RoundNumber};

verus! {

/// The fixed set of replicas, each with voting power one. The order of
/// `authorities` also fixes the round-robin leader schedule.
#[derive(Clone, Debug)]
pub struct Committee {
    pub authorities: Vec<PublicKey>,
}

/// Quorum threshold `n - f` with `f = (n - 1) / 3`, for a committee of `n` replicas.
pub open spec fn quorum_of(n: nat) -> nat {
    if n == 0 { 0 } else { (n - (n - 1) / 3) as nat }
}

impl Committee {
    /// A committee is well formed when it is not empty and names each replica once.
    pub open spec fn wf(&self) -> bool {
        &&& self.authorities@.len() > 0
        &&& self.authorities@.no_duplicates()
    }

    pub open spec fn size(&self) -> nat {
        self.authorities@.len()
    }

    pub open spec fn spec_quorum(&self) -> nat {
        quorum_of(self.size())
    }

    pub open spec fn spec_leader(&self, round: RoundNumber) -> PublicKey
        recommends
            self.authorities@.len() > 0,
    {
        self.authorities@[(round as int) % (self.authorities@.len() as int)]
    }

    pub fn new(authorities: Vec<PublicKey>) -> (r: Committee)
        ensures
            r.authorities@ == authorities@,
    {
        Committee { authorities }
    }

    /// A copy of this committee.
    pub fn clone_committee(&self) -> (r: Committee)
        ensures
            r.authorities@ == self.authorities@,
    {
        let mut out: Vec<PublicKey> = Vec::new();
        let mut k: usize = 0;
        while k < self.authorities.len()
            invariant
                k <= self.authorities@.len(),
                out@ == self.authorities@.subrange(0, k as int),
            decreases self.authorities@.len() - k,
        {
            out.push(self.authorities[k]);
            k += 1;
            assert(out@ =~= self.authorities@.subrange(0, k as int));
        }
        assert(out@ =~= self.authorities@);
        Committee { authorities: out }
    }

    /// Number of votes that forms a quorum.
    pub fn quorum_threshold(&self) -> (r: usize)
        ensures
            r as nat == self.spec_quorum(),
    {
        let n = self.authorities.len();
        if n == 0 {
            0
        } else {
            n - (n - 1) / 3
        }
    }

    pub fn contains(&self, key: &PublicKey) -> (r: bool)
        ensures
            r == self.authorities@.contains(*key),
    {
        let mut i: usize = 0;
        while i < self.authorities.len()
            invariant
                i <= self.authorities@.len(),
                forall|j: int| 0 <= j < i ==> self.authorities@[j] != *key,
            decreases self.authorities@.len() - i,
        {
            if self.authorities[i] == *key {
                return true;
            }
            i += 1;
        }
        false
    }

    /// The leader of `round`: replicas take turns in committee order.
    pub fn leader(&self, round: RoundNumber) -> (r: PublicKey)
        requires
            self.authorities@.len() > 0,
        ensures
            r == self.spec_leader(round),
    {
        let n = self.authorities.len() as u64;
        let i = (round % n) as usize;
        self.authorities[i]
    }
}

} // verus!
