//! Hash time locked contracts.

use vstd::prelude::*;
use crate::hashing::{ripemd160, sha3_256, spec_ripemd160, spec_sha3_256};
use crate::le::bytes_eq;

verus! {

/// Hash algorithms supported by the HTLC contract.
#[derive(Debug, Clone, Copy, PartialEq, Eq, Structural)]
pub enum HashAlgo {
    Sha3,
    Ripemd160,
}

/// The digest the contract compares against its hash lock.
pub open spec fn spec_lock_digest(algo: HashAlgo, preimage: Seq<u8>) -> Seq<u8> {
    match algo {
        HashAlgo::Sha3 => spec_sha3_256(preimage),
        HashAlgo::Ripemd160 => spec_ripemd160(preimage),
    }
}

/// Simple Hash Time Locked Contract primitive.
#[derive(Debug, Clone)]
pub struct Htlc {
    pub hash: Vec<u8>,
    pub algo: HashAlgo,
    pub timeout: u64,
    pub redeemed: bool,
}

impl Htlc {
    /// A fresh, unredeemed contract.
    pub fn new(hash: Vec<u8>, algo: HashAlgo, timeout: u64) -> (h: Self)
        ensures
            h.hash@ == hash@,
            h.algo == algo,
            h.timeout == timeout,
            !h.redeemed,
    {
        Htlc { hash, algo, timeout, redeemed: false }
    }

    /// Redeems with a preimage at time `now`: succeeds, and marks the contract
    /// redeemed, exactly when it is not yet redeemed, `now` is not past the
    /// timeout and the preimage hashes to the lock.
    pub fn redeem(&mut self, preimage: &[u8], now: u64) -> (ok: bool)
        ensures
            ok == (!old(self).redeemed && now <= old(self).timeout && spec_lock_digest(
                old(self).algo,
                preimage@,
            ) == old(self).hash@),
            final(self).redeemed == (old(self).redeemed || ok),
            final(self).hash@ == old(self).hash@,
            final(self).algo == old(self).algo,
            final(self).timeout == old(self).timeout,
    {
        if self.redeemed || now > self.timeout {
            return false;
        }
        let matches = match self.algo {
            HashAlgo::Sha3 => {
                let d = sha3_256(preimage);
                bytes_eq(&d, self.hash.as_slice())
            },
            HashAlgo::Ripemd160 => {
                let d = ripemd160(preimage);
                bytes_eq(&d, self.hash.as_slice())
            },
        };
        if matches {
            self.redeemed = true;
            true
        } else {
            false
        }
    }

    /// Refunds at time `now`: succeeds, and closes the contract, exactly when
    /// the timeout has been reached and it was not redeemed.
    pub fn refund(&mut self, now: u64) -> (ok: bool)
        ensures
            ok == (now >= old(self).timeout && !old(self).redeemed),
            final(self).redeemed == (old(self).redeemed || ok),
            final(self).hash@ == old(self).hash@,
            final(self).algo == old(self).algo,
            final(self).timeout == old(self).timeout,
    {
        if now >= self.timeout && !self.redeemed {
            self.redeemed = true;
            true
        } else {
            false
        }
    }
}

/// An HTLC settles at most once: after a successful redeem or refund, neither
/// a redeem nor a refund succeeds again.
pub proof fn lemma_htlc_settles_once(redeemed: bool, timeout: u64, now: u64, digest_matches: bool)
    requires
        redeemed,
    ensures
        !(!redeemed && now <= timeout && digest_matches),
        !(now >= timeout && !redeemed),
{
}

} // verus!
