//! Message digest algorithms and digest validation.

use vstd::prelude::*;

verus! {

/// Message digest algorithms used to validate chunk data.
#[derive(Clone, Copy, Debug, PartialEq, Eq, Structural)]
pub enum DigestAlgo {
    /// Blake3, 32-byte digest.
    Blake3,
    /// Sha256, 32-byte digest.
    Sha256,
}

/// The 32-byte digest of `data` under `algo`.  A digest is a function of the
/// bytes and the algorithm alone; its value only has a name here.
pub uninterp spec fn digest_of(data: Seq<u8>, algo: DigestAlgo) -> Seq<u8>;

/// Relies on `nydus_utils::digest::RafsDigest::from_buf`: it computes the
/// 32-byte blake3 or sha256 digest of the buffer, a function of the bytes
/// and the algorithm alone.
#[verifier::external_body]
pub(crate) fn digest_bytes(data: &Vec<u8>, algo: DigestAlgo) -> (r: [u8; 32])
    ensures
        r@ == digest_of(data@, algo),
{
    let outside = match algo {
        DigestAlgo::Blake3 => nydus_utils::digest::Algorithm::Blake3,
        DigestAlgo::Sha256 => nydus_utils::digest::Algorithm::Sha256,
    };
    nydus_utils::digest::RafsDigest::from_buf(data.as_slice(), outside).data
}

/// Compute the digest of `data` under `algo` and compare it with
/// `expected` in constant time: every byte pair is folded into the
/// accumulator, with no early exit on a mismatch.
pub fn check_digest(data: &Vec<u8>, expected: &[u8; 32], algo: DigestAlgo) -> (r: bool)
    ensures
        r == (digest_of(data@, algo) == expected@),
{
    let computed = digest_bytes(data, algo);
    let mut diff: u8 = 0;
    let mut i: usize = 0;
    while i < 32
        invariant
            0 <= i <= 32,
            computed@ == digest_of(data@, algo),
            (diff == 0) <==> (forall|k: int| 0 <= k < i ==> computed@[k] == expected@[k]),
        decreases 32 - i,
    {
        let c = computed[i];
        let e = expected[i];
        proof {
            assert(((diff | (c ^ e)) == 0) == (diff == 0 && c == e)) by (bit_vector);
        }
        diff = diff | (c ^ e);
        i += 1;
    }
    proof {
        if diff == 0 {
            assert(computed@ =~= expected@);
        } else {
            assert(exists|k: int| 0 <= k < 32 && computed@[k] != expected@[k]);
        }
    }
    diff == 0
}

} // verus!
