use vstd::prelude::*;

use crate::bytes::push_bytes;
use crate::cipher_suite::HashAlgorithm;

verus! {

/// The HMAC-SHA-256 digest of `data` under `key`. The digest is a pure
/// function of the two arguments, so it is named rather than written out.
pub uninterp spec fn hmac_sha256_of(key: Seq<u8>, data: Seq<u8>) -> Seq<u8>;

/// Relies on the hmac and sha2 crates: `Hmac::<Sha256>` computes the
/// HMAC-SHA-256 digest of the written data under the given key, a 32-byte
/// value that depends on key and data alone. `new_from_slice` accepts keys
/// of any length for HMAC and never fails.
#[verifier::external_body]
fn hmac_sha256(key: &[u8], data: &[u8]) -> (r: Vec<u8>)
    ensures
        r@ == hmac_sha256_of(key@, data@),
        r@.len() == 32,
{
    let mut mac = <hmac::Hmac<sha2::Sha256> as hmac::Mac>::new_from_slice(key)
        .expect("HMAC accepts keys of any length");
    hmac::Mac::update(&mut mac, data);
    hmac::Mac::finalize(mac).into_bytes().to_vec()
}

/// The chaining values A(i) of the TLS 1.2 P_hash construction:
/// A(0) is the seed and A(i) is HMAC(secret, A(i-1)).
pub open spec fn p_hash_a(secret: Seq<u8>, seed: Seq<u8>, i: nat) -> Seq<u8>
    decreases i,
{
    if i == 0 {
        seed
    } else {
        hmac_sha256_of(secret, p_hash_a(secret, seed, (i - 1) as nat))
    }
}

/// Output block `i` of P_hash: HMAC(secret, A(i+1) ++ seed), a 32-byte block.
pub open spec fn p_hash_block(secret: Seq<u8>, seed: Seq<u8>, i: nat) -> Seq<u8> {
    hmac_sha256_of(secret, p_hash_a(secret, seed, i + 1) + seed)
}

/// `length` bytes of the P_hash output stream: byte `j` is byte `j % 32` of
/// output block `j / 32`. Derivation is a stream, so any shorter output is a
/// prefix of any longer one.
pub open spec fn prf_bytes(secret: Seq<u8>, seed: Seq<u8>, length: nat) -> Seq<u8> {
    Seq::new(length, |j: int| p_hash_block(secret, seed, (j / 32) as nat)[j % 32])
}

/// Computes `length` bytes of the TLS 1.2 pseudorandom function over the
/// given secret and seed, using the suite's hash algorithm.
pub fn prf_p_hash(secret: &[u8], seed: &[u8], length: usize, h: HashAlgorithm) -> (out: Vec<u8>)
    ensures
        out@ == prf_bytes(secret@, seed@, length as nat),
        out@.len() == length,
{
    match h {
        HashAlgorithm::Sha256 => {},
    }
    let mut out: Vec<u8> = Vec::new();
    let mut last_round = crate::bytes::copy_range(seed, 0, seed.len());
    proof {
        assert(seed@.subrange(0, seed@.len() as int) == seed@);
        assert(out@ =~= prf_bytes(secret@, seed@, 0));
    }
    let mut i: usize = 0;
    while out.len() < length
        invariant
            out@.len() == 32 * i,
            out@ == prf_bytes(secret@, seed@, (32 * i) as nat),
            last_round@ == p_hash_a(secret@, seed@, i as nat),
        decreases length + 31 - out@.len(),
    {
        let next_round = hmac_sha256(secret, last_round.as_slice());
        let mut msg = crate::bytes::clone_bytes(&next_round);
        push_bytes(&mut msg, seed);
        let block = hmac_sha256(secret, msg.as_slice());
        proof {
            assert(next_round@ == p_hash_a(secret@, seed@, (i + 1) as nat));
            assert(block@ == p_hash_block(secret@, seed@, i as nat));
        }
        let ghost old_out = out@;
        push_bytes(&mut out, block.as_slice());
        proof {
            let s = secret@;
            let sd = seed@;
            let n = 32 * (i + 1);
            assert forall|j: int| 0 <= j < n implies out@[j] == p_hash_block(
                s,
                sd,
                (j / 32) as nat,
            )[j % 32] by {
                if j < 32 * i {
                    assert(out@[j] == old_out[j]);
                } else {
                    assert(out@[j] == block@[j - 32 * i]);
                    assert(j / 32 == i && j % 32 == j - 32 * i) by (nonlinear_arith)
                        requires
                            32 * i <= j < 32 * (i + 1),
                    ;
                }
            }
            assert(out@ =~= prf_bytes(s, sd, n as nat));
        }
        last_round = next_round;
        i = i + 1;
    }
    out.truncate(length);
    proof {
        assert(out@ =~= prf_bytes(secret@, seed@, length as nat));
    }
    out
}

/// Stream derivation: a shorter PRF output is a byte-for-byte prefix of a
/// longer one over the same secret and seed.
pub proof fn lemma_prf_prefix(secret: Seq<u8>, seed: Seq<u8>, n: nat, m: nat)
    requires
        n <= m,
    ensures
        prf_bytes(secret, seed, n) == prf_bytes(secret, seed, m).take(n as int),
{
    assert(prf_bytes(secret, seed, n) =~= prf_bytes(secret, seed, m).take(n as int));
}

} // verus!
