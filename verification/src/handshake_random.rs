use vstd::prelude::*;

use crate::bytes::{be32_val, copy_range, lemma_u32_be_val, read_u32_be, u32_be, write_u32_be};
use crate::errors::Error;

verus! {

/// Number of bytes in the canonical encoding of a handshake random.
pub const HANDSHAKE_RANDOM_LENGTH: usize = 32;

/// Number of purely random bytes in a handshake random, after the timestamp.
pub const RANDOM_BYTES_LENGTH: usize = 28;

/// A handshake random nonce exchanged during the handshake: a 32-bit
/// timestamp followed by 28 random bytes, with a canonical fixed-size
/// 32-byte binary encoding.
#[derive(Debug)]
pub struct HandshakeRandom {
    pub gmt_unix_time: u32,
    pub random_bytes: Vec<u8>,
}

impl HandshakeRandom {
    /// A handshake random is well formed when its random part holds exactly
    /// 28 bytes, so that the encoded form is exactly 32 bytes.
    pub open spec fn wf(&self) -> bool {
        self.random_bytes@.len() == RANDOM_BYTES_LENGTH
    }

    /// The canonical 32-byte encoding: the timestamp in big-endian order,
    /// then the random bytes.
    pub open spec fn encoding(&self) -> Seq<u8> {
        u32_be(self.gmt_unix_time) + self.random_bytes@
    }

    /// An all-zero handshake random, the value a fresh connection state holds
    /// before the handshake fills the nonces in.
    pub fn new_zero() -> (r: HandshakeRandom)
        ensures
            r.wf(),
            r.gmt_unix_time == 0,
            r.random_bytes@ == Seq::new(RANDOM_BYTES_LENGTH as nat, |i: int| 0u8),
    {
        let mut random_bytes: Vec<u8> = Vec::new();
        let mut i: usize = 0;
        while i < RANDOM_BYTES_LENGTH
            invariant
                i <= RANDOM_BYTES_LENGTH,
                random_bytes@ == Seq::new(i as nat, |j: int| 0u8),
            decreases RANDOM_BYTES_LENGTH - i,
        {
            random_bytes.push(0);
            i = i + 1;
            assert(random_bytes@ =~= Seq::new(i as nat, |j: int| 0u8));
        }
        HandshakeRandom { gmt_unix_time: 0, random_bytes }
    }

    /// Produces the canonical 32-byte encoding of this handshake random.
    pub fn encode(&self) -> (r: Vec<u8>)
        requires
            self.wf(),
        ensures
            r@ == self.encoding(),
            r@.len() == HANDSHAKE_RANDOM_LENGTH,
    {
        let mut out: Vec<u8> = Vec::new();
        write_u32_be(&mut out, self.gmt_unix_time);
        crate::bytes::push_bytes(&mut out, self.random_bytes.as_slice());
        out
    }

    /// Parses a canonical encoding back into a handshake random.
    ///
    /// Fails with `RandomLengthMismatch` unless the input is exactly 32 bytes.
    pub fn decode(data: &[u8]) -> (r: Result<HandshakeRandom, Error>)
        ensures
            r is Ok <==> data@.len() == HANDSHAKE_RANDOM_LENGTH,
            data@.len() != HANDSHAKE_RANDOM_LENGTH ==> r == Err::<HandshakeRandom, Error>(
                Error::RandomLengthMismatch,
            ),
            r is Ok ==> {
                &&& r.unwrap().wf()
                &&& r.unwrap().gmt_unix_time == be32_val(data@[0], data@[1], data@[2], data@[3])
                &&& r.unwrap().random_bytes@ == data@.subrange(4, HANDSHAKE_RANDOM_LENGTH as int)
                &&& r.unwrap().encoding() == data@
            },
    {
        if data.len() != HANDSHAKE_RANDOM_LENGTH {
            return Err(Error::RandomLengthMismatch);
        }
        let gmt_unix_time = read_u32_be(data, 0);
        let random_bytes = copy_range(data, 4, HANDSHAKE_RANDOM_LENGTH);
        let r = HandshakeRandom { gmt_unix_time, random_bytes };
        proof {
            lemma_u32_be_val(r.gmt_unix_time);
            assert(u32_be(r.gmt_unix_time) =~= data@.subrange(0, 4)) by {
                lemma_be32_bytes(data@[0], data@[1], data@[2], data@[3]);
            }
            assert(r.encoding() =~= data@);
        }
        Ok(r)
    }
}

/// Re-encoding the value read from four big-endian bytes yields those bytes.
proof fn lemma_be32_bytes(b0: u8, b1: u8, b2: u8, b3: u8)
    ensures
        u32_be(be32_val(b0, b1, b2, b3)) == seq![b0, b1, b2, b3],
{
    let v = be32_val(b0, b1, b2, b3);
    assert(((((b0 as u32) << 24) | ((b1 as u32) << 16) | ((b2 as u32) << 8) | (b3 as u32)) >> 24)
        & 0xff == b0) by (bit_vector);
    assert(((((b0 as u32) << 24) | ((b1 as u32) << 16) | ((b2 as u32) << 8) | (b3 as u32)) >> 16)
        & 0xff == b1) by (bit_vector);
    assert(((((b0 as u32) << 24) | ((b1 as u32) << 16) | ((b2 as u32) << 8) | (b3 as u32)) >> 8)
        & 0xff == b2) by (bit_vector);
    assert((((b0 as u32) << 24) | ((b1 as u32) << 16) | ((b2 as u32) << 8) | (b3 as u32)) & 0xff
        == b3) by (bit_vector);
    assert(u32_be(v) =~= seq![b0, b1, b2, b3]);
}

} // verus!
