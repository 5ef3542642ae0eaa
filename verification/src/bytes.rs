use vstd::prelude::*;

verus! {

/// Little-endian two-byte encoding of a 16-bit value.
pub open spec fn u16_le(v: u16) -> Seq<u8> {
    seq![(v & 0xff) as u8, ((v >> 8) & 0xff) as u8]
}

/// The 16-bit value encoded by two little-endian bytes.
pub open spec fn le16_val(b0: u8, b1: u8) -> u16 {
    (b0 as u16) | ((b1 as u16) << 8)
}

/// Little-endian eight-byte encoding of a 64-bit value.
pub open spec fn u64_le(v: u64) -> Seq<u8> {
    seq![
        (v & 0xff) as u8,
        ((v >> 8) & 0xff) as u8,
        ((v >> 16) & 0xff) as u8,
        ((v >> 24) & 0xff) as u8,
        ((v >> 32) & 0xff) as u8,
        ((v >> 40) & 0xff) as u8,
        ((v >> 48) & 0xff) as u8,
        ((v >> 56) & 0xff) as u8,
    ]
}

/// The 64-bit value encoded by eight little-endian bytes.
pub open spec fn le64_val(b0: u8, b1: u8, b2: u8, b3: u8, b4: u8, b5: u8, b6: u8, b7: u8) -> u64 {
    (b0 as u64) | ((b1 as u64) << 8) | ((b2 as u64) << 16) | ((b3 as u64) << 24)
        | ((b4 as u64) << 32) | ((b5 as u64) << 40) | ((b6 as u64) << 48) | ((b7 as u64) << 56)
}

/// Big-endian four-byte encoding of a 32-bit value.
pub open spec fn u32_be(v: u32) -> Seq<u8> {
    seq![
        ((v >> 24) & 0xff) as u8,
        ((v >> 16) & 0xff) as u8,
        ((v >> 8) & 0xff) as u8,
        (v & 0xff) as u8,
    ]
}

/// The 32-bit value encoded by four big-endian bytes.
pub open spec fn be32_val(b0: u8, b1: u8, b2: u8, b3: u8) -> u32 {
    ((b0 as u32) << 24) | ((b1 as u32) << 16) | ((b2 as u32) << 8) | (b3 as u32)
}

/// Reading back the two bytes of `u16_le` yields the encoded value.
pub proof fn lemma_u16_le_val(v: u16)
    ensures
        le16_val(u16_le(v)[0], u16_le(v)[1]) == v,
{
    assert((((v & 0xff) as u8 as u16) | ((((v >> 8) & 0xff) as u8 as u16) << 8)) == v)
        by (bit_vector);
}

/// Reading back the eight bytes of `u64_le` yields the encoded value.
pub proof fn lemma_u64_le_val(v: u64)
    ensures
        le64_val(
            u64_le(v)[0],
            u64_le(v)[1],
            u64_le(v)[2],
            u64_le(v)[3],
            u64_le(v)[4],
            u64_le(v)[5],
            u64_le(v)[6],
            u64_le(v)[7],
        ) == v,
{
    assert((((v & 0xff) as u8 as u64) | ((((v >> 8) & 0xff) as u8 as u64) << 8)
        | ((((v >> 16) & 0xff) as u8 as u64) << 16) | ((((v >> 24) & 0xff) as u8 as u64) << 24)
        | ((((v >> 32) & 0xff) as u8 as u64) << 32) | ((((v >> 40) & 0xff) as u8 as u64) << 40)
        | ((((v >> 48) & 0xff) as u8 as u64) << 48) | ((((v >> 56) & 0xff) as u8 as u64) << 56))
        == v) by (bit_vector);
}

/// Reading back the four bytes of `u32_be` yields the encoded value.
pub proof fn lemma_u32_be_val(v: u32)
    ensures
        be32_val(u32_be(v)[0], u32_be(v)[1], u32_be(v)[2], u32_be(v)[3]) == v,
{
    assert((((((v >> 24) & 0xff) as u8 as u32) << 24) | ((((v >> 16) & 0xff) as u8 as u32) << 16)
        | ((((v >> 8) & 0xff) as u8 as u32) << 8) | ((v & 0xff) as u8 as u32)) == v)
        by (bit_vector);
}

/// Appends every byte of `d` to `out`, in order.
pub fn push_bytes(out: &mut Vec<u8>, d: &[u8])
    ensures
        final(out)@ == old(out)@ + d@,
{
    let mut i: usize = 0;
    while i < d.len()
        invariant
            i <= d@.len(),
            out@ == old(out)@ + d@.subrange(0, i as int),
        decreases d@.len() - i,
    {
        out.push(d[i]);
        i = i + 1;
        assert(out@ == old(out)@ + d@.subrange(0, i as int)) by {
            assert(d@.subrange(0, i as int)
                == d@.subrange(0, i - 1).push(d@[i - 1]));
        }
    }
    assert(d@.subrange(0, d@.len() as int) == d@);
}

/// Returns a copy of the bytes of `d` from `a` (inclusive) to `b` (exclusive).
pub fn copy_range(d: &[u8], a: usize, b: usize) -> (r: Vec<u8>)
    requires
        a <= b <= d@.len(),
    ensures
        r@ == d@.subrange(a as int, b as int),
{
    let mut r: Vec<u8> = Vec::new();
    let mut i: usize = a;
    while i < b
        invariant
            a <= i <= b <= d@.len(),
            r@ == d@.subrange(a as int, i as int),
        decreases b - i,
    {
        r.push(d[i]);
        i = i + 1;
        assert(r@ == d@.subrange(a as int, i as int)) by {
            assert(d@.subrange(a as int, i as int)
                == d@.subrange(a as int, i - 1).push(d@[i - 1]));
        }
    }
    r
}

/// Returns a copy of a byte vector.
pub fn clone_bytes(v: &Vec<u8>) -> (r: Vec<u8>)
    ensures
        r@ == v@,
{
    let r = copy_range(v.as_slice(), 0, v.len());
    assert(v@.subrange(0, v@.len() as int) == v@);
    r
}

/// Appends the little-endian two-byte encoding of `v` to `out`.
pub fn write_u16_le(out: &mut Vec<u8>, v: u16)
    ensures
        final(out)@ == old(out)@ + u16_le(v),
{
    out.push((v & 0xff) as u8);
    out.push(((v >> 8) & 0xff) as u8);
    assert(out@ == old(out)@ + u16_le(v));
}

/// Appends the little-endian eight-byte encoding of `v` to `out`.
pub fn write_u64_le(out: &mut Vec<u8>, v: u64)
    ensures
        final(out)@ == old(out)@ + u64_le(v),
{
    out.push((v & 0xff) as u8);
    out.push(((v >> 8) & 0xff) as u8);
    out.push(((v >> 16) & 0xff) as u8);
    out.push(((v >> 24) & 0xff) as u8);
    out.push(((v >> 32) & 0xff) as u8);
    out.push(((v >> 40) & 0xff) as u8);
    out.push(((v >> 48) & 0xff) as u8);
    out.push(((v >> 56) & 0xff) as u8);
    assert(out@ == old(out)@ + u64_le(v));
}

/// Appends the big-endian four-byte encoding of `v` to `out`.
pub fn write_u32_be(out: &mut Vec<u8>, v: u32)
    ensures
        final(out)@ == old(out)@ + u32_be(v),
{
    out.push(((v >> 24) & 0xff) as u8);
    out.push(((v >> 16) & 0xff) as u8);
    out.push(((v >> 8) & 0xff) as u8);
    out.push((v & 0xff) as u8);
    assert(out@ == old(out)@ + u32_be(v));
}

/// Reads the 16-bit value whose little-endian encoding starts at `pos`.
pub fn read_u16_le(d: &[u8], pos: usize) -> (r: u16)
    requires
        pos + 2 <= d@.len(),
    ensures
        r == le16_val(d@[pos as int], d@[pos + 1]),
{
    (d[pos] as u16) | ((d[pos + 1] as u16) << 8)
}

/// Reads the 64-bit value whose little-endian encoding starts at `pos`.
pub fn read_u64_le(d: &[u8], pos: usize) -> (r: u64)
    requires
        pos + 8 <= d@.len(),
    ensures
        r == le64_val(
            d@[pos as int],
            d@[pos + 1],
            d@[pos + 2],
            d@[pos + 3],
            d@[pos + 4],
            d@[pos + 5],
            d@[pos + 6],
            d@[pos + 7],
        ),
{
    (d[pos] as u64) | ((d[pos + 1] as u64) << 8) | ((d[pos + 2] as u64) << 16)
        | ((d[pos + 3] as u64) << 24) | ((d[pos + 4] as u64) << 32)
        | ((d[pos + 5] as u64) << 40) | ((d[pos + 6] as u64) << 48)
        | ((d[pos + 7] as u64) << 56)
}

/// Reads the 32-bit value whose big-endian encoding starts at `pos`.
pub fn read_u32_be(d: &[u8], pos: usize) -> (r: u32)
    requires
        pos + 4 <= d@.len(),
    ensures
        r == be32_val(d@[pos as int], d@[pos + 1], d@[pos + 2], d@[pos + 3]),
{
    ((d[pos] as u32) << 24) | ((d[pos + 1] as u32) << 16) | ((d[pos + 2] as u32) << 8)
        | (d[pos + 3] as u32)
}

} // verus!
