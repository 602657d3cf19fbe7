use vstd::prelude::*;

verus! {

/// The big-endian 32-bit word stored at `b[i..i + 4]`.
pub open spec fn be_u32(b: Seq<u8>, i: int) -> u32 {
    ((b[i] as u32) << 24u32) | ((b[i + 1] as u32) << 16u32) | ((b[i + 2] as u32) << 8u32) | (
    b[i + 3] as u32)
}

/// The four bytes of `x`, most significant first.
pub open spec fn u32_be_bytes(x: u32) -> Seq<u8> {
    seq![(x >> 24u32) as u8, (x >> 16u32) as u8, (x >> 8u32) as u8, x as u8]
}

/// Read a big-endian 32-bit word at `b[i..i + 4]`.
pub fn read_u32_be(b: &[u8], i: usize) -> (r: u32)
    requires
        i + 4 <= b@.len(),
    ensures
        r == be_u32(b@, i as int),
{
    ((b[i] as u32) << 24u32) | ((b[i + 1] as u32) << 16u32) | ((b[i + 2] as u32) << 8u32) | (b[i
        + 3] as u32)
}

/// Append the big-endian bytes of `x` to `out`.
pub fn push_u32_be(out: &mut Vec<u8>, x: u32)
    ensures
        final(out)@ == old(out)@ + u32_be_bytes(x),
{
    out.push((x >> 24u32) as u8);
    out.push((x >> 16u32) as u8);
    out.push((x >> 8u32) as u8);
    out.push(x as u8);
    assert(final(out)@ =~= old(out)@ + u32_be_bytes(x));
}

/// Reading back the bytes that `u32_be_bytes` produces gives the original word.
pub proof fn lemma_be_u32_round_trip(x: u32)
    ensures
        be_u32(u32_be_bytes(x), 0) == x,
{
    let b = u32_be_bytes(x);
    let b0 = (x >> 24u32) as u8;
    let b1 = (x >> 16u32) as u8;
    let b2 = (x >> 8u32) as u8;
    let b3 = x as u8;
    assert(b[0] == b0 && b[1] == b1 && b[2] == b2 && b[3] == b3);
    assert(((b0 as u32) << 24u32) | ((b1 as u32) << 16u32) | ((b2 as u32) << 8u32) | (b3 as u32)
        == x) by (bit_vector)
        requires
            b0 == (x >> 24u32) as u8,
            b1 == (x >> 16u32) as u8,
            b2 == (x >> 8u32) as u8,
            b3 == x as u8,
    ;
}

/// The bytes of the word read at `b[i..i + 4]` are those four bytes.
pub proof fn lemma_be_u32_bytes(b: Seq<u8>, i: int)
    requires
        0 <= i,
        i + 4 <= b.len(),
    ensures
        u32_be_bytes(be_u32(b, i)) == b.subrange(i, i + 4),
{
    let x = be_u32(b, i);
    let b0 = b[i];
    let b1 = b[i + 1];
    let b2 = b[i + 2];
    let b3 = b[i + 3];
    assert((x >> 24u32) as u8 == b0 && (x >> 16u32) as u8 == b1 && (x >> 8u32) as u8 == b2 && x as u8
        == b3) by (bit_vector)
        requires
            x == ((b0 as u32) << 24u32) | ((b1 as u32) << 16u32) | ((b2 as u32) << 8u32) | (b3 as u32),
    ;
    assert(u32_be_bytes(x) =~= b.subrange(i, i + 4));
}

/// The big-endian signed 16-bit value stored at `b[i..i + 2]`.
pub open spec fn be_i16(b: Seq<u8>, i: int) -> i16 {
    (((b[i] as u16) << 8u16) | (b[i + 1] as u16)) as i16
}

/// Read a big-endian signed 16-bit value at `b[i..i + 2]`.
pub fn read_i16_be(b: &[u8], i: usize) -> (r: i16)
    requires
        i + 2 <= b@.len(),
    ensures
        r == be_i16(b@, i as int),
{
    (((b[i] as u16) << 8u16) | (b[i + 1] as u16)) as i16
}

/// A value that can be read from the start of a byte slice.
pub trait FromBytes: Sized {
    /// Number of bytes that a value occupies.
    spec fn size() -> nat;

    /// The value stored at the start of `b`.
    spec fn decoded(b: Seq<u8>) -> Self;

    /// Read a value from the start of `bytes`; `None` when there are too few bytes.
    fn from_bytes(bytes: &[u8]) -> (r: Option<Self>)
        ensures
            bytes@.len() >= Self::size() ==> r == Some(Self::decoded(bytes@)),
            bytes@.len() < Self::size() ==> r is None,
    ;
}

/// `s` with `b` written over it from `off` on.
pub open spec fn patched(s: Seq<u8>, off: int, b: Seq<u8>) -> Seq<u8> {
    s.subrange(0, off) + b + s.subrange(off + b.len(), s.len() as int)
}

/// Write `src` over `dst` from `off` on.
pub fn overwrite(dst: &mut Vec<u8>, off: usize, src: &[u8])
    requires
        off + src@.len() <= old(dst)@.len(),
    ensures
        final(dst)@ == patched(old(dst)@, off as int, src@),
{
    let ghost before = dst@;
    let n = dst.len();
    let mut i: usize = 0;
    while i < src.len()
        invariant
            off + src@.len() <= n,
            n == before.len(),
            dst@.len() == n,
            i <= src@.len(),
            forall|k: int| 0 <= k < n ==> dst@[k] == if off <= k < off + i {
                src@[k - off]
            } else {
                before[k]
            },
        decreases src@.len() - i,
    {
        dst.set(off + i, src[i]);
        i = i + 1;
    }
    assert(dst@ =~= patched(before, off as int, src@));
}

} // verus!
