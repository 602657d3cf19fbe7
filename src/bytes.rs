use vstd::prelude::*;

verus! {

/// `s` with the bytes of every 32-bit word reordered: output byte `k` of a word is input
/// byte `p[k]` of the same word.
pub open spec fn word_permuted(s: Seq<u8>, p: Seq<int>) -> Seq<u8> {
    Seq::new(s.len(), |i: int| s[4 * (i / 4) + p[i % 4]])
}

/// `s` with the two bytes of every 16-bit half-word exchanged.
pub open spec fn pairs_swapped(s: Seq<u8>) -> Seq<u8> {
    Seq::new(s.len(), |i: int| if i % 2 == 0 { s[i + 1] } else { s[i - 1] })
}

proof fn lemma_word_index(w: int, i: int)
    requires
        0 <= w,
        4 * w <= i < 4 * w + 4,
    ensures
        i / 4 == w,
        i % 4 == i - 4 * w,
{
    assert(i / 4 == w && i % 4 == i - 4 * w) by (nonlinear_arith)
        requires
            0 <= w,
            4 * w <= i < 4 * w + 4,
    ;
}

/// Reorder the bytes of every word of `buf`: output byte k of a word is its input byte
/// `src0`, `src1`, `src2` or `src3` for k = 0, 1, 2 or 3.
pub fn permute_words(buf: &mut [u8], src0: usize, src1: usize, src2: usize, src3: usize)
    requires
        old(buf)@.len() % 4 == 0,
        src0 < 4 && src1 < 4 && src2 < 4 && src3 < 4,
    ensures
        final(buf)@ == word_permuted(old(buf)@, seq![src0 as int, src1 as int, src2 as int, src3 as int]),
{
    let ghost p = seq![src0 as int, src1 as int, src2 as int, src3 as int];
    let ghost orig = buf@;
    let n = buf.len();
    let mut w: usize = 0;
    while w < n / 4
        invariant
            n == buf@.len(),
            n == orig.len(),
            n % 4 == 0,
            w <= n / 4,
            p == seq![src0 as int, src1 as int, src2 as int, src3 as int],
            src0 < 4 && src1 < 4 && src2 < 4 && src3 < 4,
            forall|i: int| 0 <= i < 4 * w ==> buf@[i] == orig[4 * (i / 4) + p[i % 4]],
            forall|i: int| 4 * w <= i < n ==> buf@[i] == orig[i],
        decreases n / 4 - w,
    {
        let base = 4 * w;
        let a = buf[base + src0];
        let b = buf[base + src1];
        let c = buf[base + src2];
        let d = buf[base + src3];
        buf[base] = a;
        buf[base + 1] = b;
        buf[base + 2] = c;
        buf[base + 3] = d;
        assert forall|i: int| 0 <= i < 4 * (w + 1) implies buf@[i] == orig[4 * (i / 4) + p[i % 4]] by {
            if i >= 4 * w {
                lemma_word_index(w as int, i);
            }
        }
        w = w + 1;
    }
    assert(buf@ =~= word_permuted(orig, p));
}

/// Exchange the two bytes of every half-word of `buf`.
pub fn swap_pairs(buf: &mut [u8])
    requires
        old(buf)@.len() % 2 == 0,
    ensures
        final(buf)@ == pairs_swapped(old(buf)@),
{
    let ghost orig = buf@;
    let n = buf.len();
    let mut i: usize = 0;
    while i < n
        invariant
            n == buf@.len(),
            n == orig.len(),
            n % 2 == 0,
            i % 2 == 0,
            i <= n,
            forall|k: int| 0 <= k < i ==> buf@[k] == (if k % 2 == 0 { orig[k + 1] } else { orig[k - 1] }),
            forall|k: int| i <= k < n ==> buf@[k] == orig[k],
        decreases n - i,
    {
        let a = buf[i];
        let b = buf[i + 1];
        buf[i] = b;
        buf[i + 1] = a;
        i = i + 2;
    }
    assert(buf@ =~= pairs_swapped(orig));
}

/// Reorder the bytes of a buffer from one byte order into big-endian order.
pub trait Swap {
    /// Lengths that the reordering accepts.
    spec fn accepts(len: nat) -> bool;

    /// The reordered bytes.
    spec fn swapped(s: Seq<u8>) -> Seq<u8>;

    fn swap(buf: &mut [u8])
        requires
            Self::accepts(old(buf)@.len()),
        ensures
            final(buf)@ == Self::swapped(old(buf)@),
    ;
}

/// Reorder `buf` with the byte order `T`.
pub fn swap_bytes<T: Swap>(buf: &mut [u8])
    requires
        T::accepts(old(buf)@.len()),
    ensures
        final(buf)@ == T::swapped(old(buf)@),
{
    T::swap(buf)
}

/// Big-endian order: nothing to reorder.
pub struct BigEndian;

impl Swap for BigEndian {
    open spec fn accepts(len: nat) -> bool {
        true
    }

    open spec fn swapped(s: Seq<u8>) -> Seq<u8> {
        s
    }

    fn swap(buf: &mut [u8]) {
    }
}

/// Little-endian order: the four bytes of every word are reversed.
pub struct LittleEndian;

impl Swap for LittleEndian {
    open spec fn accepts(len: nat) -> bool {
        len % 4 == 0
    }

    open spec fn swapped(s: Seq<u8>) -> Seq<u8> {
        word_permuted(s, seq![3, 2, 1, 0])
    }

    fn swap(buf: &mut [u8]) {
        permute_words(buf, 3, 2, 1, 0);
    }
}

/// Mixed (byte-swapped) order: the two bytes of every half-word are exchanged.
pub struct Mixed;

impl Swap for Mixed {
    open spec fn accepts(len: nat) -> bool {
        len % 2 == 0
    }

    open spec fn swapped(s: Seq<u8>) -> Seq<u8> {
        pairs_swapped(s)
    }

    fn swap(buf: &mut [u8]) {
        swap_pairs(buf);
    }
}

/// The three byte orders in which images are stored.
#[derive(Clone, Copy, Debug, PartialEq, Eq, Structural)]
pub enum Endianness {
    Big,
    Little,
    Mixed,
}

/// The usual file extensions, one per byte order.
#[derive(Clone, Copy, Debug, PartialEq, Eq, Structural)]
pub enum FileExt {
    N64,
    V64,
    Z64,
}

impl Endianness {
    pub open spec fn accepts_len(self, len: nat) -> bool {
        match self {
            Endianness::Big => true,
            Endianness::Little => len % 4 == 0,
            Endianness::Mixed => len % 2 == 0,
        }
    }

    /// `s` in this byte order, reordered into big-endian order.
    pub open spec fn to_big(self, s: Seq<u8>) -> Seq<u8> {
        match self {
            Endianness::Big => s,
            Endianness::Little => word_permuted(s, seq![3, 2, 1, 0]),
            Endianness::Mixed => pairs_swapped(s),
        }
    }

    /// Reorder `buf`, stored in this byte order, into big-endian order.
    pub fn swap(&self, buf: &mut [u8])
        requires
            self.accepts_len(old(buf)@.len()),
        ensures
            final(buf)@ == self.to_big(old(buf)@),
    {
        match self {
            Endianness::Big => swap_bytes::<BigEndian>(buf),
            Endianness::Little => swap_bytes::<LittleEndian>(buf),
            Endianness::Mixed => swap_bytes::<Mixed>(buf),
        }
    }

    pub fn from_file_ext(ext: FileExt) -> (r: Endianness)
        ensures
            r == match ext {
                FileExt::N64 => Endianness::Little,
                FileExt::V64 => Endianness::Mixed,
                FileExt::Z64 => Endianness::Big,
            },
    {
        match ext {
            FileExt::N64 => Endianness::Little,
            FileExt::V64 => Endianness::Mixed,
            FileExt::Z64 => Endianness::Big,
        }
    }
}

impl FileExt {
    pub open spec fn spec_str(self) -> Seq<char> {
        match self {
            FileExt::N64 => seq!['n', '6', '4'],
            FileExt::V64 => seq!['v', '6', '4'],
            FileExt::Z64 => seq!['z', '6', '4'],
        }
    }

    pub fn as_str(&self) -> (r: &'static str)
        ensures
            r@ == self.spec_str(),
    {
        match self {
            FileExt::N64 => {
                proof {
                    reveal_strlit("n64");
                }
                "n64"
            },
            FileExt::V64 => {
                proof {
                    reveal_strlit("v64");
                }
                "v64"
            },
            FileExt::Z64 => {
                proof {
                    reveal_strlit("z64");
                }
                "z64"
            },
        }
    }

    pub fn from_endianness(e: Endianness) -> (r: Option<FileExt>)
        ensures
            r == Some(match e {
                Endianness::Big => FileExt::Z64,
                Endianness::Little => FileExt::N64,
                Endianness::Mixed => FileExt::V64,
            }),
    {
        match e {
            Endianness::Big => Some(FileExt::Z64),
            Endianness::Little => Some(FileExt::N64),
            Endianness::Mixed => Some(FileExt::V64),
        }
    }
}

} // verus!
