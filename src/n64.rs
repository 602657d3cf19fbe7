use vstd::prelude::*;

use crate::bytes::Endianness;
use crate::common::{be_u32, read_u32_be, u32_be_bytes};
use crate::convert::{convert, converted, ConvertError};

verus! {

/// Size of the image head: the 0x40-byte header and the 0xFC0-byte boot code. The body
/// starts here.
pub const HEAD_SIZE: usize = 0x1000;

/// Largest image size (64 MiB).
pub const MAX_SIZE: usize = 0x400_0000;

/// Offset of the first checksum word in the header; the second follows it.
pub const CRC_OFFSET: usize = 0x10;

/// Errors of reading an image.
#[derive(Clone, Copy, Debug, PartialEq, Eq, Structural)]
pub enum RomError {
    /// The image is shorter than its head.
    TruncatedHead,
    /// The first word is not the header magic in any byte order.
    UnknownMagic,
    /// The operation needs a big-endian image.
    UnsupportedEndianness(Endianness),
    /// The image cannot be reordered.
    Convert(ConvertError),
}

/// The byte order that the header magic `80 37 12 40` at the start of `s` shows.
pub open spec fn order_of_magic(s: Seq<u8>) -> Option<Endianness> {
    if s.len() < 4 {
        None
    } else if s[0] == 0x80 && s[1] == 0x37 && s[2] == 0x12 && s[3] == 0x40 {
        Some(Endianness::Big)
    } else if s[0] == 0x40 && s[1] == 0x12 && s[2] == 0x37 && s[3] == 0x80 {
        Some(Endianness::Little)
    } else if s[0] == 0x37 && s[1] == 0x80 && s[2] == 0x40 && s[3] == 0x12 {
        Some(Endianness::Mixed)
    } else {
        None
    }
}

/// The byte order of an image, from the magic in its first four bytes.
pub fn detect_order(b: &[u8]) -> (r: Option<Endianness>)
    ensures
        r == order_of_magic(b@),
{
    if b.len() < 4 {
        None
    } else if b[0] == 0x80 && b[1] == 0x37 && b[2] == 0x12 && b[3] == 0x40 {
        Some(Endianness::Big)
    } else if b[0] == 0x40 && b[1] == 0x12 && b[2] == 0x37 && b[3] == 0x80 {
        Some(Endianness::Little)
    } else if b[0] == 0x37 && b[1] == 0x80 && b[2] == 0x40 && b[3] == 0x12 {
        Some(Endianness::Mixed)
    } else {
        None
    }
}

/// A copy of `s`.
pub fn copy_bytes(s: &[u8]) -> (r: Vec<u8>)
    ensures
        r@ == s@,
{
    let mut out: Vec<u8> = Vec::new();
    let mut i: usize = 0;
    while i < s.len()
        invariant
            i <= s@.len(),
            out@ == s@.subrange(0, i as int),
        decreases s@.len() - i,
    {
        out.push(s[i]);
        assert(s@.subrange(0, i as int + 1) =~= s@.subrange(0, i as int).push(s@[i as int]));
        i = i + 1;
    }
    assert(s@.subrange(0, s@.len() as int) =~= s@);
    out
}

/// A cartridge image held in big-endian order, with the byte order it was read in.
pub struct N64Rom {
    /// The full image: head, then body.
    pub image: Vec<u8>,
    /// Byte order of the file the image came from.
    pub order: Endianness,
}

impl N64Rom {
    /// The image holds at least its head.
    pub open spec fn wf(&self) -> bool {
        self.image@.len() >= HEAD_SIZE
    }

    /// The two checksum words stored in the header.
    pub open spec fn spec_crcs(&self) -> (u32, u32) {
        (be_u32(self.image@, CRC_OFFSET as int), be_u32(self.image@, CRC_OFFSET + 4))
    }

    pub fn from(image: Vec<u8>, order: Endianness) -> (r: Self)
        ensures
            r.image@ == image@,
            r.order == order,
    {
        N64Rom { image, order }
    }

    /// Take a big-endian image as it is.
    pub fn from_image(image: Vec<u8>) -> (r: Result<Self, RomError>)
        ensures
            image@.len() < HEAD_SIZE ==> r == Err::<Self, RomError>(RomError::TruncatedHead),
            image@.len() >= HEAD_SIZE ==> match order_of_magic(image@) {
                None => r == Err::<Self, RomError>(RomError::UnknownMagic),
                Some(Endianness::Big) => r matches Ok(rom) && rom.image@ == image@ && rom.order
                    == Endianness::Big,
                Some(o) => r == Err::<Self, RomError>(RomError::UnsupportedEndianness(o)),
            },
    {
        if image.len() < HEAD_SIZE {
            return Err(RomError::TruncatedHead);
        }
        match detect_order(image.as_slice()) {
            None => Err(RomError::UnknownMagic),
            Some(Endianness::Big) => Ok(N64Rom::from(image, Endianness::Big)),
            Some(o) => Err(RomError::UnsupportedEndianness(o)),
        }
    }

    /// The big-endian image and the byte order that reading `bytes` gives.
    pub open spec fn read_spec(bytes: Seq<u8>) -> Result<(Seq<u8>, Endianness), RomError> {
        if bytes.len() < HEAD_SIZE {
            Err(RomError::TruncatedHead)
        } else {
            match order_of_magic(bytes) {
                None => Err(RomError::UnknownMagic),
                Some(o) => if bytes.len() % 4 != 0 {
                    Err(RomError::Convert(ConvertError::AlignmentError(bytes.len() as usize)))
                } else {
                    Ok((converted(bytes, o, Endianness::Big), o))
                },
            }
        }
    }

    /// Read an image in any of the three byte orders; it is held in big-endian order.
    pub fn read(bytes: Vec<u8>) -> (r: Result<Self, RomError>)
        ensures
            match Self::read_spec(bytes@) {
                Ok((image, o)) => r matches Ok(rom) && rom.image@ == image && rom.order == o,
                Err(e) => r == Err::<Self, RomError>(e),
            },
            bytes@.len() < HEAD_SIZE ==> r == Err::<Self, RomError>(RomError::TruncatedHead),
            bytes@.len() >= HEAD_SIZE ==> match order_of_magic(bytes@) {
                None => r == Err::<Self, RomError>(RomError::UnknownMagic),
                Some(o) => if bytes@.len() % 4 != 0 {
                    r == Err::<Self, RomError>(
                        RomError::Convert(ConvertError::AlignmentError(bytes@.len() as usize)),
                    )
                } else {
                    r matches Ok(rom) && rom.image@ == converted(bytes@, o, Endianness::Big)
                        && rom.order == o
                },
            },
    {
        let mut bytes = bytes;
        if bytes.len() < HEAD_SIZE {
            return Err(RomError::TruncatedHead);
        }
        match detect_order(bytes.as_slice()) {
            None => Err(RomError::UnknownMagic),
            Some(o) => {
                match convert(bytes.as_mut_slice(), o, Endianness::Big) {
                    Ok(_) => Ok(N64Rom::from(bytes, o)),
                    Err(e) => Err(RomError::Convert(e)),
                }
            },
        }
    }

    /// The full image.
    pub fn full(&self) -> (r: &[u8])
        ensures
            r@ == self.image@,
    {
        self.image.as_slice()
    }

    /// The body: the image without its head.
    pub fn data(&self) -> (r: &[u8])
        requires
            self.wf(),
        ensures
            r@ == self.image@.subrange(HEAD_SIZE as int, self.image@.len() as int),
    {
        let s = self.image.as_slice();
        &s[HEAD_SIZE..s.len()]
    }

    /// Byte order of the file the image came from.
    pub fn order(&self) -> (r: Endianness)
        ensures
            r == self.order,
    {
        self.order
    }

    pub fn len(&self) -> (r: usize)
        ensures
            r == self.image@.len(),
    {
        self.image.len()
    }

    pub fn is_empty(&self) -> (r: bool)
        ensures
            r == (self.image@.len() == 0),
    {
        self.image.len() == 0
    }

    /// The two checksum words stored in the header.
    pub fn crcs(&self) -> (r: (u32, u32))
        requires
            self.wf(),
        ensures
            r == self.spec_crcs(),
    {
        (read_u32_be(self.image.as_slice(), CRC_OFFSET), read_u32_be(self.image.as_slice(), CRC_OFFSET + 4))
    }

    /// Compare the stored checksums with `computed`, the values computed over the body by
    /// the boot code's algorithm.
    pub fn check_crc(&self, computed: (u32, u32)) -> (r: bool)
        requires
            self.wf(),
        ensures
            r == (self.spec_crcs() == computed),
    {
        let (c1, c2) = self.crcs();
        c1 == computed.0 && c2 == computed.1
    }

    /// Store `computed` as the header checksums; returns whether they were already correct,
    /// in which case the image is left as it is.
    pub fn correct_crc(&mut self, computed: (u32, u32)) -> (r: bool)
        requires
            old(self).wf(),
        ensures
            r == (old(self).spec_crcs() == computed),
            final(self).order == old(self).order,
            final(self).wf(),
            r ==> final(self).image@ == old(self).image@,
            !r ==> final(self).image@ == old(self).image@.subrange(0, CRC_OFFSET as int)
                + u32_be_bytes(computed.0) + u32_be_bytes(computed.1) + old(self).image@.subrange(
                CRC_OFFSET + 8,
                old(self).image@.len() as int,
            ),
            final(self).spec_crcs() == computed,
    {
        if self.check_crc(computed) {
            return true;
        }
        let ghost before = self.image@;
        let ghost order = self.order;
        let w = u32_be_bytes_exec(computed.0);
        let v = u32_be_bytes_exec(computed.1);
        let mut k: usize = 0;
        while k < 4
            invariant
                k <= 4,
                self.order == order,
                self.image@.len() == before.len(),
                before.len() >= HEAD_SIZE,
                w@ == u32_be_bytes(computed.0),
                v@ == u32_be_bytes(computed.1),
                forall|i: int| 0 <= i < before.len() ==> self.image@[i] == if CRC_OFFSET <= i
                    < CRC_OFFSET + k {
                    w@[i - CRC_OFFSET]
                } else if CRC_OFFSET + 4 <= i < CRC_OFFSET + 4 + k {
                    v@[i - CRC_OFFSET - 4]
                } else {
                    before[i]
                },
            decreases 4 - k,
        {
            self.image.set(CRC_OFFSET + k, w[k]);
            self.image.set(CRC_OFFSET + 4 + k, v[k]);
            k = k + 1;
        }
        let ghost expect = before.subrange(0, CRC_OFFSET as int) + u32_be_bytes(computed.0)
            + u32_be_bytes(computed.1) + before.subrange(CRC_OFFSET + 8, before.len() as int);
        assert(self.image@ =~= expect);
        proof {
            lemma_crcs_of(expect, before, computed);
        }
        false
    }

    /// The image in the byte order `endianness`, or in the order it was read in.
    pub fn write_raw(&self, endianness: Option<Endianness>) -> (r: Result<Vec<u8>, ConvertError>)
        ensures
            ({
                let o = match endianness {
                    Some(o) => o,
                    None => self.order,
                };
                if self.image@.len() % 4 == 0 {
                    r matches Ok(v) && v@ == converted(self.image@, Endianness::Big, o)
                } else {
                    r == Err::<Vec<u8>, ConvertError>(
                        ConvertError::AlignmentError(self.image@.len() as usize),
                    )
                }
            }),
    {
        let order = match endianness {
            Some(o) => o,
            None => self.order,
        };
        let mut out = copy_bytes(self.image.as_slice());
        match convert(out.as_mut_slice(), Endianness::Big, order) {
            Ok(_) => Ok(out),
            Err(e) => Err(e),
        }
    }
}

proof fn lemma_crcs_of(s: Seq<u8>, before: Seq<u8>, computed: (u32, u32))
    requires
        before.len() >= HEAD_SIZE,
        s == before.subrange(0, CRC_OFFSET as int) + u32_be_bytes(computed.0) + u32_be_bytes(
            computed.1,
        ) + before.subrange(CRC_OFFSET + 8, before.len() as int),
    ensures
        be_u32(s, CRC_OFFSET as int) == computed.0,
        be_u32(s, CRC_OFFSET + 4) == computed.1,
{
    crate::common::lemma_be_u32_round_trip(computed.0);
    crate::common::lemma_be_u32_round_trip(computed.1);
    assert(s.subrange(0x10, 0x14) =~= u32_be_bytes(computed.0));
    assert(s.subrange(0x14, 0x18) =~= u32_be_bytes(computed.1));
    assert(be_u32(s, 0x10) == be_u32(s.subrange(0x10, 0x14), 0));
    assert(be_u32(s, 0x14) == be_u32(s.subrange(0x14, 0x18), 0));
}

/// The four big-endian bytes of `x`.
fn u32_be_bytes_exec(x: u32) -> (r: Vec<u8>)
    ensures
        r@ == u32_be_bytes(x),
{
    let mut out: Vec<u8> = Vec::new();
    crate::common::push_u32_be(&mut out, x);
    assert(out@ =~= u32_be_bytes(x));
    out
}

} // verus!
