use vstd::prelude::*;

use crate::common::{be_u32, lemma_be_u32_bytes, lemma_be_u32_round_trip, push_u32_be, read_u32_be, u32_be_bytes};
use crate::range::AddrRange;

verus! {

/// Size of one serialized table entry.
pub const ENTRY_SIZE: usize = 0x10;

/// Which of an entry's two address mappings an error is about.
#[derive(Clone, Copy, Debug, PartialEq, Eq, Structural)]
pub enum Mapping {
    Physical,
    Virtual,
}

/// Errors of entry decoding, validation and table discovery.
#[derive(Clone, Copy, Debug, PartialEq, Eq, Structural)]
pub enum DmaError {
    /// Fewer bytes remain than a fixed-size record needs.
    TruncatedInput,
    /// A range whose start lies after its end.
    InvalidRange(Mapping, AddrRange),
    /// Neither a signature nor the initial entry was found.
    NotFound,
    /// The signature header carries a version tag that is not known.
    UnknownVersion,
}

/// Classification of an entry, derived from its field values.
#[derive(Clone, Copy, Debug, PartialEq, Eq, Structural)]
pub enum EntryType {
    /// Entry file is compressed.
    Compressed,
    /// Entry file is stored uncompressed.
    Decompressed,
    /// Entry file does not exist (physical addresses are both 0xFFFFFFFF).
    DoesNotExist,
    /// Entry is empty (all fields are 0).
    Empty,
}

/// One record of the table: a virtual range and where its data lies in the image.
#[derive(Clone, Copy, Debug, PartialEq, Eq, Structural)]
pub struct Entry {
    pub virt_start: u32,
    pub virt_end: u32,
    pub phys_start: u32,
    pub phys_end: u32,
}

/// The 16 bytes of `e`: four big-endian words in field order.
pub open spec fn encode_entry(e: Entry) -> Seq<u8> {
    u32_be_bytes(e.virt_start) + u32_be_bytes(e.virt_end) + u32_be_bytes(e.phys_start)
        + u32_be_bytes(e.phys_end)
}

/// The entry stored at `b[i..i + 16]`.
pub open spec fn decode_entry(b: Seq<u8>, i: int) -> Entry {
    Entry {
        virt_start: be_u32(b, i),
        virt_end: be_u32(b, i + 4),
        phys_start: be_u32(b, i + 8),
        phys_end: be_u32(b, i + 12),
    }
}

/// Decoding the encoding of an entry gives the entry back.
pub proof fn lemma_decode_encode(e: Entry)
    ensures
        decode_entry(encode_entry(e), 0) == e,
{
    let b = encode_entry(e);
    lemma_be_u32_round_trip(e.virt_start);
    lemma_be_u32_round_trip(e.virt_end);
    lemma_be_u32_round_trip(e.phys_start);
    lemma_be_u32_round_trip(e.phys_end);
    assert(b.subrange(0, 4) =~= u32_be_bytes(e.virt_start));
    assert(b.subrange(4, 8) =~= u32_be_bytes(e.virt_end));
    assert(b.subrange(8, 12) =~= u32_be_bytes(e.phys_start));
    assert(b.subrange(12, 16) =~= u32_be_bytes(e.phys_end));
    assert(be_u32(b, 4) == be_u32(b.subrange(4, 8), 0));
    assert(be_u32(b, 8) == be_u32(b.subrange(8, 12), 0));
    assert(be_u32(b, 12) == be_u32(b.subrange(12, 16), 0));
    assert(be_u32(b, 0) == be_u32(b.subrange(0, 4), 0));
}

/// Encoding the entry decoded at `b[i..i + 16]` gives those 16 bytes back.
pub proof fn lemma_encode_decode(b: Seq<u8>, i: int)
    requires
        0 <= i,
        i + 16 <= b.len(),
    ensures
        encode_entry(decode_entry(b, i)) == b.subrange(i, i + 16),
{
    lemma_be_u32_bytes(b, i);
    lemma_be_u32_bytes(b, i + 4);
    lemma_be_u32_bytes(b, i + 8);
    lemma_be_u32_bytes(b, i + 12);
    assert(encode_entry(decode_entry(b, i)) =~= b.subrange(i, i + 16));
}

/// An entry whose four fields are zero is empty.
pub proof fn lemma_zero_entry_is_empty(e: Entry)
    requires
        e.virt_start == 0 && e.virt_end == 0 && e.phys_start == 0 && e.phys_end == 0,
    ensures
        e.kind_spec() == EntryType::Empty,
{
}

/// An entry whose physical start and end are both 0xFFFFFFFF does not exist, whatever its
/// virtual range.
pub proof fn lemma_missing_entry(e: Entry)
    requires
        e.phys_start == 0xFFFF_FFFF && e.phys_end == 0xFFFF_FFFF,
    ensures
        e.kind_spec() == EntryType::DoesNotExist,
{
}

/// A compressed entry is `vlen - plen` bytes larger uncompressed than in the image.
pub proof fn lemma_compressed_diff(e: Entry)
    requires
        e.kind_spec() == EntryType::Compressed,
        e.virt_start <= e.virt_end,
        e.phys_start <= e.phys_end,
    ensures
        e.diff_spec() == Ok::<Option<int>, DmaError>(
            Some((e.virt_end - e.virt_start) - (e.phys_end - e.phys_start)),
        ),
{
}

/// Validation fails on the virtual mapping whenever the virtual range is reversed,
/// whatever the physical fields hold.
pub proof fn lemma_reversed_virtual_range(e: Entry)
    requires
        e.virt_start > e.virt_end,
    ensures
        e.validate_spec() matches Err(DmaError::InvalidRange(Mapping::Virtual, r)) && r
            == e.virt_range(),
{
}

impl Entry {
    pub open spec fn virt_range(self) -> AddrRange {
        AddrRange { start: self.virt_start, end: self.virt_end }
    }

    pub open spec fn phys_range(self) -> AddrRange {
        AddrRange { start: self.phys_start, end: self.phys_end }
    }

    pub open spec fn kind_spec(self) -> EntryType {
        if self.virt_start == 0 && self.virt_end == 0 && self.phys_start == 0 && self.phys_end
            == 0 {
            EntryType::Empty
        } else if self.phys_start == 0xFFFF_FFFF && self.phys_end == 0xFFFF_FFFF {
            EntryType::DoesNotExist
        } else if self.phys_end == 0 {
            EntryType::Decompressed
        } else {
            EntryType::Compressed
        }
    }

    /// The range of file data in the image: the physical range of a compressed entry, and
    /// for an uncompressed one the virtual length counted from the physical start (modulo
    /// 2^32, so that an overflow shows as `start > end`).
    pub open spec fn real_range(self) -> Option<AddrRange> {
        match self.kind_spec() {
            EntryType::Compressed => Some(self.phys_range()),
            EntryType::Decompressed => Some(
                AddrRange {
                    start: self.phys_start,
                    end: ((self.phys_start + self.virt_range().spec_len()) % 0x1_0000_0000) as u32,
                },
            ),
            _ => None,
        }
    }

    pub open spec fn validate_spec(self) -> Result<(AddrRange, Option<AddrRange>, EntryType), DmaError> {
        if self.virt_start > self.virt_end {
            Err(DmaError::InvalidRange(Mapping::Virtual, self.virt_range()))
        } else {
            match self.real_range() {
                Some(p) => if p.start > p.end {
                    Err(DmaError::InvalidRange(Mapping::Physical, p))
                } else {
                    Ok((self.virt_range(), Some(p), self.kind_spec()))
                },
                None => Ok((self.virt_range(), None, self.kind_spec())),
            }
        }
    }

    /// Virtual length minus the length of the data in the image, for entries that have data.
    pub open spec fn diff_spec(self) -> Result<Option<int>, DmaError> {
        match self.validate_spec() {
            Err(e) => Err(e),
            Ok((v, p, _)) => match p {
                Some(p) => Ok(Some(v.spec_len() - p.spec_len())),
                None => Ok(None),
            },
        }
    }

    /// Virtual start address.
    pub fn virt_start(&self) -> (r: u32)
        ensures
            r == self.virt_start,
    {
        self.virt_start
    }

    /// Virtual end address.
    pub fn virt_end(&self) -> (r: u32)
        ensures
            r == self.virt_end,
    {
        self.virt_end
    }

    /// Physical start address.
    pub fn phys_start(&self) -> (r: u32)
        ensures
            r == self.phys_start,
    {
        self.phys_start
    }

    /// Physical end address.
    pub fn phys_end(&self) -> (r: u32)
        ensures
            r == self.phys_end,
    {
        self.phys_end
    }

    pub fn from(virt_start: u32, virt_end: u32, phys_start: u32, phys_end: u32) -> (r: Self)
        ensures
            r == (Entry { virt_start, virt_end, phys_start, phys_end }),
    {
        Entry { virt_start, virt_end, phys_start, phys_end }
    }

    /// Entry of an uncompressed file: the physical end is 0.
    pub fn from_decompressed(virt: AddrRange, phys_start: u32) -> (r: Self)
        ensures
            r == (Entry { virt_start: virt.start, virt_end: virt.end, phys_start, phys_end: 0 }),
    {
        Self::from(virt.start, virt.end, phys_start, 0)
    }

    pub fn from_range(virt: AddrRange, phys: AddrRange) -> (r: Self)
        ensures
            r == (Entry {
                virt_start: virt.start,
                virt_end: virt.end,
                phys_start: phys.start,
                phys_end: phys.end,
            }),
    {
        Self::from(virt.start, virt.end, phys.start, phys.end)
    }

    /// The first entry of every table: it describes the head of the image.
    pub fn initial() -> (r: Self)
        ensures
            r == (Entry { virt_start: 0, virt_end: 0x1060, phys_start: 0, phys_end: 0 }),
    {
        Self::from(0, 0x1060, 0, 0)
    }

    /// Classification of this entry.
    pub fn kind(&self) -> (r: EntryType)
        ensures
            r == self.kind_spec(),
    {
        if self.virt_start == 0 && self.virt_end == 0 && self.phys_start == 0 && self.phys_end
            == 0 {
            EntryType::Empty
        } else if self.phys_start == 0xFFFF_FFFF && self.phys_end == 0xFFFF_FFFF {
            EntryType::DoesNotExist
        } else if self.phys_end == 0 {
            EntryType::Decompressed
        } else {
            EntryType::Compressed
        }
    }

    /// Physical start and end addresses, as stored.
    pub fn phys(&self) -> (r: AddrRange)
        ensures
            r == self.phys_range(),
    {
        AddrRange::new(self.phys_start, self.phys_end)
    }

    /// Virtual start and end addresses.
    pub fn virt(&self) -> (r: AddrRange)
        ensures
            r == self.virt_range(),
    {
        AddrRange::new(self.virt_start, self.virt_end)
    }

    /// The range of file data in the image, with the classification.
    pub fn range(&self) -> (r: (Option<AddrRange>, EntryType))
        ensures
            r == (self.real_range(), self.kind_spec()),
    {
        let kind = self.kind();
        match kind {
            EntryType::Compressed => (Some(self.phys()), kind),
            EntryType::Decompressed => {
                let length = self.virt().len();
                let end = ((self.phys_start as u64 + length as u64) % 0x1_0000_0000u64) as u32;
                (Some(AddrRange::new(self.phys_start, end)), kind)
            },
            _ => (None, kind),
        }
    }

    /// Check that the virtual range and the range of file data are not reversed.
    pub fn validate(&self) -> (r: Result<(AddrRange, Option<AddrRange>, EntryType), DmaError>)
        ensures
            r == self.validate_spec(),
    {
        let virt = self.virt();
        let (phys, kind) = self.range();
        if virt.start > virt.end {
            Err(DmaError::InvalidRange(Mapping::Virtual, virt))
        } else {
            match phys {
                Some(p) => {
                    if p.start > p.end {
                        Err(DmaError::InvalidRange(Mapping::Physical, p))
                    } else {
                        Ok((virt, Some(p), kind))
                    }
                },
                None => Ok((virt, None, kind)),
            }
        }
    }

    /// Difference between the virtual (uncompressed) size and the size of the data in the
    /// image; `None` for entries without data.
    pub fn diff(&self) -> (r: Result<Option<i64>, DmaError>)
        ensures
            match r {
                Ok(Some(d)) => self.diff_spec() == Ok::<Option<int>, DmaError>(Some(d as int)),
                Ok(None) => self.diff_spec() == Ok::<Option<int>, DmaError>(None),
                Err(e) => self.diff_spec() == Err::<Option<int>, DmaError>(e),
            },
    {
        match self.validate() {
            Err(e) => Err(e),
            Ok((virt, phys, _)) => match phys {
                Some(p) => Ok(Some(virt.len() as i64 - p.len() as i64)),
                None => Ok(None),
            },
        }
    }

    /// Decode the entry stored at `bytes[offset..offset + 16]`.
    pub fn read(bytes: &[u8], offset: usize) -> (r: Result<Entry, DmaError>)
        ensures
            offset + 16 <= bytes@.len() ==> r == Ok::<Entry, DmaError>(decode_entry(bytes@, offset as int)),
            offset + 16 > bytes@.len() ==> r == Err::<Entry, DmaError>(DmaError::TruncatedInput),
    {
        if offset > bytes.len() || bytes.len() - offset < ENTRY_SIZE {
            return Err(DmaError::TruncatedInput);
        }
        let virt_start = read_u32_be(bytes, offset);
        let virt_end = read_u32_be(bytes, offset + 4);
        let phys_start = read_u32_be(bytes, offset + 8);
        let phys_end = read_u32_be(bytes, offset + 12);
        Ok(Entry::from(virt_start, virt_end, phys_start, phys_end))
    }

    /// Append the 16 bytes of this entry to `out`; returns the number of bytes written.
    pub fn write(&self, out: &mut Vec<u8>) -> (r: usize)
        ensures
            final(out)@ == old(out)@ + encode_entry(*self),
            r == ENTRY_SIZE,
    {
        push_u32_be(out, self.virt_start);
        push_u32_be(out, self.virt_end);
        push_u32_be(out, self.phys_start);
        push_u32_be(out, self.phys_end);
        assert(final(out)@ =~= old(out)@ + encode_entry(*self));
        ENTRY_SIZE
    }
}

} // verus!
