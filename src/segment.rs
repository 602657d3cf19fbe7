use vstd::prelude::*;

verus! {

/// Attaches a segmented address to a value of another type.
pub struct Relative<T> {
    pub address: SegAddr,
    pub value: T,
}

impl<T> Relative<T> {
    pub fn from(address: SegAddr, value: T) -> (r: Self)
        ensures
            r.address == address,
            r.value == value,
    {
        Relative { address, value }
    }
}

/// Segmented address: an 8-bit segment index above a 24-bit offset.
#[derive(Clone, Copy, Debug, PartialEq, Eq, Structural)]
pub struct SegAddr(pub u32);

impl SegAddr {
    pub open spec fn spec_segment(self) -> int {
        self.0 as int / 0x100_0000
    }

    pub open spec fn spec_offset(self) -> int {
        self.0 as int % 0x100_0000
    }

    /// The address of `offset` (its low 24 bits) in segment `segment`.
    pub fn from(segment: u8, offset: u32) -> (r: Self)
        ensures
            r.spec_segment() == segment,
            r.spec_offset() == offset as int % 0x100_0000,
    {
        let value: u32 = ((segment as u32) << 24u32) | (offset & 0xFF_FFFFu32);
        let s = segment as u32;
        assert((((s << 24u32) | (offset & 0xFF_FFFFu32)) / 0x100_0000u32 == s) && (((s << 24u32) | (
        offset & 0xFF_FFFFu32)) % 0x100_0000u32 == offset % 0x100_0000u32)) by (bit_vector)
            requires
                s < 256,
        ;
        SegAddr(value)
    }

    pub fn from_raw(raw: u32) -> (r: Self)
        ensures
            r.0 == raw,
    {
        SegAddr(raw)
    }

    /// The 24-bit offset.
    pub fn offset(&self) -> (r: u32)
        ensures
            r == self.spec_offset(),
    {
        let raw = self.0;
        assert((raw & 0xFF_FFFFu32) == raw % 0x100_0000u32) by (bit_vector);
        raw & 0xFF_FFFFu32
    }

    /// The raw 32-bit value.
    pub fn raw(&self) -> (r: u32)
        ensures
            r == self.0,
    {
        self.0
    }

    /// The segment index.
    pub fn segment(&self) -> (r: u8)
        ensures
            r == self.spec_segment(),
    {
        let raw = self.0;
        assert((raw >> 24u32) == raw / 0x100_0000u32) by (bit_vector);
        (raw >> 24u32) as u8
    }
}

} // verus!
