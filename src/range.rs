use vstd::prelude::*;

verus! {

/// Round `value` up to the next multiple of 16, as a mathematical integer.
pub open spec fn align16_spec(value: int) -> int {
    ((value + 15) / 16) * 16
}

/// Align to a 16-byte boundary.
pub fn align16(value: u32) -> (r: u32)
    requires
        value <= 0xFFFF_FFF0,
    ensures
        r as int == align16_spec(value as int),
        r % 16 == 0,
        value <= r < value + 16,
{
    let v: u32 = value + 0xF;
    let r = v & !0xFu32;
    assert((v & !0xFu32) == (v / 16) * 16 && (v / 16) * 16 <= v) by (bit_vector);
    r
}

/// A half-open range of 32-bit addresses, `[start, end)`.
#[derive(Clone, Copy, Debug, PartialEq, Eq, Structural)]
pub struct AddrRange {
    pub start: u32,
    pub end: u32,
}

impl AddrRange {
    pub open spec fn spec_len(self) -> int {
        if self.start <= self.end {
            self.end - self.start
        } else {
            0
        }
    }

    pub fn new(start: u32, end: u32) -> (r: AddrRange)
        ensures
            r.start == start,
            r.end == end,
    {
        AddrRange { start, end }
    }

    /// Number of addresses in the range; zero when `start > end`.
    pub fn len(&self) -> (r: u32)
        ensures
            r == self.spec_len(),
    {
        if self.start <= self.end {
            self.end - self.start
        } else {
            0
        }
    }

    pub fn is_empty(&self) -> (r: bool)
        ensures
            r == (self.spec_len() == 0),
    {
        self.start >= self.end
    }
}

/// Conversion of an address range into indices of a byte buffer.
pub trait ConvertRangeExt {
    spec fn spec_start(&self) -> usize;

    spec fn spec_end(&self) -> usize;

    fn to_usize(&self) -> (r: (usize, usize))
        ensures
            r.0 == self.spec_start(),
            r.1 == self.spec_end(),
    ;
}

impl ConvertRangeExt for AddrRange {
    open spec fn spec_start(&self) -> usize {
        self.start as usize
    }

    open spec fn spec_end(&self) -> usize {
        self.end as usize
    }

    fn to_usize(&self) -> (r: (usize, usize)) {
        (self.start as usize, self.end as usize)
    }
}

} // verus!
