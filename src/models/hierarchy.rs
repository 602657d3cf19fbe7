use vstd::prelude::*;

use crate::common::{be_u32, read_u32_be, FromBytes};
use crate::primitive::Vec3s;
use crate::segment::{Relative, SegAddr};

verus! {

/// Hierarchy header.
#[derive(Clone, Copy, Debug, PartialEq, Eq, Structural)]
pub struct Header {
    /// Segmented address of the limb index.
    pub limbs: SegAddr,
    /// Number of limb indexes.
    pub count: u8,
    /// Number of display lists.
    pub display_lists: u8,
}

impl FromBytes for Header {
    open spec fn size() -> nat {
        12
    }

    open spec fn decoded(b: Seq<u8>) -> Self {
        Header {
            limbs: SegAddr(be_u32(b, 0)),
            count: (be_u32(b, 4) >> 24u32) as u8,
            display_lists: (be_u32(b, 8) >> 24u32) as u8,
        }
    }

    fn from_bytes(bytes: &[u8]) -> (r: Option<Self>) {
        if bytes.len() < 12 {
            return None;
        }
        let address = read_u32_be(bytes, 0);
        let word1 = read_u32_be(bytes, 4);
        let word2 = read_u32_be(bytes, 8);
        Some(Header { limbs: SegAddr::from_raw(address), count: (word1 >> 24u32) as u8, display_lists: (word2 >> 24u32) as u8 })
    }
}

/// Size of a serialized `Limb`.
pub const LIMB_SIZE: usize = 0xC;

/// Limb of a standard hierarchy.
#[derive(Clone, Copy, Debug, PartialEq, Eq, Structural)]
pub struct Limb {
    /// Translation relative to the parent limb.
    pub translation: Vec3s,
    /// Index of the first child limb.
    pub child: u8,
    /// Index of the next sibling limb.
    pub next: u8,
    /// Address of the display list.
    pub display_list: SegAddr,
}

impl FromBytes for Limb {
    open spec fn size() -> nat {
        12
    }

    open spec fn decoded(b: Seq<u8>) -> Self {
        Limb {
            translation: Vec3s::decoded(b),
            child: b[6],
            next: b[7],
            display_list: SegAddr(be_u32(b, 8)),
        }
    }

    fn from_bytes(bytes: &[u8]) -> (r: Option<Self>) {
        if bytes.len() < LIMB_SIZE {
            return None;
        }
        let translation = match Vec3s::from_bytes(bytes) {
            Some(t) => t,
            None => {
                return None;
            },
        };
        Some(Limb { translation, child: bytes[6], next: bytes[7], display_list: SegAddr::from_raw(read_u32_be(bytes, 8)) })
    }
}

/// Limb of a player hierarchy.
#[derive(Clone, Copy, Debug, PartialEq, Eq, Structural)]
pub struct PlayerLimb {
    /// The standard limb fields.
    pub base: Limb,
    /// Address of the far-model display list.
    pub far_model_display_list: SegAddr,
}

impl FromBytes for PlayerLimb {
    open spec fn size() -> nat {
        16
    }

    open spec fn decoded(b: Seq<u8>) -> Self {
        PlayerLimb { base: Limb::decoded(b), far_model_display_list: SegAddr(be_u32(b, 12)) }
    }

    fn from_bytes(bytes: &[u8]) -> (r: Option<Self>) {
        if bytes.len() < 16 {
            return None;
        }
        let base = match Limb::from_bytes(bytes) {
            Some(l) => l,
            None => {
                return None;
            },
        };
        Some(PlayerLimb { base, far_model_display_list: SegAddr::from_raw(read_u32_be(bytes, 12)) })
    }
}

/// Offset of the `i`-th limb index of the header `h`.
pub open spec fn index_pos(h: Header, i: int) -> int {
    h.limbs.spec_offset() + 4 * i
}

/// The `i`-th limb index of the header `h` in `b`.
pub open spec fn index_at(b: Seq<u8>, h: Header, i: int) -> SegAddr {
    SegAddr(be_u32(b, index_pos(h, i)))
}

/// The header at `offset` lies in `b`, and so do each limb index and the limb it points to.
pub open spec fn hierarchy_fits<T: FromBytes>(b: Seq<u8>, offset: int) -> bool {
    offset + 12 <= b.len() && {
        let h = Header::decoded(b.subrange(offset, b.len() as int));
        forall|i: int|
            0 <= i < h.count ==> index_pos(h, i) + 4 <= b.len() && index_at(b, h, i).spec_offset()
                + T::size() <= b.len()
    }
}

/// A hierarchy: its header and its limbs, each with the address it was read from.
pub struct HierarchyWith<T: FromBytes> {
    pub header: Header,
    pub limbs: Vec<Relative<T>>,
}

impl<T: FromBytes> HierarchyWith<T> {
    pub fn from(header: Header, limbs: Vec<Relative<T>>) -> (r: Self)
        ensures
            r.header == header,
            r.limbs@ == limbs@,
    {
        HierarchyWith { header, limbs }
    }

    /// Read a hierarchy whose header is at `offset` in `bytes`; limb indexes and limbs are
    /// found through the offsets of their segmented addresses. `None` where any of them lies
    /// outside `bytes`.
    pub fn read_from(bytes: &[u8], offset: u32, _base: SegAddr) -> (r: Option<Self>)
        ensures
            r is Some <==> hierarchy_fits::<T>(bytes@, offset as int),
            r matches Some(hw) ==> ({
                let h = Header::decoded(bytes@.subrange(offset as int, bytes@.len() as int));
                &&& hw.header == h
                &&& hw.limbs@.len() == h.count
                &&& forall|i: int|
                    0 <= i < h.count ==> hw.limbs@[i].address == index_at(bytes@, h, i)
                        && hw.limbs@[i].value == T::decoded(
                        bytes@.subrange(index_at(bytes@, h, i).spec_offset(), bytes@.len() as int),
                    )
            }),
    {
        let n = bytes.len();
        if offset as usize > n {
            return None;
        }
        let header = match Header::from_bytes(&bytes[offset as usize..n]) {
            Some(h) => h,
            None => {
                return None;
            },
        };
        let indexes_offset = header.limbs.offset() as usize;
        let mut limbs: Vec<Relative<T>> = Vec::new();
        let mut i: u8 = 0;
        while i < header.count
            invariant
                n == bytes@.len(),
                offset + 12 <= n,
                header == Header::decoded(bytes@.subrange(offset as int, n as int)),
                indexes_offset == header.limbs.spec_offset(),
                i <= header.count,
                limbs@.len() == i,
                forall|k: int|
                    0 <= k < i ==> index_pos(header, k) + 4 <= n && index_at(bytes@, header, k).spec_offset()
                        + T::size() <= n,
                forall|k: int|
                    0 <= k < i ==> limbs@[k].address == index_at(bytes@, header, k) && limbs@[k].value
                        == T::decoded(bytes@.subrange(index_at(bytes@, header, k).spec_offset(), n as int)),
            decreases header.count - i,
        {
            let pos = indexes_offset + 4 * (i as usize);
            if pos > n || n - pos < 4 {
                assert(!(index_pos(header, i as int) + 4 <= n));
                return None;
            }
            let index = SegAddr::from_raw(read_u32_be(bytes, pos));
            let limb_offset = index.offset() as usize;
            assert(index == index_at(bytes@, header, i as int));
            if limb_offset > n {
                assert(!(index_at(bytes@, header, i as int).spec_offset() + T::size() <= n));
                return None;
            }
            let limb = match T::from_bytes(&bytes[limb_offset..n]) {
                Some(l) => l,
                None => {
                    assert(!(index_at(bytes@, header, i as int).spec_offset() + T::size() <= n));
                    return None;
                },
            };
            limbs.push(Relative::from(index, limb));
            i = i + 1;
        }
        Some(HierarchyWith::from(header, limbs))
    }
}

} // verus!
