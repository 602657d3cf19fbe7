use vstd::prelude::*;

use crate::common::{be_i16, read_i16_be, FromBytes};

verus! {

/// Vector with signed 16-bit coordinates.
#[derive(Clone, Copy, Debug, PartialEq, Eq, Structural)]
pub struct Vec3s {
    pub x: i16,
    pub y: i16,
    pub z: i16,
}

/// Size of a serialized `Vec3s`.
pub const VEC3S_SIZE: usize = 6;

impl Vec3s {
    pub fn from(x: i16, y: i16, z: i16) -> (r: Self)
        ensures
            r == (Vec3s { x, y, z }),
    {
        Vec3s { x, y, z }
    }

    pub fn to_tuple(&self) -> (r: (i16, i16, i16))
        ensures
            r == (self.x, self.y, self.z),
    {
        (self.x, self.y, self.z)
    }
}

impl FromBytes for Vec3s {
    open spec fn size() -> nat {
        6
    }

    open spec fn decoded(b: Seq<u8>) -> Self {
        Vec3s { x: be_i16(b, 0), y: be_i16(b, 2), z: be_i16(b, 4) }
    }

    fn from_bytes(bytes: &[u8]) -> (r: Option<Self>) {
        if bytes.len() < VEC3S_SIZE {
            return None;
        }
        Some(Vec3s::from(read_i16_be(bytes, 0), read_i16_be(bytes, 2), read_i16_be(bytes, 4)))
    }
}

} // verus!
