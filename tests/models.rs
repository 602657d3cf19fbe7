use zelda64::common::FromBytes;
use zelda64::models::hierarchy::{Header, HierarchyWith, Limb, PlayerLimb};
use zelda64::primitive::Vec3s;
use zelda64::segment::{Relative, SegAddr};

#[test]
fn segmented_addresses() {
    let a = SegAddr::from(0x06, 0x1234_5678);
    assert_eq!(a.raw(), 0x0634_5678);
    assert_eq!(a.segment(), 0x06);
    assert_eq!(a.offset(), 0x34_5678);
    let b = SegAddr::from_raw(0xFF00_0010);
    assert_eq!((b.segment(), b.offset()), (0xFF, 0x10));
    let r = Relative::from(b, 5u8);
    assert_eq!(r.address, b);
    assert_eq!(r.value, 5);
}

#[test]
fn vec3s_from_bytes() {
    let v = Vec3s::from_bytes(&[0xFF, 0xFE, 0x00, 0x10, 0x80, 0x00, 0x99]).unwrap();
    assert_eq!(v.to_tuple(), (-2, 16, -32768));
    assert_eq!(Vec3s::from(1, 2, 3).to_tuple(), (1, 2, 3));
    assert!(Vec3s::from_bytes(&[1, 2, 3, 4, 5]).is_none());
}

#[test]
fn limbs_from_bytes() {
    let bytes = [0, 1, 0, 2, 0, 3, 4, 5, 0x06, 0, 0, 0x40, 0x06, 0, 0, 0x80];
    let l = Limb::from_bytes(&bytes).unwrap();
    assert_eq!(l.translation, Vec3s::from(1, 2, 3));
    assert_eq!((l.child, l.next), (4, 5));
    assert_eq!(l.display_list, SegAddr::from_raw(0x0600_0040));
    let p = PlayerLimb::from_bytes(&bytes).unwrap();
    assert_eq!(p.base, l);
    assert_eq!(p.far_model_display_list, SegAddr::from_raw(0x0600_0080));
    assert!(PlayerLimb::from_bytes(&bytes[..15]).is_none());
    assert!(Limb::from_bytes(&bytes[..11]).is_none());
}

#[test]
fn hierarchy_read() {
    let mut bytes = vec![0u8; 0x40];
    // Header at 0x30: index list at 0x20, two limbs, display lists 3.
    bytes[0x30..0x3C].copy_from_slice(&[0x06, 0, 0, 0x20, 2, 0, 0, 0, 3, 0, 0, 0]);
    // Indexes at 0x20: limbs at 0x00 and 0x0C.
    bytes[0x20..0x28].copy_from_slice(&[0x06, 0, 0, 0x00, 0x06, 0, 0, 0x0C]);
    bytes[0x00..0x0C].copy_from_slice(&[0, 1, 0, 2, 0, 3, 1, 0xFF, 0x06, 0, 0, 0x40]);
    bytes[0x0C..0x18].copy_from_slice(&[0, 4, 0, 5, 0, 6, 0xFF, 0xFF, 0x06, 0, 0, 0x50]);
    let h = HierarchyWith::<Limb>::read_from(&bytes, 0x30, SegAddr::from(6, 0)).unwrap();
    assert_eq!(h.header, Header { limbs: SegAddr::from_raw(0x0600_0020), count: 2, display_lists: 3 });
    assert_eq!(h.limbs.len(), 2);
    assert_eq!(h.limbs[0].address, SegAddr::from_raw(0x0600_0000));
    assert_eq!(h.limbs[1].value.translation, Vec3s::from(4, 5, 6));
    assert_eq!(h.limbs[1].value.display_list, SegAddr::from_raw(0x0600_0050));
    // The header lies past the end.
    assert!(HierarchyWith::<Limb>::read_from(&bytes, 0x38, SegAddr::from(6, 0)).is_none());
    // A limb index points past the end.
    bytes[0x24..0x28].copy_from_slice(&[0x06, 0, 0, 0x3A]);
    assert!(HierarchyWith::<Limb>::read_from(&bytes, 0x30, SegAddr::from(6, 0)).is_none());
    let built = HierarchyWith::from(h.header, vec![Relative::from(SegAddr::from_raw(1), Vec3s::from(0, 0, 0))]);
    assert_eq!(built.limbs.len(), 1);
}
