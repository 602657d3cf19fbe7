use zelda64::dma::{DmaError, Entry, EntryType, Mapping};
use zelda64::range::{AddrRange, ConvertRangeExt};

#[test]
fn zero_entry_is_empty() {
    assert_eq!(Entry::from(0, 0, 0, 0).kind(), EntryType::Empty);
}

#[test]
fn all_ones_physical_does_not_exist() {
    assert_eq!(Entry::from(0x10, 0x20, 0xFFFF_FFFF, 0xFFFF_FFFF).kind(), EntryType::DoesNotExist);
    assert_eq!(Entry::from(0, 0, 0xFFFF_FFFF, 0xFFFF_FFFF).kind(), EntryType::DoesNotExist);
}

#[test]
fn classify_compressed_and_decompressed() {
    assert_eq!(Entry::from(0x1000, 0x2000, 0x5000, 0x5800).kind(), EntryType::Compressed);
    assert_eq!(Entry::from(0x1000, 0x2000, 0x5000, 0).kind(), EntryType::Decompressed);
    assert_eq!(Entry::initial().kind(), EntryType::Decompressed);
}

#[test]
fn encode_decode_round_trip() {
    let e = Entry::from(0x1234_5678, 0x9ABC_DEF0, 0x0011_2233, 0xFFEE_DDCC);
    let mut bytes = Vec::new();
    assert_eq!(e.write(&mut bytes), 16);
    assert_eq!(
        bytes,
        vec![0x12, 0x34, 0x56, 0x78, 0x9A, 0xBC, 0xDE, 0xF0, 0x00, 0x11, 0x22, 0x33, 0xFF, 0xEE, 0xDD, 0xCC]
    );
    assert_eq!(Entry::read(&bytes, 0), Ok(e));
}

#[test]
fn decode_truncated_input() {
    let bytes = vec![0u8; 15];
    assert_eq!(Entry::read(&bytes, 0), Err(DmaError::TruncatedInput));
    let bytes = vec![0u8; 20];
    assert_eq!(Entry::read(&bytes, 5), Err(DmaError::TruncatedInput));
    assert_eq!(Entry::read(&bytes, 4), Ok(Entry::from(0, 0, 0, 0)));
}

#[test]
fn compressed_size_delta() {
    let e = Entry::from(1000, 1100, 5000, 5040);
    assert_eq!(e.kind(), EntryType::Compressed);
    assert_eq!(e.diff(), Ok(Some(60)));
}

#[test]
fn decompressed_size_delta_is_zero() {
    let e = Entry::from(0x1000, 0x1100, 0x8000, 0);
    assert_eq!(e.diff(), Ok(Some(0)));
    assert_eq!(Entry::from(0, 0, 0, 0).diff(), Ok(None));
}

#[test]
fn reversed_virtual_range_is_invalid() {
    let e = Entry::from(0x2000, 0x1000, 0x10, 0x20);
    assert_eq!(
        e.validate(),
        Err(DmaError::InvalidRange(Mapping::Virtual, AddrRange::new(0x2000, 0x1000)))
    );
    let e = Entry::from(0x2000, 0x1000, 0xFFFF_FFFF, 0xFFFF_FFFF);
    assert!(matches!(e.validate(), Err(DmaError::InvalidRange(Mapping::Virtual, _))));
}

#[test]
fn reversed_physical_range_is_invalid() {
    let e = Entry::from(0x1000, 0x2000, 0x30, 0x20);
    assert_eq!(
        e.validate(),
        Err(DmaError::InvalidRange(Mapping::Physical, AddrRange::new(0x30, 0x20)))
    );
}

#[test]
fn decompressed_range_is_inferred() {
    let e = Entry::from(0x1000, 0x1100, 0x8000, 0);
    assert_eq!(e.range(), (Some(AddrRange::new(0x8000, 0x8100)), EntryType::Decompressed));
    assert_eq!(
        e.validate(),
        Ok((AddrRange::new(0x1000, 0x1100), Some(AddrRange::new(0x8000, 0x8100)), EntryType::Decompressed))
    );
}

#[test]
fn decompressed_range_overflow_is_invalid() {
    let e = Entry::from(0, 0x100, 0xFFFF_FFF0, 0);
    assert!(matches!(e.validate(), Err(DmaError::InvalidRange(Mapping::Physical, _))));
}

#[test]
fn constructors() {
    let v = AddrRange::new(0x10, 0x20);
    let p = AddrRange::new(0x30, 0x38);
    assert_eq!(Entry::from_decompressed(v, 0x40), Entry::from(0x10, 0x20, 0x40, 0));
    assert_eq!(Entry::from_range(v, p), Entry::from(0x10, 0x20, 0x30, 0x38));
    let e = Entry::from(1, 2, 3, 4);
    assert_eq!((e.virt_start(), e.virt_end(), e.phys_start(), e.phys_end()), (1, 2, 3, 4));
    assert_eq!(e.virt(), AddrRange::new(1, 2));
    assert_eq!(e.phys(), AddrRange::new(3, 4));
}

#[test]
fn align16_rounds_up() {
    assert_eq!(zelda64::range::align16(0), 0);
    assert_eq!(zelda64::range::align16(1), 16);
    assert_eq!(zelda64::range::align16(16), 16);
    assert_eq!(zelda64::range::align16(0x105), 0x110);
}

#[test]
fn address_ranges() {
    let r = AddrRange::new(0x10, 0x30);
    assert_eq!(r.len(), 0x20);
    assert!(!r.is_empty());
    assert_eq!(r.to_usize(), (0x10usize, 0x30usize));
    let reversed = AddrRange::new(0x30, 0x10);
    assert_eq!(reversed.len(), 0);
    assert!(reversed.is_empty());
}
