use zelda64::bytes::Endianness;
use zelda64::codec::Yaz0Failure;
use zelda64::decompress::{decompress, decompress_with, decompress_with_matching, DecompressError, Policy, ROM_CAPACITY};
use zelda64::dma::{DmaError, Entry, EntryType};
use zelda64::n64::N64Rom;
use zelda64::rom::Rom;
use zelda64::table::Table;

/// A Yaz0 file of `total` bytes that decodes to 0x100 bytes of `A`.
fn yaz0_run_of_a(total: usize) -> Vec<u8> {
    let mut v = b"Yaz0".to_vec();
    v.extend([0x00, 0x00, 0x01, 0x00]);
    v.extend([0u8; 8]);
    // One literal `A`, then a back-reference of distance 1 and length 0xED + 0x12 = 255.
    v.extend([0x80, 0x41, 0x00, 0x00, 0xED]);
    v.resize(total, 0);
    v
}

fn pattern(len: usize) -> Vec<u8> {
    (0..len).map(|i| (i * 3 + 1) as u8).collect()
}

/// Image with a Compressed entry A and a Decompressed entry B.
fn two_entry_rom() -> Rom {
    let mut image = vec![0u8; 0x3000];
    image[0x2000..0x2080].copy_from_slice(&yaz0_run_of_a(0x80));
    image[0x2080..0x2180].copy_from_slice(&pattern(0x100));
    let a = Entry::from(0x1060, 0x1160, 0x2000, 0x2080);
    let b = Entry::from(0x1160, 0x1260, 0x2080, 0);
    assert_eq!(a.kind(), EntryType::Compressed);
    assert_eq!(b.kind(), EntryType::Decompressed);
    Rom::from(N64Rom::from(image, Endianness::Big), Some(Table::from(0x1000, vec![a, b])))
}

#[test]
fn matching_two_entries() {
    let rom = two_entry_rom();
    let out = decompress(&rom, true).unwrap();
    let image = &out.rom.image;
    assert_eq!(image.len(), ROM_CAPACITY);
    assert_eq!(&image[0x1060..0x1160], &vec![0x41u8; 0x100][..]);
    assert_eq!(&image[0x1160..0x1260], &pattern(0x100)[..]);
    assert!(image[..0x1060].iter().all(|&b| b == 0));
    assert!(image[0x1260..0x2000].iter().all(|&b| b == 0));
    let table = out.table.unwrap();
    assert_eq!(table.address, 0x1000);
    assert_eq!(table.entries, vec![Entry::from(0x1060, 0x1160, 0x1060, 0), Entry::from(0x1160, 0x1260, 0x1160, 0)]);
    for e in &table.entries {
        assert_eq!(e.kind(), EntryType::Decompressed);
    }
}

#[test]
fn compact_layout_has_no_gaps() {
    let mut image = vec![0u8; 0x3000];
    image[0x2000..0x2080].copy_from_slice(&yaz0_run_of_a(0x80));
    image[0x2080..0x2180].copy_from_slice(&pattern(0x100));
    let entries = vec![
        Entry::from(0x1060, 0x1065, 0x2080, 0),
        Entry::from(0, 0, 0, 0),
        Entry::from(0x1160, 0x1260, 0x2000, 0x2080),
        Entry::from(0x2000, 0x2100, 0xFFFF_FFFF, 0xFFFF_FFFF),
        Entry::from(0x1300, 0x1311, 0x2080, 0),
    ];
    let rom = Rom::from(N64Rom::from(image, Endianness::Big), Some(Table::from(0x40, entries.clone())));
    let out = decompress_with(&rom, Policy::Compact).unwrap();
    let t = out.table.unwrap();
    assert_eq!(
        t.entries,
        vec![
            Entry::from(0x1060, 0x1065, 0, 0),
            Entry::from(0, 0, 0, 0),
            Entry::from(0x1160, 0x1260, 0x10, 0),
            Entry::from(0x2000, 0x2100, 0xFFFF_FFFF, 0xFFFF_FFFF),
            Entry::from(0x1300, 0x1311, 0x110, 0),
        ]
    );
    let img = &out.rom.image;
    assert_eq!(&img[0..5], &pattern(5)[..]);
    assert!(img[5..0x10].iter().all(|&b| b == 0));
    assert_eq!(&img[0x10..0x110], &vec![0x41u8; 0x100][..]);
    assert_eq!(&img[0x110..0x121], &pattern(0x11)[..]);
    assert!(img[0x121..0x200].iter().all(|&b| b == 0));
    // Same through the const-generic entry point.
    let again = decompress_with_matching::<false>(&rom).unwrap();
    assert_eq!(again.table.unwrap().entries, t.entries);
}

#[test]
fn missing_table() {
    let rom = Rom::from(N64Rom::from(vec![0u8; 0x1000], Endianness::Big), None);
    assert!(matches!(decompress(&rom, true), Err(DecompressError::MissingTable)));
}

#[test]
fn input_out_of_range() {
    let rom = Rom::from(
        N64Rom::from(vec![0u8; 0x100], Endianness::Big),
        Some(Table::from(0, vec![Entry::from(0x10, 0x20, 0xF8, 0)])),
    );
    assert!(matches!(decompress(&rom, true), Err(DecompressError::OutOfRangeError(0xF8, 0x108))));
}

#[test]
fn output_out_of_range() {
    let rom = Rom::from(
        N64Rom::from(vec![0u8; 0x100], Endianness::Big),
        Some(Table::from(0, vec![Entry::from(0x3FF_FFF8, 0x400_0008, 0x0, 0)])),
    );
    assert!(matches!(
        decompress(&rom, true),
        Err(DecompressError::OutOfRangeError(0x3FF_FFF8, 0x400_0008))
    ));
    // Compactly the same file fits at offset 0.
    let out = decompress(&rom, false).unwrap();
    assert_eq!(out.table.unwrap().entries, vec![Entry::from(0x3FF_FFF8, 0x400_0008, 0, 0)]);
}

#[test]
fn invalid_entry_fails() {
    let rom = Rom::from(
        N64Rom::from(vec![0u8; 0x100], Endianness::Big),
        Some(Table::from(0, vec![Entry::from(0x20, 0x10, 0x0, 0)])),
    );
    assert!(matches!(decompress(&rom, true), Err(DecompressError::DmaError(DmaError::InvalidRange(_, _)))));
}

#[test]
fn codec_errors() {
    // Declared size 0x100 but the entry's virtual length is 0x80.
    let mut image = vec![0u8; 0x200];
    image[0..0x80].copy_from_slice(&yaz0_run_of_a(0x80));
    let rom = Rom::from(
        N64Rom::from(image.clone(), Endianness::Big),
        Some(Table::from(0, vec![Entry::from(0x100, 0x180, 0x0, 0x80)])),
    );
    assert!(matches!(decompress(&rom, true), Err(DecompressError::Yaz0Error(Yaz0Failure::Malformed))));
    let rom = Rom::from(
        N64Rom::from(image.clone(), Endianness::Big),
        Some(Table::from(0, vec![Entry::from(0x100, 0x300, 0x0, 0x80)])),
    );
    assert!(matches!(decompress(&rom, true), Err(DecompressError::Yaz0Error(Yaz0Failure::SizeMismatch))));
    // Bad magic.
    let rom = Rom::from(
        N64Rom::from(vec![1u8; 0x200], Endianness::Big),
        Some(Table::from(0, vec![Entry::from(0x100, 0x200, 0x0, 0x80)])),
    );
    assert!(matches!(decompress(&rom, true), Err(DecompressError::Yaz0Error(Yaz0Failure::Decoder))));
    // Input ends before the back-reference is complete.
    let mut short = yaz0_run_of_a(0x14);
    short.truncate(0x13);
    let mut image = vec![0u8; 0x200];
    image[..0x13].copy_from_slice(&short);
    let rom = Rom::from(
        N64Rom::from(image, Endianness::Big),
        Some(Table::from(0, vec![Entry::from(0x100, 0x200, 0x0, 0x13)])),
    );
    assert!(matches!(decompress(&rom, true), Err(DecompressError::Yaz0Error(Yaz0Failure::Decoder))));
}
