use zelda64::bytes::Endianness;
use zelda64::convert::ConvertError;
use zelda64::dma::Entry;
use zelda64::n64::{detect_order, N64Rom, RomError, HEAD_SIZE};
use zelda64::rom::{GameRomError, Rom};
use zelda64::table::Table;

/// A big-endian image of 0x2000 bytes with a table at 0x1040.
fn game_image() -> Vec<u8> {
    let mut image = vec![0u8; 0x2000];
    image[..4].copy_from_slice(&[0x80, 0x37, 0x12, 0x40]);
    image[0x10..0x18].copy_from_slice(&[1, 2, 3, 4, 5, 6, 7, 8]);
    let entries = [Entry::initial(), Entry::from(0x1040, 0x1070, 0x1040, 0), Entry::from(0x1070, 0x1100, 0x1070, 0)];
    let mut at = 0x1040;
    for e in entries.iter() {
        let mut b = Vec::new();
        e.write(&mut b);
        image[at..at + 16].copy_from_slice(&b);
        at += 16;
    }
    image
}

fn to_little(image: &[u8]) -> Vec<u8> {
    image.chunks(4).flat_map(|c| [c[3], c[2], c[1], c[0]]).collect()
}

#[test]
fn read_finds_table() {
    let rom = Rom::read(game_image()).unwrap();
    let t = rom.table.as_ref().unwrap();
    assert_eq!(t.address, 0x1040);
    assert_eq!(t.entries.len(), 3);
    assert_eq!(rom.rom.order(), Endianness::Big);
}

#[test]
fn read_little_endian_image() {
    let image = game_image();
    let rom = Rom::read(to_little(&image)).unwrap();
    assert_eq!(rom.rom.order(), Endianness::Little);
    assert_eq!(rom.rom.image, image);
    assert_eq!(rom.write().unwrap(), to_little(&image));
}

#[test]
fn read_without_table() {
    let mut image = vec![0u8; 0x1100];
    image[..4].copy_from_slice(&[0x80, 0x37, 0x12, 0x40]);
    let rom = Rom::read(image).unwrap();
    assert!(rom.table.is_none());
}

#[test]
fn read_errors() {
    assert!(matches!(Rom::read(vec![0u8; 0x10]), Err(GameRomError::HeaderError(RomError::TruncatedHead))));
    assert!(matches!(Rom::read(vec![0u8; 0x1000]), Err(GameRomError::HeaderError(RomError::UnknownMagic))));
    let mut odd = vec![0u8; 0x1002];
    odd[..4].copy_from_slice(&[0x80, 0x37, 0x12, 0x40]);
    assert!(matches!(
        Rom::read(odd),
        Err(GameRomError::HeaderError(RomError::Convert(ConvertError::AlignmentError(0x1002))))
    ));
}

#[test]
fn update_with_correct_checksum_keeps_image() {
    let image = game_image();
    let mut rom = Rom::read(image.clone()).unwrap();
    let crcs = rom.rom.crcs();
    assert_eq!(crcs, (0x0102_0304, 0x0506_0708));
    rom.update(crcs).unwrap();
    assert_eq!(rom.rom.image, image);
}

#[test]
fn update_writes_table_and_checksums() {
    let image = game_image();
    let mut rom = Rom::read(image.clone()).unwrap();
    rom.table.as_mut().unwrap().entries[2] = Entry::from(0x1070, 0x1200, 0x1070, 0);
    rom.update((0xAABB_CCDD, 0x1122_3344)).unwrap();
    let out = &rom.rom.image;
    assert_eq!(&out[0x10..0x18], &[0xAA, 0xBB, 0xCC, 0xDD, 0x11, 0x22, 0x33, 0x44]);
    assert_eq!(&out[0x1060..0x1070], &[0, 0, 0x10, 0x70, 0, 0, 0x12, 0, 0, 0, 0x10, 0x70, 0, 0, 0, 0]);
    for i in 0..out.len() {
        if !(0x10..0x18).contains(&i) && !(0x1060..0x1070).contains(&i) {
            assert_eq!(out[i], image[i]);
        }
    }
    assert!(rom.rom.check_crc((0xAABB_CCDD, 0x1122_3344)));
}

#[test]
fn update_with_table_out_of_bounds() {
    let mut rom = Rom::from(
        N64Rom::from(game_image(), Endianness::Big),
        Some(Table::from(0x1FF8, vec![Entry::initial()])),
    );
    assert!(matches!(rom.update((0, 0)), Err(GameRomError::OutOfBounds(0x1FF8, 16))));
    assert_eq!(rom.rom.image, game_image());
}

#[test]
fn write_with_update_little_endian() {
    let image = game_image();
    let mut rom = Rom::read(to_little(&image)).unwrap();
    let out = rom.write_with_update((0x0102_0304, 0x0506_0708)).unwrap();
    assert_eq!(out, to_little(&image));
}

#[test]
fn patch_body() {
    let mut rom = Rom::read(game_image()).unwrap();
    assert_eq!(rom.patch(0x10, &[9, 9, 9]), Ok(3));
    assert_eq!(&rom.rom.image[HEAD_SIZE + 0x10..HEAD_SIZE + 0x13], &[9, 9, 9]);
    assert!(rom.patch(0x1000, &[1]).is_err());
    assert_eq!(rom.patch(0xFFF, &[7]), Ok(1));
    assert_eq!(rom.rom.image[0x1FFF], 7);
}

#[test]
fn slice_of_entry() {
    let rom = Rom::read(game_image()).unwrap();
    let e = Entry::from(0x1040, 0x1050, 0x1040, 0);
    assert_eq!(rom.slice(&e).unwrap(), &game_image()[0x1040..0x1050]);
    assert!(rom.slice(&Entry::from(0, 0x100, 0x1F80, 0)).is_none());
    assert!(rom.slice(&Entry::from(0, 0, 0, 0)).is_none());
}

#[test]
fn container_queries() {
    let image = game_image();
    let rom = N64Rom::from_image(image.clone()).unwrap();
    assert_eq!(rom.len(), 0x2000);
    assert!(!rom.is_empty());
    assert_eq!(rom.full(), &image[..]);
    assert_eq!(rom.data(), &image[HEAD_SIZE..]);
    assert!(rom.check_crc((0x0102_0304, 0x0506_0708)));
    assert!(matches!(
        N64Rom::from_image(to_little(&image)),
        Err(RomError::UnsupportedEndianness(Endianness::Little))
    ));
    assert_eq!(detect_order(&[0x37, 0x80, 0x40, 0x12]), Some(Endianness::Mixed));
    assert_eq!(detect_order(&[0x37, 0x80]), None);
}

#[test]
fn correct_crc_reports_state() {
    let mut rom = N64Rom::from_image(game_image()).unwrap();
    assert!(rom.correct_crc((0x0102_0304, 0x0506_0708)));
    assert!(!rom.correct_crc((5, 6)));
    assert_eq!(rom.crcs(), (5, 6));
}
