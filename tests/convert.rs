use zelda64::bytes::{swap_bytes, BigEndian, Endianness, FileExt, LittleEndian, Mixed};
use zelda64::convert::{convert, convert_rom, validate_alignment, validate_rom_file_size, ConvertError, ConvertStatus};
use zelda64::n64::N64Rom;

#[test]
fn convert_between_orders() {
    let big = vec![0x80u8, 0x37, 0x12, 0x40, 1, 2, 3, 4];
    let mut b = big.clone();
    assert_eq!(convert(&mut b, Endianness::Big, Endianness::Little), Ok(ConvertStatus::Complete));
    assert_eq!(b, vec![0x40, 0x12, 0x37, 0x80, 4, 3, 2, 1]);
    let mut m = big.clone();
    assert_eq!(convert(&mut m, Endianness::Big, Endianness::Mixed), Ok(ConvertStatus::Complete));
    assert_eq!(m, vec![0x37, 0x80, 0x40, 0x12, 2, 1, 4, 3]);
    let mut l = b.clone();
    assert_eq!(convert(&mut l, Endianness::Little, Endianness::Mixed), Ok(ConvertStatus::Complete));
    assert_eq!(l, m);
    assert_eq!(convert(&mut l, Endianness::Mixed, Endianness::Big), Ok(ConvertStatus::Complete));
    assert_eq!(l, big);
    assert_eq!(convert(&mut l, Endianness::Big, Endianness::Big), Ok(ConvertStatus::AlreadyConverted));
    assert_eq!(l, big);
    let mut odd = vec![1u8, 2, 3];
    assert_eq!(convert(&mut odd, Endianness::Big, Endianness::Little), Err(ConvertError::AlignmentError(3)));
    assert_eq!(odd, vec![1, 2, 3]);
}

#[test]
fn convert_rom_image() {
    let mut rom = N64Rom::from(vec![1, 2, 3, 4], Endianness::Big);
    assert_eq!(convert_rom(&mut rom, Endianness::Little), Ok(ConvertStatus::Complete));
    assert_eq!(rom.image, vec![4, 3, 2, 1]);
}

#[test]
fn validation() {
    assert_eq!(validate_alignment(8), Ok(()));
    assert_eq!(validate_alignment(6), Err(ConvertError::AlignmentError(6)));
    assert_eq!(validate_rom_file_size(0x100), Ok(0x100));
    assert_eq!(validate_rom_file_size(0x102), Err(ConvertError::AlignmentError(0x102)));
    assert_eq!(validate_rom_file_size(0x400_0000), Ok(0x400_0000));
    assert_eq!(validate_rom_file_size(0x400_0004), Err(ConvertError::FileTooBigError(0x400_0004)));
}

#[test]
fn swaps() {
    let mut b = vec![1u8, 2, 3, 4, 5, 6, 7, 8];
    swap_bytes::<BigEndian>(&mut b);
    assert_eq!(b, vec![1, 2, 3, 4, 5, 6, 7, 8]);
    swap_bytes::<LittleEndian>(&mut b);
    assert_eq!(b, vec![4, 3, 2, 1, 8, 7, 6, 5]);
    let mut m = vec![1u8, 2, 3, 4, 5, 6];
    swap_bytes::<Mixed>(&mut m);
    assert_eq!(m, vec![2, 1, 4, 3, 6, 5]);
    let mut e = vec![1u8, 2, 3, 4];
    Endianness::Little.swap(&mut e);
    assert_eq!(e, vec![4, 3, 2, 1]);
    Endianness::Mixed.swap(&mut e);
    assert_eq!(e, vec![3, 4, 1, 2]);
}

#[test]
fn file_extensions() {
    assert_eq!(Endianness::from_file_ext(FileExt::N64), Endianness::Little);
    assert_eq!(Endianness::from_file_ext(FileExt::V64), Endianness::Mixed);
    assert_eq!(Endianness::from_file_ext(FileExt::Z64), Endianness::Big);
    assert_eq!(FileExt::Z64.as_str(), "z64");
    assert_eq!(FileExt::N64.as_str(), "n64");
    assert_eq!(FileExt::V64.as_str(), "v64");
    assert_eq!(FileExt::from_endianness(Endianness::Mixed), Some(FileExt::V64));
    assert_eq!(FileExt::from_endianness(Endianness::Big), Some(FileExt::Z64));
}
