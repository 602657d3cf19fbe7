use vstd::prelude::*;

use crate::bytes::{permute_words, word_permuted, Endianness};
use crate::n64::{N64Rom, MAX_SIZE};

verus! {

/// Errors of byte order conversion.
#[derive(Clone, Copy, Debug, PartialEq, Eq, Structural)]
pub enum ConvertError {
    /// The length is not a multiple of 4.
    AlignmentError(usize),
    /// The file is larger than any image can be.
    FileTooBigError(u64),
    /// Fewer bytes were read than expected: (expected, read).
    FileReadError(usize, usize),
    /// Fewer bytes were written than read: (read, written).
    FileWriteError(usize, usize),
}

/// Whether a conversion changed anything.
#[derive(Clone, Copy, Debug, PartialEq, Eq, Structural)]
pub enum ConvertStatus {
    AlreadyConverted,
    Complete,
}

/// How the bytes of a word move from `cur` order to `target` order.
pub open spec fn word_order(cur: Endianness, target: Endianness) -> Seq<int> {
    if (cur == Endianness::Big && target == Endianness::Little) || (cur == Endianness::Little
        && target == Endianness::Big) {
        seq![3, 2, 1, 0]
    } else if (cur == Endianness::Big && target == Endianness::Mixed) || (cur == Endianness::Mixed
        && target == Endianness::Big) {
        seq![1, 0, 3, 2]
    } else if cur != target {
        seq![2, 3, 0, 1]
    } else {
        seq![0, 1, 2, 3]
    }
}

/// `s`, stored in `cur` order, stored in `target` order instead.
pub open spec fn converted(s: Seq<u8>, cur: Endianness, target: Endianness) -> Seq<u8> {
    if cur == target {
        s
    } else {
        word_permuted(s, word_order(cur, target))
    }
}

pub open spec fn status_of(cur: Endianness, target: Endianness) -> ConvertStatus {
    if cur == target {
        ConvertStatus::AlreadyConverted
    } else {
        ConvertStatus::Complete
    }
}

pub fn validate_alignment(value: usize) -> (r: Result<(), ConvertError>)
    ensures
        value % 4 == 0 ==> r is Ok,
        value % 4 != 0 ==> r == Err::<(), ConvertError>(ConvertError::AlignmentError(value)),
{
    if value % 4 == 0 {
        Ok(())
    } else {
        Err(ConvertError::AlignmentError(value))
    }
}

/// Check that a file is no larger than the largest image and has a length that is a
/// multiple of 4; returns the length.
pub fn validate_rom_file_size(filesize: u64) -> (r: Result<usize, ConvertError>)
    ensures
        filesize > MAX_SIZE ==> r == Err::<usize, ConvertError>(ConvertError::FileTooBigError(filesize)),
        filesize <= MAX_SIZE && filesize % 4 != 0 ==> r == Err::<usize, ConvertError>(
            ConvertError::AlignmentError(filesize as usize),
        ),
        filesize <= MAX_SIZE && filesize % 4 == 0 ==> r == Ok::<usize, ConvertError>(filesize as usize),
{
    if (MAX_SIZE as u64) < filesize {
        return Err(ConvertError::FileTooBigError(filesize));
    }
    let size = filesize as usize;
    match validate_alignment(size) {
        Ok(()) => Ok(size),
        Err(e) => Err(e),
    }
}

/// Conversion out of one byte order.
trait RomConvert {
    spec fn source() -> Endianness;

    fn convert_to_big(buf: &mut [u8]) -> (r: ConvertStatus)
        requires
            old(buf)@.len() % 4 == 0,
        ensures
            final(buf)@ == converted(old(buf)@, Self::source(), Endianness::Big),
            r == status_of(Self::source(), Endianness::Big),
    ;

    fn convert_to_little(buf: &mut [u8]) -> (r: ConvertStatus)
        requires
            old(buf)@.len() % 4 == 0,
        ensures
            final(buf)@ == converted(old(buf)@, Self::source(), Endianness::Little),
            r == status_of(Self::source(), Endianness::Little),
    ;

    fn convert_to_mixed(buf: &mut [u8]) -> (r: ConvertStatus)
        requires
            old(buf)@.len() % 4 == 0,
        ensures
            final(buf)@ == converted(old(buf)@, Self::source(), Endianness::Mixed),
            r == status_of(Self::source(), Endianness::Mixed),
    ;
}

struct BigEndianConverter;

impl RomConvert for BigEndianConverter {
    closed spec fn source() -> Endianness {
        Endianness::Big
    }

    fn convert_to_big(buf: &mut [u8]) -> (r: ConvertStatus) {
        ConvertStatus::AlreadyConverted
    }

    fn convert_to_little(buf: &mut [u8]) -> (r: ConvertStatus) {
        permute_words(buf, 3, 2, 1, 0);
        ConvertStatus::Complete
    }

    fn convert_to_mixed(buf: &mut [u8]) -> (r: ConvertStatus) {
        permute_words(buf, 1, 0, 3, 2);
        ConvertStatus::Complete
    }
}

struct LittleEndianConverter;

impl RomConvert for LittleEndianConverter {
    closed spec fn source() -> Endianness {
        Endianness::Little
    }

    fn convert_to_big(buf: &mut [u8]) -> (r: ConvertStatus) {
        permute_words(buf, 3, 2, 1, 0);
        ConvertStatus::Complete
    }

    fn convert_to_little(buf: &mut [u8]) -> (r: ConvertStatus) {
        ConvertStatus::AlreadyConverted
    }

    fn convert_to_mixed(buf: &mut [u8]) -> (r: ConvertStatus) {
        permute_words(buf, 2, 3, 0, 1);
        ConvertStatus::Complete
    }
}

struct MixedEndianConverter;

impl RomConvert for MixedEndianConverter {
    closed spec fn source() -> Endianness {
        Endianness::Mixed
    }

    fn convert_to_big(buf: &mut [u8]) -> (r: ConvertStatus) {
        permute_words(buf, 1, 0, 3, 2);
        ConvertStatus::Complete
    }

    fn convert_to_little(buf: &mut [u8]) -> (r: ConvertStatus) {
        permute_words(buf, 2, 3, 0, 1);
        ConvertStatus::Complete
    }

    fn convert_to_mixed(buf: &mut [u8]) -> (r: ConvertStatus) {
        ConvertStatus::AlreadyConverted
    }
}

fn convert_with<T: RomConvert>(buf: &mut [u8], target: Endianness) -> (r: ConvertStatus)
    requires
        old(buf)@.len() % 4 == 0,
    ensures
        final(buf)@ == converted(old(buf)@, T::source(), target),
        r == status_of(T::source(), target),
{
    match target {
        Endianness::Big => T::convert_to_big(buf),
        Endianness::Little => T::convert_to_little(buf),
        Endianness::Mixed => T::convert_to_mixed(buf),
    }
}

/// Convert data from the `current` byte order to the `target` byte order, in place.
pub fn convert(buf: &mut [u8], current: Endianness, target: Endianness) -> (r: Result<ConvertStatus, ConvertError>)
    ensures
        old(buf)@.len() % 4 == 0 ==> r == Ok::<ConvertStatus, ConvertError>(status_of(current, target))
            && final(buf)@ == converted(old(buf)@, current, target),
        old(buf)@.len() % 4 != 0 ==> r == Err::<ConvertStatus, ConvertError>(
            ConvertError::AlignmentError(old(buf)@.len() as usize),
        ) && final(buf)@ == old(buf)@,
{
    if buf.len() % 4 == 0 {
        let result = match current {
            Endianness::Big => convert_with::<BigEndianConverter>(buf, target),
            Endianness::Little => convert_with::<LittleEndianConverter>(buf, target),
            Endianness::Mixed => convert_with::<MixedEndianConverter>(buf, target),
        };
        Ok(result)
    } else {
        Err(ConvertError::AlignmentError(buf.len()))
    }
}

/// Reorder the image of `rom` from its recorded byte order to `target`, in place.
pub fn convert_rom(rom: &mut N64Rom, target: Endianness) -> (r: Result<ConvertStatus, ConvertError>)
    ensures
        old(rom).image@.len() % 4 == 0 ==> r == Ok::<ConvertStatus, ConvertError>(
            status_of(old(rom).order, target),
        ) && final(rom).image@ == converted(old(rom).image@, old(rom).order, target),
        old(rom).image@.len() % 4 != 0 ==> r is Err && final(rom).image@ == old(rom).image@,
        final(rom).order == old(rom).order,
{
    let order = rom.order;
    convert(rom.image.as_mut_slice(), order, target)
}

} // verus!
