use vstd::prelude::*;

use crate::common::{overwrite, patched, u32_be_bytes};
use crate::convert::ConvertError;
use crate::discovery::find_offset_spec;
use crate::dma::{DmaError, Entry};
use crate::n64::{N64Rom, RomError, CRC_OFFSET, HEAD_SIZE, MAX_SIZE};
use crate::table::{encode_entries, lemma_read_then_encode, parse_table, Table};

verus! {

/// Errors of reading and updating a game image.
#[derive(Clone, Copy, Debug, PartialEq, Eq, Structural)]
pub enum GameRomError {
    /// The table could not be found or decoded.
    DmaError(DmaError),
    /// The image could not be read.
    HeaderError(RomError),
    /// The image is larger than the largest cartridge.
    TooLarge(usize),
    /// Bytes to write do not fit in the image: (offset, length).
    OutOfBounds(usize, usize),
    /// The image cannot be written in the requested byte order.
    ConvertError(ConvertError),
}

/// `s` with the header checksums set to `c`, or unchanged where they already are `c`.
pub open spec fn crc_corrected(s: Seq<u8>, c: (u32, u32)) -> Seq<u8> {
    if (crate::common::be_u32(s, CRC_OFFSET as int), crate::common::be_u32(s, CRC_OFFSET + 4)) == c {
        s
    } else {
        patched(s, CRC_OFFSET as int, u32_be_bytes(c.0) + u32_be_bytes(c.1))
    }
}

/// The image after the table is written back (where present); `None` where the table does
/// not fit in the image.
pub open spec fn table_written(image: Seq<u8>, table: Option<(int, Seq<Entry>)>) -> Option<Seq<u8>> {
    match table {
        None => Some(image),
        Some((address, entries)) => if address + 16 * entries.len() <= image.len() {
            Some(patched(image, address, encode_entries(entries)))
        } else {
            None
        },
    }
}

/// Updating an image whose checksums are already correct for the image with its table
/// written back changes nothing but the table's own bytes; where those already hold the
/// encoded table, it changes nothing at all.
pub proof fn lemma_update_touches_only_table(image: Seq<u8>, address: int, entries: Seq<Entry>, computed: (u32, u32))
    requires
        0 <= address,
        address + 16 * entries.len() <= image.len(),
        ({
            let img = patched(image, address, encode_entries(entries));
            (crate::common::be_u32(img, CRC_OFFSET as int), crate::common::be_u32(img, CRC_OFFSET + 4)) == computed
        }),
    ensures
        table_written(image, Some((address, entries))) matches Some(img) && crc_corrected(img, computed)
            == img && img.len() == image.len() && (forall|i: int|
            0 <= i < image.len() && !(address <= i < address + 16 * entries.len()) ==> img[i]
                == image[i]),
        image.subrange(address, address + 16 * entries.len()) == encode_entries(entries) ==> crc_corrected(
            table_written(image, Some((address, entries)))->0,
            computed,
        ) == image,
{
    crate::table::lemma_encode_entries_len(entries);
    let img = patched(image, address, encode_entries(entries));
    assert(img.len() == image.len());
    if image.subrange(address, address + 16 * entries.len()) == encode_entries(entries) {
        assert(img =~= image);
    }
}

/// An image whose table was decoded from it, and whose checksums are already correct, comes
/// out of an update byte-for-byte identical.
pub proof fn lemma_update_after_read(image: Seq<u8>, offset: int, begin: u32, computed: (u32, u32))
    requires
        0 <= offset <= image.len(),
        parse_table(image, offset, begin) is Some,
        (crate::common::be_u32(image, CRC_OFFSET as int), crate::common::be_u32(image, CRC_OFFSET + 4))
            == computed,
    ensures
        table_written(image, Some((offset, parse_table(image, offset, begin)->0))) == Some(image),
        crc_corrected(image, computed) == image,
{
    let s = parse_table(image, offset, begin)->0;
    lemma_read_then_encode(image, offset, begin);
    assert(patched(image, offset, encode_entries(s)) =~= image);
}

/// A game image: the cartridge image, and its table where one was found.
pub struct Rom {
    /// Underlying cartridge image.
    pub rom: N64Rom,
    pub table: Option<Table>,
}

impl Rom {
    pub open spec fn spec_table(&self) -> Option<(int, Seq<Entry>)> {
        match self.table {
            None => None,
            Some(t) => Some((t.address as int, t.entries@)),
        }
    }

    pub fn from(rom: N64Rom, table: Option<Table>) -> (r: Self)
        ensures
            r.rom == rom,
            r.table == table,
    {
        Rom { rom, table }
    }

    /// Read an image and look for its table. No table is no error: `table` is `None`.
    pub fn read(bytes: Vec<u8>) -> (r: Result<Self, GameRomError>)
        ensures
            bytes@.len() > MAX_SIZE ==> r == Err::<Self, GameRomError>(GameRomError::TooLarge(bytes@.len() as usize)),
            bytes@.len() <= MAX_SIZE ==> match N64Rom::read_spec(bytes@) {
                Err(e) => r == Err::<Self, GameRomError>(GameRomError::HeaderError(e)),
                Ok((image, order)) => match find_offset_spec(image) {
                    Err(DmaError::NotFound) => r matches Ok(rom) && rom.table is None && rom.rom.image@ == image && rom.rom.order == order,
                    Err(e) => r == Err::<Self, GameRomError>(GameRomError::DmaError(e)),
                    Ok(o) => match parse_table(image, o, o as u32) {
                        Some(s) => r matches Ok(rom) && rom.rom.image@ == image && rom.rom.order
                            == order && (rom.table matches Some(t) && t.address == o
                            && t.entries@ == s),
                        None => r == Err::<Self, GameRomError>(
                            GameRomError::DmaError(DmaError::TruncatedInput),
                        ),
                    },
                },
            },
    {
        if bytes.len() > MAX_SIZE {
            return Err(GameRomError::TooLarge(bytes.len()));
        }
        let n64rom = match N64Rom::read(bytes) {
            Ok(r) => r,
            Err(e) => {
                return Err(GameRomError::HeaderError(e));
            },
        };
        match Table::find(n64rom.full()) {
            Ok(t) => Ok(Rom::from(n64rom, Some(t))),
            Err(DmaError::NotFound) => Ok(Rom::from(n64rom, None)),
            Err(e) => Err(GameRomError::DmaError(e)),
        }
    }

    /// Write `bytes` into the full image at `offset`.
    fn write_at(&mut self, offset: usize, bytes: &[u8]) -> (r: Result<usize, GameRomError>)
        ensures
            offset + bytes@.len() <= old(self).rom.image@.len() ==> r == Ok::<usize, GameRomError>(bytes@.len() as usize)
                && final(self).rom.image@ == patched(old(self).rom.image@, offset as int, bytes@),
            offset + bytes@.len() > old(self).rom.image@.len() ==> r == Err::<usize, GameRomError>(
                GameRomError::OutOfBounds(offset, bytes@.len() as usize),
            ) && final(self).rom.image@ == old(self).rom.image@,
            final(self).rom.order == old(self).rom.order,
            final(self).table == old(self).table,
    {
        let n = self.rom.image.len();
        if offset > n || n - offset < bytes.len() {
            return Err(GameRomError::OutOfBounds(offset, bytes.len()));
        }
        overwrite(&mut self.rom.image, offset, bytes);
        Ok(bytes.len())
    }

    /// Write `bytes` into the body (the image after its head) at `offset`.
    pub fn patch(&mut self, offset: usize, bytes: &[u8]) -> (r: Result<usize, GameRomError>)
        ensures
            HEAD_SIZE + offset + bytes@.len() <= old(self).rom.image@.len() ==> r == Ok::<usize, GameRomError>(bytes@.len() as usize)
                && final(self).rom.image@ == patched(old(self).rom.image@, HEAD_SIZE + offset, bytes@),
            HEAD_SIZE + offset + bytes@.len() > old(self).rom.image@.len() ==> r is Err
                && final(self).rom.image@ == old(self).rom.image@,
            final(self).rom.order == old(self).rom.order,
            final(self).table == old(self).table,
    {
        let n = self.rom.image.len();
        if offset > usize::MAX - HEAD_SIZE {
            assert(HEAD_SIZE + offset + bytes@.len() > n);
            return Err(GameRomError::OutOfBounds(offset, bytes.len()));
        }
        self.write_at(HEAD_SIZE + offset, bytes)
    }

    /// Write the encoded table back over the bytes it was read from.
    pub fn update_table_data(&mut self) -> (r: Result<(), GameRomError>)
        ensures
            match table_written(old(self).rom.image@, old(self).spec_table()) {
                Some(img) => r is Ok && final(self).rom.image@ == img,
                None => r is Err && final(self).rom.image@ == old(self).rom.image@,
            },
            final(self).rom.order == old(self).rom.order,
            final(self).table == old(self).table,
    {
        let bytes = match &self.table {
            Some(table) => table.to_bytes(),
            None => {
                return Ok(());
            },
        };
        let address = match &self.table {
            Some(table) => table.address,
            None => 0,
        };
        match self.write_at(address, bytes.as_slice()) {
            Ok(_) => Ok(()),
            Err(e) => Err(e),
        }
    }

    /// Write the table back, then correct the header checksums to `computed`: the
    /// checksums of the body with the table written back.
    pub fn update(&mut self, computed: (u32, u32)) -> (r: Result<(), GameRomError>)
        requires
            old(self).rom.wf(),
        ensures
            match table_written(old(self).rom.image@, old(self).spec_table()) {
                Some(img) => r is Ok && final(self).rom.image@ == crc_corrected(img, computed),
                None => r is Err && final(self).rom.image@ == old(self).rom.image@,
            },
            final(self).rom.order == old(self).rom.order,
            final(self).table == old(self).table,
    {
        match self.update_table_data() {
            Ok(()) => {},
            Err(e) => {
                return Err(e);
            },
        }
        let ghost img = self.rom.image@;
        self.rom.correct_crc(computed);
        Ok(())
    }

    /// The image in the byte order it was read in.
    pub fn write(&self) -> (r: Result<Vec<u8>, GameRomError>)
        ensures
            self.rom.image@.len() % 4 == 0 ==> (r matches Ok(v) && v@ == crate::convert::converted(
                self.rom.image@,
                crate::bytes::Endianness::Big,
                self.rom.order,
            )),
            self.rom.image@.len() % 4 != 0 ==> r is Err,
    {
        match self.rom.write_raw(None) {
            Ok(v) => Ok(v),
            Err(e) => Err(GameRomError::ConvertError(e)),
        }
    }

    /// Update (see `update`), then write the image in the byte order it was read in.
    pub fn write_with_update(&mut self, computed: (u32, u32)) -> (r: Result<Vec<u8>, GameRomError>)
        requires
            old(self).rom.wf(),
        ensures
            match table_written(old(self).rom.image@, old(self).spec_table()) {
                Some(img) => final(self).rom.image@ == crc_corrected(img, computed) && (img.len()
                    % 4 == 0 ==> (r matches Ok(v) && v@ == crate::convert::converted(
                    final(self).rom.image@,
                    crate::bytes::Endianness::Big,
                    old(self).rom.order,
                ))),
                None => r is Err && final(self).rom.image@ == old(self).rom.image@,
            },
    {
        match self.update(computed) {
            Ok(()) => {},
            Err(e) => {
                return Err(e);
            },
        }
        self.write()
    }

    /// The bytes of an entry's file data in the full image; `None` for an entry without
    /// data or whose data lies outside the image.
    pub fn slice(&self, entry: &Entry) -> (r: Option<&[u8]>)
        ensures
            match entry.real_range() {
                Some(p) => if p.start <= p.end && p.end <= self.rom.image@.len() {
                    r matches Some(s) && s@ == self.rom.image@.subrange(p.start as int, p.end as int)
                } else {
                    r is None
                },
                None => r is None,
            },
    {
        let (range, _) = entry.range();
        match range {
            Some(p) => {
                let full = self.rom.full();
                if p.start <= p.end && (p.end as usize) <= full.len() {
                    Some(&full[p.start as usize..p.end as usize])
                } else {
                    None
                }
            },
            None => None,
        }
    }
}

} // verus!
