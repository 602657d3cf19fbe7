use vstd::prelude::*;

use crate::dma::{decode_entry, encode_entry, lemma_encode_decode, DmaError, Entry, ENTRY_SIZE};

verus! {

/// The entries that a table starting at `bytes[pos]` still contributes, given the cursor
/// `cur` (the virtual address of the entry at `pos`), the end address if already known, and
/// the table's own virtual address `begin`; `None` when the bytes run out first.
pub open spec fn parse_entries(bytes: Seq<u8>, pos: int, cur: int, end: Option<u32>, begin: u32) -> Option<Seq<Entry>>
    decreases bytes.len() - pos,
{
    if end is Some && cur >= end->0 {
        Some(Seq::empty())
    } else if pos < 0 || pos + 16 > bytes.len() {
        None
    } else {
        let e = decode_entry(bytes, pos);
        let end2 = if end is None && e.virt_start == begin {
            Some(e.virt_end)
        } else {
            end
        };
        if end2 is Some && cur >= end2->0 {
            Some(Seq::empty())
        } else {
            match parse_entries(bytes, pos + 16, cur + 16, end2, begin) {
                Some(rest) => Some(seq![e] + rest),
                None => None,
            }
        }
    }
}

/// The entries of the table at `bytes[offset..]` whose own virtual address is `begin`.
pub open spec fn parse_table(bytes: Seq<u8>, offset: int, begin: u32) -> Option<Seq<Entry>> {
    parse_entries(bytes, offset, begin as int, None, begin)
}

/// The encoding of a sequence of entries: each in turn, 16 bytes apiece.
pub open spec fn encode_entries(s: Seq<Entry>) -> Seq<u8>
    decreases s.len(),
{
    if s.len() == 0 {
        Seq::empty()
    } else {
        encode_entries(s.drop_last()) + encode_entry(s.last())
    }
}

pub proof fn lemma_encode_entries_len(s: Seq<Entry>)
    ensures
        encode_entries(s).len() == 16 * s.len(),
    decreases s.len(),
{
    if s.len() > 0 {
        lemma_encode_entries_len(s.drop_last());
    }
}

proof fn lemma_encode_entries_cons(e: Entry, rest: Seq<Entry>)
    ensures
        encode_entries(seq![e] + rest) == encode_entry(e) + encode_entries(rest),
    decreases rest.len(),
{
    let all = seq![e] + rest;
    if rest.len() == 0 {
        assert(rest =~= Seq::<Entry>::empty());
        assert(all =~= seq![e]);
        assert(all.drop_last() =~= Seq::<Entry>::empty());
        assert(all.last() == e);
        assert(encode_entries(all) == encode_entries(Seq::<Entry>::empty()) + encode_entry(e));
        assert(encode_entry(e) + Seq::<u8>::empty() =~= encode_entry(e));
        assert(Seq::<u8>::empty() + encode_entry(e) =~= encode_entry(e));
    } else {
        assert(all.drop_last() =~= seq![e] + rest.drop_last());
        assert(all.last() == rest.last());
        lemma_encode_entries_cons(e, rest.drop_last());
        let a = encode_entry(e);
        let b = encode_entries(rest.drop_last());
        let c = encode_entry(rest.last());
        assert(encode_entries(all) == (a + b) + c);
        assert(encode_entries(rest) == b + c);
        assert((a + b) + c =~= a + (b + c));
    }
}

proof fn lemma_parse_then_encode(bytes: Seq<u8>, pos: int, cur: int, end: Option<u32>, begin: u32)
    requires
        0 <= pos <= bytes.len(),
        parse_entries(bytes, pos, cur, end, begin) is Some,
    ensures
        ({
            let s = parse_entries(bytes, pos, cur, end, begin)->0;
            pos + 16 * s.len() <= bytes.len() && encode_entries(s) == bytes.subrange(pos, pos + 16 * s.len())
        }),
    decreases bytes.len() - pos,
{
    let s = parse_entries(bytes, pos, cur, end, begin)->0;
    if s.len() == 0 {
        assert(encode_entries(s) =~= bytes.subrange(pos, pos));
    } else {
        let e = decode_entry(bytes, pos);
        let end2 = if end is None && e.virt_start == begin {
            Some(e.virt_end)
        } else {
            end
        };
        let rest = parse_entries(bytes, pos + 16, cur + 16, end2, begin)->0;
        assert(s == seq![e] + rest);
        lemma_parse_then_encode(bytes, pos + 16, cur + 16, end2, begin);
        lemma_encode_entries_cons(e, rest);
        lemma_encode_decode(bytes, pos);
        assert(bytes.subrange(pos, pos + 16 * s.len()) =~= bytes.subrange(pos, pos + 16) + bytes.subrange(
            pos + 16,
            pos + 16 + 16 * rest.len(),
        ));
    }
}

/// Encoding a decoded table gives back exactly the bytes it was decoded from, so writing an
/// unchanged table back over them changes nothing.
pub proof fn lemma_read_then_encode(bytes: Seq<u8>, offset: int, begin: u32)
    requires
        0 <= offset <= bytes.len(),
        parse_table(bytes, offset, begin) is Some,
    ensures
        ({
            let s = parse_table(bytes, offset, begin)->0;
            offset + 16 * s.len() <= bytes.len() && encode_entries(s) == bytes.subrange(
                offset,
                offset + 16 * s.len(),
            )
        }),
{
    lemma_parse_then_encode(bytes, offset, begin as int, None, begin);
}

/// The table: entries in file order, and the offset of the table in the image.
pub struct Table {
    /// Offset of the first entry in the image.
    pub address: usize,
    /// Entries in file order.
    pub entries: Vec<Entry>,
}

impl Table {
    pub fn from(address: usize, entries: Vec<Entry>) -> (r: Self)
        ensures
            r.address == address,
            r.entries@ == entries@,
    {
        Table { address, entries }
    }

    /// Number of bytes the encoded table occupies.
    pub fn size(&self) -> (r: usize)
        requires
            16 * self.entries@.len() <= usize::MAX,
        ensures
            r == 16 * self.entries@.len(),
    {
        self.entries.len() * ENTRY_SIZE
    }

    /// Decode the entries of a table at `bytes[offset..]` whose own virtual address is
    /// `begin`. Entries are read until the first entry that starts at `begin` is seen; its
    /// virtual end then bounds the table, counting 16 bytes per entry from `begin`; nothing
    /// is read past that bound.
    pub fn read_at(bytes: &[u8], offset: usize, begin: u32) -> (r: Result<Table, DmaError>)
        ensures
            match parse_table(bytes@, offset as int, begin) {
                Some(s) => r matches Ok(t) && t.entries@ == s && t.address == offset,
                None => r == Err::<Table, DmaError>(DmaError::TruncatedInput),
            },
    {
        let mut entries: Vec<Entry> = Vec::new();
        let mut pos: usize = offset;
        let mut end: Option<u32> = None;
        let n = bytes.len();
        loop
            invariant
                n == bytes@.len(),
                offset <= pos <= bytes@.len() || pos == offset,
                match parse_entries(bytes@, pos as int, begin + (pos - offset), end, begin) {
                    Some(rest) => parse_table(bytes@, offset as int, begin) == Some(entries@ + rest),
                    None => parse_table(bytes@, offset as int, begin) is None,
                },
            decreases bytes@.len() - pos,
        {
            let ghost old_entries = entries@;
            if let Some(e) = end {
                if e <= begin || ((e - begin) as usize) <= pos - offset {
                    assert(entries@ + Seq::<Entry>::empty() =~= entries@);
                    return Ok(Table::from(offset, entries));
                }
            }
            let entry = match Entry::read(bytes, pos) {
                Ok(e) => e,
                Err(e) => {
                    return Err(e);
                },
            };
            if end.is_none() && entry.virt_start == begin {
                end = Some(entry.virt_end);
            }
            assert(pos + 16 <= bytes@.len());
            if let Some(e) = end {
                // The cursor `begin + (pos - offset)` has reached `e`.
                if e <= begin || ((e - begin) as usize) <= pos - offset {
                    assert(entries@ + Seq::<Entry>::empty() =~= entries@);
                    return Ok(Table::from(offset, entries));
                }
            }
            entries.push(entry);
            proof {
                let rest_all = parse_entries(bytes@, pos as int + 16, begin + (pos - offset) + 16, end, begin);
                if let Some(rest) = rest_all {
                    assert(old_entries + (seq![entry] + rest) =~= entries@ + rest);
                }
            }
            pos = pos + ENTRY_SIZE;
        }
    }

    /// Decode the table at `bytes[offset..]`, whose own entry starts at `offset`.
    pub fn read(bytes: &[u8], offset: usize) -> (r: Result<Table, DmaError>)
        requires
            offset <= u32::MAX,
        ensures
            match parse_table(bytes@, offset as int, offset as u32) {
                Some(s) => r matches Ok(t) && t.entries@ == s && t.address == offset,
                None => r == Err::<Table, DmaError>(DmaError::TruncatedInput),
            },
    {
        Table::read_at(bytes, offset, offset as u32)
    }

    /// The encoded table: every entry in order, 16 bytes each, nothing between them.
    pub fn to_bytes(&self) -> (r: Vec<u8>)
        ensures
            r@ == encode_entries(self.entries@),
            r@.len() == 16 * self.entries@.len(),
    {
        let mut out: Vec<u8> = Vec::new();
        let mut i: usize = 0;
        while i < self.entries.len()
            invariant
                i <= self.entries@.len(),
                out@ == encode_entries(self.entries@.subrange(0, i as int)),
            decreases self.entries@.len() - i,
        {
            let ghost before = out@;
            self.entries[i].write(&mut out);
            proof {
                let s = self.entries@.subrange(0, i as int + 1);
                assert(s.drop_last() =~= self.entries@.subrange(0, i as int));
            }
            i = i + 1;
        }
        assert(self.entries@.subrange(0, self.entries@.len() as int) =~= self.entries@);
        proof {
            lemma_encode_entries_len(self.entries@);
        }
        out
    }

    /// Append the encoded table to `out`; returns the number of bytes written.
    pub fn write(&self, out: &mut Vec<u8>) -> (r: usize)
        ensures
            final(out)@ == old(out)@ + encode_entries(self.entries@),
            r == 16 * self.entries@.len(),
    {
        let bytes = self.to_bytes();
        let mut i: usize = 0;
        while i < bytes.len()
            invariant
                i <= bytes@.len(),
                out@ == old(out)@ + bytes@.subrange(0, i as int),
            decreases bytes@.len() - i,
        {
            out.push(bytes[i]);
            assert(bytes@.subrange(0, i as int + 1) =~= bytes@.subrange(0, i as int).push(bytes@[i as int]));
            i = i + 1;
        }
        assert(bytes@.subrange(0, bytes@.len() as int) =~= bytes@);
        bytes.len()
    }
}

} // verus!
