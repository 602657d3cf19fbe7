use vstd::prelude::*;

use crate::codec::{decode_result, decompress_into, yaz0_inflated, Yaz0Failure};
use crate::common::{overwrite, patched};
use crate::dma::{DmaError, Entry, EntryType};
use crate::n64::N64Rom;
use crate::range::align16_spec;
use crate::rom::Rom;
use crate::table::Table;

verus! {

/// Capacity of a decompressed image (64 MiB).
pub const ROM_CAPACITY: usize = 0x400_0000;

/// Where decompressed files are placed in the output image.
#[derive(Clone, Copy, Debug, PartialEq, Eq, Structural)]
pub enum Policy {
    /// Each file at its virtual start address.
    Matching,
    /// Files one after another from offset 0, each taking its virtual length rounded up to
    /// 16 bytes.
    Compact,
}

/// Errors of decompressing an image.
#[derive(Clone, Copy, Debug, PartialEq, Eq, Structural)]
pub enum DecompressError {
    /// An entry failed validation.
    DmaError(DmaError),
    /// The image has no table.
    MissingTable,
    /// A range lies outside the input image or the output arena: (start, end).
    OutOfRangeError(u64, u64),
    /// A compressed file could not be decoded.
    Yaz0Error(Yaz0Failure),
}

/// Reconstruction state: output entries so far, the output arena, and the compact cursor.
pub type EngineState = (Seq<Entry>, Seq<u8>, int);

/// The zero-filled output arena.
pub open spec fn empty_arena() -> Seq<u8> {
    Seq::new(ROM_CAPACITY as nat, |i: int| 0u8)
}

/// Where the file of `e` (with virtual range `v`) goes, and how much room it takes.
pub open spec fn out_place(policy: Policy, v: crate::range::AddrRange, cursor: int) -> (int, int) {
    match policy {
        Policy::Matching => (v.start as int, v.spec_len()),
        Policy::Compact => (cursor, align16_spec(v.spec_len())),
    }
}

/// The `len` bytes of content of a file whose data is `input`: decoded where compressed,
/// as stored otherwise.
pub open spec fn file_content(kind: EntryType, input: Seq<u8>, len: int) -> Seq<u8> {
    Seq::new(
        len as nat,
        |i: int|
            if kind == EntryType::Compressed {
                yaz0_inflated(input)[i]
            } else {
                input[i]
            },
    )
}

/// One entry of reconstruction.
pub open spec fn step(image: Seq<u8>, policy: Policy, st: EngineState, e: Entry) -> Result<EngineState, DecompressError> {
    match e.validate_spec() {
        Err(err) => Err(DecompressError::DmaError(err)),
        Ok((v, None, _)) => Ok((st.0.push(e), st.1, st.2)),
        Ok((v, Some(p), kind)) => {
            if p.end > image.len() {
                Err(DecompressError::OutOfRangeError(p.start as u64, p.end as u64))
            } else {
                let (start, room) = out_place(policy, v, st.2);
                let cursor = if policy == Policy::Compact {
                    st.2 + room
                } else {
                    st.2
                };
                if start + room > ROM_CAPACITY {
                    Err(DecompressError::OutOfRangeError(start as u64, (start + room) as u64))
                } else {
                    let input = image.subrange(p.start as int, p.end as int);
                    if kind == EntryType::Compressed && decode_result(input, v.spec_len()) is Some {
                        Err(DecompressError::Yaz0Error(decode_result(input, v.spec_len())->0))
                    } else {
                        let out = Entry {
                            virt_start: v.start,
                            virt_end: v.end,
                            phys_start: start as u32,
                            phys_end: 0,
                        };
                        Ok((st.0.push(out), patched(st.1, start, file_content(kind, input, v.spec_len())), cursor))
                    }
                }
            }
        },
    }
}

/// Reconstruction over `entries`, in order, stopping at the first error.
pub open spec fn run(image: Seq<u8>, policy: Policy, entries: Seq<Entry>) -> Result<EngineState, DecompressError>
    decreases entries.len(),
{
    if entries.len() == 0 {
        Ok((Seq::empty(), empty_arena(), 0))
    } else {
        match run(image, policy, entries.drop_last()) {
            Err(e) => Err(e),
            Ok(st) => step(image, policy, st, entries.last()),
        }
    }
}

/// The entry has file data: it validates, with a data range.
pub open spec fn has_data(e: Entry) -> bool {
    e.validate_spec() matches Ok((_, Some(_), _))
}

/// What reconstruction makes of `e` when its file is placed at `start`.
pub open spec fn out_entry(e: Entry, start: int) -> Entry {
    if has_data(e) {
        Entry { virt_start: e.virt_start, virt_end: e.virt_end, phys_start: start as u32, phys_end: 0 }
    } else {
        e
    }
}

/// Room that the compact policy gives to `e`.
pub open spec fn compact_room(e: Entry) -> int {
    if has_data(e) {
        align16_spec(e.virt_range().spec_len())
    } else {
        0
    }
}

/// Where the compact policy places the file of entry `k`: the rooms of the entries before it,
/// added up from 0.
pub open spec fn compact_offset(entries: Seq<Entry>, k: int) -> int
    decreases k,
{
    if k <= 0 {
        0
    } else {
        compact_offset(entries, k - 1) + compact_room(entries[k - 1])
    }
}

proof fn lemma_compact_offset_prefix(entries: Seq<Entry>, n: int, k: int)
    requires
        0 <= k <= n <= entries.len(),
    ensures
        compact_offset(entries.subrange(0, n), k) == compact_offset(entries, k),
    decreases k,
{
    if k > 0 {
        lemma_compact_offset_prefix(entries, n, k - 1);
    }
}

/// Under the compact policy, output files are laid out from offset 0 with no gaps: each
/// starts where the previous one's room (its virtual length rounded up to 16 bytes) ends.
/// Entries without data are carried over unchanged.
pub proof fn lemma_compact_layout(image: Seq<u8>, entries: Seq<Entry>)
    requires
        run(image, Policy::Compact, entries) is Ok,
    ensures
        ({
            let st = run(image, Policy::Compact, entries)->Ok_0;
            &&& st.0.len() == entries.len()
            &&& st.2 == compact_offset(entries, entries.len() as int)
            &&& forall|k: int|
                0 <= k < entries.len() ==> st.0[k] == out_entry(entries[k], compact_offset(entries, k))
        }),
    decreases entries.len(),
{
    if entries.len() > 0 {
        let prev = entries.drop_last();
        let last = entries.last();
        lemma_compact_layout(image, prev);
        let st0 = run(image, Policy::Compact, prev)->Ok_0;
        let st = run(image, Policy::Compact, entries)->Ok_0;
        let n = entries.len() as int;
        assert(prev =~= entries.subrange(0, n - 1));
        lemma_compact_offset_prefix(entries, n - 1, n - 1);
        assert forall|k: int| 0 <= k < n implies st.0[k] == out_entry(entries[k], compact_offset(entries, k)) by {
            if k < n - 1 {
                lemma_compact_offset_prefix(entries, n - 1, k);
                assert(prev[k] == entries[k]);
            }
        }
    }
}

/// No two entries with data have overlapping virtual ranges.
pub open spec fn virtual_disjoint(entries: Seq<Entry>) -> bool {
    forall|i: int, j: int|
        0 <= i < j < entries.len() && has_data(entries[i]) && has_data(entries[j]) ==> (
        entries[i].virt_end <= entries[j].virt_start || entries[j].virt_end <= entries[i].virt_start)
}

/// The decompressed content of the file of an entry with data.
pub open spec fn resolved_content(image: Seq<u8>, e: Entry) -> Seq<u8> {
    let (v, p, kind) = e.validate_spec()->Ok_0;
    file_content(kind, image.subrange(p->0.start as int, p->0.end as int), v.spec_len())
}

proof fn lemma_patched_keeps(s: Seq<u8>, off: int, b: Seq<u8>, x: int, y: int)
    requires
        0 <= off,
        off + b.len() <= s.len(),
        0 <= x <= y <= s.len(),
        y <= off || off + b.len() <= x,
    ensures
        patched(s, off, b).subrange(x, y) == s.subrange(x, y),
        patched(s, off, b).len() == s.len(),
{
    assert(patched(s, off, b).subrange(x, y) =~= s.subrange(x, y));
}

proof fn lemma_patched_holds(s: Seq<u8>, off: int, b: Seq<u8>)
    requires
        0 <= off,
        off + b.len() <= s.len(),
    ensures
        patched(s, off, b).subrange(off, off + b.len()) == b,
        patched(s, off, b).len() == s.len(),
{
    assert(patched(s, off, b).subrange(off, off + b.len()) =~= b);
}

/// Under the matching policy, every entry with data keeps its virtual range, is placed at
/// its virtual start, and the output holds its decompressed content there. This needs
/// virtual ranges that do not overlap: a later file overwrites an earlier one otherwise.
pub proof fn lemma_matching_layout(image: Seq<u8>, entries: Seq<Entry>)
    requires
        run(image, Policy::Matching, entries) is Ok,
        virtual_disjoint(entries),
    ensures
        ({
            let st = run(image, Policy::Matching, entries)->Ok_0;
            &&& st.0.len() == entries.len()
            &&& st.1.len() == ROM_CAPACITY
            &&& forall|k: int|
                0 <= k < entries.len() ==> st.0[k] == out_entry(entries[k], entries[k].virt_start as int)
            &&& forall|k: int|
                #![trigger entries[k]]
                0 <= k < entries.len() && has_data(entries[k]) ==> entries[k].virt_end <= ROM_CAPACITY
                    && st.1.subrange(entries[k].virt_start as int, entries[k].virt_end as int)
                    == resolved_content(image, entries[k])
        }),
    decreases entries.len(),
{
    if entries.len() > 0 {
        let prev = entries.drop_last();
        let last = entries.last();
        let n = entries.len() as int;
        assert forall|i: int, j: int|
            0 <= i < j < prev.len() && has_data(prev[i]) && has_data(prev[j]) implies (prev[i].virt_end
            <= prev[j].virt_start || prev[j].virt_end <= prev[i].virt_start) by {
            assert(prev[i] == entries[i] && prev[j] == entries[j]);
        }
        lemma_matching_layout(image, prev);
        let st0 = run(image, Policy::Matching, prev)->Ok_0;
        let st = run(image, Policy::Matching, entries)->Ok_0;
        if has_data(last) {
            let (v, p, kind) = last.validate_spec()->Ok_0;
            let content = file_content(kind, image.subrange(p->0.start as int, p->0.end as int), v.spec_len());
            assert(st.1 == patched(st0.1, v.start as int, content));
            lemma_patched_holds(st0.1, v.start as int, content);
            assert forall|k: int|
                #![trigger entries[k]]
                0 <= k < n && has_data(entries[k]) implies entries[k].virt_end <= ROM_CAPACITY
                && st.1.subrange(entries[k].virt_start as int, entries[k].virt_end as int)
                == resolved_content(image, entries[k]) by {
                if k < n - 1 {
                    assert(prev[k] == entries[k]);
                    lemma_patched_keeps(st0.1, v.start as int, content, entries[k].virt_start as int, entries[k].virt_end as int);
                }
            }
        } else {
            assert forall|k: int|
                #![trigger entries[k]]
                0 <= k < n && has_data(entries[k]) implies entries[k].virt_end <= ROM_CAPACITY
                && st.1.subrange(entries[k].virt_start as int, entries[k].virt_end as int)
                == resolved_content(image, entries[k]) by {
                if k < n - 1 {
                    assert(prev[k] == entries[k]);
                }
            }
        }
        assert forall|k: int| 0 <= k < n implies st.0[k] == out_entry(entries[k], entries[k].virt_start as int) by {
            if k < n - 1 {
                assert(prev[k] == entries[k]);
            }
        }
    }
}

/// Reconstruct one entry: resolve its file into `data` and return the output entry.
fn resolve(
    image: &[u8],
    policy: Policy,
    entry: Entry,
    data: &mut Vec<u8>,
    cursor: &mut u64,
) -> (r: Result<Entry, DecompressError>)
    requires
        old(data)@.len() == ROM_CAPACITY,
        *old(cursor) <= ROM_CAPACITY,
    ensures
        match step(image@, policy, (Seq::empty(), old(data)@, *old(cursor) as int), entry) {
            Err(e) => r == Err::<Entry, DecompressError>(e),
            Ok(st) => r matches Ok(out) && st.0 == seq![out] && final(data)@ == st.1 && *final(cursor) == st.2,
        },
        final(data)@.len() == ROM_CAPACITY,
        *final(cursor) <= ROM_CAPACITY,
{
    let (virt, range, kind) = match entry.validate() {
        Ok(x) => x,
        Err(e) => {
            return Err(DecompressError::DmaError(e));
        },
    };
    let p = match range {
        Some(p) => p,
        None => {
            assert(seq![entry] =~= Seq::<Entry>::empty().push(entry));
            return Ok(entry);
        },
    };
    if p.end as usize > image.len() {
        return Err(DecompressError::OutOfRangeError(p.start as u64, p.end as u64));
    }
    let input = &image[p.start as usize..p.end as usize];
    let vlen = virt.len();
    let (start, room): (u64, u64) = match policy {
        Policy::Matching => (virt.start as u64, vlen as u64),
        Policy::Compact => (*cursor, ((vlen as u64 + 15) / 16) * 16),
    };
    if start + room > ROM_CAPACITY as u64 {
        return Err(DecompressError::OutOfRangeError(start, start + room));
    }
    if policy == Policy::Compact {
        *cursor = *cursor + room;
    }
    let out = Entry::from_decompressed(virt, start as u32);
    match kind {
        EntryType::Compressed => {
            let mut buf: Vec<u8> = vec![0u8; vlen as usize];
            match decompress_into(input, buf.as_mut_slice()) {
                Ok(()) => {},
                Err(f) => {
                    return Err(DecompressError::Yaz0Error(f));
                },
            }
            assert(buf@ =~= file_content(kind, input@, vlen as int));
            overwrite(data, start as usize, buf.as_slice());
        },
        _ => {
            assert(input@ =~= file_content(kind, input@, vlen as int));
            overwrite(data, start as usize, input);
        },
    }
    assert(seq![out] =~= Seq::<Entry>::empty().push(out));
    Ok(out)
}

/// Decompress the files of the table in `rom` into a new 64 MiB image, placed by `policy`,
/// with a new table whose entries all describe uncompressed files at their new places.
pub fn decompress_with(rom: &Rom, policy: Policy) -> (r: Result<Rom, DecompressError>)
    ensures
        match rom.table {
            None => r == Err::<Rom, DecompressError>(DecompressError::MissingTable),
            Some(t) => match run(rom.rom.image@, policy, t.entries@) {
                Err(e) => r == Err::<Rom, DecompressError>(e),
                Ok(st) => r matches Ok(out) && out.rom.image@ == st.1 && out.rom.order
                    == rom.rom.order && (out.table matches Some(nt) && nt.entries@ == st.0
                    && nt.address == t.address),
            },
        },
{
    let table = match &rom.table {
        Some(t) => t,
        None => {
            return Err(DecompressError::MissingTable);
        },
    };
    assert(rom.table == Some(*table));
    let image = rom.rom.full();
    let mut data: Vec<u8> = vec![0u8; ROM_CAPACITY];
    assert(data@ =~= empty_arena());
    let mut entries: Vec<Entry> = Vec::new();
    let mut cursor: u64 = 0;
    let mut i: usize = 0;
    while i < table.entries.len()
        invariant
            i <= table.entries@.len(),
            rom.table == Some(*table),
            image@ == rom.rom.image@,
            data@.len() == ROM_CAPACITY,
            cursor <= ROM_CAPACITY,
            run(image@, policy, table.entries@.subrange(0, i as int)) == Ok::<EngineState, DecompressError>(
                (entries@, data@, cursor as int),
            ),
        decreases table.entries@.len() - i,
    {
        let ghost st: EngineState = (entries@, data@, cursor as int);
        let entry = table.entries[i];
        proof {
            let pre = table.entries@.subrange(0, i as int + 1);
            assert(pre.drop_last() =~= table.entries@.subrange(0, i as int));
            assert(pre.last() == entry);
        }
        match resolve(image, policy, entry, &mut data, &mut cursor) {
            Ok(out) => {
                entries.push(out);
                proof {
                    lemma_step_any_prefix(image@, policy, st, entry);
                    assert(entries@ =~= st.0 + seq![out]);
                }
            },
            Err(e) => {
                proof {
                    lemma_step_any_prefix(image@, policy, st, entry);
                    lemma_run_error_sticks(image@, policy, table.entries@, i as int + 1);
                }
                return Err(e);
            },
        }
        i = i + 1;
    }
    assert(table.entries@.subrange(0, table.entries@.len() as int) =~= table.entries@);
    let new_table = Table::from(table.address, entries);
    let new_rom = N64Rom::from(data, rom.rom.order);
    Ok(Rom::from(new_rom, Some(new_table)))
}

/// A step does not look at the output entries so far: it only appends to them.
proof fn lemma_step_any_prefix(image: Seq<u8>, policy: Policy, st: EngineState, e: Entry)
    ensures
        match step(image, policy, (Seq::empty(), st.1, st.2), e) {
            Err(err) => step(image, policy, st, e) == Err::<EngineState, DecompressError>(err),
            Ok(s1) => s1.0.len() == 1 && step(image, policy, st, e) == Ok::<EngineState, DecompressError>(
                (st.0 + s1.0, s1.1, s1.2),
            ),
        },
{
    match step(image, policy, (Seq::empty(), st.1, st.2), e) {
        Err(err) => {},
        Ok(s1) => {
            match step(image, policy, st, e) {
                Ok(s2) => {
                    assert(s2.0 =~= st.0 + s1.0);
                },
                Err(_) => {},
            }
        },
    }
}

/// Once reconstruction of a prefix fails, reconstruction of the whole fails the same way.
proof fn lemma_run_error_sticks(image: Seq<u8>, policy: Policy, entries: Seq<Entry>, k: int)
    requires
        0 <= k <= entries.len(),
        run(image, policy, entries.subrange(0, k)) is Err,
    ensures
        run(image, policy, entries) == run(image, policy, entries.subrange(0, k)),
    decreases entries.len() - k,
{
    if k < entries.len() {
        let next = entries.subrange(0, k + 1);
        assert(next.drop_last() =~= entries.subrange(0, k));
        lemma_run_error_sticks(image, policy, entries, k + 1);
    } else {
        assert(entries.subrange(0, k) =~= entries);
    }
}

/// Decompress with the matching policy where `matching` holds, else compactly.
pub fn decompress(rom: &Rom, matching: bool) -> (r: Result<Rom, DecompressError>)
    ensures
        ({
            let policy = if matching {
                Policy::Matching
            } else {
                Policy::Compact
            };
            match rom.table {
                None => r == Err::<Rom, DecompressError>(DecompressError::MissingTable),
                Some(t) => match run(rom.rom.image@, policy, t.entries@) {
                    Err(e) => r == Err::<Rom, DecompressError>(e),
                    Ok(st) => r matches Ok(out) && out.rom.image@ == st.1 && out.rom.order
                        == rom.rom.order && (out.table matches Some(nt) && nt.entries@ == st.0
                        && nt.address == t.address),
                },
            }
        }),
{
    if matching {
        decompress_with(rom, Policy::Matching)
    } else {
        decompress_with(rom, Policy::Compact)
    }
}

/// Decompress with the matching policy where `MATCHING` holds, else compactly.
pub fn decompress_with_matching<const MATCHING: bool>(rom: &Rom) -> (r: Result<Rom, DecompressError>)
    ensures
        ({
            let policy = if MATCHING {
                Policy::Matching
            } else {
                Policy::Compact
            };
            match rom.table {
                None => r == Err::<Rom, DecompressError>(DecompressError::MissingTable),
                Some(t) => match run(rom.rom.image@, policy, t.entries@) {
                    Err(e) => r == Err::<Rom, DecompressError>(e),
                    Ok(st) => r matches Ok(out) && out.rom.image@ == st.1 && out.rom.order
                        == rom.rom.order && (out.table matches Some(nt) && nt.entries@ == st.0
                        && nt.address == t.address),
                },
            }
        }),
{
    decompress(rom, MATCHING)
}

} // verus!
