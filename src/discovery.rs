use vstd::prelude::*;

use crate::dma::{decode_entry, Entry, DmaError, ENTRY_SIZE};
use crate::table::{parse_table, Table};

verus! {

/// Stride of both scans.
pub const SCAN_ALIGN: usize = 0x10;

/// Size of the build header that precedes a signed table.
pub const BUILD_HEADER_SIZE: usize = 0x30;

/// Length of the build date string in the build header.
pub const BUILD_DATE_LEN: usize = 17;

/// The build signature `zelda@srd` as bytes.
pub open spec fn signature() -> Seq<u8> {
    seq![0x7au8, 0x65, 0x6c, 0x64, 0x61, 0x40, 0x73, 0x72, 0x64]
}

pub open spec fn has_signature_at(b: Seq<u8>, i: int) -> bool {
    0 <= i && i + 9 <= b.len() && b.subrange(i, i + 9) == signature()
}

pub open spec fn initial_entry() -> Entry {
    Entry { virt_start: 0, virt_end: 0x1060, phys_start: 0, phys_end: 0 }
}

pub open spec fn has_initial_at(b: Seq<u8>, i: int) -> bool {
    0 <= i && i + 16 <= b.len() && decode_entry(b, i) == initial_entry()
}

/// `i` is the first 16-byte aligned offset that holds the signature.
pub open spec fn first_signature(b: Seq<u8>, i: int) -> bool {
    i % 16 == 0 && has_signature_at(b, i) && forall|j: int|
        0 <= j < i && j % 16 == 0 ==> !has_signature_at(b, j)
}

/// `i` is the first 16-byte window that holds the initial entry.
pub open spec fn first_initial(b: Seq<u8>, i: int) -> bool {
    i % 16 == 0 && has_initial_at(b, i) && forall|j: int|
        0 <= j < i && j % 16 == 0 ==> !has_initial_at(b, j)
}

pub open spec fn no_signature(b: Seq<u8>) -> bool {
    forall|j: int| 0 <= j && j % 16 == 0 ==> !has_signature_at(b, j)
}

pub open spec fn no_initial(b: Seq<u8>) -> bool {
    forall|j: int| 0 <= j && j % 16 == 0 ==> !has_initial_at(b, j)
}

/// The two known build header layouts, told apart by the version tag after the signature.
#[derive(Clone, Copy, Debug, PartialEq, Eq, Structural)]
pub enum BuildVersion {
    /// Tag `44`: the date string starts 0xC bytes into the header.
    V44,
    /// Tag `022j`: the date string starts 0x10 bytes into the header.
    V022j,
}

/// The version tag in the header at `w`, if it is a known one.
pub open spec fn version_at(b: Seq<u8>, w: int) -> Option<BuildVersion> {
    if b[w + 9] == 0x34 && b[w + 10] == 0x34 && b[w + 11] == 0 {
        Some(BuildVersion::V44)
    } else if b[w + 9] == 0x30 && b[w + 10] == 0x32 && b[w + 11] == 0x32 && b[w + 12] == 0x6a
        && b[w + 13] == 0 {
        Some(BuildVersion::V022j)
    } else {
        None
    }
}

pub open spec fn date_offset(v: BuildVersion) -> int {
    match v {
        BuildVersion::V44 => 0xC,
        BuildVersion::V022j => 0x10,
    }
}

/// The build header found in front of a signed table.
pub struct BuildHeader {
    pub version: BuildVersion,
    /// The build date string, e.g. `98-10-21 04:56:31`.
    pub date: Vec<u8>,
}

/// The first 16-byte aligned offset that holds the build signature.
pub fn scan_signature(b: &[u8]) -> (r: Option<usize>)
    ensures
        match r {
            Some(i) => first_signature(b@, i as int),
            None => no_signature(b@),
        },
{
    let n = b.len();
    let mut i: usize = 0;
    while i < n && n - i >= 9
        invariant
            n == b@.len(),
            i % 16 == 0,
            forall|j: int| 0 <= j < i && j % 16 == 0 ==> !has_signature_at(b@, j),
        decreases n - i,
    {
        if b[i] == 0x7a && b[i + 1] == 0x65 && b[i + 2] == 0x6c && b[i + 3] == 0x64 && b[i + 4]
            == 0x61 && b[i + 5] == 0x40 && b[i + 6] == 0x73 && b[i + 7] == 0x72 && b[i + 8] == 0x64 {
            assert(b@.subrange(i as int, i + 9) =~= signature());
            return Some(i);
        }
        assert(!has_signature_at(b@, i as int)) by {
            if has_signature_at(b@, i as int) {
                assert(b@.subrange(i as int, i + 9)[0] == b@[i as int]);
                assert(b@.subrange(i as int, i + 9)[1] == b@[i + 1]);
                assert(b@.subrange(i as int, i + 9)[2] == b@[i + 2]);
                assert(b@.subrange(i as int, i + 9)[3] == b@[i + 3]);
                assert(b@.subrange(i as int, i + 9)[4] == b@[i + 4]);
                assert(b@.subrange(i as int, i + 9)[5] == b@[i + 5]);
                assert(b@.subrange(i as int, i + 9)[6] == b@[i + 6]);
                assert(b@.subrange(i as int, i + 9)[7] == b@[i + 7]);
                assert(b@.subrange(i as int, i + 9)[8] == b@[i + 8]);
            }
        }
        if n - i < SCAN_ALIGN {
            i = n;
        } else {
            i = i + SCAN_ALIGN;
        }
        if i % 16 != 0 {
            // Past the end: no aligned window is left to check.
            assert forall|j: int| 0 <= j && j % 16 == 0 implies !has_signature_at(b@, j) by {
                if j >= i {
                    assert(j + 9 > b@.len());
                }
            }
            return None;
        }
    }
    assert forall|j: int| 0 <= j && j % 16 == 0 implies !has_signature_at(b@, j) by {
        if j >= i {
            assert(j + 9 > b@.len());
        }
    }
    None
}

/// The first 16-byte window, counted from offset 0, that holds the initial entry.
pub fn scan_initial(b: &[u8]) -> (r: Option<usize>)
    ensures
        match r {
            Some(i) => first_initial(b@, i as int),
            None => no_initial(b@),
        },
{
    let initial = Entry::initial();
    let n = b.len();
    let mut i: usize = 0;
    while i < n && n - i >= ENTRY_SIZE
        invariant
            n == b@.len(),
            i % 16 == 0,
            initial == initial_entry(),
            forall|j: int| 0 <= j < i && j % 16 == 0 ==> !has_initial_at(b@, j),
        decreases n - i,
    {
        match Entry::read(b, i) {
            Ok(e) => {
                if e == initial {
                    return Some(i);
                }
            },
            Err(_) => {},
        }
        i = i + ENTRY_SIZE;
    }
    assert forall|j: int| 0 <= j && j % 16 == 0 implies !has_initial_at(b@, j) by {
        if j >= i {
            assert(j + 16 > b@.len());
        }
    }
    None
}

/// Where the table at a signature at `w` starts, and its build header, if the header is
/// complete and of a known version.
pub open spec fn signed_result(b: Seq<u8>, w: int) -> Result<(int, BuildVersion, Seq<u8>), DmaError> {
    if w + 0x30 > b.len() {
        Err(DmaError::TruncatedInput)
    } else {
        match version_at(b, w) {
            None => Err(DmaError::UnknownVersion),
            Some(v) => Ok(
                (w + 0x30, v, b.subrange(w + date_offset(v), w + date_offset(v) + 17)),
            ),
        }
    }
}

/// Read the build header at `w` (where the signature is).
fn read_build_header(b: &[u8], w: usize) -> (r: Result<BuildHeader, DmaError>)
    requires
        has_signature_at(b@, w as int),
    ensures
        match signed_result(b@, w as int) {
            Ok((_, v, d)) => r matches Ok(h) && h.version == v && h.date@ == d,
            Err(e) => r matches Err(e2) && e2 == e,
        },
        r is Ok ==> w + 0x30 <= b@.len(),
{
    let n = b.len();
    if n - w < BUILD_HEADER_SIZE {
        return Err(DmaError::TruncatedInput);
    }
    let version = if b[w + 9] == 0x34 && b[w + 10] == 0x34 && b[w + 11] == 0 {
        BuildVersion::V44
    } else if b[w + 9] == 0x30 && b[w + 10] == 0x32 && b[w + 11] == 0x32 && b[w + 12] == 0x6a
        && b[w + 13] == 0 {
        BuildVersion::V022j
    } else {
        return Err(DmaError::UnknownVersion);
    };
    let start: usize = match version {
        BuildVersion::V44 => w + 0xC,
        BuildVersion::V022j => w + 0x10,
    };
    let mut date: Vec<u8> = Vec::new();
    let mut k: usize = 0;
    while k < BUILD_DATE_LEN
        invariant
            n == b@.len(),
            start + 17 <= b@.len(),
            k <= 17,
            date@ == b@.subrange(start as int, start + k),
        decreases 17 - k,
    {
        date.push(b[start + k]);
        assert(b@.subrange(start as int, start + k + 1) =~= b@.subrange(start as int, start + k).push(b@[start + k]));
        k = k + 1;
    }
    Ok(BuildHeader { version, date })
}

/// The outcome of discovery on `b`: where the table starts and, for a signed table, its
/// build header.
pub open spec fn discovered(b: Seq<u8>, r: Result<(usize, Option<BuildHeader>), DmaError>) -> bool {
    if exists|w: int| first_signature(b, w) {
        let w = choose|w: int| first_signature(b, w);
        match signed_result(b, w) {
            Ok((o, v, d)) => r matches Ok((o2, Some(h))) && o2 == o && h.version == v && h.date@
                == d,
            Err(e) => r matches Err(e2) && e2 == e,
        }
    } else if exists|i: int| first_initial(b, i) {
        r matches Ok((o, None)) && first_initial(b, o as int)
    } else {
        r matches Err(e) && e == DmaError::NotFound
    }
}

proof fn lemma_first_signature_unique(b: Seq<u8>, w1: int, w2: int)
    requires
        first_signature(b, w1),
        first_signature(b, w2),
    ensures
        w1 == w2,
{
}

/// Find the start of the table in `b`: after the build header that follows the first
/// aligned signature, or else at the first 16-byte window holding the initial entry.
pub fn find_offset(b: &[u8]) -> (r: Result<(usize, Option<BuildHeader>), DmaError>)
    ensures
        discovered(b@, r),
        (no_signature(b@) && no_initial(b@)) <==> r == Err::<(usize, Option<BuildHeader>), DmaError>(DmaError::NotFound),
{
    let n = b.len();
    match scan_signature(b) {
        Some(w) => {
            proof {
                let c = choose|w: int| first_signature(b@, w);
                lemma_first_signature_unique(b@, c, w as int);
            }
            match read_build_header(b, w) {
                Ok(h) => Ok((w + BUILD_HEADER_SIZE, Some(h))),
                Err(e) => Err(e),
            }
        },
        None => {
            assert(!exists|w: int| first_signature(b@, w));
            match scan_initial(b) {
                Some(i) => Ok((i, None)),
                None => {
                    assert(!exists|i: int| first_initial(b@, i));
                    Err(DmaError::NotFound)
                },
            }
        },
    }
}

impl Table {
    /// Find the table in the full image `b` and decode it. Offsets in the full image are
    /// virtual addresses, so the table's own entry starts at its offset.
    pub fn find(b: &[u8]) -> (r: Result<Table, DmaError>)
        requires
            b@.len() <= u32::MAX,
        ensures
            match find_offset_spec(b@) {
                Err(e) => r == Err::<Table, DmaError>(e),
                Ok(o) => match parse_table(b@, o, o as u32) {
                    Some(s) => r matches Ok(t) && t.entries@ == s && t.address == o,
                    None => r == Err::<Table, DmaError>(DmaError::TruncatedInput),
                },
            },
    {
        match find_offset(b) {
            Ok((o, _)) => {
                if o > b.len() {
                    // Only a header that runs to the very end can put the table past it.
                    return Err(DmaError::TruncatedInput);
                }
                Table::read_at(b, o, o as u32)
            },
            Err(e) => Err(e),
        }
    }
}

/// The table offset that discovery yields, or its error.
pub open spec fn find_offset_spec(b: Seq<u8>) -> Result<int, DmaError> {
    if exists|w: int| first_signature(b, w) {
        let w = choose|w: int| first_signature(b, w);
        match signed_result(b, w) {
            Ok((o, _, _)) => Ok(o),
            Err(e) => Err(e),
        }
    } else if exists|i: int| first_initial(b, i) {
        Ok(choose|i: int| first_initial(b, i))
    } else {
        Err(DmaError::NotFound)
    }
}

} // verus!
