use vstd::prelude::*;

use crate::common::{be_u32, read_u32_be};

verus! {

/// The error type of the `yaz0` crate, which the decoder call returns.
#[verifier::external_type_specification]
#[verifier::external_body]
pub struct ExYaz0Error(yaz0::Error);

/// How decoding a Yaz0 stream into a buffer of a given length ends.
#[derive(Clone, Copy, Debug, PartialEq, Eq, Structural)]
pub enum Yaz0Outcome {
    /// Every declared byte is written.
    Completes,
    /// An error is returned: bad magic, or the input ends too early.
    Fails,
    /// The decoder would index outside the buffer: a back-reference before the start of
    /// the output, a run past the end of the buffer, or a buffer shorter than declared.
    Panics,
}

/// The Yaz0 magic `Yaz0`.
pub open spec fn yaz0_magic(s: Seq<u8>) -> bool {
    s.len() >= 4 && s[0] == 0x59 && s[1] == 0x61 && s[2] == 0x7a && s[3] == 0x30
}

/// The decompressed size that the 16-byte header of `s` declares.
pub open spec fn yaz0_declared_size(s: Seq<u8>) -> int {
    be_u32(s, 4) as int
}

/// The decoding loop from input position `ip` and output position `dp`, with `ops`
/// operations left in the current code byte `code`, until `size` bytes are out, in a
/// buffer of `dlen` bytes.
pub open spec fn yaz0_walk(s: Seq<u8>, ip: int, dp: int, ops: int, code: u8, size: int, dlen: int) -> Yaz0Outcome
    decreases if dp < size { size - dp } else { 0 },
{
    if dp >= size {
        Yaz0Outcome::Completes
    } else if ip < 0 || (ops == 0 && ip >= s.len()) {
        Yaz0Outcome::Fails
    } else {
        let ip_next = if ops == 0 { ip + 1 } else { ip };
        let code_next: u8 = if ops == 0 { s[ip] } else { code };
        let ops_next = if ops == 0 { 8 } else { ops };
        let next: u8 = ((code_next as int * 2) % 256) as u8;
        if code_next >= 0x80 {
            // A literal byte.
            if ip_next >= s.len() {
                Yaz0Outcome::Fails
            } else if dp >= dlen {
                Yaz0Outcome::Panics
            } else {
                yaz0_walk(s, ip_next + 1, dp + 1, ops_next - 1, next, size, dlen)
            }
        } else if ip_next + 1 >= s.len() {
            Yaz0Outcome::Fails
        } else {
            // A back-reference: distance from two bytes, length from a nibble or a third byte.
            let hi = s[ip_next];
            let lo = s[ip_next + 1];
            let dist = (hi % 16) as int * 256 + lo as int;
            if dp < dist + 1 {
                Yaz0Outcome::Panics
            } else if hi / 16 == 0 {
                if ip_next + 2 >= s.len() {
                    Yaz0Outcome::Fails
                } else {
                    let n = s[ip_next + 2] as int + 0x12;
                    if dp + n > dlen {
                        Yaz0Outcome::Panics
                    } else {
                        yaz0_walk(s, ip_next + 3, dp + n, ops_next - 1, next, size, dlen)
                    }
                }
            } else {
                let n = (hi / 16) as int + 2;
                if dp + n > dlen {
                    Yaz0Outcome::Panics
                } else {
                    yaz0_walk(s, ip_next + 2, dp + n, ops_next - 1, next, size, dlen)
                }
            }
        }
    }
}

/// How decoding the Yaz0 file `s` into a buffer of `dlen` bytes ends.
pub open spec fn yaz0_outcome(s: Seq<u8>, dlen: int) -> Yaz0Outcome {
    if !yaz0_magic(s) || s.len() < 8 {
        Yaz0Outcome::Fails
    } else if dlen < yaz0_declared_size(s) {
        Yaz0Outcome::Panics
    } else {
        yaz0_walk(s, 16, 0, 0, 0, yaz0_declared_size(s), dlen)
    }
}

/// The bytes that a Yaz0 file decodes to.
pub uninterp spec fn yaz0_inflated(data: Seq<u8>) -> Seq<u8>;

/// Relies on `yaz0::Yaz0Archive::new` (parses the 16-byte header: magic, big-endian size,
/// 8 reserved bytes) and `Yaz0Archive::decompress_into` (writes the declared number of bytes
/// from the start of `dest`; returns an error where the magic is wrong or the input ends
/// early, and panics on the inputs that `yaz0_outcome` calls `Panics`).
#[verifier::external_body]
fn yaz0_decompress_into(input: &[u8], dest: &mut [u8]) -> (r: Result<(), yaz0::Error>)
    requires
        yaz0_outcome(input@, old(dest)@.len() as int) != Yaz0Outcome::Panics,
    ensures
        final(dest)@.len() == old(dest)@.len(),
        r is Ok <==> yaz0_outcome(input@, old(dest)@.len() as int) == Yaz0Outcome::Completes,
        r is Ok ==> final(dest)@.subrange(0, yaz0_declared_size(input@)) == yaz0_inflated(input@),
{
    let mut archive = yaz0::Yaz0Archive::new(std::io::Cursor::new(input))?;
    archive.decompress_into(dest)
}

/// Decide how decoding `s` into a buffer of `dlen` bytes ends, without decoding.
pub fn yaz0_check(s: &[u8], dlen: usize) -> (r: Yaz0Outcome)
    ensures
        r == yaz0_outcome(s@, dlen as int),
{
    let n = s.len();
    if n < 8 || !(s[0] == 0x59 && s[1] == 0x61 && s[2] == 0x7a && s[3] == 0x30) {
        return Yaz0Outcome::Fails;
    }
    let size = read_u32_be(s, 4) as usize;
    if dlen < size {
        return Yaz0Outcome::Panics;
    }
    let mut ip: usize = 16;
    let mut dp: usize = 0;
    let mut ops: usize = 0;
    let mut code: u8 = 0;
    while dp < size
        invariant
            n == s@.len(),
            size == yaz0_declared_size(s@),
            size <= dlen,
            ops <= 8,
            ip <= n + 16,
            yaz0_outcome(s@, dlen as int) == yaz0_walk(s@, ip as int, dp as int, ops as int, code, size as int, dlen as int),
        decreases if dp < size { size - dp } else { 0 },
    {
        if ops == 0 {
            if ip >= n {
                return Yaz0Outcome::Fails;
            }
            code = s[ip];
            ip = ip + 1;
            ops = 8;
        }
        let next: u8 = ((code as u16 * 2) % 256) as u8;
        if code >= 0x80 {
            if ip >= n {
                return Yaz0Outcome::Fails;
            }
            ip = ip + 1;
            dp = dp + 1;
        } else {
            if ip >= n || n - ip < 2 {
                return Yaz0Outcome::Fails;
            }
            let hi = s[ip];
            let lo = s[ip + 1];
            let dist: usize = (hi % 16) as usize * 256 + lo as usize;
            if dp < dist + 1 {
                return Yaz0Outcome::Panics;
            }
            let run: usize;
            if hi / 16 == 0 {
                if n - ip < 3 {
                    return Yaz0Outcome::Fails;
                }
                run = s[ip + 2] as usize + 0x12;
                ip = ip + 3;
            } else {
                run = (hi / 16) as usize + 2;
                ip = ip + 2;
            }
            if dlen - dp < run {
                return Yaz0Outcome::Panics;
            }
            dp = dp + run;
        }
        code = next;
        ops = ops - 1;
    }
    Yaz0Outcome::Completes
}

/// How decoding `s` into a buffer of exactly `dlen` bytes ends: `None` where every byte is
/// produced, otherwise why not.
pub open spec fn decode_result(s: Seq<u8>, dlen: int) -> Option<Yaz0Failure> {
    if yaz0_outcome(s, dlen) == Yaz0Outcome::Fails {
        Some(Yaz0Failure::Decoder)
    } else if yaz0_outcome(s, dlen) == Yaz0Outcome::Panics {
        Some(Yaz0Failure::Malformed)
    } else if yaz0_declared_size(s) != dlen {
        Some(Yaz0Failure::SizeMismatch)
    } else {
        None
    }
}

/// Decode the Yaz0 file `input` into `dest`, which must be exactly as long as the size
/// that the file declares.
pub fn decompress_into(input: &[u8], dest: &mut [u8]) -> (r: Result<(), Yaz0Failure>)
    ensures
        final(dest)@.len() == old(dest)@.len(),
        match decode_result(input@, old(dest)@.len() as int) {
            None => r is Ok && final(dest)@ == yaz0_inflated(input@),
            Some(f) => r == Err::<(), Yaz0Failure>(f),
        },
{
    let outcome = yaz0_check(input, dest.len());
    if outcome == Yaz0Outcome::Fails {
        return Err(Yaz0Failure::Decoder);
    }
    if outcome == Yaz0Outcome::Panics {
        return Err(Yaz0Failure::Malformed);
    }
    if read_u32_be(input, 4) as usize != dest.len() {
        return Err(Yaz0Failure::SizeMismatch);
    }
    match yaz0_decompress_into(input, dest) {
        Ok(()) => {
            assert(final(dest)@.subrange(0, final(dest)@.len() as int) =~= final(dest)@);
            Ok(())
        },
        Err(_) => Err(Yaz0Failure::Decoder),
    }
}

/// Why a Yaz0 file could not be decoded into a buffer.
#[derive(Clone, Copy, Debug, PartialEq, Eq, Structural)]
pub enum Yaz0Failure {
    /// The decoder reported an error: bad magic, or input that ends too early.
    Decoder,
    /// The stream refers outside the output it has produced, or overruns the buffer.
    Malformed,
    /// The declared size differs from the length of the destination.
    SizeMismatch,
}

} // verus!
