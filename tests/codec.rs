use zelda64::codec::{decompress_into, yaz0_check, Yaz0Failure, Yaz0Outcome};

fn header(size: u32) -> Vec<u8> {
    let mut v = b"Yaz0".to_vec();
    v.extend(size.to_be_bytes());
    v.extend([0u8; 8]);
    v
}

#[test]
fn decodes_literals_and_runs() {
    let mut input = header(7);
    // Code byte 0b1110_0000: three literals, then a back-reference (distance 3, length 4).
    input.extend([0xE0, b'a', b'b', b'c', 0x20, 0x02]);
    let mut dest = vec![0u8; 7];
    assert_eq!(yaz0_check(&input, 7), Yaz0Outcome::Completes);
    assert_eq!(decompress_into(&input, &mut dest), Ok(()));
    assert_eq!(dest, b"abcabca".to_vec());
}

#[test]
fn back_reference_before_start_is_refused() {
    let mut input = header(4);
    input.extend([0x00, 0x20, 0x05]);
    assert_eq!(yaz0_check(&input, 4), Yaz0Outcome::Panics);
    let mut dest = vec![0u8; 4];
    assert_eq!(decompress_into(&input, &mut dest), Err(Yaz0Failure::Malformed));
}

#[test]
fn run_past_buffer_is_refused() {
    let mut input = header(2);
    // A literal, then a run of 0xF + 2 = 17 bytes into a 2-byte buffer.
    input.extend([0x80, b'x', 0xF0, 0x00]);
    assert_eq!(yaz0_check(&input, 2), Yaz0Outcome::Panics);
    assert_eq!(yaz0_check(&input, 18), Yaz0Outcome::Completes);
}

#[test]
fn short_buffer_and_short_input() {
    let input = header(8);
    assert_eq!(yaz0_check(&input, 4), Yaz0Outcome::Panics);
    assert_eq!(yaz0_check(&input, 8), Yaz0Outcome::Fails);
    assert_eq!(yaz0_check(&header(0), 0), Yaz0Outcome::Completes);
    assert_eq!(yaz0_check(b"Yaz", 0), Yaz0Outcome::Fails);
    let mut dest = vec![0u8; 8];
    assert_eq!(decompress_into(&input, &mut dest), Err(Yaz0Failure::Decoder));
}
