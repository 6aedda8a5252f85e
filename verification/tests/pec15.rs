//! The packet error code and the frames that carry it.
use ltc2949::client::DcmdId;
use ltc2949::dcmd::{build_cmd16, build_read, build_write};
use ltc2949::pec15::PEC15;

/// The remainder of the division, computed one bit at a time.
fn bitwise(data: &[u8]) -> [u8; 2] {
    let mut remainder: u16 = 16;
    for byte in data {
        for bit in (0..8).rev() {
            let feedback = (remainder >> 14) & 1 ^ u16::from(byte >> bit & 1);
            remainder = (remainder << 1) & 0x7FFF;
            if feedback == 1 {
                remainder ^= 0x4599;
            }
        }
    }
    (remainder << 1).to_be_bytes()
}

#[test]
fn published_codes() {
    assert_eq!([0x3D, 0x6E], PEC15::calc(&[0x00, 0x01]));
    assert_eq!([0x2B, 0x0A], PEC15::calc(&[0x00, 0x02]));
    assert_eq!([0xF4, 0x6C], PEC15::calc(&[0x03, 0x60]));
    assert_eq!([0x00, 0x20], PEC15::calc(&[]));
}

#[test]
fn every_byte_goes_through_the_division() {
    let mut data = vec![0xFE];
    for byte in 0..=255 {
        data.push(byte);
        assert_eq!(bitwise(&data), PEC15::calc(&data));
        assert_eq!(bitwise(&[byte]), PEC15::calc(&[byte]));
        assert_eq!(0, PEC15::calc(&data)[1] & 1);
    }
}

#[test]
fn one_corrupted_byte_is_detected() {
    let data: Vec<u8> = (0..16).map(|i| i * 13).collect();
    let code = PEC15::calc(&data);
    for position in 0..data.len() {
        for change in 1..=255 {
            let mut corrupted = data.clone();
            corrupted[position] ^= change;
            assert_ne!(code, PEC15::calc(&corrupted));
        }
    }
}

#[test]
fn frames_carry_both_codes() {
    let frame = build_write(0xF0, &[0x08]);
    let header = PEC15::calc(&[0xFE, 0xF0]);
    let data = PEC15::calc(&[0x08]);
    assert_eq!(
        vec![0xFE, 0xF0, header[0], header[1], 0x5B, 0x08, data[0], data[1]],
        frame
    );
    let read = build_read(0xF0, 1);
    assert_eq!(vec![0xFE, 0xF0, header[0], header[1], 0x9B], read[..5].to_vec());
    assert_eq!(8, read.len());
    let command = PEC15::calc(&[0x02, 0x60]);
    assert_eq!(vec![0x02, 0x60, command[0], command[1]], build_cmd16(0x0260));
}

#[test]
fn identifiers_are_distinct() {
    let mut seen: Vec<u8> = Vec::new();
    for read in [false, true] {
        for pecc in 0..16 {
            let byte = u8::from(DcmdId::new(read, pecc));
            assert_ne!((byte >> 7) & 1, (byte >> 6) & 1);
            assert!(!seen.contains(&byte));
            seen.push(byte);
        }
    }
}
