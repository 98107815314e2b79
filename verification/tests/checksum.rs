//! Tests for the header checksum.

use nds::crc16;

#[test]
fn crc_known_values() {
    assert_eq!(crc16(&[]), 0xFFFF);
    // The check value of the bit-reflected CRC-16 with polynomial 0xA001
    // seeded at 0xFFFF.
    assert_eq!(crc16(b"123456789"), 0x4B37);
    assert_eq!(crc16(&[0x00]), 0x40BF);
    assert_eq!(crc16(&[0xFF]), 0x00FF);
}

/// The plain reflected polynomial fold, written independently of the
/// library's mask-table walk.
fn reflected_crc16(data: &[u8]) -> u16 {
    let mut crc: u16 = 0xFFFF;
    for &b in data {
        crc ^= b as u16;
        for _ in 0..8 {
            if crc & 1 == 1 {
                crc = (crc >> 1) ^ 0xA001;
            } else {
                crc >>= 1;
            }
        }
    }
    crc
}

#[test]
fn crc_matches_plain_polynomial_fold() {
    let mut data: Vec<u8> = Vec::new();
    for i in 0..257u32 {
        assert_eq!(crc16(&data), reflected_crc16(&data), "length {}", data.len());
        data.push((i.wrapping_mul(97) % 251) as u8);
    }
}

#[test]
fn crc_is_deterministic() {
    let data: Vec<u8> = (0u8..=255).collect();
    let first = crc16(&data);
    let second = crc16(&data);
    assert_eq!(first, second);
    let copy = data.clone();
    assert_eq!(crc16(&copy), first);
}

#[test]
fn crc_changes_when_any_single_bit_flips() {
    let data: Vec<u8> = (0u8..16).map(|i| i.wrapping_mul(37).wrapping_add(11)).collect();
    let base = crc16(&data);
    for byte in 0..data.len() {
        for bit in 0..8 {
            let mut flipped = data.clone();
            flipped[byte] ^= 1 << bit;
            assert_ne!(
                crc16(&flipped),
                base,
                "flipping bit {bit} of byte {byte} left the checksum unchanged"
            );
        }
    }
}
