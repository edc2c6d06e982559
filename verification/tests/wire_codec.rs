//! Decoding the oracle's reply payload.

use horse_races::wire::decode_oracle_reply;
use horse_races::Error;

fn payload(round: u128, seed: u128) -> Vec<u8> {
    let mut p: Vec<u8> = vec![0u8];
    p.extend_from_slice(&round.to_le_bytes());
    p.extend_from_slice(&seed.to_le_bytes());
    p
}

#[test]
fn decode_splits_round_and_seed() {
    let p = payload(5, 1337);
    assert_eq!(decode_oracle_reply(&p), Ok((5, 1337)));
}

#[test]
fn decode_handles_extreme_values() {
    let p = payload(u128::MAX, 0);
    assert_eq!(decode_oracle_reply(&p), Ok((u128::MAX, 0)));
    let p = payload(0, u128::MAX - 1);
    assert_eq!(decode_oracle_reply(&p), Ok((0, u128::MAX - 1)));
}

#[test]
fn decode_ignores_the_tag_byte() {
    let mut p = payload(7, 9);
    p[0] = 0xff;
    assert_eq!(decode_oracle_reply(&p), Ok((7, 9)));
}

#[test]
fn decode_rejects_wrong_lengths() {
    assert_eq!(decode_oracle_reply(&Vec::new()), Err(Error::InvalidPayload));
    assert_eq!(decode_oracle_reply(&vec![0u8; 32]), Err(Error::InvalidPayload));
    assert_eq!(decode_oracle_reply(&vec![0u8; 34]), Err(Error::InvalidPayload));
}

#[test]
fn decode_is_little_endian() {
    let mut p = vec![0u8; 33];
    p[1] = 1; // round = 1
    p[17] = 0;
    p[18] = 2; // seed = 2 * 256
    assert_eq!(decode_oracle_reply(&p), Ok((1, 512)));
}
