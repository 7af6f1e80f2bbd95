use bitvec::order::Msb0;
use bitvec::vec::BitVec;
use wmbus::error::Error;
use wmbus::threeoutofsix::{BitSequence, ThreeOutOfSix};

#[test]
fn can_encode_example() {
    let data = vec![0x2F, 0x44, 0x68, 0x50, 0x27, 0x21, 0x45, 0x30, 0x50, 0x62, 0xBD, 0xCC, 0xA2, 0x06, 0x9F, 0x1B, 0x11, 0x06, 0xC0, 0x10, 0x00, 0x00, 0x00, 0x00, 0x00, 0x00, 0x00, 0x00, 0x55, 0xA3, 0x00, 0x00, 0x00, 0x00, 0x00, 0x00, 0x00, 0x00, 0x00, 0x00, 0x00, 0x00, 0x00, 0x00, 0x00, 0x00, 0xFF, 0xFF, 0x00, 0x00, 0x00, 0x00, 0x00, 0x00, 0xFF, 0xFF];
    let encoded = ThreeOutOfSix::encode(&data);
    let encoded_expected: Vec<u8> = vec![
        0x3a, 0x97, 0x1c, 0x6a, 0xc6, 0x56, 0x39, 0x33,
        0x8d, 0x71, 0x92, 0xd6, 0x65, 0x66, 0x8e, 0x8f,
        0x1d, 0x34, 0x98, 0xe5, 0x9a, 0x96, 0x93, 0x63,
        0x34, 0xd5, 0x9a, 0xd1, 0x63, 0x56, 0x59, 0x65,
        0x96, 0x59, 0x65, 0x96, 0x59, 0x65, 0x96, 0x59,
        0x65, 0x96, 0x65, 0x99, 0x8b, 0x59, 0x65, 0x96,
        0x59, 0x65, 0x96, 0x59, 0x65, 0x96, 0x59, 0x65,
        0x96, 0x59, 0x65, 0x96, 0x59, 0x65, 0x96, 0x59,
        0x65, 0x96, 0x59, 0x65, 0x96, 0xa6, 0x9a, 0x69,
        0x59, 0x65, 0x96, 0x59, 0x65, 0x96, 0x59, 0x65,
        0x96, 0xa6, 0x9a, 0x69,
    ];
    let expected: BitVec<u8, Msb0> = BitVec::from_vec(encoded_expected);

    assert_eq!(expected.iter().by_vals().collect::<Vec<bool>>(), encoded.to_bools());
}

#[test]
fn can_encode_correctly_terminates() {
    let data: [u8; 1] = [0x12];
    let encoded = ThreeOutOfSix::encode(&data);

    assert_eq!(
        vec![
            false, false, true, true, false, true,
            false, false, true, true, true, false,
        ],
        encoded.to_bools()
    );
}

#[test]
fn can_decode() {
    let data = vec![0x2F, 0x44, 0x68, 0x50, 0x27, 0x21, 0x45, 0x30, 0x50, 0x62, 0xBD, 0xCC, 0xA2, 0x06, 0x9F, 0x1B, 0x11, 0x06, 0xC0, 0x10, 0x00, 0x00, 0x00, 0x00, 0x00, 0x00, 0x00, 0x00, 0x55, 0xA3, 0x00, 0x00, 0x00, 0x00, 0x00, 0x00, 0x00, 0x00, 0x00, 0x00, 0x00, 0x00, 0x00, 0x00, 0x00, 0x00, 0xFF, 0xFF, 0x00, 0x00, 0x00, 0x00, 0x00, 0x00, 0xFF, 0xFF];
    let encoded = ThreeOutOfSix::encode(&data);
    let decoded = ThreeOutOfSix::decode(&encoded);
    assert_eq!(data, decoded.unwrap());
}

#[test]
fn encode_length_is_twelve_bits_per_byte() {
    for n in 0..20usize {
        let data: Vec<u8> = (0..n).map(|i| (i * 37) as u8).collect();
        assert_eq!(12 * n, ThreeOutOfSix::encode(&data).len());
    }
}

#[test]
fn round_trip_every_byte() {
    let data: Vec<u8> = (0..=255u8).collect();
    let encoded = ThreeOutOfSix::encode(&data);
    assert_eq!(3072, encoded.len());
    assert_eq!(data, ThreeOutOfSix::decode(&encoded).unwrap());
    assert_eq!(Vec::<u8>::new(), ThreeOutOfSix::decode(&ThreeOutOfSix::encode(&[])).unwrap());
}

#[test]
fn symbols_are_balanced() {
    for nibble in 0..16u8 {
        let encoded = ThreeOutOfSix::encode(&[nibble * 16 + nibble]);
        let bits = encoded.to_bools();
        assert_eq!(3, bits[0..6].iter().filter(|b| **b).count());
        assert_eq!(bits[0..6], bits[6..12]);
    }
}

#[test]
fn decode_errors() {
    let mut bits = BitSequence::new();
    for _ in 0..11 {
        bits.push(true);
    }
    assert_eq!(Err(Error::NotAligned), ThreeOutOfSix::decode(&bits));

    let zeros = BitSequence::from_bools(&[false; 12]);
    assert_eq!(Err(Error::InvalidSymbol), ThreeOutOfSix::decode(&zeros));

    // 0x12 then a low symbol of all ones.
    let mut tail = vec![false, false, true, true, false, true];
    tail.extend_from_slice(&[true; 6]);
    assert_eq!(Err(Error::InvalidSymbol), ThreeOutOfSix::decode(&BitSequence::from_bools(&tail)));
}

#[test]
fn decode_from_bools() {
    let bits = BitSequence::from_bools(&[
        false, false, true, true, false, true,
        false, false, true, true, true, false,
    ]);
    assert_eq!(12, bits.len());
    assert!(bits.get(2));
    assert!(!bits.get(11));
    assert_eq!(vec![0x12], ThreeOutOfSix::decode(&bits).unwrap());
}
