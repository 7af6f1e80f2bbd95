use wmbus::error::Error;
use wmbus::ffa::FrameFormatA;
use wmbus::ffb::FrameFormatB;
use wmbus::frameformat::FrameFormat;

const FFA_MAX_PAYLOAD_SIZE: usize = 256;
const FFA_MAX_FRAME_SIZE: usize = FFA_MAX_PAYLOAD_SIZE + 2 * 17;
const FFB_MAX_PAYLOAD_SIZE: usize = 256;
const FFB_MAX_FRAME_SIZE: usize = FFB_MAX_PAYLOAD_SIZE + 2 * 2;

const FFA_EXPECTED_PAYLOAD_BLOCK_COUNT: [usize; 1 + FFA_MAX_PAYLOAD_SIZE] = [
    0,                                              // 0
    0, 0, 0, 0, 0, 0, 0, 0, 0, 0,                   // 1..= 10 (CI field, i.e. second block, is required)
    2, 2, 2, 2, 2, 2, 2, 2, 2, 2, 2, 2, 2, 2, 2, 2, // 11..
    3, 3, 3, 3, 3, 3, 3, 3, 3, 3, 3, 3, 3, 3, 3, 3,
    4, 4, 4, 4, 4, 4, 4, 4, 4, 4, 4, 4, 4, 4, 4, 4,
    5, 5, 5, 5, 5, 5, 5, 5, 5, 5, 5, 5, 5, 5, 5, 5,
    6, 6, 6, 6, 6, 6, 6, 6, 6, 6, 6, 6, 6, 6, 6, 6,
    7, 7, 7, 7, 7, 7, 7, 7, 7, 7, 7, 7, 7, 7, 7, 7,
    8, 8, 8, 8, 8, 8, 8, 8, 8, 8, 8, 8, 8, 8, 8, 8,
    9, 9, 9, 9, 9, 9, 9, 9, 9, 9, 9, 9, 9, 9, 9, 9,
    10, 10, 10, 10, 10, 10, 10, 10, 10, 10, 10, 10, 10, 10, 10, 10,
    11, 11, 11, 11, 11, 11, 11, 11, 11, 11, 11, 11, 11, 11, 11, 11,
    12, 12, 12, 12, 12, 12, 12, 12, 12, 12, 12, 12, 12, 12, 12, 12,
    13, 13, 13, 13, 13, 13, 13, 13, 13, 13, 13, 13, 13, 13, 13, 13,
    14, 14, 14, 14, 14, 14, 14, 14, 14, 14, 14, 14, 14, 14, 14, 14,
    15, 15, 15, 15, 15, 15, 15, 15, 15, 15, 15, 15, 15, 15, 15, 15,
    16, 16, 16, 16, 16, 16, 16, 16, 16, 16, 16, 16, 16, 16, 16, 16,
    17, 17, 17, 17, 17, 17,                         // 251..=256
    
];

const FFA_EXPECTED_FRAME_BLOCK_COUNT: [usize; 1 + FFA_MAX_FRAME_SIZE] = [
    0,                                                      // 0
    0, 0, 0, 0, 0, 0, 0, 0, 0, 0, 0, 0, 0, 0,               // 1..=14 (CI field, i.e. second block, is required)
    2, 2, 2, 2, 2, 2, 2, 2, 2, 2, 2, 2, 2, 2, 2, 2, 0, 0,   // 15..=32
    3, 3, 3, 3, 3, 3, 3, 3, 3, 3, 3, 3, 3, 3, 3, 3, 0, 0,   //
    4, 4, 4, 4, 4, 4, 4, 4, 4, 4, 4, 4, 4, 4, 4, 4, 0, 0,
    5, 5, 5, 5, 5, 5, 5, 5, 5, 5, 5, 5, 5, 5, 5, 5, 0, 0,
    6, 6, 6, 6, 6, 6, 6, 6, 6, 6, 6, 6, 6, 6, 6, 6, 0, 0,
    7, 7, 7, 7, 7, 7, 7, 7, 7, 7, 7, 7, 7, 7, 7, 7, 0, 0,
    8, 8, 8, 8, 8, 8, 8, 8, 8, 8, 8, 8, 8, 8, 8, 8, 0, 0,
    9, 9, 9, 9, 9, 9, 9, 9, 9, 9, 9, 9, 9, 9, 9, 9, 0, 0,
    10, 10, 10, 10, 10, 10, 10, 10, 10, 10, 10, 10, 10, 10, 10, 10, 0, 0,
    11, 11, 11, 11, 11, 11, 11, 11, 11, 11, 11, 11, 11, 11, 11, 11, 0, 0,
    12, 12, 12, 12, 12, 12, 12, 12, 12, 12, 12, 12, 12, 12, 12, 12, 0, 0,
    13, 13, 13, 13, 13, 13, 13, 13, 13, 13, 13, 13, 13, 13, 13, 13, 0, 0,
    14, 14, 14, 14, 14, 14, 14, 14, 14, 14, 14, 14, 14, 14, 14, 14, 0, 0,
    15, 15, 15, 15, 15, 15, 15, 15, 15, 15, 15, 15, 15, 15, 15, 15, 0, 0,
    16, 16, 16, 16, 16, 16, 16, 16, 16, 16, 16, 16, 16, 16, 16, 16, 0, 0,
    17, 17, 17, 17, 17, 17,
    
];

const FFB_EXPECTED_PAYLOAD_BLOCK_COUNT: [usize; 1 + FFB_MAX_PAYLOAD_SIZE] = [
    0,                                              // 0
    0, 0, 0, 0, 0, 0, 0, 0, 0, 0,                   // 1..= 10 (CI field, i.e. second block, is required)
    2, 2, 2, 2, 2, 2, 2, 2, 2, 2, 2, 2, 2, 2, 2, 2, // 11..=126
    2, 2, 2, 2, 2, 2, 2, 2, 2, 2, 2, 2, 2, 2, 2, 2,
    2, 2, 2, 2, 2, 2, 2, 2, 2, 2, 2, 2, 2, 2, 2, 2,
    2, 2, 2, 2, 2, 2, 2, 2, 2, 2, 2, 2, 2, 2, 2, 2,
    2, 2, 2, 2, 2, 2, 2, 2, 2, 2, 2, 2, 2, 2, 2, 2,
    2, 2, 2, 2, 2, 2, 2, 2, 2, 2, 2, 2, 2, 2, 2, 2,
    2, 2, 2, 2, 2, 2, 2, 2, 2, 2, 2, 2, 2, 2, 2, 2,
    2, 2, 2, 2,
    3, 3, 3, 3, 3, 3, 3, 3, 3, 3, 3, 3, 3, 3, 3, 3, // 127..=260
    3, 3, 3, 3, 3, 3, 3, 3, 3, 3, 3, 3, 3, 3, 3, 3,
    3, 3, 3, 3, 3, 3, 3, 3, 3, 3, 3, 3, 3, 3, 3, 3,
    3, 3, 3, 3, 3, 3, 3, 3, 3, 3, 3, 3, 3, 3, 3, 3,
    3, 3, 3, 3, 3, 3, 3, 3, 3, 3, 3, 3, 3, 3, 3, 3,
    3, 3, 3, 3, 3, 3, 3, 3, 3, 3, 3, 3, 3, 3, 3, 3,
    3, 3, 3, 3, 3, 3, 3, 3, 3, 3, 3, 3, 3, 3, 3, 3,
    3, 3, 3, 3, 3, 3, 3, 3, 3, 3, 3, 3, 3, 3, 3, 3,
    3, 3,
    
];

const FFB_EXPECTED_FRAME_BLOCK_COUNT: [usize; 1 + FFB_MAX_FRAME_SIZE] = [
    0,                                                  // 0
    0, 0, 0, 0, 0, 0, 0, 0, 0, 0, 0, 0,                 // 1..=12 (CI field, i.e. second block, is required)
    2, 2, 2, 2, 2, 2, 2, 2, 2, 2, 2, 2, 2, 2, 2, 2,     // 13..=128
    2, 2, 2, 2, 2, 2, 2, 2, 2, 2, 2, 2, 2, 2, 2, 2,
    2, 2, 2, 2, 2, 2, 2, 2, 2, 2, 2, 2, 2, 2, 2, 2,
    2, 2, 2, 2, 2, 2, 2, 2, 2, 2, 2, 2, 2, 2, 2, 2,
    2, 2, 2, 2, 2, 2, 2, 2, 2, 2, 2, 2, 2, 2, 2, 2,
    2, 2, 2, 2, 2, 2, 2, 2, 2, 2, 2, 2, 2, 2, 2, 2,
    2, 2, 2, 2, 2, 2, 2, 2, 2, 2, 2, 2, 2, 2, 2, 2,
    2, 2, 2, 2,
    0,                                                  // 129 is invalid
    3, 3, 3, 3, 3, 3, 3, 3, 3, 3, 3, 3, 3, 3, 3, 3,     // 130..=260
    3, 3, 3, 3, 3, 3, 3, 3, 3, 3, 3, 3, 3, 3, 3, 3,
    3, 3, 3, 3, 3, 3, 3, 3, 3, 3, 3, 3, 3, 3, 3, 3,
    3, 3, 3, 3, 3, 3, 3, 3, 3, 3, 3, 3, 3, 3, 3, 3,
    3, 3, 3, 3, 3, 3, 3, 3, 3, 3, 3, 3, 3, 3, 3, 3,
    3, 3, 3, 3, 3, 3, 3, 3, 3, 3, 3, 3, 3, 3, 3, 3,
    3, 3, 3, 3, 3, 3, 3, 3, 3, 3, 3, 3, 3, 3, 3, 3,
    3, 3, 3, 3, 3, 3, 3, 3, 3, 3, 3, 3, 3, 3, 3, 3,
    3, 3, 3,
    
];

#[test]
fn ffa_can_get_block_count_from_payload_size() {
    for payload_size in 0..=FFA_MAX_PAYLOAD_SIZE {
        let expected = FFA_EXPECTED_PAYLOAD_BLOCK_COUNT[payload_size];
        if expected == 0 {
            assert!(FrameFormatA::block_count_from_payload_size(payload_size).is_err());
        } else {
            assert_eq!(expected, FrameFormatA::block_count_from_payload_size(payload_size).unwrap());
        }
    }

    assert!(FrameFormatA::block_count_from_payload_size(FFA_MAX_PAYLOAD_SIZE + 1).is_err());
}

#[test]
fn ffa_can_get_block_count_from_frame_size() {
    for frame_size in 0..=FFA_MAX_FRAME_SIZE {
        let expected = FFA_EXPECTED_FRAME_BLOCK_COUNT[frame_size];
        println!("frame_size {:?}, expected block count {:?}", frame_size, expected);
        if expected == 0 {
            assert!(FrameFormatA::block_count_from_frame_size(frame_size).is_err());
        } else {
            assert_eq!(expected, FrameFormatA::block_count_from_frame_size(frame_size).unwrap());
        }
    }

    assert!(FrameFormatA::block_count_from_frame_size(FFA_MAX_FRAME_SIZE + 1).is_err());
}

#[test]
fn ffa_frame_block_iter() {
    let frame = [1, 2, 3, 4, 5, 6, 7, 8, 9, 10, 0, 0, 11, 0, 0];
    let mut iter = FrameFormatA::frame_block_iter(&frame);
    assert_eq!(Some([1, 2, 3, 4, 5, 6, 7, 8, 9, 10, 0, 0].as_ref()), iter.next());
    assert_eq!(Some([11, 0, 0].as_ref()), iter.next());
    assert_eq!(None, iter.next());
}

#[test]
fn ffb_can_get_block_count_from_payload_size() {
    for payload_size in 0..=FFB_MAX_PAYLOAD_SIZE {
        let expected = FFB_EXPECTED_PAYLOAD_BLOCK_COUNT[payload_size];
        if expected == 0 {
            assert!(FrameFormatB::block_count_from_payload_size(payload_size).is_err());
        } else {
            assert_eq!(expected, FrameFormatB::block_count_from_payload_size(payload_size).unwrap());
        }
    }

    assert!(FrameFormatB::block_count_from_payload_size(FFB_MAX_PAYLOAD_SIZE + 1).is_err());
}

#[test]
fn ffb_can_get_block_count_from_frame_size() {
    for frame_size in 0..=FFB_MAX_FRAME_SIZE {
        let expected = FFB_EXPECTED_FRAME_BLOCK_COUNT[frame_size];
        println!("frame_size {:?}, expected block count {:?}", frame_size, expected);
        if expected == 0 {
            assert!(FrameFormatB::block_count_from_frame_size(frame_size).is_err());
        } else {
            assert_eq!(expected, FrameFormatB::block_count_from_frame_size(frame_size).unwrap());
        }
    }

    assert!(FrameFormatB::block_count_from_frame_size(FFB_MAX_FRAME_SIZE + 1).is_err());
}

#[test]
fn ffb_frame_block_iter() {
    let frame = [1, 2, 3, 4, 5, 6, 7, 8, 9, 10, 11, 0, 0];
    let mut iter = FrameFormatB::frame_block_iter(&frame);
    assert_eq!(Some([1, 2, 3, 4, 5, 6, 7, 8, 9, 10].as_ref()), iter.next());
    assert_eq!(Some([11, 0, 0].as_ref()), iter.next());
    assert_eq!(None, iter.next());
}

#[test]
fn ffa_block_layout() {
    assert!(FrameFormatA::block_has_crc(0));
    assert!(FrameFormatA::block_has_crc(16));
    assert_eq!(10, FrameFormatA::block_max_payload_size(0));
    assert_eq!(16, FrameFormatA::block_max_payload_size(1));
    assert_eq!(16, FrameFormatA::block_max_payload_size(15));
    assert_eq!(6, FrameFormatA::block_max_payload_size(16));
    assert_eq!(12, FrameFormatA::block_max_frame_size(0));
    assert_eq!(18, FrameFormatA::block_max_frame_size(5));
    assert_eq!(8, FrameFormatA::block_max_frame_size(16));
}

#[test]
fn ffb_block_layout() {
    assert!(!FrameFormatB::block_has_crc(0));
    assert!(FrameFormatB::block_has_crc(1));
    assert!(FrameFormatB::block_has_crc(2));
    assert_eq!(10, FrameFormatB::block_max_frame_size(0));
    assert_eq!(118, FrameFormatB::block_max_frame_size(1));
    assert_eq!(132, FrameFormatB::block_max_frame_size(2));
}

#[test]
fn block_count_edges() {
    assert_eq!(Err(Error::InvalidFrameLength), FrameFormatA::block_count_from_payload_size(10));
    assert_eq!(Ok(2), FrameFormatA::block_count_from_payload_size(26));
    assert_eq!(Ok(3), FrameFormatA::block_count_from_payload_size(27));
    assert_eq!(Ok(17), FrameFormatA::block_count_from_payload_size(256));
    assert_eq!(Ok(17), FrameFormatA::block_count_from_frame_size(290));
    assert_eq!(Err(Error::InvalidFrameLength), FrameFormatA::block_count_from_frame_size(31));
    assert_eq!(Ok(2), FrameFormatB::block_count_from_payload_size(126));
    assert_eq!(Ok(3), FrameFormatB::block_count_from_payload_size(127));
    assert_eq!(Ok(2), FrameFormatB::block_count_from_frame_size(128));
    assert_eq!(Err(Error::InvalidFrameLength), FrameFormatB::block_count_from_frame_size(129));
    assert_eq!(Ok(3), FrameFormatB::block_count_from_frame_size(130));
    assert_eq!(Ok(3), FrameFormatB::block_count_from_frame_size(260));
    assert_eq!(Err(Error::InvalidFrameLength), FrameFormatB::block_count_from_frame_size(261));
}

#[test]
fn ffa_three_block_iter() {
    let frame = [0u8; 33];
    let mut iter = FrameFormatA::frame_block_iter(&frame);
    assert_eq!(12, iter.next().unwrap().len());
    assert_eq!(18, iter.next().unwrap().len());
    assert_eq!(3, iter.next().unwrap().len());
    assert_eq!(None, iter.next());
}
