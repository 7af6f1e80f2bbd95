use vstd::prelude::*;

use crate::error::Error;
use crate::frameformat::{FrameBlockIterator, FrameFormat};

verus! {

/// The number of blocks of a format B frame.
pub const FFB_BLOCKS: usize = 3;

/// The payload bytes of block `i` of a format B frame.
pub open spec fn ffb_payload_size(i: int) -> nat {
    if i == 0 {
        10
    } else if i == 1 {
        116
    } else if i == 2 {
        130
    } else {
        0
    }
}

/// Format B: the first block has no CRC of its own; the CRC of the second
/// covers both, and the optional third block has its own.
pub struct FrameFormatB;

impl FrameFormat for FrameFormatB {
    open spec fn spec_block_limit() -> nat {
        FFB_BLOCKS as nat
    }

    open spec fn spec_block_has_crc(i: int) -> bool {
        i > 0
    }

    open spec fn spec_block_payload_size(i: int) -> nat {
        ffb_payload_size(i)
    }

    open spec fn spec_block_count_from_payload_size(p: int) -> Option<nat> {
        if 11 <= p <= 126 {
            Some(2)
        } else if 127 <= p <= 256 {
            Some(3)
        } else {
            None
        }
    }

    open spec fn spec_block_count_from_frame_size(f: int) -> Option<nat> {
        if 13 <= f <= 128 {
            Some(2)
        } else if 130 <= f <= 260 {
            Some(3)
        } else {
            None
        }
    }

    fn block_has_crc(block_index: usize) -> (r: bool) {
        block_index > 0
    }

    fn block_max_payload_size(block_index: usize) -> (r: usize) {
        if block_index == 0 {
            10
        } else if block_index == 1 {
            116
        } else {
            130
        }
    }

    fn block_count_from_payload_size(payload_size: usize) -> (r: Result<usize, Error>) {
        if payload_size >= 11 && payload_size <= 256 {
            if payload_size <= Self::block_max_payload_size(0) + Self::block_max_payload_size(1) {
                Ok(2)
            } else {
                Ok(3)
            }
        } else {
            Err(Error::InvalidFrameLength)
        }
    }

    fn block_count_from_frame_size(frame_size: usize) -> (r: Result<usize, Error>) {
        let two_blocks = Self::block_max_payload_size(0) + Self::block_max_payload_size(1) + 2;
        if frame_size >= 13 && frame_size <= 260 {
            if frame_size <= two_blocks {
                Ok(2)
            } else if frame_size >= two_blocks + 2 {
                Ok(3)
            } else {
                Err(Error::InvalidFrameLength)
            }
        } else {
            Err(Error::InvalidFrameLength)
        }
    }
}

impl FrameFormatB {
    /// The blocks of a format B frame, in order, each with its CRC trailer
    /// where it has one.
    pub fn frame_block_iter<'a>(frame_bytes: &'a [u8]) -> (r: FrameBlockIterator<'a, Self>)
        requires
            Self::spec_block_count_from_frame_size(frame_bytes@.len() as int) is Some,
        ensures
            r.frame() == frame_bytes@,
            r.count() == Self::spec_block_count_from_frame_size(frame_bytes@.len() as int)->Some_0,
            r.index() == 0,
    {
        FrameBlockIterator::new(frame_bytes)
    }
}

} // verus!
