use vstd::prelude::*;

use crate::error::Error;
use crate::frameformat::{FrameBlockIterator, FrameFormat};

verus! {

/// The number of blocks of a format A frame.
pub const FFA_BLOCKS: usize = 17;

/// The payload bytes of block `i` of a format A frame: 10 in the first block,
/// 16 in each middle block, 6 in the last.
pub open spec fn ffa_payload_size(i: int) -> nat {
    if i == 0 {
        10
    } else if 0 < i < 16 {
        16
    } else if i == 16 {
        6
    } else {
        0
    }
}

/// Peels block payloads off `p` bytes, starting at block `i`, until one block
/// holds what is left; the number of the block reached, counted from one.
pub open spec fn ffa_payload_blocks(p: int, i: nat) -> nat
    decreases 16 - i,
{
    if i < 16 && p > ffa_payload_size(i as int) {
        ffa_payload_blocks(p - ffa_payload_size(i as int), i + 1)
    } else {
        i + 1
    }
}

/// Peels whole blocks, CRC included, off `f` frame bytes, starting at block
/// `i`; the number of the last block reached, counted from one, where it holds
/// more than its CRC.
pub open spec fn ffa_frame_blocks(f: int, i: nat) -> Option<nat>
    decreases 16 - i,
{
    if i < 16 && f > ffa_payload_size(i as int) + 2 {
        ffa_frame_blocks(f - ffa_payload_size(i as int) - 2, i + 1)
    } else if f > 2 {
        Some(i + 1)
    } else {
        None
    }
}

/// Format A: every block ends in a CRC.
pub struct FrameFormatA;

impl FrameFormat for FrameFormatA {
    open spec fn spec_block_limit() -> nat {
        FFA_BLOCKS as nat
    }

    open spec fn spec_block_has_crc(i: int) -> bool {
        true
    }

    open spec fn spec_block_payload_size(i: int) -> nat {
        ffa_payload_size(i)
    }

    open spec fn spec_block_count_from_payload_size(p: int) -> Option<nat> {
        if 11 <= p <= 256 {
            Some(ffa_payload_blocks(p, 0))
        } else {
            None
        }
    }

    open spec fn spec_block_count_from_frame_size(f: int) -> Option<nat> {
        if 15 <= f <= 290 {
            ffa_frame_blocks(f, 0)
        } else {
            None
        }
    }

    fn block_has_crc(_block_index: usize) -> (r: bool) {
        true
    }

    fn block_max_payload_size(block_index: usize) -> (r: usize) {
        if block_index == 0 {
            10
        } else if block_index < 16 {
            16
        } else {
            6
        }
    }

    fn block_count_from_payload_size(payload_size: usize) -> (r: Result<usize, Error>) {
        if payload_size >= 11 && payload_size <= 256 {
            let mut rest = payload_size;
            let mut index: usize = 0;
            loop
                invariant
                    index <= 16,
                    ffa_payload_blocks(rest as int, index as nat) == ffa_payload_blocks(
                        payload_size as int,
                        0,
                    ),
                ensures
                    index <= 16,
                    ffa_payload_blocks(payload_size as int, 0) == index + 1,
                decreases 16 - index,
            {
                if index == 16 {
                    break;
                }
                let size = Self::block_max_payload_size(index);
                if rest <= size {
                    break;
                }
                rest = rest - size;
                index = index + 1;
            }
            Ok(index + 1)
        } else {
            Err(Error::InvalidFrameLength)
        }
    }

    fn block_count_from_frame_size(frame_size: usize) -> (r: Result<usize, Error>) {
        if frame_size >= 15 && frame_size <= 290 {
            let mut rest = frame_size;
            let mut index: usize = 0;
            loop
                invariant
                    index <= 16,
                    ffa_frame_blocks(rest as int, index as nat) == ffa_frame_blocks(
                        frame_size as int,
                        0,
                    ),
                ensures
                    index <= 16,
                    ffa_frame_blocks(frame_size as int, 0) == if rest > 2 {
                        Some((index + 1) as nat)
                    } else {
                        None
                    },
                decreases 16 - index,
            {
                if index == 16 {
                    break;
                }
                let size = Self::block_max_payload_size(index) + 2;
                if rest <= size {
                    break;
                }
                rest = rest - size;
                index = index + 1;
            }
            if rest > 2 {
                Ok(index + 1)
            } else {
                Err(Error::InvalidFrameLength)
            }
        } else {
            Err(Error::InvalidFrameLength)
        }
    }
}

impl FrameFormatA {
    /// The blocks of a format A frame, in order, each with its CRC trailer.
    pub fn frame_block_iter<'a>(frame_bytes: &'a [u8]) -> (r: FrameBlockIterator<'a, Self>)
        requires
            Self::spec_block_count_from_frame_size(frame_bytes@.len() as int) is Some,
        ensures
            r.frame() == frame_bytes@,
            r.count() == Self::spec_block_count_from_frame_size(frame_bytes@.len() as int)->Some_0,
            r.index() == 0,
    {
        FrameBlockIterator::new(frame_bytes)
    }
}

} // verus!
