use std::marker::PhantomData;
use vstd::prelude::*;

use crate::error::Error;

verus! {

/// A block layout of wM-Bus frames: which blocks end in a two-byte CRC, how
/// many payload bytes each block holds, and which frame and payload sizes are
/// valid.
pub trait FrameFormat: Sized {
    /// The number of blocks that the layout describes.
    spec fn spec_block_limit() -> nat;

    /// Whether block `i` ends in a two-byte CRC.
    spec fn spec_block_has_crc(i: int) -> bool;

    /// The most payload bytes that block `i` holds, its CRC not counted.
    spec fn spec_block_payload_size(i: int) -> nat;

    /// The number of blocks of a frame with `p` payload bytes, where `p` is a
    /// valid payload size.
    spec fn spec_block_count_from_payload_size(p: int) -> Option<nat>;

    /// The number of blocks of a frame of `f` bytes, where `f` is a valid
    /// frame size.
    spec fn spec_block_count_from_frame_size(f: int) -> Option<nat>;

    /// Whether block `block_index` ends in a two-byte CRC.
    fn block_has_crc(block_index: usize) -> (r: bool)
        ensures
            r == Self::spec_block_has_crc(block_index as int),
    ;

    /// The most payload bytes that block `block_index` holds; small enough
    /// that its CRC trailer can be added.
    fn block_max_payload_size(block_index: usize) -> (r: usize)
        requires
            block_index < Self::spec_block_limit(),
        ensures
            r == Self::spec_block_payload_size(block_index as int),
            r < usize::MAX - 1,
    ;

    /// The most bytes that block `block_index` takes in a frame, its CRC
    /// included.
    fn block_max_frame_size(block_index: usize) -> (r: usize)
        requires
            block_index < Self::spec_block_limit(),
        ensures
            r == Self::spec_block_payload_size(block_index as int) + if Self::spec_block_has_crc(
                block_index as int,
            ) {
                2int
            } else {
                0int
            },
    {
        if Self::block_has_crc(block_index) {
            Self::block_max_payload_size(block_index) + 2
        } else {
            Self::block_max_payload_size(block_index)
        }
    }

    /// The number of blocks of a frame that carries `payload_size` payload
    /// bytes.
    fn block_count_from_payload_size(payload_size: usize) -> (r: Result<usize, Error>)
        ensures
            match r {
                Ok(c) => Self::spec_block_count_from_payload_size(payload_size as int) == Some(
                    c as nat,
                ),
                Err(e) => Self::spec_block_count_from_payload_size(payload_size as int) is None
                    && e == Error::InvalidFrameLength,
            },
    ;

    /// The number of blocks of a frame of `frame_size` bytes.
    fn block_count_from_frame_size(frame_size: usize) -> (r: Result<usize, Error>)
        ensures
            match r {
                Ok(c) => Self::spec_block_count_from_frame_size(frame_size as int) == Some(
                    c as nat,
                ) && 1 <= c <= Self::spec_block_limit(),
                Err(e) => Self::spec_block_count_from_frame_size(frame_size as int) is None
                    && e == Error::InvalidFrameLength,
            },
    ;
}

/// The most bytes that block `i` takes in a frame, its CRC included.
pub open spec fn block_frame_size<FF: FrameFormat>(i: int) -> nat {
    FF::spec_block_payload_size(i) + if FF::spec_block_has_crc(i) {
        2nat
    } else {
        0nat
    }
}

/// Where block `i` starts in a frame in which every block before it is full.
pub open spec fn block_start<FF: FrameFormat>(i: nat) -> nat
    decreases i,
{
    if i == 0 {
        0
    } else {
        block_start::<FF>((i - 1) as nat) + block_frame_size::<FF>(i - 1)
    }
}

/// Where block `i` starts in a frame of `len` bytes: its full-frame start, or
/// the frame's end where the frame is shorter.
pub open spec fn block_offset<FF: FrameFormat>(len: nat, i: nat) -> nat {
    if block_start::<FF>(i) < len {
        block_start::<FF>(i)
    } else {
        len
    }
}

/// Block `i` of `frame`, CRC trailer included; the last block may be short.
pub open spec fn frame_block<FF: FrameFormat>(frame: Seq<u8>, i: nat) -> Seq<u8> {
    frame.subrange(
        block_offset::<FF>(frame.len(), i) as int,
        block_offset::<FF>(frame.len(), i + 1) as int,
    )
}

/// Walks the blocks of a frame, one at a time.
pub struct FrameBlockIterator<'a, FF: FrameFormat> {
    frame_bytes: &'a [u8],
    block_count: usize,
    block_index: usize,
    offset: usize,
    frame_format: PhantomData<FF>,
}

impl<'a, FF: FrameFormat> FrameBlockIterator<'a, FF> {
    #[verifier::type_invariant]
    spec fn inv(&self) -> bool {
        &&& self.block_count <= FF::spec_block_limit()
        &&& self.block_index <= self.block_count
        &&& self.offset == block_offset::<FF>(self.frame_bytes@.len(), self.block_index as nat)
    }

    /// The frame whose blocks are walked.
    pub closed spec fn frame(&self) -> Seq<u8> {
        self.frame_bytes@
    }

    /// The number of blocks of the frame.
    pub closed spec fn count(&self) -> nat {
        self.block_count as nat
    }

    /// The index of the block that comes next.
    pub closed spec fn index(&self) -> nat {
        self.block_index as nat
    }

    /// Starts at the first block of `frame_bytes`.
    pub fn new(frame_bytes: &'a [u8]) -> (r: Self)
        requires
            FF::spec_block_count_from_frame_size(frame_bytes@.len() as int) is Some,
        ensures
            r.frame() == frame_bytes@,
            r.count() == FF::spec_block_count_from_frame_size(frame_bytes@.len() as int)->Some_0,
            r.index() == 0,
    {
        let block_count = FF::block_count_from_frame_size(frame_bytes.len()).unwrap();
        FrameBlockIterator {
            frame_bytes,
            block_count,
            block_index: 0,
            offset: 0,
            frame_format: PhantomData,
        }
    }

    /// The next block, or `None` once every block has been handed out.
    pub fn next(&mut self) -> (r: Option<&'a [u8]>)
        ensures
            final(self).frame() == old(self).frame(),
            final(self).count() == old(self).count(),
            old(self).index() < old(self).count() ==> {
                &&& r is Some
                &&& r->Some_0@ == frame_block::<FF>(old(self).frame(), old(self).index())
                &&& final(self).index() == old(self).index() + 1
            },
            old(self).index() >= old(self).count() ==> r is None && final(self).index()
                == old(self).index(),
    {
        proof {
            use_type_invariant(&*self);
        }
        if self.block_index == self.block_count {
            None
        } else {
            let max_block_size = FF::block_max_frame_size(self.block_index);
            let rest = self.frame_bytes.len() - self.offset;
            let block_size = if rest < max_block_size {
                rest
            } else {
                max_block_size
            };
            let start = self.offset;
            let result = Some(&self.frame_bytes[start..start + block_size]);
            assert(block_start::<FF>((self.block_index + 1) as nat) == block_start::<FF>(
                self.block_index as nat,
            ) + block_frame_size::<FF>(self.block_index as int));
            *self =
            FrameBlockIterator {
                frame_bytes: self.frame_bytes,
                block_count: self.block_count,
                block_index: self.block_index + 1,
                offset: start + block_size,
                frame_format: PhantomData,
            };
            result
        }
    }
}

} // verus!
