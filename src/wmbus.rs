use vstd::prelude::*;
use vstd::slice::{slice_subrange, slice_to_vec};

use crate::error::Error;
use crate::ffa::FrameFormatA;
use crate::ffb::FrameFormatB;
use crate::frameformat::{block_offset, block_start, frame_block, FrameBlockIterator, FrameFormat};
use crate::mbusaddress::{
    address_from, address_valid, le_u16, le_u32, read_le_u16, read_le_u32, MBusAddress,
};

verus! {

/// The CRC-16/EN-13757 of `bytes` (width 16, polynomial 0x3D65, initial value
/// 0, no reflection, output XOR 0xFFFF).
pub uninterp spec fn crc_en13757(bytes: Seq<u8>) -> u16;

/// Relies on crc's `Crc::<u16>::checksum` with the catalogue algorithm
/// `CRC_16_EN_13757`: the checksum of `bytes`, which depends on them alone.
#[verifier::external_body]
fn checksum_en13757(bytes: &[u8]) -> (r: u16)
    ensures
        r == crc_en13757(bytes@),
{
    crc::Crc::<u16>::new(&crc::CRC_16_EN_13757).checksum(bytes)
}

/// The big-endian CRC trailer in the last two bytes of `block`.
pub open spec fn crc_trailer(block: Seq<u8>) -> int {
    block[block.len() - 2] * 0x100 + block[block.len() - 1]
}

/// The payload gathered from the first `n` blocks of `frame`, with the bytes
/// fed to the CRC since the last checked block; or the error at the first
/// block that fails. A block with a CRC gives up its payload once the CRC of
/// the pending bytes and that payload equals its trailer; a block without one
/// gives all its bytes to both.
pub open spec fn scan_blocks<FF: FrameFormat>(frame: Seq<u8>, n: nat) -> Result<
    (Seq<u8>, Seq<u8>),
    Error,
>
    decreases n,
{
    if n == 0 {
        Ok((Seq::empty(), Seq::empty()))
    } else {
        match scan_blocks::<FF>(frame, (n - 1) as nat) {
            Err(e) => Err(e),
            Ok((payload, pending)) => {
                let block = frame_block::<FF>(frame, (n - 1) as nat);
                if FF::spec_block_has_crc(n - 1) {
                    if block.len() < 2 {
                        Err(Error::InvalidFrameLength)
                    } else {
                        let body = block.subrange(0, block.len() - 2);
                        if crc_en13757(pending + body) != crc_trailer(block) {
                            Err(Error::BadCrc)
                        } else {
                            Ok((payload + body, Seq::empty()))
                        }
                    }
                } else {
                    Ok((payload + block, pending + block))
                }
            },
        }
    }
}

/// Once a block fails, every longer scan fails the same way.
proof fn lemma_scan_error_sticks<FF: FrameFormat>(frame: Seq<u8>, n: nat, m: nat)
    requires
        n <= m,
        scan_blocks::<FF>(frame, n) is Err,
    ensures
        scan_blocks::<FF>(frame, m) == scan_blocks::<FF>(frame, n),
    decreases m - n,
{
    if n < m {
        lemma_scan_error_sticks::<FF>(frame, n, (m - 1) as nat);
    }
}

/// Blocks start no earlier than the blocks before them.
proof fn lemma_block_start_increases<FF: FrameFormat>(a: nat, b: nat)
    requires
        a <= b,
    ensures
        block_start::<FF>(a) <= block_start::<FF>(b),
    decreases b - a,
{
    if a < b {
        lemma_block_start_increases::<FF>(a, (b - 1) as nat);
    }
}

/// Two frames whose first `n` blocks agree scan those blocks alike.
proof fn lemma_scan_same_blocks<FF: FrameFormat>(f: Seq<u8>, g: Seq<u8>, n: nat)
    requires
        forall|j: nat| j < n ==> frame_block::<FF>(f, j) == frame_block::<FF>(g, j),
    ensures
        scan_blocks::<FF>(f, n) == scan_blocks::<FF>(g, n),
    decreases n,
{
    if n > 0 {
        lemma_scan_same_blocks::<FF>(f, g, (n - 1) as nat);
    }
}

/// In a frame that passes its CRC checks, changing a byte of the CRC trailer
/// of any block that has one makes the frame fail with `BadCrc`.
pub proof fn lemma_changed_trailer_fails_crc<FF: FrameFormat>(frame: Seq<u8>, i: nat, p: int, v: u8)
    requires
        frame_payload::<FF>(frame) is Ok,
        i < FF::spec_block_count_from_frame_size(frame.len() as int)->Some_0,
        FF::spec_block_has_crc(i as int),
        block_offset::<FF>(frame.len(), i + 1) - 2 <= p < block_offset::<FF>(frame.len(), i + 1),
        v != frame[p],
    ensures
        frame_payload::<FF>(frame.update(p, v)) == Err::<Seq<u8>, Error>(Error::BadCrc),
{
    let g = frame.update(p, v);
    let count = FF::spec_block_count_from_frame_size(frame.len() as int)->Some_0;
    let len = frame.len();
    if scan_blocks::<FF>(frame, i + 1) is Err {
        lemma_scan_error_sticks::<FF>(frame, i + 1, count);
    }
    lemma_block_start_increases::<FF>(i, i + 1);
    let start = block_offset::<FF>(len, i);
    let end = block_offset::<FF>(len, i + 1);
    assert(end - start >= 2);
    assert forall|j: nat| j < i implies frame_block::<FF>(frame, j) == frame_block::<FF>(g, j) by {
        lemma_block_start_increases::<FF>(j, j + 1);
        lemma_block_start_increases::<FF>(j + 1, i);
        assert(frame_block::<FF>(frame, j) =~= frame_block::<FF>(g, j));
    }
    lemma_scan_same_blocks::<FF>(frame, g, i);
    let block = frame_block::<FF>(frame, i);
    let changed = frame_block::<FF>(g, i);
    assert(changed.subrange(0, changed.len() - 2) =~= block.subrange(0, block.len() - 2));
    assert(changed[changed.len() - 2] != block[block.len() - 2] || changed[changed.len() - 1]
        != block[block.len() - 1]);
    assert(crc_trailer(changed) != crc_trailer(block));
    lemma_scan_error_sticks::<FF>(g, i + 1, count);
}

/// The payload of a frame, its CRCs checked and removed.
pub open spec fn frame_payload<FF: FrameFormat>(frame: Seq<u8>) -> Result<Seq<u8>, Error> {
    match FF::spec_block_count_from_frame_size(frame.len() as int) {
        None => Err(Error::InvalidFrameLength),
        Some(count) => match scan_blocks::<FF>(frame, count) {
            Ok((payload, _)) => Ok(payload),
            Err(e) => Err(e),
        },
    }
}

/// The size of the extended link layer at the start of `rest`, its first
/// byte included; zero where that byte names none.
pub open spec fn ell_size_of(rest: Seq<u8>) -> nat {
    if rest.len() == 0 {
        0
    } else if rest[0] == 0x8C {
        3
    } else if rest[0] == 0x8D {
        9
    } else if rest[0] == 0x8E {
        11
    } else if rest[0] == 0x8F {
        17
    } else {
        0
    }
}

/// What is wrong with the extended link layer at the start of `rest`, if
/// anything: too few bytes, or a destination address that is no valid BCD.
pub open spec fn ell_error(rest: Seq<u8>) -> Option<Error> {
    if rest.len() < ell_size_of(rest) {
        Some(Error::Truncated)
    } else if ell_size_of(rest) >= 11 && !address_valid(rest.subrange(3, 11)) {
        Some(Error::InvalidBcd)
    } else {
        None
    }
}

/// Whether `e` holds the fields of the extended link layer at the start of
/// `rest`.
pub open spec fn ell_from(e: ExtendedLinkLayer, rest: Seq<u8>) -> bool {
    match e {
        ExtendedLinkLayer::Short { cc, acc } => rest[0] == 0x8C && cc == rest[1] && acc == rest[2],
        ExtendedLinkLayer::Long { cc, acc, sn, payload_crc } => {
            &&& rest[0] == 0x8D
            &&& cc == rest[1]
            &&& acc == rest[2]
            &&& sn == le_u32(rest, 3)
            &&& payload_crc == le_u16(rest, 7)
        },
        ExtendedLinkLayer::ShortDest { cc, acc, dest } => {
            &&& rest[0] == 0x8E
            &&& cc == rest[1]
            &&& acc == rest[2]
            &&& address_from(dest, rest.subrange(3, 11))
        },
        ExtendedLinkLayer::LongDest { cc, acc, dest, sn, payload_crc } => {
            &&& rest[0] == 0x8F
            &&& cc == rest[1]
            &&& acc == rest[2]
            &&& address_from(dest, rest.subrange(3, 11))
            &&& sn == le_u32(rest, 11)
            &&& payload_crc == le_u16(rest, 15)
        },
    }
}

/// What is wrong with a frame's payload, if anything: a link layer cut
/// short, an invalid address, an extended link layer in error, or no room
/// left for the CI byte.
pub open spec fn payload_error(payload: Seq<u8>) -> Option<Error> {
    if payload.len() < 10 {
        Some(Error::Truncated)
    } else if !address_valid(payload.subrange(2, 10)) {
        Some(Error::InvalidBcd)
    } else {
        let rest = payload.subrange(10, payload.len() as int);
        match ell_error(rest) {
            Some(e) => Some(e),
            None => if rest.len() < ell_size_of(rest) + 1 {
                Some(Error::Truncated)
            } else {
                None
            },
        }
    }
}

/// Why a frame does not parse, if it does not.
pub open spec fn parse_error<FF: FrameFormat>(frame: Seq<u8>) -> Option<Error> {
    match frame_payload::<FF>(frame) {
        Err(e) => Some(e),
        Ok(payload) => payload_error(payload),
    }
}

/// Whether `p` holds the layers of `payload`: the link layer in its first ten
/// bytes, then the extended link layer if one is named, then the CI byte and
/// the application data up to the end.
pub open spec fn packet_from(p: WMBusPacket, payload: Seq<u8>) -> bool {
    let rest = payload.subrange(10, payload.len() as int);
    let offset = ell_size_of(rest) as int;
    &&& p.link_layer.length == Some(payload[0])
    &&& p.link_layer.control == payload[1]
    &&& address_from(p.link_layer.address, payload.subrange(2, 10))
    &&& if offset == 0 {
        p.ext_link_layer is None
    } else {
        p.ext_link_layer is Some && ell_from(p.ext_link_layer->Some_0, rest)
    }
    &&& p.application_layer.ci == rest[offset]
    &&& p.application_layer.data@ == rest.subrange(offset + 1, rest.len() as int)
}

/// A parsed telegram.
pub struct WMBusPacket {
    pub link_layer: LinkLayer,
    pub ext_link_layer: Option<ExtendedLinkLayer>,
    pub application_layer: ApplicationLayer,
}

/// The link layer: L-field, C-field and the sender's address.
pub struct LinkLayer {
    pub length: Option<u8>,
    pub control: u8,
    pub address: MBusAddress,
}

/// The extended link layer, in one of its four shapes.
#[derive(Clone, Copy, Debug, PartialEq, Eq)]
pub enum ExtendedLinkLayer {
    Short { cc: u8, acc: u8 },
    Long { cc: u8, acc: u8, sn: u32, payload_crc: u16 },
    ShortDest { cc: u8, acc: u8, dest: MBusAddress },
    LongDest { cc: u8, acc: u8, dest: MBusAddress, sn: u32, payload_crc: u16 },
}

/// The application layer: the CI byte and the data after it.
pub struct ApplicationLayer {
    pub ci: u8,
    pub data: Vec<u8>,
}

/// The 8-byte identifier at `at` in `b`.
fn identifier_at(b: &[u8], at: usize) -> (r: [u8; 8])
    requires
        at + 8 <= b@.len(),
    ensures
        r@ == b@.subrange(at as int, at + 8),
{
    let r = [b[at], b[at + 1], b[at + 2], b[at + 3], b[at + 4], b[at + 5], b[at + 6], b[at + 7]];
    assert(r@ =~= b@.subrange(at as int, at + 8));
    r
}

/// Appends the bytes of `s` to `v`.
fn append(v: &mut Vec<u8>, s: &[u8])
    ensures
        final(v)@ == old(v)@ + s@,
{
    let mut i: usize = 0;
    while i < s.len()
        invariant
            i <= s@.len(),
            v@ == old(v)@ + s@.take(i as int),
        decreases s@.len() - i,
    {
        v.push(s[i]);
        assert(s@.take(i + 1) =~= s@.take(i as int).push(s@[i as int]));
        i = i + 1;
    }
    assert(s@.take(s@.len() as int) =~= s@);
}

impl ExtendedLinkLayer {
    /// Its size on the wire, its first byte included.
    pub open spec fn spec_size(self) -> nat {
        match self {
            ExtendedLinkLayer::Short { .. } => 3,
            ExtendedLinkLayer::Long { .. } => 9,
            ExtendedLinkLayer::ShortDest { .. } => 11,
            ExtendedLinkLayer::LongDest { .. } => 17,
        }
    }

    /// Reads the extended link layer at the start of `rest`; `None` where its
    /// first byte names none.
    pub fn parse(rest: &[u8]) -> (r: Result<Option<ExtendedLinkLayer>, Error>)
        ensures
            match r {
                Ok(None) => ell_size_of(rest@) == 0,
                Ok(Some(e)) => {
                    &&& ell_size_of(rest@) > 0
                    &&& ell_error(rest@) is None
                    &&& ell_from(e, rest@)
                    &&& e.spec_size() == ell_size_of(rest@)
                },
                Err(e) => ell_error(rest@) == Some(e),
            },
    {
        if rest.len() == 0 {
            return Ok(None);
        }
        let kind = rest[0];
        let size: usize = if kind == 0x8C {
            3
        } else if kind == 0x8D {
            9
        } else if kind == 0x8E {
            11
        } else if kind == 0x8F {
            17
        } else {
            return Ok(None);
        };
        if rest.len() < size {
            return Err(Error::Truncated);
        }
        let cc = rest[1];
        let acc = rest[2];
        if kind == 0x8C {
            Ok(Some(ExtendedLinkLayer::Short { cc, acc }))
        } else if kind == 0x8D {
            Ok(
                Some(
                    ExtendedLinkLayer::Long {
                        cc,
                        acc,
                        sn: read_le_u32(rest, 3),
                        payload_crc: read_le_u16(rest, 7),
                    },
                ),
            )
        } else {
            let dest = match MBusAddress::parse(identifier_at(rest, 3)) {
                Ok(a) => a,
                Err(e) => {
                    return Err(e);
                },
            };
            if kind == 0x8E {
                Ok(Some(ExtendedLinkLayer::ShortDest { cc, acc, dest }))
            } else {
                Ok(
                    Some(
                        ExtendedLinkLayer::LongDest {
                            cc,
                            acc,
                            dest,
                            sn: read_le_u32(rest, 11),
                            payload_crc: read_le_u16(rest, 15),
                        },
                    ),
                )
            }
        }
    }

    /// Its size on the wire, its first byte included.
    pub fn size(&self) -> (r: usize)
        ensures
            r == self.spec_size(),
    {
        match *self {
            ExtendedLinkLayer::Short { .. } => 1 + 2,
            ExtendedLinkLayer::Long { .. } => 1 + 8,
            ExtendedLinkLayer::ShortDest { .. } => 1 + 10,
            ExtendedLinkLayer::LongDest { .. } => 1 + 16,
        }
    }
}

impl WMBusPacket {
    /// Parses a frame in format A.
    pub fn parse_ffa(frame_bytes: &[u8]) -> (r: Result<WMBusPacket, Error>)
        ensures
            match r {
                Ok(p) => parse_error::<FrameFormatA>(frame_bytes@) is None && packet_from(
                    p,
                    frame_payload::<FrameFormatA>(frame_bytes@)->Ok_0,
                ),
                Err(e) => parse_error::<FrameFormatA>(frame_bytes@) == Some(e),
            },
    {
        Self::parse(FrameFormatA, frame_bytes)
    }

    /// Parses a frame in format B.
    pub fn parse_ffb(frame_bytes: &[u8]) -> (r: Result<WMBusPacket, Error>)
        ensures
            match r {
                Ok(p) => parse_error::<FrameFormatB>(frame_bytes@) is None && packet_from(
                    p,
                    frame_payload::<FrameFormatB>(frame_bytes@)->Ok_0,
                ),
                Err(e) => parse_error::<FrameFormatB>(frame_bytes@) == Some(e),
            },
    {
        Self::parse(FrameFormatB, frame_bytes)
    }

    /// Parses a frame laid out in `FF`: checks the CRC of each block, joins
    /// the payloads, and reads the link layer, the extended link layer if any,
    /// and the application layer.
    pub fn parse<FF: FrameFormat>(_frame_format: FF, frame_bytes: &[u8]) -> (r: Result<
        WMBusPacket,
        Error,
    >)
        ensures
            match r {
                Ok(p) => parse_error::<FF>(frame_bytes@) is None && packet_from(
                    p,
                    frame_payload::<FF>(frame_bytes@)->Ok_0,
                ),
                Err(e) => parse_error::<FF>(frame_bytes@) == Some(e),
            },
    {
        let block_count = match FF::block_count_from_frame_size(frame_bytes.len()) {
            Ok(c) => c,
            Err(e) => {
                return Err(e);
            },
        };
        let mut blocks: FrameBlockIterator<FF> = FrameBlockIterator::new(frame_bytes);
        let mut payload: Vec<u8> = Vec::new();
        let mut pending: Vec<u8> = Vec::new();
        let mut index: usize = 0;
        while index < block_count
            invariant
                blocks.frame() == frame_bytes@,
                blocks.count() == block_count,
                FF::spec_block_count_from_frame_size(frame_bytes@.len() as int) == Some(
                    block_count as nat,
                ),
                blocks.index() == index,
                index <= block_count,
                scan_blocks::<FF>(frame_bytes@, index as nat) == Ok::<(Seq<u8>, Seq<u8>), Error>(
                    (payload@, pending@),
                ),
            decreases block_count - index,
        {
            let block = blocks.next().unwrap();
            if FF::block_has_crc(index) {
                if block.len() < 2 {
                    proof {
                        lemma_scan_error_sticks::<FF>(frame_bytes@, (index + 1) as nat, block_count as nat);
                    }
                    return Err(Error::InvalidFrameLength);
                }
                let body = slice_subrange(block, 0, block.len() - 2);
                append(&mut pending, body);
                let actual = checksum_en13757(pending.as_slice());
                let expected = block[block.len() - 2] as u16 * 0x100 + block[block.len() - 1] as u16;
                if actual != expected {
                    proof {
                        lemma_scan_error_sticks::<FF>(frame_bytes@, (index + 1) as nat, block_count as nat);
                    }
                    return Err(Error::BadCrc);
                }
                append(&mut payload, body);
                pending = Vec::new();
            } else {
                append(&mut payload, block);
                append(&mut pending, block);
            }
            index = index + 1;
        }
        let payload = payload.as_slice();
        if payload.len() < 10 {
            return Err(Error::Truncated);
        }
        let address = match MBusAddress::parse(identifier_at(payload, 2)) {
            Ok(a) => a,
            Err(e) => {
                return Err(e);
            },
        };
        let link_layer = LinkLayer { length: Some(payload[0]), control: payload[1], address };
        let rest = slice_subrange(payload, 10, payload.len());
        let ell = match ExtendedLinkLayer::parse(rest) {
            Ok(ell) => ell,
            Err(e) => {
                return Err(e);
            },
        };
        let ell_size = match &ell {
            Some(e) => e.size(),
            None => 0,
        };
        if rest.len() < ell_size + 1 {
            return Err(Error::Truncated);
        }
        let application_layer = ApplicationLayer {
            ci: rest[ell_size],
            data: slice_to_vec(slice_subrange(rest, ell_size + 1, rest.len())),
        };
        Ok(WMBusPacket { link_layer, ext_link_layer: ell, application_layer })
    }
}

} // verus!
