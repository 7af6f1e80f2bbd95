use bitvec::order::Msb0;
use bitvec::vec::BitVec;
use vstd::prelude::*;

use crate::error::Error;

verus! {

/// A sequence of bits of any length, as the 3-out-of-6 code produces it: its
/// length need not be a multiple of eight.
#[verifier::external_body]
pub struct BitSequence {
    bits: BitVec<u8, Msb0>,
}

/// The bits that a bit sequence holds, in order.
pub uninterp spec fn bits_of(v: BitSequence) -> Seq<bool>;

impl View for BitSequence {
    type V = Seq<bool>;

    open spec fn view(&self) -> Seq<bool> {
        bits_of(*self)
    }
}

/// Relies on bitvec's `BitVec::new`: a bit-vector that holds no bit.
#[verifier::external_body]
fn empty_bits() -> (r: BitSequence)
    ensures
        bits_of(r) == Seq::<bool>::empty(),
{
    BitSequence { bits: BitVec::new() }
}

/// Relies on bitvec's `BitVec::push`: appends one bit. It panics only where the
/// new length exceeds the largest that a bit-vector encodes, `usize::MAX >> 3`.
#[verifier::external_body]
fn push_bit(v: &mut BitSequence, bit: bool)
    requires
        bits_of(*old(v)).len() < usize::MAX / 8,
    ensures
        bits_of(*final(v)) == bits_of(*old(v)).push(bit),
{
    v.bits.push(bit)
}

/// Relies on bitvec's `BitVec::len`: the number of bits held.
#[verifier::external_body]
fn bit_len(v: &BitSequence) -> (r: usize)
    ensures
        r == bits_of(*v).len(),
{
    v.bits.len()
}

/// Relies on bitvec's indexing of a bit-slice by position: the bit at `i`.
#[verifier::external_body]
fn bit_at(v: &BitSequence, i: usize) -> (r: bool)
    requires
        i < bits_of(*v).len(),
    ensures
        r == bits_of(*v)[i as int],
{
    v.bits[i]
}

impl BitSequence {
    /// A sequence that holds no bit.
    pub fn new() -> (r: Self)
        ensures
            r@ == Seq::<bool>::empty(),
    {
        empty_bits()
    }

    /// Appends `bit`.
    pub fn push(&mut self, bit: bool)
        requires
            old(self)@.len() < usize::MAX / 8,
        ensures
            final(self)@ == old(self)@.push(bit),
    {
        push_bit(self, bit)
    }

    /// The number of bits.
    pub fn len(&self) -> (r: usize)
        ensures
            r == self@.len(),
    {
        bit_len(self)
    }

    /// The bit at position `i`.
    pub fn get(&self, i: usize) -> (r: bool)
        requires
            i < self@.len(),
        ensures
            r == self@[i as int],
    {
        bit_at(self, i)
    }

    /// The sequence that holds `bits`, in order.
    pub fn from_bools(bits: &[bool]) -> (r: Self)
        requires
            bits@.len() < usize::MAX / 8,
        ensures
            r@ == bits@,
    {
        let mut result = empty_bits();
        let mut i: usize = 0;
        while i < bits.len()
            invariant
                i <= bits@.len() < usize::MAX / 8,
                result@ == bits@.take(i as int),
            decreases bits@.len() - i,
        {
            push_bit(&mut result, bits[i]);
            assert(bits@.take(i + 1) =~= bits@.take(i as int).push(bits@[i as int]));
            i = i + 1;
        }
        assert(bits@.take(bits@.len() as int) =~= bits@);
        result
    }

    /// The bits, in order.
    pub fn to_bools(&self) -> (r: Vec<bool>)
        ensures
            r@ == self@,
    {
        let n = bit_len(self);
        let mut result: Vec<bool> = Vec::new();
        let mut i: usize = 0;
        while i < n
            invariant
                n == self@.len(),
                i <= n,
                result@ == self@.take(i as int),
            decreases n - i,
        {
            result.push(bit_at(self, i));
            assert(self@.take(i + 1) =~= self@.take(i as int).push(self@[i as int]));
            i = i + 1;
        }
        assert(self@.take(n as int) =~= self@);
        result
    }
}

/// The 6-bit symbol of nibble `n` (EN 13757-4, table 10); each has three
/// bits set and three clear.
pub open spec fn symbol_of(n: int) -> u8 {
    if n == 0x0 {
        22
    } else if n == 0x1 {
        13
    } else if n == 0x2 {
        14
    } else if n == 0x3 {
        11
    } else if n == 0x4 {
        28
    } else if n == 0x5 {
        25
    } else if n == 0x6 {
        26
    } else if n == 0x7 {
        19
    } else if n == 0x8 {
        44
    } else if n == 0x9 {
        37
    } else if n == 0xA {
        38
    } else if n == 0xB {
        35
    } else if n == 0xC {
        52
    } else if n == 0xD {
        49
    } else if n == 0xE {
        50
    } else {
        41
    }
}

/// The nibble whose symbol is `s`, if `s` is a symbol.
pub open spec fn nibble_of(s: int) -> Option<u8> {
    if exists|n: u8| n < 16 && symbol_of(n as int) == s {
        Some(choose|n: u8| n < 16 && symbol_of(n as int) == s)
    } else {
        None
    }
}

/// The six bits of symbol `s`, most significant first.
pub open spec fn symbol_bits(s: u8) -> Seq<bool> {
    seq![
        (s / 32) % 2 == 1,
        (s / 16) % 2 == 1,
        (s / 8) % 2 == 1,
        (s / 4) % 2 == 1,
        (s / 2) % 2 == 1,
        s % 2 == 1,
    ]
}

/// The bits of `data` in the 3-out-of-6 code: for each byte, the symbol of its
/// high nibble, then that of its low nibble.
pub open spec fn encode_spec(data: Seq<u8>) -> Seq<bool>
    decreases data.len(),
{
    if data.len() == 0 {
        Seq::empty()
    } else {
        let b = data.last();
        encode_spec(data.drop_last()) + symbol_bits(symbol_of(b as int / 16)) + symbol_bits(
            symbol_of(b as int % 16),
        )
    }
}

/// `weight` where `b` is set, else zero.
pub open spec fn bit_weight(b: bool, weight: int) -> int {
    if b {
        weight
    } else {
        0
    }
}

/// The value of the `k`-th group of six bits, most significant first.
pub open spec fn group_value(bits: Seq<bool>, k: int) -> int {
    bit_weight(bits[6 * k], 32) + bit_weight(bits[6 * k + 1], 16) + bit_weight(bits[6 * k + 2], 8)
        + bit_weight(bits[6 * k + 3], 4) + bit_weight(bits[6 * k + 4], 2) + bit_weight(
        bits[6 * k + 5],
        1,
    )
}

/// Whether every group of six bits is a symbol.
pub open spec fn symbols_valid(bits: Seq<bool>) -> bool {
    forall|k: int| 0 <= k < bits.len() / 6 ==> #[trigger] nibble_of(group_value(bits, k)) is Some
}

/// Byte `j` of decoded `bits`: the nibble of group `2j` high, that of `2j + 1` low.
pub open spec fn decoded_byte(bits: Seq<bool>, j: int) -> u8 {
    (nibble_of(group_value(bits, 2 * j))->Some_0 * 16 + nibble_of(
        group_value(bits, 2 * j + 1),
    )->Some_0) as u8
}

/// The bytes that `bits` encode in the 3-out-of-6 code: `NotAligned` unless the
/// length is a whole number of bytes, `InvalidSymbol` where a group is no symbol.
pub open spec fn decode_spec(bits: Seq<bool>) -> Result<Seq<u8>, Error> {
    if bits.len() % 12 != 0 {
        Err(Error::NotAligned)
    } else if !symbols_valid(bits) {
        Err(Error::InvalidSymbol)
    } else {
        Ok(Seq::new(bits.len() / 12, |j: int| decoded_byte(bits, j)))
    }
}

/// Each nibble's symbol has the nibble as its only preimage, and its six
/// bits read back as the symbol.
proof fn lemma_symbol_table(n: u8)
    requires
        n < 16,
    ensures
        nibble_of(symbol_of(n as int) as int) == Some(n),
        group_value(symbol_bits(symbol_of(n as int)), 0) == symbol_of(n as int),
{
    assert(forall|m: u8, k: u8|
        m < 16 && k < 16 && symbol_of(m as int) == symbol_of(k as int) ==> m == k);
}

/// The code of `x` has twelve bits per byte.
pub proof fn lemma_encode_len(x: Seq<u8>)
    ensures
        encode_spec(x).len() == 12 * x.len(),
    decreases x.len(),
{
    if x.len() > 0 {
        lemma_encode_len(x.drop_last());
    }
}

/// The two groups of six bits that byte `j` of `x` becomes are the symbols of
/// its high and low nibble.
proof fn lemma_encode_groups(x: Seq<u8>, j: int)
    requires
        0 <= j < x.len(),
    ensures
        group_value(encode_spec(x), 2 * j) == symbol_of(x[j] as int / 16),
        group_value(encode_spec(x), 2 * j + 1) == symbol_of(x[j] as int % 16),
    decreases x.len(),
{
    let p = x.drop_last();
    let bits = encode_spec(x);
    let high = symbol_bits(symbol_of(x.last() as int / 16));
    let low = symbol_bits(symbol_of(x.last() as int % 16));
    lemma_encode_len(p);
    assert(bits == encode_spec(p) + high + low);
    if j < p.len() {
        lemma_encode_groups(p, j);
    } else {
        lemma_symbol_table((x.last() / 16) as u8);
        lemma_symbol_table((x.last() % 16) as u8);
    }
}

/// Decoding the code of any byte sequence gives the sequence back.
pub proof fn lemma_three_out_of_six_round_trip(x: Seq<u8>)
    ensures
        decode_spec(encode_spec(x)) == Ok::<Seq<u8>, Error>(x),
{
    let bits = encode_spec(x);
    lemma_encode_len(x);
    assert forall|k: int| 0 <= k < bits.len() / 6 implies #[trigger] nibble_of(
        group_value(bits, k),
    ) is Some by {
        let j = k / 2;
        lemma_encode_groups(x, j);
        lemma_symbol_table((x[j] / 16) as u8);
        lemma_symbol_table((x[j] % 16) as u8);
    }
    assert forall|j: int| 0 <= j < x.len() implies decoded_byte(bits, j) == x[j] by {
        lemma_encode_groups(x, j);
        lemma_symbol_table((x[j] / 16) as u8);
        lemma_symbol_table((x[j] % 16) as u8);
    }
    assert(Seq::new(bits.len() / 12, |j: int| decoded_byte(bits, j)) =~= x);
}

/// The 3-out-of-6 code: each nibble becomes a 6-bit symbol.
pub struct ThreeOutOfSix;

/// The symbol of nibble `n`.
fn encode_nibble(n: u8) -> (r: u8)
    requires
        n < 16,
    ensures
        r == symbol_of(n as int),
{
    if n == 0x0 {
        22
    } else if n == 0x1 {
        13
    } else if n == 0x2 {
        14
    } else if n == 0x3 {
        11
    } else if n == 0x4 {
        28
    } else if n == 0x5 {
        25
    } else if n == 0x6 {
        26
    } else if n == 0x7 {
        19
    } else if n == 0x8 {
        44
    } else if n == 0x9 {
        37
    } else if n == 0xA {
        38
    } else if n == 0xB {
        35
    } else if n == 0xC {
        52
    } else if n == 0xD {
        49
    } else if n == 0xE {
        50
    } else {
        41
    }
}

/// Appends the six bits of symbol `s`, most significant first.
fn push_symbol(v: &mut BitSequence, s: u8)
    requires
        bits_of(*old(v)).len() + 6 <= usize::MAX / 8,
    ensures
        bits_of(*final(v)) == bits_of(*old(v)) + symbol_bits(s),
{
    push_bit(v, (s / 32) % 2 == 1);
    push_bit(v, (s / 16) % 2 == 1);
    push_bit(v, (s / 8) % 2 == 1);
    push_bit(v, (s / 4) % 2 == 1);
    push_bit(v, (s / 2) % 2 == 1);
    push_bit(v, s % 2 == 1);
    assert(bits_of(*v) =~= bits_of(*old(v)) + symbol_bits(s));
}

/// The nibble whose symbol is `s`, if `s` is a symbol.
fn decode_symbol(s: u8) -> (r: Option<u8>)
    ensures
        r == nibble_of(s as int),
{
    let mut n: u8 = 0;
    while n < 16
        invariant
            n <= 16,
            forall|m: u8| m < n ==> symbol_of(m as int) != s,
        decreases 16 - n,
    {
        if encode_nibble(n) == s {
            proof {
                lemma_symbol_table(n);
            }
            return Some(n);
        }
        n = n + 1;
    }
    None
}

/// The value of the `k`-th group of six bits of `v`.
fn read_group(v: &BitSequence, k: usize) -> (r: u8)
    requires
        6 * k + 6 <= v@.len() <= usize::MAX,
    ensures
        r == group_value(v@, k as int),
{
    let base = 6 * k;
    (if bit_at(v, base) {
        32u8
    } else {
        0
    }) + (if bit_at(v, base + 1) {
        16u8
    } else {
        0
    }) + (if bit_at(v, base + 2) {
        8u8
    } else {
        0
    }) + (if bit_at(v, base + 3) {
        4u8
    } else {
        0
    }) + (if bit_at(v, base + 4) {
        2u8
    } else {
        0
    }) + (if bit_at(v, base + 5) {
        1u8
    } else {
        0
    })
}

impl ThreeOutOfSix {
    /// The code of `data`: twelve bits per byte, the symbol of the high nibble
    /// first, each symbol most significant bit first.
    pub fn encode(data: &[u8]) -> (r: BitSequence)
        requires
            data@.len() * 12 <= usize::MAX / 8,
        ensures
            r@ == encode_spec(data@),
            r@.len() == 12 * data@.len(),
    {
        let mut result = empty_bits();
        let mut i: usize = 0;
        while i < data.len()
            invariant
                i <= data@.len(),
                data@.len() * 12 <= usize::MAX / 8,
                result@ == encode_spec(data@.take(i as int)),
            decreases data@.len() - i,
        {
            proof {
                lemma_encode_len(data@.take(i as int));
            }
            let byte = data[i];
            push_symbol(&mut result, encode_nibble(byte / 16));
            push_symbol(&mut result, encode_nibble(byte % 16));
            proof {
                let t = data@.take(i + 1);
                assert(t.drop_last() =~= data@.take(i as int));
                assert(t.last() == byte);
            }
            i = i + 1;
        }
        proof {
            assert(data@.take(data@.len() as int) =~= data@);
            lemma_encode_len(data@);
        }
        result
    }

    /// The bytes that `encoded` codes: `NotAligned` unless its length is a
    /// multiple of twelve, `InvalidSymbol` where a group of six bits is no
    /// symbol.
    pub fn decode(encoded: &BitSequence) -> (r: Result<Vec<u8>, Error>)
        ensures
            match r {
                Ok(v) => decode_spec(encoded@) == Ok::<Seq<u8>, Error>(v@),
                Err(e) => decode_spec(encoded@) == Err::<Seq<u8>, Error>(e),
            },
    {
        let len = bit_len(encoded);
        let data_len = len / 12;
        if len != data_len * 12 {
            return Err(Error::NotAligned);
        }
        let mut result: Vec<u8> = Vec::with_capacity(data_len);
        let mut j: usize = 0;
        while j < data_len
            invariant
                len == encoded@.len(),
                len == data_len * 12,
                j <= data_len,
                forall|k: int| 0 <= k < 2 * j ==> #[trigger] nibble_of(group_value(encoded@, k)) is Some,
                result@ =~= Seq::new(j as nat, |i: int| decoded_byte(encoded@, i)),
            decreases data_len - j,
        {
            let high = decode_symbol(read_group(encoded, 2 * j));
            let low = decode_symbol(read_group(encoded, 2 * j + 1));
            match (high, low) {
                (Some(h), Some(l)) => {
                    result.push(h * 16 + l);
                },
                _ => {
                    proof {
                        if high is None {
                            assert(!(nibble_of(group_value(encoded@, 2 * j as int)) is Some));
                        } else {
                            assert(!(nibble_of(group_value(encoded@, 2 * j + 1)) is Some));
                        }
                    }
                    return Err(Error::InvalidSymbol);
                },
            }
            j = j + 1;
        }
        Ok(result)
    }
}

} // verus!
