use vstd::arithmetic::div_mod::lemma_fundamental_div_mod_converse;
use vstd::prelude::*;

use crate::error::Error;

verus! {

/// `b` raised to the power `e`.
pub open spec fn power(b: int, e: nat) -> int
    decreases e,
{
    if e == 0 {
        1
    } else {
        b * power(b, (e - 1) as nat)
    }
}

/// Powers of a base of at least one do not decrease with the exponent.
proof fn lemma_power_increases(b: int, m: nat, n: nat)
    requires
        b >= 1,
        m <= n,
    ensures
        1 <= power(b, m) <= power(b, n),
    decreases n,
{
    if n > m {
        lemma_power_increases(b, m, (n - 1) as nat);
        assert(power(b, (n - 1) as nat) <= b * power(b, (n - 1) as nat)) by (nonlinear_arith)
            requires
                b >= 1,
                power(b, (n - 1) as nat) >= 1,
        ;
    } else if n > 0 {
        lemma_power_increases(b, 0, (n - 1) as nat);
        assert(1 <= b * power(b, (n - 1) as nat)) by (nonlinear_arith)
            requires
                b >= 1,
                power(b, (n - 1) as nat) >= 1,
        ;
    }
}

/// Whether the lowest `n` nibbles of `raw` are all decimal digits.
pub open spec fn bcd_valid(raw: int, n: nat) -> bool
    decreases n,
{
    n == 0 || (raw % 16 < 10 && bcd_valid(raw / 16, (n - 1) as nat))
}

/// The decimal number that the lowest `n` nibbles of `raw` spell, most
/// significant nibble first.
pub open spec fn bcd_value(raw: int, n: nat) -> int
    decreases n,
{
    if n == 0 {
        0
    } else {
        bcd_value(raw / 16, (n - 1) as nat) * 10 + raw % 16
    }
}

/// The lowest `n` decimal digits of `v`, one per nibble, the least significant
/// digit in the lowest nibble.
pub open spec fn bcd_encode(v: int, n: nat) -> int
    decreases n,
{
    if n == 0 {
        0
    } else {
        bcd_encode(v / 10, (n - 1) as nat) * 16 + v % 10
    }
}

/// Packing a decimal number that fits `n` digits and reading it back gives the
/// number again, and every nibble of the packed form is a decimal digit.
pub proof fn lemma_bcd_round_trip(v: int, n: nat)
    requires
        0 <= v < power(10, n),
    ensures
        bcd_valid(bcd_encode(v, n), n),
        bcd_value(bcd_encode(v, n), n) == v,
    decreases n,
{
    if n > 0 {
        let ghost m: nat = (n - 1) as nat;
        assert(power(10, n) == 10 * power(10, m));
        assert(v / 10 < power(10, m)) by (nonlinear_arith)
            requires
                0 <= v < 10 * power(10, m),
        ;
        lemma_bcd_round_trip(v / 10, m);
        let e = bcd_encode(v / 10, m);
        lemma_fundamental_div_mod_converse(e * 16 + v % 10, 16, e, v % 10);
    }
}

/// The powers that bound the supported widths.
pub(crate) proof fn lemma_powers()
    ensures
        power(10, 4) == 1_0000,
        power(10, 8) == 1_0000_0000,
        power(10, 15) == 1000_0000_0000_0000,
        power(10, 16) == 1_0000_0000_0000_0000,
        power(16, 4) == 0x1_0000,
        power(16, 8) == 0x1_0000_0000,
        power(16, 15) == 0x1000_0000_0000_0000,
{
    reveal_with_fuel(power, 17);
}

/// Whether the lowest `n` nibbles of `raw` are decimal digits.
fn nibbles_valid(raw: u64, n: u32) -> (r: bool)
    ensures
        r == bcd_valid(raw as int, n as nat),
    decreases n,
{
    if n == 0 {
        true
    } else if raw % 16 >= 10 {
        false
    } else {
        nibbles_valid(raw / 16, n - 1)
    }
}

/// Reads the lowest `n` nibbles of `raw` as decimal digits.
fn nibbles_value(raw: u64, n: u32) -> (r: u64)
    requires
        n <= 16,
    ensures
        r == bcd_value(raw as int, n as nat),
        9 * r <= 15 * (power(10, n as nat) - 1),
    decreases n,
{
    if n == 0 {
        0
    } else {
        let ghost m: nat = (n - 1) as nat;
        let high = nibbles_value(raw / 16, n - 1);
        let digit = raw % 16;
        assert(power(10, n as nat) == 10 * power(10, m));
        proof { lemma_powers(); }
        assert(power(10, m) <= power(10, 15)) by {
            lemma_power_increases(10, m, 15);
        }
        assert(9 * (high * 10 + digit) <= 15 * (power(10, n as nat) - 1)
            && high * 10 + digit < 0x1_0000_0000_0000_0000) by (nonlinear_arith)
            requires
                9 * high <= 15 * (power(10, m) - 1),
                digit < 16,
                power(10, n as nat) == 10 * power(10, m),
                power(10, m) <= 1_000_000_000_000_000,
        ;
        high * 10 + digit
    }
}

/// Packs the lowest `n` decimal digits of `v`, one per nibble.
fn digits_packed(v: u64, n: u32) -> (r: u64)
    requires
        n <= 16,
        v < power(10, n as nat),
    ensures
        r == bcd_encode(v as int, n as nat),
        r < power(16, n as nat),
    decreases n,
{
    if n == 0 {
        0
    } else {
        let ghost m: nat = (n - 1) as nat;
        assert(power(10, n as nat) == 10 * power(10, m));
        assert(power(16, n as nat) == 16 * power(16, m));
        assert(v / 10 < power(10, m)) by (nonlinear_arith)
            requires
                v < 10 * power(10, m),
        ;
        let high = digits_packed(v / 10, n - 1);
        proof { lemma_powers(); }
        assert(power(16, m) <= power(16, 15)) by {
            lemma_power_increases(16, m, 15);
        }
        high * 16 + v % 10
    }
}

/// A number in binary-coded decimal: every nibble of the wrapped integer is a
/// decimal digit. It is made only by the checking constructors.
#[derive(Clone, Copy, Debug, PartialEq, Eq)]
pub struct BcdNumber<T>(T);

impl<T: Copy> BcdNumber<T> {
    /// The packed integer.
    pub closed spec fn raw_value(self) -> T {
        self.0
    }

    /// The packed integer.
    pub fn raw(&self) -> (r: T)
        ensures
            r == self.raw_value(),
    {
        self.0
    }
}

impl BcdNumber<u16> {
    /// Wraps `bcd_value` when each of its four nibbles is a decimal digit.
    pub fn new_u16(bcd_value: u16) -> (r: Result<Self, Error>)
        ensures
            r is Ok <==> bcd_valid(bcd_value as int, 4),
            r is Ok ==> r->Ok_0.raw_value() == bcd_value,
            r is Err ==> r->Err_0 == Error::InvalidBcd,
    {
        if nibbles_valid(bcd_value as u64, 4) {
            Ok(BcdNumber(bcd_value))
        } else {
            Err(Error::InvalidBcd)
        }
    }

    /// Packs a decimal number of at most four digits.
    pub fn encode_u16(number: u16) -> (r: Result<Self, Error>)
        ensures
            r is Ok <==> number <= 9999,
            r is Ok ==> r->Ok_0.raw_value() == bcd_encode(number as int, 4),
            r is Err ==> r->Err_0 == Error::BcdOverflow,
    {
        if number <= 9999 {
            proof { lemma_powers(); }
            let raw = digits_packed(number as u64, 4);
            Ok(BcdNumber(raw as u16))
        } else {
            Err(Error::BcdOverflow)
        }
    }

    /// The decimal number that the nibbles spell.
    pub fn decode(self) -> (r: u16)
        ensures
            r == bcd_value(self.raw_value() as int, 4),
    {
        proof { lemma_powers(); }
        nibbles_value(self.0 as u64, 4) as u16
    }
}

impl BcdNumber<u32> {
    /// Wraps `bcd_value` when each of its eight nibbles is a decimal digit.
    pub fn new_u32(bcd_value: u32) -> (r: Result<Self, Error>)
        ensures
            r is Ok <==> bcd_valid(bcd_value as int, 8),
            r is Ok ==> r->Ok_0.raw_value() == bcd_value,
            r is Err ==> r->Err_0 == Error::InvalidBcd,
    {
        if nibbles_valid(bcd_value as u64, 8) {
            Ok(BcdNumber(bcd_value))
        } else {
            Err(Error::InvalidBcd)
        }
    }

    /// Packs a decimal number of at most eight digits.
    pub fn encode_u32(number: u32) -> (r: Result<Self, Error>)
        ensures
            r is Ok <==> number <= 9999_9999,
            r is Ok ==> r->Ok_0.raw_value() == bcd_encode(number as int, 8),
            r is Err ==> r->Err_0 == Error::BcdOverflow,
    {
        if number <= 9999_9999 {
            proof { lemma_powers(); }
            let raw = digits_packed(number as u64, 8);
            Ok(BcdNumber(raw as u32))
        } else {
            Err(Error::BcdOverflow)
        }
    }

    /// The decimal number that the nibbles spell.
    pub fn decode(self) -> (r: u32)
        ensures
            r == bcd_value(self.raw_value() as int, 8),
    {
        proof { lemma_powers(); }
        nibbles_value(self.0 as u64, 8) as u32
    }
}

impl BcdNumber<u64> {
    /// Wraps `bcd_value` when each of its sixteen nibbles is a decimal digit.
    pub fn new_u64(bcd_value: u64) -> (r: Result<Self, Error>)
        ensures
            r is Ok <==> bcd_valid(bcd_value as int, 16),
            r is Ok ==> r->Ok_0.raw_value() == bcd_value,
            r is Err ==> r->Err_0 == Error::InvalidBcd,
    {
        if nibbles_valid(bcd_value, 16) {
            Ok(BcdNumber(bcd_value))
        } else {
            Err(Error::InvalidBcd)
        }
    }

    /// Packs a decimal number of at most sixteen digits.
    pub fn encode_u64(number: u64) -> (r: Result<Self, Error>)
        ensures
            r is Ok <==> number <= 9999_9999_9999_9999,
            r is Ok ==> r->Ok_0.raw_value() == bcd_encode(number as int, 16),
            r is Err ==> r->Err_0 == Error::BcdOverflow,
    {
        if number <= 9999_9999_9999_9999 {
            proof { lemma_powers(); }
            let raw = digits_packed(number, 16);
            Ok(BcdNumber(raw))
        } else {
            Err(Error::BcdOverflow)
        }
    }

    /// The decimal number that the nibbles spell.
    pub fn decode(self) -> (r: u64)
        ensures
            r == bcd_value(self.raw_value() as int, 16),
    {
        nibbles_value(self.0, 16)
    }
}

} // verus!
