//! Fixed-width values that run through the whole crate: 20-byte addresses,
//! 32-byte hashes and 256-bit unsigned integers.
//!
//! Each is a plain `Copy` struct of machine integers, so that equality in
//! contracts is equality of the fields. The 256-bit arithmetic itself is done
//! by `ethers`; the functions that call it are the only unverified items here.

use vstd::prelude::*;

verus! {

/// 2^64, the weight of the second limb of a [`U256`].
pub open spec fn limb_base() -> nat {
    0x1_0000_0000_0000_0000
}

/// 2^128, the weight of the third limb of a [`U256`].
pub open spec fn limb_base_squared() -> nat {
    0x1_0000_0000_0000_0000_0000_0000_0000_0000nat
}

/// 2^192, the weight of the fourth limb of a [`U256`].
pub open spec fn limb_base_cubed() -> nat {
    0x1_0000_0000_0000_0000_0000_0000_0000_0000_0000_0000_0000_0000nat
}

/// The largest value of a [`U256`], 2^256 - 1.
pub open spec fn u256_max() -> nat {
    0xffff_ffff_ffff_ffff_ffff_ffff_ffff_ffff_ffff_ffff_ffff_ffff_ffff_ffff_ffff_ffffnat
}

/// A 20-byte account or contract address, held as its big-endian value.
#[derive(Clone, Copy, Debug, PartialEq, Eq, Structural, PartialOrd, Ord, Hash, Default)]
pub struct Address {
    /// The four most significant bytes.
    pub hi: u32,
    /// The sixteen least significant bytes.
    pub lo: u128,
}

/// A 32-byte hash, held as its big-endian value.
#[derive(Clone, Copy, Debug, PartialEq, Eq, Structural, PartialOrd, Ord, Hash, Default)]
pub struct H256 {
    /// The sixteen most significant bytes.
    pub hi: u128,
    /// The sixteen least significant bytes.
    pub lo: u128,
}

/// A 256-bit unsigned integer, held as four 64-bit limbs.
///
/// The fields are declared from the most significant limb down, so that the
/// derived ordering is the numeric one.
#[derive(Clone, Copy, Debug, PartialEq, Eq, Structural, PartialOrd, Ord, Hash, Default)]
pub struct U256 {
    pub w3: u64,
    pub w2: u64,
    pub w1: u64,
    pub w0: u64,
}

impl View for U256 {
    type V = nat;

    /// The number that the four limbs stand for.
    open spec fn view(&self) -> nat {
        (self.w0 as nat) + (self.w1 as nat) * limb_base() + (self.w2 as nat) * limb_base_squared()
            + (self.w3 as nat) * limb_base_cubed()
    }
}

/// The `width` low-order bytes of `x`, most significant first.
pub open spec fn be_bytes(x: u128, width: nat) -> Seq<u8> {
    Seq::new(width, |i: int| (x >> ((8 * (width - 1 - i)) as u128)) as u8)
}

/// The value whose big-endian bytes are `bytes` (the low 128 bits of it).
pub open spec fn be_value(bytes: Seq<u8>) -> u128
    decreases bytes.len(),
{
    if bytes.len() == 0 {
        0
    } else {
        (be_value(bytes.drop_last()) << 8) | (bytes.last() as u128)
    }
}

/// The first `count` of the `width` bytes of `x` spell what is left of `x`
/// when the other bytes are shifted out.
#[verifier::rlimit(50)]
proof fn lemma_be_prefix(x: u128, width: nat, count: nat)
    requires
        1 <= count <= width <= 16,
        width < 16 ==> x >> ((8 * width) as u128) == 0,
    ensures
        be_value(be_bytes(x, width).subrange(0, count as int)) == x >> ((8 * (width - count))
            as u128),
    decreases count,
{
    let bytes = be_bytes(x, width);
    let prefix = bytes.subrange(0, count as int);
    let shift = (8 * (width - count)) as u128;
    assert(prefix.drop_last() =~= bytes.subrange(0, count - 1));
    assert(prefix.last() == (x >> shift) as u8);
    if count == 1 {
        assert(be_value(bytes.subrange(0, 0)) == 0);
        let top = (8 * width) as u128;
        assert((0u128 << 8) | (((x >> shift) as u8) as u128) == x >> shift) by (bit_vector)
            requires
                shift <= 120,
                top == shift + 8,
                top < 128 ==> x >> top == 0,
        ;
    } else {
        lemma_be_prefix(x, width, (count - 1) as nat);
        let before = (8 * (width - (count - 1))) as u128;
        assert(((x >> before) << 8) | (((x >> shift) as u8) as u128) == x >> shift)
            by (bit_vector)
            requires
                shift <= 112,
                before == shift + 8,
        ;
    }
}

/// The bytes of a number spell that number, where the number fits in them.
pub proof fn lemma_be_round_trip(x: u128, width: nat)
    requires
        1 <= width <= 16,
        width < 16 ==> x >> ((8 * width) as u128) == 0,
    ensures
        be_value(be_bytes(x, width)) == x,
{
    lemma_be_prefix(x, width, width);
    assert(be_bytes(x, width).subrange(0, width as int) =~= be_bytes(x, width));
    assert(x >> 0u128 == x) by (bit_vector);
}

/// Appends the `width` low-order bytes of `x` to `out`, most significant first.
pub fn push_be_bytes(out: &mut Vec<u8>, x: u128, width: usize)
    requires
        width <= 16,
    ensures
        final(out)@ == old(out)@ + be_bytes(x, width as nat),
{
    let ghost start = out@;
    let mut i: usize = 0;
    while i < width
        invariant
            i <= width <= 16,
            out@.len() == start.len() + i,
            out@ =~= start + be_bytes(x, width as nat).subrange(0, i as int),
        decreases width - i,
    {
        let shift: u128 = (8 * (width - 1 - i)) as u128;
        out.push((x >> shift) as u8);
        i += 1;
    }
    assert(be_bytes(x, width as nat).subrange(0, width as int) =~= be_bytes(x, width as nat));
}

/// Appends `count` zero bytes to `out`.
pub fn push_zero_bytes(out: &mut Vec<u8>, count: usize)
    ensures
        final(out)@ == old(out)@ + Seq::new(count as nat, |i: int| 0u8),
{
    let ghost start = out@;
    let mut i: usize = 0;
    while i < count
        invariant
            i <= count,
            out@ =~= start + Seq::new(i as nat, |j: int| 0u8),
        decreases count - i,
    {
        out.push(0u8);
        i += 1;
    }
}

/// Reads `bytes[from..to]` as a big-endian number.
pub fn read_be_bytes(bytes: &Vec<u8>, from: usize, to: usize) -> (value: u128)
    requires
        from <= to <= bytes.len(),
    ensures
        value == be_value(bytes@.subrange(from as int, to as int)),
{
    let mut value: u128 = 0;
    let mut i: usize = from;
    while i < to
        invariant
            from <= i <= to <= bytes.len(),
            value == be_value(bytes@.subrange(from as int, i as int)),
        decreases to - i,
    {
        assert(bytes@.subrange(from as int, i + 1).drop_last() =~= bytes@.subrange(
            from as int,
            i as int,
        ));
        value = (value << 8) | (bytes[i] as u128);
        i += 1;
    }
    value
}

impl Address {
    /// The address whose bytes are all zero.
    pub fn zero() -> (a: Address)
        ensures
            a == (Address { hi: 0, lo: 0 }),
    {
        Address { hi: 0, lo: 0 }
    }

    /// The address whose big-endian value is `value`.
    pub fn from_low_u64_be(value: u64) -> (a: Address)
        ensures
            a == (Address { hi: 0, lo: value as u128 }),
    {
        Address { hi: 0, lo: value as u128 }
    }

    /// The twenty bytes of the address.
    pub open spec fn spec_bytes(self) -> Seq<u8> {
        be_bytes(self.hi as u128, 4) + be_bytes(self.lo, 16)
    }

    /// The address that the first twenty bytes of `bytes` spell, if there are
    /// that many.
    pub open spec fn spec_from_prefix(bytes: Seq<u8>) -> Option<Address> {
        if bytes.len() < 20 {
            None
        } else {
            Some(
                Address {
                    hi: be_value(bytes.subrange(0, 4)) as u32,
                    lo: be_value(bytes.subrange(4, 20)),
                },
            )
        }
    }

    /// The bytes of an address, with whatever follows them, spell that
    /// address.
    pub proof fn lemma_bytes_round_trip(self, rest: Seq<u8>)
        ensures
            Address::spec_from_prefix(self.spec_bytes() + rest) == Some(self),
    {
        let bytes = self.spec_bytes() + rest;
        assert(bytes.subrange(0, 4) =~= be_bytes(self.hi as u128, 4));
        assert(bytes.subrange(4, 20) =~= be_bytes(self.lo, 16));
        let hi = self.hi as u128;
        assert(hi >> 32u128 == 0) by (bit_vector)
            requires
                hi <= 0xffff_ffff,
        ;
        lemma_be_round_trip(hi, 4);
        lemma_be_round_trip(self.lo, 16);
    }

    /// Appends the twenty bytes of the address to `out`.
    pub fn write_bytes(&self, out: &mut Vec<u8>)
        ensures
            final(out)@ == old(out)@ + self.spec_bytes(),
    {
        push_be_bytes(out, self.hi as u128, 4);
        push_be_bytes(out, self.lo, 16);
        assert(out@ =~= old(out)@ + self.spec_bytes());
    }

    /// The twenty bytes of the address, most significant first.
    pub fn to_bytes(&self) -> (out: Vec<u8>)
        ensures
            out@ == self.spec_bytes(),
    {
        let mut out: Vec<u8> = Vec::new();
        self.write_bytes(&mut out);
        assert(out@ =~= self.spec_bytes());
        out
    }

    /// Reads an address from the first twenty bytes of `bytes`; `None` where
    /// `bytes` is shorter.
    pub fn from_prefix(bytes: &Vec<u8>) -> (a: Option<Address>)
        ensures
            a == Address::spec_from_prefix(bytes@),
    {
        if bytes.len() < 20 {
            None
        } else {
            let hi = read_be_bytes(bytes, 0, 4);
            let lo = read_be_bytes(bytes, 4, 20);
            Some(Address { hi: hi as u32, lo })
        }
    }
}

impl H256 {
    /// The hash whose bytes are all zero.
    pub fn zero() -> (h: H256)
        ensures
            h == (H256 { hi: 0, lo: 0 }),
    {
        H256 { hi: 0, lo: 0 }
    }

    /// The hash whose big-endian value is `value`.
    pub fn from_low_u64_be(value: u64) -> (h: H256)
        ensures
            h == (H256 { hi: 0, lo: value as u128 }),
    {
        H256 { hi: 0, lo: value as u128 }
    }

    /// The thirty-two bytes of the hash.
    pub open spec fn spec_bytes(self) -> Seq<u8> {
        be_bytes(self.hi, 16) + be_bytes(self.lo, 16)
    }

    /// Appends the thirty-two bytes of the hash to `out`.
    pub fn write_bytes(&self, out: &mut Vec<u8>)
        ensures
            final(out)@ == old(out)@ + self.spec_bytes(),
    {
        push_be_bytes(out, self.hi, 16);
        push_be_bytes(out, self.lo, 16);
        assert(out@ =~= old(out)@ + self.spec_bytes());
    }
}

/// What `ethers::types::U256::checked_add` returns on the limbs given.
///
/// Trusted: the sum, or `None` where it does not fit in 256 bits.
#[verifier::external_body]
pub(crate) fn u256_checked_add(a: U256, b: U256) -> (sum: Option<U256>)
    ensures
        match sum {
            Some(s) => s@ == a@ + b@,
            None => a@ + b@ > u256_max(),
        },
{
    let x = ethers::types::U256([a.w0, a.w1, a.w2, a.w3]);
    let y = ethers::types::U256([b.w0, b.w1, b.w2, b.w3]);
    x.checked_add(y).map(|r| U256 { w3: r.0[3], w2: r.0[2], w1: r.0[1], w0: r.0[0] })
}

/// What `ethers::types::U256::checked_sub` returns on the limbs given.
///
/// Trusted: the difference, or `None` where `b` is the larger.
#[verifier::external_body]
fn u256_checked_sub(a: U256, b: U256) -> (difference: Option<U256>)
    ensures
        match difference {
            Some(d) => d@ == a@ - b@,
            None => a@ < b@,
        },
{
    let x = ethers::types::U256([a.w0, a.w1, a.w2, a.w3]);
    let y = ethers::types::U256([b.w0, b.w1, b.w2, b.w3]);
    x.checked_sub(y).map(|r| U256 { w3: r.0[3], w2: r.0[2], w1: r.0[1], w0: r.0[0] })
}

/// What `ethers::types::U256::checked_mul` returns on the limbs given.
///
/// Trusted: the product, or `None` where it does not fit in 256 bits.
#[verifier::external_body]
fn u256_checked_mul(a: U256, b: U256) -> (product: Option<U256>)
    ensures
        match product {
            Some(p) => p@ == a@ * b@,
            None => a@ * b@ > u256_max(),
        },
{
    let x = ethers::types::U256([a.w0, a.w1, a.w2, a.w3]);
    let y = ethers::types::U256([b.w0, b.w1, b.w2, b.w3]);
    x.checked_mul(y).map(|r| U256 { w3: r.0[3], w2: r.0[2], w1: r.0[1], w0: r.0[0] })
}

/// What `ethers::types::U256::div_mod` returns on the limbs given.
///
/// Trusted: quotient and remainder of the division, for a divisor that is
/// not zero (on zero the outside function panics).
#[verifier::external_body]
fn u256_div_mod(a: U256, b: U256) -> (result: (U256, U256))
    requires
        b@ != 0,
    ensures
        result.0@ == a@ / b@,
        result.1@ == a@ % b@,
{
    let x = ethers::types::U256([a.w0, a.w1, a.w2, a.w3]);
    let y = ethers::types::U256([b.w0, b.w1, b.w2, b.w3]);
    let (q, r) = x.div_mod(y);
    (
        U256 { w3: q.0[3], w2: q.0[2], w1: q.0[1], w0: q.0[0] },
        U256 { w3: r.0[3], w2: r.0[2], w1: r.0[1], w0: r.0[0] },
    )
}

/// A number capped at the largest 256-bit value.
pub open spec fn saturate(n: int) -> nat {
    if n < 0 {
        0
    } else if n > u256_max() {
        u256_max()
    } else {
        n as nat
    }
}

/// The 256-bit integer that stands for `n`, for `n` below 2^256.
pub open spec fn u256_from_nat(n: nat) -> U256 {
    U256 {
        w3: ((n / limb_base_cubed()) % limb_base()) as u64,
        w2: ((n / limb_base_squared()) % limb_base()) as u64,
        w1: ((n / limb_base()) % limb_base()) as u64,
        w0: (n % limb_base()) as u64,
    }
}

/// Every number below 2^256 is the value of the integer made from it.
pub proof fn lemma_u256_from_nat(n: nat)
    requires
        n <= u256_max(),
    ensures
        u256_from_nat(n)@ == n,
{
    let b = limb_base() as int;
    let q1 = n as int / b;
    let q2 = q1 / b;
    let q3 = q2 / b;
    vstd::arithmetic::div_mod::lemma_fundamental_div_mod(n as int, b);
    vstd::arithmetic::div_mod::lemma_fundamental_div_mod(q1, b);
    vstd::arithmetic::div_mod::lemma_fundamental_div_mod(q2, b);
    vstd::arithmetic::div_mod::lemma_div_denominator(n as int, b, b);
    vstd::arithmetic::div_mod::lemma_div_denominator(n as int, limb_base_squared() as int, b);
    assert(b * b == limb_base_squared());
    assert(limb_base_squared() * b == limb_base_cubed());
    assert(q2 == n as int / (limb_base_squared() as int));
    assert(q3 == n as int / (limb_base_cubed() as int));
    assert(0 <= q3 < b);
    vstd::arithmetic::div_mod::lemma_small_mod(q3 as nat, b as nat);
}

/// The sum of two values, capped at the largest value.
pub open spec fn spec_saturating_add(a: U256, b: U256) -> U256 {
    u256_from_nat(saturate((a@ + b@) as int))
}

/// The difference of two values, or zero where the second is the larger.
pub open spec fn spec_saturating_sub(a: U256, b: U256) -> U256 {
    u256_from_nat(saturate(a@ - b@))
}

/// The product of two values, capped at the largest value.
pub open spec fn spec_saturating_mul(a: U256, b: U256) -> U256 {
    u256_from_nat(saturate((a@ * b@) as int))
}

/// What the capped operations give, as numbers.
pub proof fn lemma_saturating_values(a: U256, b: U256)
    ensures
        spec_saturating_add(a, b)@ == saturate((a@ + b@) as int),
        spec_saturating_sub(a, b)@ == saturate(a@ - b@),
        spec_saturating_mul(a, b)@ == saturate((a@ * b@) as int),
{
    lemma_u256_from_nat(saturate((a@ + b@) as int));
    lemma_u256_from_nat(saturate(a@ - b@));
    lemma_u256_from_nat(saturate((a@ * b@) as int));
}

impl U256 {
    /// Zero.
    pub fn zero() -> (z: U256)
        ensures
            z@ == 0,
            z == (U256 { w3: 0, w2: 0, w1: 0, w0: 0 }),
    {
        U256 { w3: 0, w2: 0, w1: 0, w0: 0 }
    }

    /// The largest value, 2^256 - 1.
    pub fn max_value() -> (m: U256)
        ensures
            m@ == u256_max(),
    {
        U256 {
            w3: 0xffff_ffff_ffff_ffff,
            w2: 0xffff_ffff_ffff_ffff,
            w1: 0xffff_ffff_ffff_ffff,
            w0: 0xffff_ffff_ffff_ffff,
        }
    }

    /// The 256-bit integer equal to `value`.
    pub fn from_u64(value: u64) -> (x: U256)
        ensures
            x@ == value,
            x == (U256 { w3: 0, w2: 0, w1: 0, w0: value }),
    {
        U256 { w3: 0, w2: 0, w1: 0, w0: value }
    }

    /// No value is above the largest one, and equal numbers have equal limbs.
    pub proof fn lemma_view_bounds(self)
        ensures
            self@ <= u256_max(),
    {
    }

    /// The limbs of a value are the digits of its number to the base 2^64.
    pub proof fn lemma_limbs_of_view(self)
        ensures
            u256_from_nat(self@) == self,
    {
        let n = self@ as int;
        let b = limb_base() as int;
        let high = self.w1 as int + (self.w2 as int) * b + (self.w3 as int) * limb_base_squared();
        let higher = self.w2 as int + (self.w3 as int) * b;
        let low = self.w0 as int + (self.w1 as int) * b;
        let lower = low + (self.w2 as int) * limb_base_squared();
        vstd::arithmetic::div_mod::lemma_fundamental_div_mod_converse(n, b, high, self.w0 as int);
        vstd::arithmetic::div_mod::lemma_fundamental_div_mod_converse(
            high,
            b,
            higher,
            self.w1 as int,
        );
        vstd::arithmetic::div_mod::lemma_fundamental_div_mod_converse(
            n,
            limb_base_squared() as int,
            higher,
            low,
        );
        vstd::arithmetic::div_mod::lemma_fundamental_div_mod_converse(
            higher,
            b,
            self.w3 as int,
            self.w2 as int,
        );
        vstd::arithmetic::div_mod::lemma_fundamental_div_mod_converse(
            n,
            limb_base_cubed() as int,
            self.w3 as int,
            lower,
        );
        vstd::arithmetic::div_mod::lemma_small_mod(self.w3 as nat, limb_base());
    }

    /// Two values that stand for the same number are the same value.
    pub proof fn lemma_view_injective(self, other: U256)
        requires
            self@ == other@,
        ensures
            self == other,
    {
        self.lemma_limbs_of_view();
        other.lemma_limbs_of_view();
    }

    /// Whether the value is zero.
    pub fn is_zero(&self) -> (r: bool)
        ensures
            r == (self@ == 0),
    {
        self.w3 == 0 && self.w2 == 0 && self.w1 == 0 && self.w0 == 0
    }

    /// Whether `self` is strictly below `other`.
    pub fn lt(&self, other: &U256) -> (r: bool)
        ensures
            r == (self@ < other@),
    {
        if self.w3 != other.w3 {
            self.w3 < other.w3
        } else if self.w2 != other.w2 {
            self.w2 < other.w2
        } else if self.w1 != other.w1 {
            self.w1 < other.w1
        } else {
            self.w0 < other.w0
        }
    }

    /// Whether `self` is at most `other`.
    pub fn le(&self, other: &U256) -> (r: bool)
        ensures
            r == (self@ <= other@),
    {
        !other.lt(self)
    }

    /// The sum, capped at the largest value.
    pub fn saturating_add(self, other: U256) -> (sum: U256)
        ensures
            sum@ == saturate((self@ + other@) as int),
            sum == spec_saturating_add(self, other),
    {
        let sum = match u256_checked_add(self, other) {
            Some(s) => {
                proof {
                    s.lemma_view_bounds();
                }
                s
            },
            None => U256::max_value(),
        };
        proof {
            lemma_saturating_values(self, other);
            sum.lemma_view_injective(spec_saturating_add(self, other));
        }
        sum
    }

    /// The difference, or zero where `other` is the larger.
    pub fn saturating_sub(self, other: U256) -> (difference: U256)
        ensures
            difference@ == saturate(self@ - other@),
            difference == spec_saturating_sub(self, other),
    {
        let difference = match u256_checked_sub(self, other) {
            Some(d) => {
                proof {
                    d.lemma_view_bounds();
                }
                d
            },
            None => U256::zero(),
        };
        proof {
            lemma_saturating_values(self, other);
            difference.lemma_view_injective(spec_saturating_sub(self, other));
        }
        difference
    }

    /// The product, capped at the largest value.
    pub fn saturating_mul(self, other: U256) -> (product: U256)
        ensures
            product@ == saturate((self@ * other@) as int),
            product == spec_saturating_mul(self, other),
    {
        let product = match u256_checked_mul(self, other) {
            Some(p) => {
                proof {
                    p.lemma_view_bounds();
                }
                p
            },
            None => U256::max_value(),
        };
        proof {
            lemma_saturating_values(self, other);
            product.lemma_view_injective(spec_saturating_mul(self, other));
        }
        product
    }

    /// The thirty-two bytes of the value, most significant first.
    pub open spec fn spec_bytes(self) -> Seq<u8> {
        be_bytes(self.w3 as u128, 8) + be_bytes(self.w2 as u128, 8) + be_bytes(self.w1 as u128, 8)
            + be_bytes(self.w0 as u128, 8)
    }

    /// Appends the thirty-two bytes of the value to `out`.
    pub fn write_bytes(&self, out: &mut Vec<u8>)
        ensures
            final(out)@ == old(out)@ + self.spec_bytes(),
    {
        push_be_bytes(out, self.w3 as u128, 8);
        push_be_bytes(out, self.w2 as u128, 8);
        push_be_bytes(out, self.w1 as u128, 8);
        push_be_bytes(out, self.w0 as u128, 8);
        assert(out@ =~= old(out)@ + self.spec_bytes());
    }
}

impl From<u64> for U256 {
    fn from(value: u64) -> (x: U256) {
        U256::from_u64(value)
    }
}

impl vstd::std_specs::convert::FromSpecImpl<u64> for U256 {
    open spec fn obeys_from_spec() -> bool {
        true
    }

    open spec fn from_spec(value: u64) -> U256 {
        U256 { w3: 0, w2: 0, w1: 0, w0: value }
    }
}

/// `value` raised by `percent` hundredths of itself, the raise rounded up.
pub open spec fn increased_by_percent(value: nat, percent: nat) -> nat {
    value + ((value * percent + 99) / 100) as nat
}

/// Dividing by 100 commutes with setting a multiple of 100 aside.
proof fn lemma_split_hundred(whole: int, rest: int)
    requires
        0 <= whole,
        0 <= rest,
    ensures
        (100 * whole + rest + 99) / 100 == whole + (rest + 99) / 100,
{
    let t = rest + 99;
    vstd::arithmetic::div_mod::lemma_fundamental_div_mod(t, 100);
    vstd::arithmetic::div_mod::lemma_div_multiples_vanish_fancy(whole + t / 100, t % 100, 100);
    assert(100 * (whole + t / 100) + t % 100 == 100 * whole + rest + 99);
}

impl U256 {
    /// Raises the value by `percent` hundredths of itself, the raise rounded
    /// up; `None` where the result does not fit in 256 bits.
    pub fn checked_increase_by_percent(self, percent: u64) -> (raised: Option<U256>)
        ensures
            match raised {
                Some(r) => r@ == increased_by_percent(self@, percent as nat),
                None => increased_by_percent(self@, percent as nat) > u256_max(),
            },
    {
        let (whole, rest) = u256_div_mod(self, U256::from_u64(100));
        proof {
            rest.lemma_view_bounds();
            vstd::arithmetic::div_mod::lemma_fundamental_div_mod(self@ as int, 100);
            assert(self@ == 100 * whole@ + rest@);
            assert(rest@ < 100);
            assert(rest@ == rest.w0) by {
                rest.lemma_view_injective(U256 { w3: 0, w2: 0, w1: 0, w0: rest.w0 });
            }
            assert(self@ * percent == 100 * (whole@ * percent) + rest@ * percent)
                by (nonlinear_arith)
                requires
                    self@ == 100 * whole@ + rest@,
            ;
            lemma_split_hundred((whole@ * percent) as int, (rest@ * percent) as int);
            assert(rest@ * percent <= 99 * 0xffff_ffff_ffff_ffff) by (nonlinear_arith)
                requires
                    rest@ < 100,
                    percent <= 0xffff_ffff_ffff_ffff,
            ;
        }
        let small: u128 = ((rest.w0 as u128) * (percent as u128) + 99) / 100;
        let whole_raise = u256_checked_mul(whole, U256::from_u64(percent));
        match whole_raise {
            None => None,
            Some(base) => match u256_checked_add(base, U256::from_u64(small as u64)) {
                None => None,
                Some(raise) => u256_checked_add(self, raise),
            },
        }
    }

    /// Raises the value by `percent` hundredths of itself, the raise rounded
    /// up, and caps the result at the largest value.
    pub fn increase_by_percent(self, percent: u64) -> (raised: U256)
        ensures
            raised@ == saturate(increased_by_percent(self@, percent as nat) as int),
    {
        match self.checked_increase_by_percent(percent) {
            Some(r) => {
                proof {
                    r.lemma_view_bounds();
                }
                r
            },
            None => U256::max_value(),
        }
    }
}

} // verus!
