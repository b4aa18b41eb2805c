//! Integers of any size. The computations are those of `num_bigint`; an [Integer] holds the two's
//! complement bytes that `num_bigint` reads and writes.
use num_traits::{Num, ToPrimitive, Zero};
use vstd::arithmetic::power::pow;
use vstd::arithmetic::power2::{
    lemma2_to64, lemma2_to64_rest, lemma_pow2_adds, lemma_pow2_pos, lemma_pow2_unfold, pow2,
};
use vstd::prelude::*;

use crate::text::int_text;

verus! {

/// The value of `bytes` as an unsigned little-endian number.
pub open spec fn unsigned_value(bytes: Seq<u8>) -> int
    decreases bytes.len(),
{
    if bytes.len() == 0 {
        0
    } else {
        bytes[0] + 256 * unsigned_value(bytes.drop_first())
    }
}

/// The value of `bytes` as a two's complement little-endian number; no bytes at all stand for
/// zero.
pub open spec fn signed_value(bytes: Seq<u8>) -> int {
    if bytes.len() > 0 && bytes.last() >= 128 {
        unsigned_value(bytes) - pow(256, bytes.len())
    } else {
        unsigned_value(bytes)
    }
}

pub open spec fn magnitude(a: int) -> nat {
    if a < 0 {
        (-a) as nat
    } else {
        a as nat
    }
}

/// The quotient of `a` by `b`, rounded towards zero.
pub open spec fn quotient(a: int, b: int) -> int {
    let q = (magnitude(a) / magnitude(b)) as int;
    if (a < 0) == (b < 0) {
        q
    } else {
        -q
    }
}

/// What [quotient] leaves of `a`: it has the sign of `a`.
pub open spec fn remainder(a: int, b: int) -> int {
    a - b * quotient(a, b)
}

/// The bitwise "and" of two integers in two's complement with infinitely many sign bits.
pub open spec fn bits_and(a: int, b: int) -> int
    decreases magnitude(a),
{
    if a == 0 {
        0
    } else if a == -1 {
        b
    } else {
        2 * bits_and(a / 2, b / 2) + (if a % 2 == 1 && b % 2 == 1 { 1int } else { 0 })
    }
}

/// The bitwise "or" of two integers in two's complement with infinitely many sign bits.
pub open spec fn bits_or(a: int, b: int) -> int
    decreases magnitude(a),
{
    if a == 0 {
        b
    } else if a == -1 {
        -1
    } else {
        2 * bits_or(a / 2, b / 2) + (if a % 2 == 1 || b % 2 == 1 { 1int } else { 0 })
    }
}

/// The bitwise "exclusive or" of two integers in two's complement with infinitely many sign bits.
pub open spec fn bits_xor(a: int, b: int) -> int
    decreases magnitude(a),
{
    if a == 0 {
        b
    } else if a == -1 {
        -b - 1
    } else {
        2 * bits_xor(a / 2, b / 2) + (if a % 2 != b % 2 { 1int } else { 0 })
    }
}

/// Whether `c` is a decimal digit or a lower case letter of a hexadecimal number.
pub open spec fn is_hex_digit(c: char) -> bool {
    '0' <= c <= '9' || 'a' <= c <= 'f'
}

pub open spec fn hex_digit_value(c: char) -> int {
    if c <= '9' {
        c as int - '0' as int
    } else {
        c as int - 'a' as int + 10
    }
}

/// The value of the first `n` of `digits` as a hexadecimal number, most significant digit first.
pub open spec fn hex_value(digits: Seq<char>, n: nat) -> int
    decreases n,
{
    if n == 0 {
        0
    } else {
        16 * hex_value(digits, (n - 1) as nat) + hex_digit_value(digits[n - 1])
    }
}

/// Calls the addition of `num_bigint::BigInt`: the exact sum.
#[verifier::external_body]
fn big_add(a: &Vec<u8>, b: &Vec<u8>) -> (r: Vec<u8>)
    ensures
        signed_value(r@) == signed_value(a@) + signed_value(b@),
{
    let a = num_bigint::BigInt::from_signed_bytes_le(a);
    let b = num_bigint::BigInt::from_signed_bytes_le(b);
    (&a + &b).to_signed_bytes_le()
}

/// Calls the subtraction of `num_bigint::BigInt`: the exact difference.
#[verifier::external_body]
fn big_sub(a: &Vec<u8>, b: &Vec<u8>) -> (r: Vec<u8>)
    ensures
        signed_value(r@) == signed_value(a@) - signed_value(b@),
{
    let a = num_bigint::BigInt::from_signed_bytes_le(a);
    let b = num_bigint::BigInt::from_signed_bytes_le(b);
    (&a - &b).to_signed_bytes_le()
}

/// Calls the multiplication of `num_bigint::BigInt`: the exact product.
#[verifier::external_body]
fn big_mul(a: &Vec<u8>, b: &Vec<u8>) -> (r: Vec<u8>)
    ensures
        signed_value(r@) == signed_value(a@) * signed_value(b@),
{
    let a = num_bigint::BigInt::from_signed_bytes_le(a);
    let b = num_bigint::BigInt::from_signed_bytes_le(b);
    (&a * &b).to_signed_bytes_le()
}

/// Calls the division of `num_bigint::BigInt`: the quotient rounded towards zero. It panics on a
/// zero divisor.
#[verifier::external_body]
fn big_div(a: &Vec<u8>, b: &Vec<u8>) -> (r: Vec<u8>)
    requires
        signed_value(b@) != 0,
    ensures
        signed_value(r@) == quotient(signed_value(a@), signed_value(b@)),
{
    let a = num_bigint::BigInt::from_signed_bytes_le(a);
    let b = num_bigint::BigInt::from_signed_bytes_le(b);
    (&a / &b).to_signed_bytes_le()
}

/// Calls the remainder of `num_bigint::BigInt`: what the quotient rounded towards zero leaves of
/// the dividend. It panics on a zero divisor.
#[verifier::external_body]
fn big_rem(a: &Vec<u8>, b: &Vec<u8>) -> (r: Vec<u8>)
    requires
        signed_value(b@) != 0,
    ensures
        signed_value(r@) == remainder(signed_value(a@), signed_value(b@)),
{
    let a = num_bigint::BigInt::from_signed_bytes_le(a);
    let b = num_bigint::BigInt::from_signed_bytes_le(b);
    (&a % &b).to_signed_bytes_le()
}

/// Calls the negation of `num_bigint::BigInt`.
#[verifier::external_body]
fn big_neg(a: &Vec<u8>) -> (r: Vec<u8>)
    ensures
        signed_value(r@) == -signed_value(a@),
{
    (-&num_bigint::BigInt::from_signed_bytes_le(a)).to_signed_bytes_le()
}

/// Calls the bitwise "and" of `num_bigint::BigInt`, which takes its operands in two's complement.
#[verifier::external_body]
fn big_and(a: &Vec<u8>, b: &Vec<u8>) -> (r: Vec<u8>)
    ensures
        signed_value(r@) == bits_and(signed_value(a@), signed_value(b@)),
{
    let a = num_bigint::BigInt::from_signed_bytes_le(a);
    let b = num_bigint::BigInt::from_signed_bytes_le(b);
    (&a & &b).to_signed_bytes_le()
}

/// Calls the bitwise "or" of `num_bigint::BigInt`, which takes its operands in two's complement.
#[verifier::external_body]
fn big_or(a: &Vec<u8>, b: &Vec<u8>) -> (r: Vec<u8>)
    ensures
        signed_value(r@) == bits_or(signed_value(a@), signed_value(b@)),
{
    let a = num_bigint::BigInt::from_signed_bytes_le(a);
    let b = num_bigint::BigInt::from_signed_bytes_le(b);
    (&a | &b).to_signed_bytes_le()
}

/// Calls the bitwise "exclusive or" of `num_bigint::BigInt`, which takes its operands in two's
/// complement.
#[verifier::external_body]
fn big_xor(a: &Vec<u8>, b: &Vec<u8>) -> (r: Vec<u8>)
    ensures
        signed_value(r@) == bits_xor(signed_value(a@), signed_value(b@)),
{
    let a = num_bigint::BigInt::from_signed_bytes_le(a);
    let b = num_bigint::BigInt::from_signed_bytes_le(b);
    (&a ^ &b).to_signed_bytes_le()
}

/// Calls the left shift of `num_bigint::BigInt`: a multiplication by a power of two.
#[verifier::external_body]
fn big_shl(a: &Vec<u8>, bits: u8) -> (r: Vec<u8>)
    ensures
        signed_value(r@) == signed_value(a@) * pow2(bits as nat),
{
    (&num_bigint::BigInt::from_signed_bytes_le(a) << bits).to_signed_bytes_le()
}

/// Calls the right shift of `num_bigint::BigInt`: a division by a power of two, rounded down.
#[verifier::external_body]
fn big_shr(a: &Vec<u8>, bits: u8) -> (r: Vec<u8>)
    ensures
        signed_value(r@) == signed_value(a@) / (pow2(bits as nat) as int),
{
    (&num_bigint::BigInt::from_signed_bytes_le(a) >> bits).to_signed_bytes_le()
}

/// Calls the equality of `num_bigint::BigInt`.
#[verifier::external_body]
fn big_eq(a: &Vec<u8>, b: &Vec<u8>) -> (r: bool)
    ensures
        r == (signed_value(a@) == signed_value(b@)),
{
    num_bigint::BigInt::from_signed_bytes_le(a) == num_bigint::BigInt::from_signed_bytes_le(b)
}

/// Calls the order of `num_bigint::BigInt`.
#[verifier::external_body]
fn big_lt(a: &Vec<u8>, b: &Vec<u8>) -> (r: bool)
    ensures
        r == (signed_value(a@) < signed_value(b@)),
{
    num_bigint::BigInt::from_signed_bytes_le(a) < num_bigint::BigInt::from_signed_bytes_le(b)
}

/// Calls `num_traits::Zero::is_zero` on a `num_bigint::BigInt`.
#[verifier::external_body]
fn big_is_zero(a: &Vec<u8>) -> (r: bool)
    ensures
        r == (signed_value(a@) == 0),
{
    num_bigint::BigInt::from_signed_bytes_le(a).is_zero()
}

/// Calls `num_bigint::BigInt::from` on a `u128`.
#[verifier::external_body]
fn big_from_u128(n: u128) -> (r: Vec<u8>)
    ensures
        signed_value(r@) == n,
{
    num_bigint::BigInt::from(n).to_signed_bytes_le()
}

/// Calls `num_traits::Num::from_str_radix` of `num_bigint::BigInt` with the radix 16. Texts other
/// than plain lower case digits are left out: some of them are accepted, others are errors.
#[verifier::external_body]
fn big_from_hex(digits: &str) -> (r: Vec<u8>)
    requires
        digits@.len() > 0,
        forall|i: int| 0 <= i < digits@.len() ==> is_hex_digit(#[trigger] digits@[i]),
    ensures
        signed_value(r@) == hex_value(digits@, digits@.len()),
{
    num_bigint::BigInt::from_str_radix(digits, 16).unwrap().to_signed_bytes_le()
}

/// Calls `num_traits::ToPrimitive::to_usize` on a `num_bigint::BigInt`: the value, where a `usize`
/// can hold it.
#[verifier::external_body]
fn big_to_usize(a: &Vec<u8>) -> (r: Option<usize>)
    ensures
        r == (if 0 <= signed_value(a@) <= usize::MAX {
            Some(signed_value(a@) as usize)
        } else {
            None
        }),
{
    num_bigint::BigInt::from_signed_bytes_le(a).to_usize()
}

/// Calls the `Display` of `num_bigint::BigInt`, which writes the value in decimal.
#[verifier::external_body]
fn big_to_string(a: &Vec<u8>) -> (r: String)
    ensures
        r@ == int_text(signed_value(a@)),
{
    num_bigint::BigInt::from_signed_bytes_le(a).to_string()
}

/// An integer of any size, held as two's complement little-endian bytes.
#[derive(Debug)]
pub struct Integer {
    bytes: Vec<u8>,
}

impl View for Integer {
    type V = int;

    closed spec fn view(&self) -> int {
        signed_value(self.bytes@)
    }
}

impl Clone for Integer {
    fn clone(&self) -> (r: Self)
        ensures
            r@ == self@,
    {
        Integer { bytes: self.bytes.clone() }
    }
}

impl PartialEq for Integer {
    fn eq(&self, other: &Self) -> (r: bool) {
        big_eq(&self.bytes, &other.bytes)
    }
}

impl Eq for Integer {

}

impl vstd::std_specs::cmp::PartialEqSpecImpl for Integer {
    open spec fn obeys_eq_spec() -> bool {
        true
    }

    open spec fn eq_spec(&self, other: &Self) -> bool {
        self@ == other@
    }
}

impl Integer {
    /// The integer that `bytes` hold in two's complement, least significant byte first.
    pub fn from_signed_bytes_le(bytes: Vec<u8>) -> (r: Integer)
        ensures
            r@ == signed_value(bytes@),
    {
        Integer { bytes }
    }

    /// Bytes that hold the integer in two's complement, least significant byte first.
    pub fn to_signed_bytes_le(&self) -> (r: Vec<u8>)
        ensures
            signed_value(r@) == self@,
    {
        self.bytes.clone()
    }

    pub fn from_u128(n: u128) -> (r: Integer)
        ensures
            r@ == n,
    {
        Integer { bytes: big_from_u128(n) }
    }

    /// The integer with the given hexadecimal digits.
    pub fn from_hex(digits: &str) -> (r: Integer)
        requires
            digits@.len() > 0,
            forall|i: int| 0 <= i < digits@.len() ==> is_hex_digit(#[trigger] digits@[i]),
        ensures
            r@ == hex_value(digits@, digits@.len()),
    {
        Integer { bytes: big_from_hex(digits) }
    }

    pub fn plus(&self, other: &Integer) -> (r: Integer)
        ensures
            r@ == self@ + other@,
    {
        Integer { bytes: big_add(&self.bytes, &other.bytes) }
    }

    pub fn minus(&self, other: &Integer) -> (r: Integer)
        ensures
            r@ == self@ - other@,
    {
        Integer { bytes: big_sub(&self.bytes, &other.bytes) }
    }

    pub fn times(&self, other: &Integer) -> (r: Integer)
        ensures
            r@ == self@ * other@,
    {
        Integer { bytes: big_mul(&self.bytes, &other.bytes) }
    }

    /// The quotient rounded towards zero.
    pub fn div(&self, other: &Integer) -> (r: Integer)
        requires
            other@ != 0,
        ensures
            r@ == quotient(self@, other@),
    {
        Integer { bytes: big_div(&self.bytes, &other.bytes) }
    }

    /// The remainder that goes with [Self::div].
    pub fn rem(&self, other: &Integer) -> (r: Integer)
        requires
            other@ != 0,
        ensures
            r@ == remainder(self@, other@),
    {
        Integer { bytes: big_rem(&self.bytes, &other.bytes) }
    }

    pub fn negated(&self) -> (r: Integer)
        ensures
            r@ == -self@,
    {
        Integer { bytes: big_neg(&self.bytes) }
    }

    pub fn bitand(&self, other: &Integer) -> (r: Integer)
        ensures
            r@ == bits_and(self@, other@),
    {
        Integer { bytes: big_and(&self.bytes, &other.bytes) }
    }

    pub fn bitor(&self, other: &Integer) -> (r: Integer)
        ensures
            r@ == bits_or(self@, other@),
    {
        Integer { bytes: big_or(&self.bytes, &other.bytes) }
    }

    pub fn bitxor(&self, other: &Integer) -> (r: Integer)
        ensures
            r@ == bits_xor(self@, other@),
    {
        Integer { bytes: big_xor(&self.bytes, &other.bytes) }
    }

    pub fn shl(&self, bits: u8) -> (r: Integer)
        ensures
            r@ == self@ * pow2(bits as nat),
    {
        Integer { bytes: big_shl(&self.bytes, bits) }
    }

    /// The quotient by a power of two, rounded down.
    pub fn shr(&self, bits: u8) -> (r: Integer)
        ensures
            r@ == self@ / (pow2(bits as nat) as int),
    {
        Integer { bytes: big_shr(&self.bytes, bits) }
    }

    pub fn less(&self, other: &Integer) -> (r: bool)
        ensures
            r == (self@ < other@),
    {
        big_lt(&self.bytes, &other.bytes)
    }

    pub fn is_zero(&self) -> (r: bool)
        ensures
            r == (self@ == 0),
    {
        big_is_zero(&self.bytes)
    }

    pub fn to_usize(&self) -> (r: Option<usize>)
        ensures
            r == (if 0 <= self@ <= usize::MAX { Some(self@ as usize) } else { None }),
    {
        big_to_usize(&self.bytes)
    }

    /// The decimal text of the integer.
    pub fn text(&self) -> (r: String)
        ensures
            r@ == int_text(self@),
    {
        big_to_string(&self.bytes)
    }
}


/// The low `bits` bits of `v` are what `v` leaves modulo a power of two.
pub proof fn lemma_low_bits(v: int, bits: nat)
    ensures
        bits_and(v, pow2(bits) - 1) == v % (pow2(bits) as int),
    decreases magnitude(v),
{
    let p = pow2(bits) as int;
    lemma_pow2_pos(bits);
    if v == 0 {
        assert(0int % p == 0) by (nonlinear_arith)
            requires
                p > 0,
        ;
    } else if v == -1 {
        assert(-1int % p == p - 1) by (nonlinear_arith)
            requires
                p > 0,
        ;
    } else if bits == 0 {
        lemma2_to64();
        lemma_low_bits(v / 2, 0);
        assert((v / 2) % 1 == 0);
        assert(v % 1 == 0);
    } else {
        let half = pow2((bits - 1) as nat) as int;
        lemma_pow2_unfold(bits);
        lemma_pow2_pos((bits - 1) as nat);
        lemma_low_bits(v / 2, (bits - 1) as nat);
        let h = v / 2;
        let q = h / half;
        let r = h % half;
        assert(h == half * q + r && 0 <= r < half) by (nonlinear_arith)
            requires
                half > 0,
                q == h / half,
                r == h % half,
        ;
        let b = v % 2;
        assert(v == p * q + (2 * r + b)) by (nonlinear_arith)
            requires
                v == 2 * h + b,
                h == half * q + r,
                p == 2 * half,
        ;
        assert(v % p == 2 * r + b) by (nonlinear_arith)
            requires
                v == p * q + (2 * r + b),
                0 <= 2 * r + b < p,
        ;
    }
}

/// Two to the power of 128.
pub proof fn lemma_pow2_128()
    ensures
        pow2(128) == 0x1_0000_0000_0000_0000_0000_0000_0000_0000,
{
    lemma2_to64();
    lemma2_to64_rest();
    lemma_pow2_adds(64, 64);
    assert(0x1_0000_0000_0000_0000 * 0x1_0000_0000_0000_0000
        == 0x1_0000_0000_0000_0000_0000_0000_0000_0000int) by (nonlinear_arith);
}

/// The order of the field of the type `felt252`.
pub open spec fn felt252_prime() -> int {
    0x800000000000011000000000000000000000000000000000000000000000001int
}

/// The order of the field of the type `felt252`.
pub fn felt252_modulus() -> (r: Integer)
    ensures
        r@ == felt252_prime(),
{
    proof {
        reveal_strlit("800000000000011000000000000000000000000000000000000000000000001");
        let s = "800000000000011000000000000000000000000000000000000000000000001"@;
        assert(s.len() == 63);
        assert(hex_value(s, 16) == 0x8000000000000110int) by {
            reveal_with_fuel(hex_value, 17);
        }
        assert(hex_value(s, 32) == 0x80000000000001100000000000000000int) by {
            reveal_with_fuel(hex_value, 17);
        }
        assert(hex_value(s, 48) == 0x800000000000011000000000000000000000000000000000int) by {
            reveal_with_fuel(hex_value, 17);
        }
        assert(hex_value(s, 63) == felt252_prime()) by {
            reveal_with_fuel(hex_value, 17);
        }
    }
    Integer::from_hex("800000000000011000000000000000000000000000000000000000000000001")
}

/// A quotient and its remainder give back what was divided; the remainder is smaller than the
/// divisor, and not of the other sign than what was divided.
pub proof fn division_adds_up(a: int, b: int)
    requires
        b != 0,
    ensures
        quotient(a, b) * b + remainder(a, b) == a,
        magnitude(remainder(a, b)) < magnitude(b),
        a >= 0 ==> remainder(a, b) >= 0,
        a <= 0 ==> remainder(a, b) <= 0,
{
    let m = magnitude(a) as int;
    let n = magnitude(b) as int;
    let q = m / n;
    assert(quotient(a, b) * b == b * quotient(a, b)) by (nonlinear_arith);
    assert(m == n * q + m % n && 0 <= m % n < n) by (nonlinear_arith)
        requires
            n > 0,
            q == m / n,
    ;
    assert((-b) * q == -(b * q) && b * (-q) == -(b * q) && (-b) * (-q) == b * q)
        by (nonlinear_arith);
}

/// The bit of an integer with the given weight, counted from the lowest, in two's complement.
pub open spec fn bit(a: int, i: nat) -> bool
    decreases i,
{
    if i == 0 {
        a % 2 == 1
    } else {
        bit(a / 2, (i - 1) as nat)
    }
}

/// A bit of the bitwise "and" is set where it is in both numbers, of "or" where it is in one of
/// them, and of "exclusive or" where it is in exactly one of them.
pub proof fn bitwise_results_have_their_bits(a: int, b: int, i: nat)
    ensures
        bit(bits_and(a, b), i) == (bit(a, i) && bit(b, i)),
        bit(bits_or(a, b), i) == (bit(a, i) || bit(b, i)),
        bit(bits_xor(a, b), i) == (bit(a, i) != bit(b, i)),
    decreases i,
{
    reveal_with_fuel(bits_and, 2);
    reveal_with_fuel(bits_or, 2);
    reveal_with_fuel(bits_xor, 2);
    let x = a / 2;
    let y = b / 2;
    if a == 0 || a == -1 {
        lemma_sign_bits(i);
        lemma_complement(b, i);
    } else if i > 0 {
        bitwise_results_have_their_bits(x, y, (i - 1) as nat);
        assert(bits_and(a, b) / 2 == bits_and(x, y));
        assert(bits_or(a, b) / 2 == bits_or(x, y));
        assert(bits_xor(a, b) / 2 == bits_xor(x, y));
    }
}

proof fn lemma_sign_bits(i: nat)
    ensures
        !bit(0, i),
        bit(-1, i),
    decreases i,
{
    if i > 0 {
        lemma_sign_bits((i - 1) as nat);
    }
}

proof fn lemma_complement(a: int, i: nat)
    ensures
        bit(-a - 1, i) == !bit(a, i),
    decreases i,
{
    if i > 0 {
        lemma_complement(a / 2, (i - 1) as nat);
        assert((-a - 1) / 2 == -(a / 2) - 1);
    }
}

} // verus!
