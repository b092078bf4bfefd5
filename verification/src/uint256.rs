//! Unsigned 256-bit integers, as four 64-bit words, least significant first.
//!
//! The arithmetic is done by `ethereum_types::U256`, which has the same
//! layout; the contracts of the four calls into it are assumed, not proved.

use ethereum_types::U256;
use vstd::prelude::*;

verus! {

/// 2^64, the weight of one word.
pub open spec fn word_base() -> nat {
    0x1_0000_0000_0000_0000
}

/// 2^256, the least number that does not fit.
pub open spec fn uint256_limit() -> nat {
    word_base() * word_base() * word_base() * word_base()
}

/// The number that four words stand for.
pub open spec fn words_value(w0: u64, w1: u64, w2: u64, w3: u64) -> nat {
    (w0 as nat) + (w1 as nat) * word_base() + (w2 as nat) * word_base() * word_base() + (w3 as nat)
        * word_base() * word_base() * word_base()
}

#[derive(Clone, Copy, Debug, PartialEq, Eq, Hash)]
pub struct Uint256 {
    pub limbs: [u64; 4],
}

impl View for Uint256 {
    type V = nat;

    open spec fn view(&self) -> nat {
        words_value(self.limbs[0], self.limbs[1], self.limbs[2], self.limbs[3])
    }
}

/// The value that stands for a number below 2^256.
pub open spec fn uint256_of(n: nat) -> Uint256 {
    Uint256 {
        limbs: [
            (n % word_base()) as u64,
            (n / word_base() % word_base()) as u64,
            (n / word_base() / word_base() % word_base()) as u64,
            (n / word_base() / word_base() / word_base() % word_base()) as u64,
        ],
    }
}

/// A value is the one that stands for its number.
pub proof fn lemma_uint256_of(x: Uint256)
    ensures
        uint256_of(x@) == x,
{
    let b = word_base() as int;
    let w0 = x.limbs[0] as int;
    let w1 = x.limbs[1] as int;
    let w2 = x.limbs[2] as int;
    let w3 = x.limbs[3] as int;
    let n = x@ as int;
    let h1 = w1 + w2 * b + w3 * b * b;
    let h2 = w2 + w3 * b;
    assert(n == w0 + h1 * b) by (nonlinear_arith)
        requires
            n == w0 + w1 * b + w2 * b * b + w3 * b * b * b,
            h1 == w1 + w2 * b + w3 * b * b,
    ;
    assert(h1 == w1 + h2 * b) by (nonlinear_arith)
        requires
            h1 == w1 + w2 * b + w3 * b * b,
            h2 == w2 + w3 * b,
    ;
    lemma_digit(w0, h1, b);
    lemma_digit(w1, h2, b);
    lemma_digit(w2, w3, b);
    assert(w3 % b == w3);
    assert(uint256_of(x@).limbs =~= x.limbs);
}

/// The low digit and the rest of a number in a given base.
proof fn lemma_digit(lo: int, hi: int, b: int)
    requires
        b > 0,
        0 <= lo < b,
        0 <= hi,
    ensures
        (lo + hi * b) % b == lo,
        (lo + hi * b) / b == hi,
{
    vstd::arithmetic::div_mod::lemma_fundamental_div_mod_converse(lo + hi * b, b, hi, lo);
}

/// Every value is below 2^256.
pub proof fn lemma_value_bounded(x: Uint256)
    ensures
        x@ < uint256_limit(),
{
    let b = word_base() as int;
    let w0 = x.limbs[0] as int;
    let w1 = x.limbs[1] as int;
    let w2 = x.limbs[2] as int;
    let w3 = x.limbs[3] as int;
    assert(w1 * b <= (b - 1) * b) by (nonlinear_arith)
        requires
            0 <= w1 <= b - 1,
            b > 0,
    ;
    assert(w2 * b * b <= (b - 1) * b * b) by (nonlinear_arith)
        requires
            0 <= w2 <= b - 1,
            b > 0,
    ;
    assert(w3 * b * b * b <= (b - 1) * b * b * b) by (nonlinear_arith)
        requires
            0 <= w3 <= b - 1,
            b > 0,
    ;
    assert((b - 1) + (b - 1) * b + (b - 1) * b * b + (b - 1) * b * b * b == b * b * b * b - 1)
        by (nonlinear_arith);
}

/// Two values with the same number have the same words.
pub proof fn lemma_value_injective(x: Uint256, y: Uint256)
    requires
        x@ == y@,
    ensures
        x == y,
{
    let b = word_base() as int;
    let hx = x.limbs[1] as int + x.limbs[2] as int * b + x.limbs[3] as int * b * b;
    let hy = y.limbs[1] as int + y.limbs[2] as int * b + y.limbs[3] as int * b * b;
    assert(x@ == x.limbs[0] as int + hx * b) by (nonlinear_arith)
        requires
            x@ == x.limbs[0] as int + x.limbs[1] as int * b + x.limbs[2] as int * b * b
                + x.limbs[3] as int * b * b * b,
            hx == x.limbs[1] as int + x.limbs[2] as int * b + x.limbs[3] as int * b * b,
    ;
    assert(y@ == y.limbs[0] as int + hy * b) by (nonlinear_arith)
        requires
            y@ == y.limbs[0] as int + y.limbs[1] as int * b + y.limbs[2] as int * b * b
                + y.limbs[3] as int * b * b * b,
            hy == y.limbs[1] as int + y.limbs[2] as int * b + y.limbs[3] as int * b * b,
    ;
    lemma_split_unique(x.limbs[0] as int, hx, y.limbs[0] as int, hy, b);
    let gx = x.limbs[2] as int + x.limbs[3] as int * b;
    let gy = y.limbs[2] as int + y.limbs[3] as int * b;
    assert(hx == x.limbs[1] as int + gx * b) by (nonlinear_arith)
        requires
            hx == x.limbs[1] as int + x.limbs[2] as int * b + x.limbs[3] as int * b * b,
            gx == x.limbs[2] as int + x.limbs[3] as int * b,
    ;
    assert(hy == y.limbs[1] as int + gy * b) by (nonlinear_arith)
        requires
            hy == y.limbs[1] as int + y.limbs[2] as int * b + y.limbs[3] as int * b * b,
            gy == y.limbs[2] as int + y.limbs[3] as int * b,
    ;
    lemma_split_unique(x.limbs[1] as int, gx, y.limbs[1] as int, gy, b);
    lemma_split_unique(x.limbs[2] as int, x.limbs[3] as int, y.limbs[2] as int, y.limbs[3] as int, b);
    assert(x.limbs =~= y.limbs);
}

/// A number has one low digit and one rest in a given base.
proof fn lemma_split_unique(lo1: int, hi1: int, lo2: int, hi2: int, b: int)
    by (nonlinear_arith)
    requires
        b > 0,
        0 <= lo1 < b,
        0 <= lo2 < b,
        lo1 + hi1 * b == lo2 + hi2 * b,
    ensures
        lo1 == lo2,
        hi1 == hi2,
{
    if hi1 < hi2 {
        assert(hi1 * b + b <= hi2 * b);
    } else if hi2 < hi1 {
        assert(hi2 * b + b <= hi1 * b);
    }
}

/// `U256::checked_add`: the sum where it is below 2^256, and nothing else.
#[verifier::external_body]
fn u256_checked_add(a: Uint256, b: Uint256) -> (sum: Option<Uint256>)
    ensures
        match sum {
            Some(s) => s@ == a@ + b@,
            None => a@ + b@ >= uint256_limit(),
        },
{
    U256(a.limbs).checked_add(U256(b.limbs)).map(|s| Uint256 { limbs: s.0 })
}

/// `U256::checked_mul`: the product where it is below 2^256, and nothing else.
#[verifier::external_body]
fn u256_checked_mul(a: Uint256, b: Uint256) -> (product: Option<Uint256>)
    ensures
        match product {
            Some(p) => p@ == a@ * b@,
            None => a@ * b@ >= uint256_limit(),
        },
{
    U256(a.limbs).checked_mul(U256(b.limbs)).map(|p| Uint256 { limbs: p.0 })
}

/// `U256::div_mod`: quotient and remainder of a division by a number that is not zero.
#[verifier::external_body]
fn u256_div_mod(a: Uint256, b: Uint256) -> (qr: (Uint256, Uint256))
    requires
        b@ != 0,
    ensures
        qr.0@ == a@ / b@,
        qr.1@ == a@ % b@,
{
    let (q, r) = U256(a.limbs).div_mod(U256(b.limbs));
    (Uint256 { limbs: q.0 }, Uint256 { limbs: r.0 })
}

/// `U256::saturating_sub`: the difference, or zero where it would be negative.
#[verifier::external_body]
fn u256_saturating_sub(a: Uint256, b: Uint256) -> (difference: Uint256)
    ensures
        difference@ == (if a@ >= b@ { a@ - b@ } else { 0 }),
{
    Uint256 { limbs: U256(a.limbs).saturating_sub(U256(b.limbs)).0 }
}

impl Uint256 {
    /// The value of one 64-bit number.
    pub fn from_u64(value: u64) -> (r: Uint256)
        ensures
            r@ == value,
    {
        Uint256 { limbs: [value, 0, 0, 0] }
    }

    pub fn zero() -> (r: Uint256)
        ensures
            r@ == 0,
    {
        Uint256::from_u64(0)
    }

    pub fn one() -> (r: Uint256)
        ensures
            r@ == 1,
    {
        Uint256::from_u64(1)
    }

    pub fn is_zero(&self) -> (r: bool)
        ensures
            r == (self@ == 0),
    {
        proof {
            let b = word_base() as int;
            assert(self.limbs[1] as int * b >= 0) by (nonlinear_arith)
                requires
                    self.limbs[1] as int >= 0,
                    b > 0,
            ;
            assert(self.limbs[1] != 0 ==> self.limbs[1] as int * b > 0) by (nonlinear_arith)
                requires
                    self.limbs[1] as int >= 0,
                    b > 0,
            ;
            assert(self.limbs[2] as int * b * b >= 0) by (nonlinear_arith)
                requires
                    self.limbs[2] as int >= 0,
                    b > 0,
            ;
            assert(self.limbs[2] != 0 ==> self.limbs[2] as int * b * b > 0) by (nonlinear_arith)
                requires
                    self.limbs[2] as int >= 0,
                    b > 0,
            ;
            assert(self.limbs[3] as int * b * b * b >= 0) by (nonlinear_arith)
                requires
                    self.limbs[3] as int >= 0,
                    b > 0,
            ;
            assert(self.limbs[3] != 0 ==> self.limbs[3] as int * b * b * b > 0)
                by (nonlinear_arith)
                requires
                    self.limbs[3] as int >= 0,
                    b > 0,
            ;
        }
        self.limbs[0] == 0 && self.limbs[1] == 0 && self.limbs[2] == 0 && self.limbs[3] == 0
    }

    /// Whether two values are the same number.
    pub fn same(&self, other: &Uint256) -> (r: bool)
        ensures
            r == (self@ == other@),
            r == (*self == *other),
    {
        let r = self.limbs[0] == other.limbs[0] && self.limbs[1] == other.limbs[1]
            && self.limbs[2] == other.limbs[2] && self.limbs[3] == other.limbs[3];
        proof {
            if r {
                assert(self.limbs =~= other.limbs);
            } else if self@ == other@ {
                lemma_value_injective(*self, *other);
            }
        }
        r
    }

    /// The sum, where it fits.
    pub fn checked_add(self, other: Uint256) -> (r: Option<Uint256>)
        ensures
            match r {
                Some(s) => s@ == self@ + other@,
                None => self@ + other@ >= uint256_limit(),
            },
    {
        u256_checked_add(self, other)
    }

    /// The product, where it fits.
    pub fn checked_mul(self, other: Uint256) -> (r: Option<Uint256>)
        ensures
            match r {
                Some(p) => p@ == self@ * other@,
                None => self@ * other@ >= uint256_limit(),
            },
    {
        u256_checked_mul(self, other)
    }

    /// Quotient and remainder, where the divisor is not zero.
    pub fn checked_div_rem(self, other: Uint256) -> (r: Option<(Uint256, Uint256)>)
        ensures
            match r {
                Some(qr) => other@ != 0 && qr.0@ == self@ / other@ && qr.1@ == self@ % other@,
                None => other@ == 0,
            },
    {
        if other.is_zero() {
            None
        } else {
            Some(u256_div_mod(self, other))
        }
    }

    /// The difference, or zero where it would be negative.
    pub fn saturating_sub(self, other: Uint256) -> (r: Uint256)
        ensures
            r@ == (if self@ >= other@ { self@ - other@ } else { 0 }),
    {
        u256_saturating_sub(self, other)
    }
}

} // verus!
