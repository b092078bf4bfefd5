//! The base fee of a block, from its parent's fee and gas (EIP-1559).

use crate::uint256::{lemma_value_bounded, uint256_limit, Uint256};
use vstd::arithmetic::div_mod::{
    lemma_div_denominator, lemma_div_is_ordered, lemma_div_multiples_vanish,
    lemma_div_pos_is_pos, lemma_fundamental_div_mod, lemma_hoist_over_denominator,
    lemma_mod_bound,
};
use vstd::prelude::*;

verus! {

/// A block may use this many times its gas target.
pub const ELASTICITY_MULTIPLIER: u64 = 2;

/// The fee moves by at most one part in this many per block.
pub const BASE_FEE_MAX_CHANGE_DENOMINATOR: u64 = 8;

/// The gas target of a block with the given gas limit.
pub open spec fn gas_target(gas_limit: u64) -> nat {
    (gas_limit / ELASTICITY_MULTIPLIER) as nat
}

/// The fee times the distance from the target, over the target, over the
/// change denominator, each division rounding down.
pub open spec fn scaled_change(base_fee: nat, gas_delta: nat, target: nat) -> nat {
    (base_fee * gas_delta / target / (BASE_FEE_MAX_CHANGE_DENOMINATOR as nat)) as nat
}

/// The base fee after a parent with the given fee, gas used and gas limit. At the
/// target it stays; above, it rises by the scaled change, and by one at least;
/// below, it falls by the scaled change, and not under zero.
pub open spec fn expected_base_fee(base_fee: nat, gas_used: u64, gas_limit: u64) -> nat {
    let target = gas_target(gas_limit);
    if gas_used == target {
        base_fee
    } else if gas_used > target {
        let change = scaled_change(base_fee, (gas_used - target) as nat, target);
        base_fee + (if change >= 1 { change } else { 1 })
    } else {
        let change = scaled_change(base_fee, (target - gas_used) as nat, target);
        if base_fee >= change { (base_fee - change) as nat } else { 0 }
    }
}

/// Where the formula has a value in 256 bits: above the target, the target is
/// not zero and the raised fee is below 2^256.
pub open spec fn base_fee_defined(base_fee: nat, gas_used: u64, gas_limit: u64) -> bool {
    gas_used > gas_target(gas_limit) ==> gas_target(gas_limit) > 0 && expected_base_fee(
        base_fee,
        gas_used,
        gas_limit,
    ) < uint256_limit()
}

/// At the target the fee does not move.
pub proof fn lemma_base_fee_at_target(base_fee: nat, gas_used: u64, gas_limit: u64)
    requires
        gas_used == gas_limit / 2,
    ensures
        expected_base_fee(base_fee, gas_used, gas_limit) == base_fee,
{
}

/// Above the target the fee rises, and by exactly one where the scaled change
/// rounds to zero.
pub proof fn lemma_base_fee_above_target(base_fee: nat, gas_used: u64, gas_limit: u64)
    requires
        gas_used > gas_limit / 2,
    ensures
        expected_base_fee(base_fee, gas_used, gas_limit) > base_fee,
        scaled_change(base_fee, (gas_used - gas_limit / 2) as nat, gas_target(gas_limit)) == 0
            ==> expected_base_fee(base_fee, gas_used, gas_limit) == base_fee + 1,
{
}

/// Below the target the fee does not rise, and stays a natural number.
pub proof fn lemma_base_fee_below_target(base_fee: nat, gas_used: u64, gas_limit: u64)
    requires
        gas_used < gas_limit / 2,
    ensures
        0 <= expected_base_fee(base_fee, gas_used, gas_limit) <= base_fee,
{
}

/// Below the target the scaled change is at most an eighth of the fee, so the
/// subtraction never saturates.
pub proof fn lemma_decrease_within_fee(base_fee: nat, gas_delta: nat, target: nat)
    requires
        gas_delta <= target,
        target > 0,
    ensures
        scaled_change(base_fee, gas_delta, target) <= base_fee / 8,
{
    let b = base_fee as int;
    let d = gas_delta as int;
    let t = target as int;
    assert(b * d <= b * t) by (nonlinear_arith)
        requires
            0 <= b,
            0 <= d <= t,
    ;
    assert(0 <= b * d) by (nonlinear_arith)
        requires
            0 <= b,
            0 <= d,
    ;
    lemma_div_is_ordered(b * d, b * t, t);
    assert(b * t == t * b) by (nonlinear_arith);
    lemma_div_multiples_vanish(b, t);
    assert((b * t) / t == b);
    lemma_div_pos_is_pos(b * d, t);
    lemma_div_is_ordered(b * d / t, b, 8);
}

/// Dividing twice is dividing by the product, and a division can be done on
/// the quotient and the remainder of the dividend apart.
proof fn lemma_scaled_by_parts(base_fee: nat, gas_delta: nat, target: nat)
    requires
        target > 0,
    ensures
        scaled_change(base_fee, gas_delta, target) == (base_fee / (8 * target)) * gas_delta + ((
        base_fee % (8 * target)) * gas_delta) / (8 * target),
{
    let b = base_fee as int;
    let d = gas_delta as int;
    let t = target as int;
    let m = 8 * t;
    let q = b / m;
    let r = b % m;
    assert(0 <= b * d) by (nonlinear_arith)
        requires
            0 <= b,
            0 <= d,
    ;
    lemma_div_denominator(b * d, t, 8);
    assert(t * 8 == m);
    lemma_fundamental_div_mod(b, m);
    assert(b * d == r * d + (q * d) * m) by (nonlinear_arith)
        requires
            b == m * q + r,
    ;
    lemma_hoist_over_denominator(r * d, q * d, m as nat);
    lemma_mod_bound(b, m);
    assert(0 <= r * d) by (nonlinear_arith)
        requires
            0 <= r,
            0 <= d,
    ;
    lemma_div_pos_is_pos(b, m);
    assert(0 <= q * d) by (nonlinear_arith)
        requires
            0 <= q,
            0 <= d,
    ;
    lemma_div_pos_is_pos(r * d, m);
    lemma_div_pos_is_pos(b * d, t);
    lemma_div_pos_is_pos(b * d / t, 8);
}

/// The scaled change, where it is below 2^256.
fn scaled_change_of(base_fee: Uint256, gas_delta: u64, target: u64) -> (change: Option<Uint256>)
    requires
        0 < target <= u64::MAX / 2,
    ensures
        match change {
            Some(c) => c@ == scaled_change(base_fee@, gas_delta as nat, target as nat),
            None => scaled_change(base_fee@, gas_delta as nat, target as nat) >= uint256_limit(),
        },
{
    proof {
        lemma_scaled_by_parts(base_fee@, gas_delta as nat, target as nat);
        lemma_value_bounded(base_fee);
    }
    let ghost m = 8 * (target as int);
    let ghost d = gas_delta as int;
    let divisor = match Uint256::from_u64(target).checked_mul(
        Uint256::from_u64(BASE_FEE_MAX_CHANGE_DENOMINATOR),
    ) {
        Some(v) => v,
        None => {
            proof {
                assert(target * 8 < uint256_limit()) by (nonlinear_arith)
                    requires
                        target < 0x1_0000_0000_0000_0000,
                        uint256_limit() == 0x1_0000_0000_0000_0000 * 0x1_0000_0000_0000_0000
                            * 0x1_0000_0000_0000_0000 * 0x1_0000_0000_0000_0000,
                ;
            }
            return None;
        },
    };
    assert(divisor@ == m) by (nonlinear_arith)
        requires
            divisor@ == target * 8,
            m == 8 * (target as int),
    ;
    let (quotient, remainder) = match base_fee.checked_div_rem(divisor) {
        Some(qr) => qr,
        None => {
            return None;
        },
    };
    let delta = Uint256::from_u64(gas_delta);
    proof {
        lemma_mod_bound(base_fee@ as int, m);
        lemma_div_pos_is_pos(base_fee@ as int, m);
        assert(0 <= quotient@ * d) by (nonlinear_arith)
            requires
                0 <= quotient@,
                0 <= d,
        ;
        assert(0 <= remainder@ * d) by (nonlinear_arith)
            requires
                0 <= remainder@,
                0 <= d,
        ;
        lemma_div_pos_is_pos(remainder@ * d, m);
    }
    let low = match remainder.checked_mul(delta) {
        Some(v) => v,
        None => {
            proof {
                assert(remainder@ * d < uint256_limit()) by (nonlinear_arith)
                    requires
                        0 <= remainder@ < m,
                        m <= 8 * 0x1_0000_0000_0000_0000,
                        0 <= d < 0x1_0000_0000_0000_0000,
                        uint256_limit() == 0x1_0000_0000_0000_0000 * 0x1_0000_0000_0000_0000
                            * 0x1_0000_0000_0000_0000 * 0x1_0000_0000_0000_0000,
                ;
            }
            return None;
        },
    };
    let (low_quotient, _) = match low.checked_div_rem(divisor) {
        Some(qr) => qr,
        None => {
            return None;
        },
    };
    let high = match quotient.checked_mul(delta) {
        Some(v) => v,
        None => {
            return None;
        },
    };
    high.checked_add(low_quotient)
}

/// The base fee after the given parent, where the formula has a value in 256
/// bits, and nothing where it has none.
pub fn checked_base_fee_per_gas(
    parent_base_fee_per_gas: Uint256,
    parent_gas_used: u64,
    parent_gas_limit: u64,
) -> (fee: Option<Uint256>)
    ensures
        fee is Some <==> base_fee_defined(
            parent_base_fee_per_gas@,
            parent_gas_used,
            parent_gas_limit,
        ),
        fee matches Some(f) ==> f@ == expected_base_fee(
            parent_base_fee_per_gas@,
            parent_gas_used,
            parent_gas_limit,
        ),
{
    let parent_gas_target = parent_gas_limit / ELASTICITY_MULTIPLIER;
    proof {
        lemma_value_bounded(parent_base_fee_per_gas);
    }
    if parent_gas_used == parent_gas_target {
        Some(parent_base_fee_per_gas)
    } else if parent_gas_used > parent_gas_target {
        if parent_gas_target == 0 {
            return None;
        }
        let gas_used_delta = parent_gas_used - parent_gas_target;
        match scaled_change_of(parent_base_fee_per_gas, gas_used_delta, parent_gas_target) {
            Some(change) => {
                let base_fee_per_gas_delta = if change.is_zero() {
                    Uint256::one()
                } else {
                    change
                };
                parent_base_fee_per_gas.checked_add(base_fee_per_gas_delta)
            },
            None => None,
        }
    } else {
        let gas_used_delta = parent_gas_target - parent_gas_used;
        proof {
            lemma_decrease_within_fee(
                parent_base_fee_per_gas@,
                gas_used_delta as nat,
                parent_gas_target as nat,
            );
        }
        match scaled_change_of(parent_base_fee_per_gas, gas_used_delta, parent_gas_target) {
            Some(change) => Some(parent_base_fee_per_gas.saturating_sub(change)),
            None => None,
        }
    }
}

/// The base fee after the given parent.
pub fn expected_base_fee_per_gas(
    parent_base_fee_per_gas: Uint256,
    parent_gas_used: u64,
    parent_gas_limit: u64,
) -> (fee: Uint256)
    requires
        base_fee_defined(parent_base_fee_per_gas@, parent_gas_used, parent_gas_limit),
    ensures
        fee@ == expected_base_fee(parent_base_fee_per_gas@, parent_gas_used, parent_gas_limit),
{
    match checked_base_fee_per_gas(parent_base_fee_per_gas, parent_gas_used, parent_gas_limit) {
        Some(fee) => fee,
        None => parent_base_fee_per_gas,
    }
}

} // verus!
