//! Base-fee prediction for the next block, and the admission filter that
//! compares a transaction's fee cap against it.

use vstd::prelude::*;
use vstd::arithmetic::div_mod::{lemma_div_is_ordered, lemma_div_is_ordered_by_denominator, lemma_div_multiples_vanish};
use vstd::arithmetic::mul::lemma_mul_inequality;

verus! {

/// The gas target of a block: half its gas limit.
pub open spec fn gas_target(gas_limit: u64) -> int {
    gas_limit as int / 2
}

/// The base fee the next block must charge, given how full the current
/// block was against its target:
/// - at the target, the fee is unchanged;
/// - above it, the fee rises by an eighth of its proportional excess,
///   and by one unit at least;
/// - below it, the fee falls by an eighth of its proportional shortfall.
/// All divisions truncate.
pub open spec fn next_base_fee_of(gas_used: u64, gas_limit: u64, base_fee: u64) -> int {
    let target = gas_target(gas_limit);
    let base = base_fee as int;
    if gas_used as int == target {
        base
    } else if gas_used as int > target {
        let raise = base * (gas_used as int - target) / target / 8;
        base + (if raise > 1 {
            raise
        } else {
            1
        })
    } else {
        base - base * (target - gas_used as int) / target / 8
    }
}

/// Predicts the next block's base fee from the current block's gas
/// usage, gas limit and base fee. A block that is off target with a zero
/// gas target is excluded: the ratio to the target is undefined there.
pub fn calculate_next_block_base_fee(gas_used: u64, gas_limit: u64, base_fee_per_gas: u64) -> (r:
    u128)
    requires
        gas_used as int != gas_target(gas_limit) ==> gas_target(gas_limit) > 0,
    ensures
        r as int == next_base_fee_of(gas_used, gas_limit, base_fee_per_gas),
{
    let target: u64 = gas_limit / 2;
    let base: u128 = base_fee_per_gas as u128;
    if gas_used == target {
        base
    } else if gas_used > target {
        let delta: u128 = (gas_used - target) as u128;
        proof {
            assert(base * delta < 0x1_0000_0000_0000_0000_0000_0000_0000_0000) by (nonlinear_arith)
                requires
                    0 <= base < 0x1_0000_0000_0000_0000,
                    0 <= delta < 0x1_0000_0000_0000_0000,
            ;
        }
        let raise: u128 = base * delta / (target as u128) / 8;
        proof {
            lemma_div_is_ordered_by_denominator(base * delta, 1, target as int);
            lemma_div_is_ordered_by_denominator(base * delta / (target as int), 1, 8);
            assert(raise <= base * delta);
        }
        base + (if raise > 1 {
            raise
        } else {
            1
        })
    } else {
        let delta: u128 = (target - gas_used) as u128;
        proof {
            assert(base * delta < 0x1_0000_0000_0000_0000_0000_0000_0000_0000) by (nonlinear_arith)
                requires
                    0 <= base < 0x1_0000_0000_0000_0000,
                    0 <= delta < 0x1_0000_0000_0000_0000,
            ;
        }
        let cut: u128 = base * delta / (target as u128) / 8;
        proof {
            lemma_mul_inequality(delta as int, target as int, base as int);
            assert(base * delta <= base * target) by (nonlinear_arith)
                requires
                    delta <= target,
                    base >= 0,
            ;
            lemma_div_is_ordered(base * delta, base * target, target as int);
            lemma_div_multiples_vanish(base as int, target as int);
            assert(base * delta / (target as int) <= base);
            lemma_div_is_ordered_by_denominator(base * delta / (target as int), 1, 8);
            assert(cut <= base);
        }
        base - cut
    }
}

/// A transaction's fee cap, read as zero where it names none.
pub open spec fn fee_cap_or_zero(max_fee_per_gas: Option<u128>) -> int {
    match max_fee_per_gas {
        Option::Some(f) => f as int,
        Option::None => 0,
    }
}

/// The admission predicate: the transaction's fee cap, zero where it
/// names none, must strictly exceed the predicted next base fee.
pub open spec fn admitted(max_fee_per_gas: Option<u128>, next_base_fee: u128) -> bool {
    fee_cap_or_zero(max_fee_per_gas) > next_base_fee as int
}

/// A block exactly on its gas target leaves the base fee unchanged.
pub proof fn lemma_on_target_fee_unchanged(gas_used: u64, gas_limit: u64, base_fee: u64)
    requires
        gas_used as int == gas_target(gas_limit),
    ensures
        next_base_fee_of(gas_used, gas_limit, base_fee) == base_fee as int,
{
}

/// Decides admission for a transaction's fee cap against the predicted
/// next base fee. A transaction without a cap is never admitted.
pub fn is_admitted(max_fee_per_gas: Option<u128>, next_base_fee: u128) -> (r: bool)
    ensures
        r == admitted(max_fee_per_gas, next_base_fee),
{
    match max_fee_per_gas {
        Some(f) => f > next_base_fee,
        None => false,
    }
}

} // verus!
