//! The decompound accounting: computing how much backing value may be
//! extracted now, applying the optional annualized cap, and updating the
//! rolling `DecompoundState`.
//!
//! The excess value above 1:1 backing is measured both in backing-asset
//! units (`luna_rewards`) and LSD units (`lsd_rewards`), the cap clamps
//! both, and one atomic LSD unit is withheld so that rounding can only
//! ever under-extract.
use vstd::arithmetic::div_mod::{
    lemma_div_by_multiple, lemma_div_is_ordered, lemma_div_multiples_vanish,
    lemma_fundamental_div_mod, lemma_remainder_lower,
};
use vstd::arithmetic::mul::{
    lemma_mul_inequality, lemma_mul_is_commutative, lemma_mul_strictly_positive,
};
use vstd::prelude::*;

use crate::decimal::{Decimal, DECIMAL_FRACTIONAL};
use crate::querier::{
    get_current_exchange_rate, spec_elapsed, spec_year_fraction,
};
use crate::state::{spec_current_rate, DecompoundConfig, DecompoundState, WrapperState};
use crate::wrapper_msg::{AccruedRewardsLimited, DecompoundResponse};
use crate::ContractError;

verus! {

broadcast use crate::decimal::lemma_decimal_bounds;

/// Seconds in the 365-day year the annualized decompound cap is measured
/// against.
pub const SECONDS_PER_YEAR: u64 = 365 * 24 * 60 * 60;

/// The raw excess backing value in whole backing-asset units:
/// `floor(backing) - supply`.
pub open spec fn spec_luna_raw(st: WrapperState) -> int {
    st.backing_luna@ / (DECIMAL_FRACTIONAL as int) - st.wlsd_supply
}

/// Atomics of `supply / lsd_exchange_rate`: the LSD amount that would back
/// the supply exactly, as a decimal.
pub open spec fn spec_supply_over_rate(st: WrapperState) -> int {
    (st.wlsd_supply * DECIMAL_FRACTIONAL) * DECIMAL_FRACTIONAL / st.lsd_exchange_rate@
}

/// The raw excess in whole LSD units: `floor(balance - supply / rate)`.
pub open spec fn spec_lsd_raw(st: WrapperState) -> int {
    (st.lsd_balance * DECIMAL_FRACTIONAL - spec_supply_over_rate(st)) / (DECIMAL_FRACTIONAL as int)
}

/// The extraction ratio still allowed by the cap over the elapsed window:
/// `ratio * elapsed / SECONDS_PER_YEAR - ratio_sum`, in atomics (negative
/// when past extraction exceeded the allowance).
pub open spec fn spec_max_rate(ratio: int, ds: DecompoundState, now: u64) -> int {
    spec_year_fraction(ratio, spec_elapsed(ds, now)) - ds.ratio_sum@
}

/// Atomics of `luna / backing`, the ratio a decompound of `luna` consumes.
pub open spec fn spec_rate_decrease(luna: int, backing: int) -> int {
    (luna * DECIMAL_FRACTIONAL) * DECIMAL_FRACTIONAL / backing
}

/// Last steps of the accrued-rewards computation, shared by the capped and
/// uncapped paths: withhold one atomic LSD unit (and its backing value) as
/// a precision safety margin, then compute the consumed ratio.
pub open spec fn spec_finish(st: WrapperState, luna1: int, lsd1: int) -> Result<
    (int, int, int),
    ContractError,
> {
    let e = DECIMAL_FRACTIONAL as int;
    let rate_floor = st.lsd_exchange_rate@ / e;
    let lsd2 = if lsd1 > 0 {
        lsd1 - 1
    } else {
        lsd1
    };
    if lsd1 > 0 && luna1 < rate_floor {
        Err(ContractError::Overflow)
    } else {
        let luna2 = if lsd1 > 0 {
            luna1 - rate_floor
        } else {
            luna1
        };
        if luna2 * e > u128::MAX {
            Err(ContractError::Overflow)
        } else if spec_rate_decrease(luna2, st.backing_luna@) > u128::MAX {
            Err(ContractError::Overflow)
        } else {
            Ok((lsd2, luna2, spec_rate_decrease(luna2, st.backing_luna@)))
        }
    }
}

/// The whole accrued-rewards computation: `(lsd_rewards, luna_rewards,
/// rate_decrease)` on success, or the first error the computation hits, in
/// order: the slashing exit, fixed-point overflows, and under a cap the
/// out-of-order timestamp, the window overflow and the exhausted
/// allowance.
pub open spec fn spec_compute_accrued_rewards(
    st: WrapperState,
    cfg: DecompoundConfig,
    ds: DecompoundState,
    now: u64,
) -> Result<(int, int, int), ContractError> {
    let e = DECIMAL_FRACTIONAL as int;
    if spec_current_rate(st) < e {
        Err(ContractError::SlashingDetected)
    } else if st.lsd_balance * e > u128::MAX {
        Err(ContractError::Overflow)
    } else if st.wlsd_supply * e > u128::MAX {
        Err(ContractError::Overflow)
    } else if spec_supply_over_rate(st) > u128::MAX {
        Err(ContractError::Overflow)
    } else {
        match cfg.max_decompound_ratio {
            Option::Some(ratio) => {
                if now < ds.last_decompound {
                    Err(ContractError::TooSoon)
                } else if spec_elapsed(ds, now) > u64::MAX {
                    Err(ContractError::Overflow)
                } else if spec_year_fraction(ratio@, spec_elapsed(ds, now)) > u128::MAX {
                    Err(ContractError::Overflow)
                } else if spec_max_rate(ratio@, ds, now) < 0 {
                    Err(ContractError::RatioAccountingUnderflow)
                } else {
                    let mr = spec_max_rate(ratio@, ds, now);
                    if mr * st.backing_luna@ / e > u128::MAX {
                        Err(ContractError::Overflow)
                    } else if mr * st.lsd_balance / e > u128::MAX {
                        Err(ContractError::Overflow)
                    } else {
                        let cap_luna = (mr * st.backing_luna@ / e) / e;
                        let cap_lsd = mr * st.lsd_balance / e;
                        let luna1 = if spec_luna_raw(st) <= cap_luna {
                            spec_luna_raw(st)
                        } else {
                            cap_luna
                        };
                        let lsd1 = if spec_lsd_raw(st) <= cap_lsd {
                            spec_lsd_raw(st)
                        } else {
                            cap_lsd
                        };
                        spec_finish(st, luna1, lsd1)
                    }
                }
            },
            Option::None => spec_finish(st, spec_luna_raw(st), spec_lsd_raw(st)),
        }
    }
}

/// States that can back a decompound without the division-by-zero panics of
/// an empty, never-funded wrapper: with no supply there must be actual
/// backing.
pub open spec fn spec_decompoundable(st: WrapperState) -> bool {
    st.wlsd_supply != 0 || (st.lsd_balance != 0 && st.lsd_exchange_rate@ != 0)
}

/// A current rate of at least one means the backing covers the supply.
pub(crate) proof fn lemma_cur_ge_one_implies_backing(supply: int, backing: int, e: int)
    requires
        supply > 0,
        e > 0,
        backing >= 0,
        backing / supply >= e,
    ensures
        backing >= supply * e,
        backing / e >= supply,
{
    lemma_fundamental_div_mod(backing, supply);
    lemma_remainder_lower(backing, supply);
    lemma_mul_inequality(e, backing / supply, supply);
    lemma_mul_is_commutative(e, supply);
    lemma_mul_is_commutative(backing / supply, supply);
    lemma_div_is_ordered(supply * e, backing, e);
    lemma_mul_is_commutative(supply, e);
    lemma_div_multiples_vanish(supply, e);
}

/// With the backing covering the supply, the LSD equivalent of the supply
/// does not exceed the held balance.
pub(crate) proof fn lemma_supply_over_rate_le_balance(balance: int, rate: int, supply: int, e: int)
    requires
        rate > 0,
        e > 0,
        balance >= 0,
        supply >= 0,
        supply * e <= balance * rate,
    ensures
        (supply * e) * e / rate <= balance * e,
{
    lemma_mul_inequality(supply * e, balance * rate, e);
    lemma_div_is_ordered((supply * e) * e, (balance * rate) * e, rate);
    assert((balance * rate) * e == (balance * e) * rate) by (nonlinear_arith);
    lemma_div_by_multiple(balance * e, rate);
    lemma_mul_is_commutative(balance * e, rate);
}

/// Computes the rewards extractable right now, mirroring
/// `spec_compute_accrued_rewards` exactly.
pub fn compute_accrued_rewards(
    state: &WrapperState,
    config: &DecompoundConfig,
    dstate: &DecompoundState,
    now: u64,
) -> (r: Result<AccruedRewardsLimited, ContractError>)
    requires
        state.well_formed(),
        spec_decompoundable(*state),
    ensures
        ({
            let s = spec_compute_accrued_rewards(*state, *config, *dstate, now);
            match r {
                Ok(a) => s matches Ok(t) && a.lsd_rewards == t.0 && a.luna_rewards == t.1
                    && a.rate_decrease@ == t.2,
                Err(e) => s matches Err(e2) && e == e2,
            }
        }),
{
    let current_exchange_rate = get_current_exchange_rate(state);

    // A rate below one means a slashing event upstream: nothing to decompound.
    if current_exchange_rate.lt(&Decimal::one()) {
        return Err(ContractError::SlashingDetected);
    }
    proof {
        // On this path the reported rate cannot be zero.
        if state.wlsd_supply > 0 {
            if state.lsd_exchange_rate@ == 0 {
                assert(state.backing_luna@ == 0) by (nonlinear_arith)
                    requires
                        state.backing_luna@ == state.lsd_balance * state.lsd_exchange_rate@,
                        state.lsd_exchange_rate@ == 0,
                ;
                assert(state.backing_luna@ / (state.wlsd_supply as int) == 0) by (nonlinear_arith)
                    requires
                        state.backing_luna@ == 0,
                        state.wlsd_supply > 0,
                ;
                assert(false);
            }
            lemma_cur_ge_one_implies_backing(
                state.wlsd_supply as int,
                state.backing_luna@,
                DECIMAL_FRACTIONAL as int,
            );
        }
        assert(state.lsd_exchange_rate@ > 0);
    }

    let mut luna_rewards: u128 = state.backing_luna.to_uint_floor() - state.wlsd_supply;

    let balance_dec = match Decimal::checked_from_ratio(state.lsd_balance, 1u128) {
        Some(d) => d,
        None => {
            return Err(ContractError::Overflow);
        },
    };
    let supply_dec = match Decimal::checked_from_ratio(state.wlsd_supply, 1u128) {
        Some(d) => d,
        None => {
            return Err(ContractError::Overflow);
        },
    };
    let supply_over_rate = match supply_dec.checked_div(state.lsd_exchange_rate) {
        Some(d) => d,
        None => {
            return Err(ContractError::Overflow);
        },
    };
    let diff = match balance_dec.checked_sub(supply_over_rate) {
        Some(d) => d,
        None => {
            proof {
                lemma_supply_over_rate_le_balance(
                    state.lsd_balance as int,
                    state.lsd_exchange_rate@,
                    state.wlsd_supply as int,
                    DECIMAL_FRACTIONAL as int,
                );
            }
            assert(false);
            return Err(ContractError::Overflow);
        },
    };
    let mut rewards_to_decompound: u128 = diff.to_uint_floor();

    // Apply the annualized cap, when one is configured.
    match config.max_decompound_ratio {
        Some(max_decompound_ratio) => {
            if now < dstate.last_decompound {
                return Err(ContractError::TooSoon);
            }
            let total_period = match dstate.total_seconds.checked_add(
                now - dstate.last_decompound,
            ) {
                Some(t) => t,
                None => {
                    return Err(ContractError::Overflow);
                },
            };
            let year_part = match Decimal::checked_from_ratio(
                total_period as u128,
                SECONDS_PER_YEAR as u128,
            ) {
                Some(d) => d,
                None => {
                    proof {
                        assert(total_period * DECIMAL_FRACTIONAL <= u64::MAX * DECIMAL_FRACTIONAL)
                            by (nonlinear_arith)
                            requires
                                total_period <= u64::MAX,
                        ;
                        lemma_div_is_ordered(
                            total_period * DECIMAL_FRACTIONAL,
                            u64::MAX * DECIMAL_FRACTIONAL,
                            SECONDS_PER_YEAR as int,
                        );
                    }
                    assert(false);
                    return Err(ContractError::Overflow);
                },
            };
            // If we decompounded too much in the past this errors, and stops
            // erroring once elapsed time restores headroom.
            let max_rate = match max_decompound_ratio.checked_mul(year_part) {
                Some(p) => match p.checked_sub(dstate.ratio_sum) {
                    Some(m) => m,
                    None => {
                        return Err(ContractError::RatioAccountingUnderflow);
                    },
                },
                None => {
                    return Err(ContractError::Overflow);
                },
            };
            let cap_luna_dec = match max_rate.checked_mul(state.backing_luna) {
                Some(d) => d,
                None => {
                    return Err(ContractError::Overflow);
                },
            };
            let cap_luna = cap_luna_dec.to_uint_floor();
            let cap_lsd = match max_rate.checked_mul_uint(state.lsd_balance) {
                Some(v) => v,
                None => {
                    return Err(ContractError::Overflow);
                },
            };
            if cap_luna < luna_rewards {
                luna_rewards = cap_luna;
            }
            if cap_lsd < rewards_to_decompound {
                rewards_to_decompound = cap_lsd;
            }
        },
        None => {},
    }

    // Withhold one atomic LSD unit so rounding can only under-extract.
    if rewards_to_decompound > 0 {
        rewards_to_decompound = rewards_to_decompound - 1;
        let rate_floor = state.lsd_exchange_rate.to_uint_floor();
        luna_rewards = match luna_rewards.checked_sub(rate_floor) {
            Some(v) => v,
            None => {
                return Err(ContractError::Overflow);
            },
        };
    }

    proof {
        if state.wlsd_supply == 0 {
            lemma_mul_strictly_positive(state.lsd_balance as int, state.lsd_exchange_rate@);
        }
        assert(state.backing_luna@ > 0);
    }
    let luna_dec = match Decimal::checked_from_ratio(luna_rewards, 1u128) {
        Some(d) => d,
        None => {
            return Err(ContractError::Overflow);
        },
    };
    let rate_decrease = match luna_dec.checked_div(state.backing_luna) {
        Some(d) => d,
        None => {
            return Err(ContractError::Overflow);
        },
    };

    Ok(AccruedRewardsLimited { rate_decrease, luna_rewards, lsd_rewards: rewards_to_decompound })
}

/// Executes a decompound call: only the hub may trigger it; a slashing
/// state yields a zero-reward success without touching the accounting; on a
/// real extraction with a cap configured the call is rejected unless the
/// clock moved strictly past the last decompound, and the rolling state is
/// advanced.  Without a cap the accounting is left untouched.
///
/// The returned `lsd_rewards` is the amount the dispatch layer must
/// withdraw and send to the returned recipient (no message when zero).
pub fn execute_decompound(
    state: &WrapperState,
    config: &DecompoundConfig,
    dstate: &mut DecompoundState,
    hub_contract: &String,
    sender: &String,
    recipient: Option<String>,
    now: u64,
) -> (r: Result<DecompoundResponse, ContractError>)
    requires
        state.well_formed(),
        sender@ == hub_contract@ ==> spec_decompoundable(*state),
    ensures
        sender@ != hub_contract@ ==> r == Err::<DecompoundResponse, _>(ContractError::Unauthorized)
            && *final(dstate) == *old(dstate),
        sender@ == hub_contract@ ==> ({
            let s = spec_compute_accrued_rewards(*state, *config, *old(dstate), now);
            match s {
                Err(e) => if e is SlashingDetected {
                    &&& *final(dstate) == *old(dstate)
                    &&& r matches Ok(resp) && resp.lsd_rewards == 0 && resp.luna_rewards == 0
                } else {
                    &&& r == Err::<DecompoundResponse, _>(e)
                    &&& *final(dstate) == *old(dstate)
                },
                Ok(t) => match config.max_decompound_ratio {
                    Option::Some(_) => if old(dstate).last_decompound >= now {
                        &&& r == Err::<DecompoundResponse, _>(ContractError::TooSoon)
                        &&& *final(dstate) == *old(dstate)
                    } else if old(dstate).ratio_sum@ + t.2 > u128::MAX {
                        &&& r == Err::<DecompoundResponse, _>(ContractError::Overflow)
                        &&& *final(dstate) == *old(dstate)
                    } else {
                        &&& r matches Ok(resp) && resp.lsd_rewards == t.0 && resp.luna_rewards
                            == t.1
                        &&& final(dstate).ratio_sum@ == old(dstate).ratio_sum@ + t.2
                        &&& final(dstate).total_seconds == old(dstate).total_seconds + (now - old(
                            dstate,
                        ).last_decompound)
                        &&& final(dstate).last_decompound == now
                    },
                    Option::None => {
                        &&& *final(dstate) == *old(dstate)
                        &&& r matches Ok(resp) && resp.lsd_rewards == t.0 && resp.luna_rewards
                            == t.1
                    },
                },
            }
        }),
        r matches Ok(resp) ==> resp.recipient@ == match recipient {
            Option::Some(rec) => rec@,
            Option::None => sender@,
        },
{
    if !(*sender == *hub_contract) {
        return Err(ContractError::Unauthorized);
    }
    let recipient_addr = match recipient {
        Some(r) => r,
        None => sender.clone(),
    };

    match compute_accrued_rewards(state, config, dstate, now) {
        Err(err) => {
            if err == ContractError::SlashingDetected {
                // A legitimate empty outcome, not a failure: nothing accrued.
                Ok(
                    DecompoundResponse {
                        lsd_rewards: 0,
                        luna_rewards: 0,
                        recipient: recipient_addr,
                    },
                )
            } else {
                Err(err)
            }
        },
        Ok(rewards) => {
            match config.max_decompound_ratio {
                Some(_) => {
                    if dstate.last_decompound >= now {
                        return Err(ContractError::TooSoon);
                    }
                    let new_ratio_sum = match dstate.ratio_sum.checked_add(rewards.rate_decrease) {
                        Some(v) => v,
                        None => {
                            return Err(ContractError::Overflow);
                        },
                    };
                    dstate.ratio_sum = new_ratio_sum;
                    dstate.total_seconds = dstate.total_seconds + (now - dstate.last_decompound);
                    dstate.last_decompound = now;
                    Ok(
                        DecompoundResponse {
                            lsd_rewards: rewards.lsd_rewards,
                            luna_rewards: rewards.luna_rewards,
                            recipient: recipient_addr,
                        },
                    )
                },
                None => Ok(
                    DecompoundResponse {
                        lsd_rewards: rewards.lsd_rewards,
                        luna_rewards: rewards.luna_rewards,
                        recipient: recipient_addr,
                    },
                ),
            }
        },
    }
}

/// Initializes the two persisted decompound records: the configured cap and
/// a zeroed accounting anchored at the current time.
pub fn instantiate(max_decompound_ratio: Option<Decimal>, now: u64) -> (r: (
    DecompoundConfig,
    DecompoundState,
))
    ensures
        r.0.max_decompound_ratio == max_decompound_ratio,
        r.1.ratio_sum@ == 0,
        r.1.total_seconds == 0,
        r.1.last_decompound == now,
{
    (
        DecompoundConfig { max_decompound_ratio },
        DecompoundState { ratio_sum: Decimal::zero(), total_seconds: 0, last_decompound: now },
    )
}

/// Overwrites the decompound cap; only the hub identity may do so.
pub fn update_decompound_rate(
    config: &mut DecompoundConfig,
    hub_contract: &String,
    sender: &String,
    decompound_rate: Option<Decimal>,
) -> (r: Result<(), ContractError>)
    ensures
        sender@ == hub_contract@ ==> r is Ok && final(config).max_decompound_ratio
            == decompound_rate,
        sender@ != hub_contract@ ==> r == Err::<(), _>(ContractError::Unauthorized)
            && *final(config) == *old(config),
{
    if !(*sender == *hub_contract) {
        return Err(ContractError::Unauthorized);
    }
    config.max_decompound_ratio = decompound_rate;
    Ok(())
}

/// Migration: replaces the decompound cap and carries the accounting state
/// over untouched.
pub fn migrate(config: &mut DecompoundConfig, max_decompound_ratio: Option<Decimal>)
    ensures
        final(config).max_decompound_ratio == max_decompound_ratio,
{
    config.max_decompound_ratio = max_decompound_ratio;
}

} // verus!
