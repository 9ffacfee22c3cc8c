//! The exchange-rate engine: read-only rate computations.
//!
//! Two distinct rates are produced on demand: the backing-asset value per
//! wrapper token (`get_current_exchange_rate`) and the wrapper tokens minted
//! per deposited LSD unit (`get_lsd_wrapper_exchange_rate`), plus the
//! forward-looking variant that discounts the not-yet-extracted allowance of
//! the decompound cap (`get_expected_exchange_rate`).
use vstd::prelude::*;

use crate::contract::SECONDS_PER_YEAR;
use crate::decimal::{Decimal, DECIMAL_FRACTIONAL};
use crate::state::{
    spec_current_rate, spec_wrapper_rate, DecompoundConfig, DecompoundState, WrapperState,
};
use crate::ContractError;

verus! {

/// Cumulative seconds covered by the decompound accounting once `now` is
/// reached: the recorded total plus the time since the last decompound.
pub open spec fn spec_elapsed(ds: DecompoundState, now: u64) -> int {
    ds.total_seconds + (now - ds.last_decompound)
}

/// The fraction of backing value the cap releases over `elapsed` seconds:
/// `ratio * (elapsed / SECONDS_PER_YEAR)`, floored at each decimal step.
pub open spec fn spec_year_fraction(ratio: int, elapsed: int) -> int {
    ratio * (elapsed * DECIMAL_FRACTIONAL / (SECONDS_PER_YEAR as int)) / (
    DECIMAL_FRACTIONAL as int)
}

/// The expected exchange rate of `get_expected_exchange_rate`, on the
/// assumption that no intermediate overflows: the current rate, discounted
/// by the cap allowance not yet extracted and floored at one; during a
/// capital shortfall (current rate below one) the current rate itself.
pub open spec fn spec_expected_rate(
    st: WrapperState,
    cfg: DecompoundConfig,
    ds: DecompoundState,
    now: u64,
) -> int {
    let cur = spec_current_rate(st);
    if cur < DECIMAL_FRACTIONAL {
        cur
    } else {
        match cfg.max_decompound_ratio {
            Option::None => cur,
            Option::Some(ratio) => {
                let frac = spec_year_fraction(ratio@, spec_elapsed(ds, now));
                let discounted = if cur + ds.ratio_sum@ >= frac {
                    cur + ds.ratio_sum@ - frac
                } else {
                    DECIMAL_FRACTIONAL as int
                };
                if discounted >= DECIMAL_FRACTIONAL {
                    discounted
                } else {
                    DECIMAL_FRACTIONAL as int
                }
            },
        }
    }
}

/// Computes the exchange rate of the underlying token per wrapped token:
/// the backing value divided by the issued supply, and exactly one on a
/// freshly instantiated contract with zero supply.
pub fn get_current_exchange_rate(state: &WrapperState) -> (r: Decimal)
    requires
        state.well_formed(),
    ensures
        r@ == spec_current_rate(*state),
{
    if state.wlsd_supply == 0 {
        Decimal::one()
    } else {
        state.backing_luna.div_uint(state.wlsd_supply)
    }
}

/// Queries the exchange rate LSD -> wrapper token (how many wrapper tokens
/// one LSD unit mints): `supply / balance`, and one while either is zero.
/// Fails only when the ratio overflows the decimal range.
pub fn get_lsd_wrapper_exchange_rate(wlsd_supply: u128, lsd_balance: u128) -> (r: Result<
    Decimal,
    ContractError,
>)
    ensures
        spec_wrapper_rate(wlsd_supply as int, lsd_balance as int) <= u128::MAX ==> (r matches Ok(d)
            && d@ == spec_wrapper_rate(wlsd_supply as int, lsd_balance as int)),
        spec_wrapper_rate(wlsd_supply as int, lsd_balance as int) > u128::MAX ==> r == Err::<
            Decimal,
            _,
        >(ContractError::Overflow),
{
    if lsd_balance == 0 || wlsd_supply == 0 {
        Ok(Decimal::one())
    } else {
        match Decimal::checked_from_ratio(wlsd_supply, lsd_balance) {
            Some(rate) => Ok(rate),
            None => Err(ContractError::Overflow),
        }
    }
}

/// The wrapper amount minted for depositing `amount` LSD units at the
/// current wrapper rate: `amount * rate`, floored.
pub fn query_mint_amount(wlsd_supply: u128, lsd_balance: u128, amount: u128) -> (r: Result<
    u128,
    ContractError,
>)
    ensures
        ({
            let rate = spec_wrapper_rate(wlsd_supply as int, lsd_balance as int);
            &&& (rate <= u128::MAX && amount * rate / (DECIMAL_FRACTIONAL as int) <= u128::MAX)
                <==> (r matches Ok(m) && m == amount * rate / (DECIMAL_FRACTIONAL as int))
            &&& r is Err ==> r == Err::<u128, _>(ContractError::Overflow)
        }),
{
    let exchange_rate = get_lsd_wrapper_exchange_rate(wlsd_supply, lsd_balance)?;
    match exchange_rate.checked_mul_uint(amount) {
        Some(mint_amount) => Ok(mint_amount),
        None => Err(ContractError::Overflow),
    }
}

/// The current exchange rate adjusted downward by the cumulative effect of
/// the configured decompound cap over elapsed time, clamped to a floor of
/// one; unchanged when no cap is configured or the rate is already below
/// one (slashing).  Fails only on fixed-point overflow.
pub fn get_expected_exchange_rate(
    state: &WrapperState,
    config: &DecompoundConfig,
    dstate: &DecompoundState,
    now: u64,
) -> (r: Result<Decimal, ContractError>)
    requires
        state.well_formed(),
        dstate.last_decompound <= now,
        spec_elapsed(*dstate, now) <= u64::MAX,
    ensures
        r matches Ok(d) ==> d@ == spec_expected_rate(*state, *config, *dstate, now),
        r is Err ==> r == Err::<Decimal, _>(ContractError::Overflow),
        ({
            let cur = spec_current_rate(*state);
            r is Ok <==> (cur < DECIMAL_FRACTIONAL || config.max_decompound_ratio is None || (cur
                + dstate.ratio_sum@ <= u128::MAX && ({
                let ratio = config.max_decompound_ratio.unwrap()@;
                ratio * (spec_elapsed(*dstate, now) * DECIMAL_FRACTIONAL / (SECONDS_PER_YEAR
                    as int)) / (DECIMAL_FRACTIONAL as int) <= u128::MAX
            })))
        }),
{
    let exchange_rate = get_current_exchange_rate(state);

    // A rate below one means the backing was slashed; no cap logic applies.
    if exchange_rate.lt(&Decimal::one()) {
        return Ok(exchange_rate);
    }
    match config.max_decompound_ratio {
        Some(max_decompound_ratio) => {
            let time_since_start: u64 = dstate.total_seconds + (now - dstate.last_decompound);

            proof {
                assert(time_since_start * DECIMAL_FRACTIONAL <= u64::MAX * DECIMAL_FRACTIONAL)
                    by (nonlinear_arith)
                    requires
                        time_since_start <= u64::MAX,
                ;
            }
            let year_part = match Decimal::checked_from_ratio(
                time_since_start as u128,
                SECONDS_PER_YEAR as u128,
            ) {
                Some(d) => d,
                None => {
                    proof {
                        vstd::arithmetic::div_mod::lemma_div_is_ordered(
                            time_since_start * DECIMAL_FRACTIONAL,
                            u64::MAX * DECIMAL_FRACTIONAL,
                            SECONDS_PER_YEAR as int,
                        );
                    }
                    assert(false);
                    return Err(ContractError::Overflow);
                },
            };
            let summed = match exchange_rate.checked_add(dstate.ratio_sum) {
                Some(d) => d,
                None => {
                    return Err(ContractError::Overflow);
                },
            };
            let discount = match max_decompound_ratio.checked_mul(year_part) {
                Some(d) => d,
                None => {
                    return Err(ContractError::Overflow);
                },
            };
            let expected_exchange_rate = match summed.checked_sub(discount) {
                Some(d) => d,
                None => Decimal::one(),
            };
            Ok(expected_exchange_rate.max(Decimal::one()))
        },
        None => Ok(exchange_rate),
    }
}

/// Assembles the token-info response: the ledger metadata handed in,
/// together with both freshly computed rates and the configured cap.
pub fn query_token_info(
    name: String,
    symbol: String,
    decimals: u8,
    state: &WrapperState,
    config: &DecompoundConfig,
    dstate: &DecompoundState,
    now: u64,
) -> (r: Result<crate::wrapper_msg::TokenInfoResponseWithLimit, ContractError>)
    requires
        state.well_formed(),
        dstate.last_decompound <= now,
        spec_elapsed(*dstate, now) <= u64::MAX,
    ensures
        r matches Ok(info) ==> ({
            &&& info.name@ == name@
            &&& info.symbol@ == symbol@
            &&& info.decimals == decimals
            &&& info.total_supply == state.wlsd_supply
            &&& info.exchange_rate@ == spec_current_rate(*state)
            &&& info.expected_exchange_rate@ == spec_expected_rate(*state, *config, *dstate, now)
            &&& info.max_decompound_ratio == config.max_decompound_ratio
            &&& info.lsd_exchange_rate@ == spec_wrapper_rate(
                state.wlsd_supply as int,
                state.lsd_balance as int,
            )
        }),
        r is Err ==> r == Err::<crate::wrapper_msg::TokenInfoResponseWithLimit, _>(
            ContractError::Overflow,
        ),
        ({
            let cur = spec_current_rate(*state);
            r is Ok <==> (spec_wrapper_rate(state.wlsd_supply as int, state.lsd_balance as int)
                <= u128::MAX && (cur < DECIMAL_FRACTIONAL || config.max_decompound_ratio is None
                || (cur + dstate.ratio_sum@ <= u128::MAX && spec_year_fraction(
                config.max_decompound_ratio.unwrap()@,
                spec_elapsed(*dstate, now),
            ) <= u128::MAX)))
        }),
{
    let exchange_rate = get_current_exchange_rate(state);
    let expected_exchange_rate = get_expected_exchange_rate(state, config, dstate, now)?;
    let lsd_exchange_rate = get_lsd_wrapper_exchange_rate(state.wlsd_supply, state.lsd_balance)?;
    Ok(
        crate::wrapper_msg::TokenInfoResponseWithLimit {
            name,
            symbol,
            decimals,
            total_supply: state.wlsd_supply,
            exchange_rate,
            expected_exchange_rate,
            max_decompound_ratio: config.max_decompound_ratio,
            lsd_exchange_rate,
        },
    )
}

} // verus!
