//! Mint/burn orchestration.
//!
//! These functions keep the wrapper token collateralized by the underlying
//! LSD: minting computes the LSD deposit the caller owes (ceiling-biased),
//! burning computes the LSD amount sent back (floor-biased), both at the
//! current wrapper rate `supply / balance`.  The dispatch layer performs
//! the ledger mutation and emits the deposit/send messages.
use vstd::arithmetic::div_mod::{
    lemma_div_denominator, lemma_div_multiples_vanish_quotient, lemma_div_plus_one,
};
use vstd::arithmetic::mul::{lemma_mul_is_commutative, lemma_mul_nonnegative};
use vstd::prelude::*;

use crate::decimal::{Decimal, DECIMAL_FRACTIONAL};
use crate::querier::get_lsd_wrapper_exchange_rate;
use crate::state::spec_wrapper_rate;
use crate::wrapper_msg::{BurnResponse, MintResponse};
use crate::ContractError;

verus! {

broadcast use crate::decimal::lemma_decimal_bounds;

/// The LSD deposit owed for minting `amount` wrapper tokens: the amount
/// divided by the wrapper rate, plus one whole LSD unit so the mint can
/// never undercollateralize at the margin.
pub open spec fn spec_mint_deposit(wlsd_supply: int, lsd_balance: int, amount: int) -> int {
    amount * DECIMAL_FRACTIONAL / spec_wrapper_rate(wlsd_supply, lsd_balance) + 1
}

/// The LSD amount returned for burning `amount` wrapper tokens: the amount
/// divided by the wrapper rate, floored.
pub open spec fn spec_burn_send(wlsd_supply: int, lsd_balance: int, amount: int) -> int {
    amount * DECIMAL_FRACTIONAL / spec_wrapper_rate(wlsd_supply, lsd_balance)
}

/// Flooring `amount / rate` at atomic and then whole-unit granularity is
/// the same as flooring it once.
proof fn lemma_two_step_floor(amount: int, rate: int, e: int)
    requires
        amount >= 0,
        rate > 0,
        e > 0,
    ensures
        ((amount * e) * e / rate) / e == amount * e / rate,
{
    let a = amount * e;
    lemma_mul_nonnegative(amount, e);
    lemma_mul_nonnegative(a, e);
    lemma_div_denominator(a * e, rate, e);
    lemma_div_multiples_vanish_quotient(e, a, rate);
    lemma_mul_is_commutative(e, a);
    lemma_mul_is_commutative(e, rate);
}

/// Computes the deposit for a mint of `amount` wrapper tokens: `amount /
/// wrapper_rate + 1`, ceiling-biased against undercollateralization.  Fails
/// only on fixed-point overflow.
pub fn execute_mint(wlsd_supply: u128, lsd_balance: u128, recipient: String, amount: u128) -> (r:
    Result<MintResponse, ContractError>)
    requires
        spec_wrapper_rate(wlsd_supply as int, lsd_balance as int) > 0,
    ensures
        ({
            let wr = spec_wrapper_rate(wlsd_supply as int, lsd_balance as int);
            let e = DECIMAL_FRACTIONAL as int;
            &&& (r matches Ok(resp) ==> {
                &&& resp.deposit_amount == amount * e / wr + 1
                &&& resp.mint_amount == amount
                &&& resp.recipient@ == recipient@
            })
            &&& (r is Ok <==> wr <= u128::MAX && amount * e <= u128::MAX && (amount * e) * e / wr
                + e <= u128::MAX)
            &&& (r is Err ==> r == Err::<MintResponse, _>(ContractError::Overflow))
        }),
{
    let exchange_rate = get_lsd_wrapper_exchange_rate(wlsd_supply, lsd_balance)?;
    let amount_dec = match Decimal::checked_from_ratio(amount, 1u128) {
        Some(d) => d,
        None => {
            return Err(ContractError::Overflow);
        },
    };
    let quotient = match amount_dec.checked_div(exchange_rate) {
        Some(d) => d,
        None => {
            return Err(ContractError::Overflow);
        },
    };
    let send_dec = match quotient.checked_add(Decimal::one()) {
        Some(d) => d,
        None => {
            return Err(ContractError::Overflow);
        },
    };
    let send_lsd_amount = send_dec.to_uint_floor();
    proof {
        let e = DECIMAL_FRACTIONAL as int;
        let wr = spec_wrapper_rate(wlsd_supply as int, lsd_balance as int);
        lemma_two_step_floor(amount as int, wr, e);
        lemma_div_plus_one((amount * e) * e / wr, e);
        lemma_mul_is_commutative(amount as int, e);
    }
    Ok(MintResponse { deposit_amount: send_lsd_amount, mint_amount: amount, recipient })
}

/// Computes the mint for a deposit of `lsd_amount` LSD units:
/// `lsd_amount * wrapper_rate`, floored.  Fails only on fixed-point
/// overflow.
pub fn execute_mint_with(
    wlsd_supply: u128,
    lsd_balance: u128,
    recipient: String,
    lsd_amount: u128,
) -> (r: Result<MintResponse, ContractError>)
    ensures
        ({
            let wr = spec_wrapper_rate(wlsd_supply as int, lsd_balance as int);
            let e = DECIMAL_FRACTIONAL as int;
            &&& (r matches Ok(resp) ==> {
                &&& resp.deposit_amount == lsd_amount
                &&& resp.mint_amount == lsd_amount * wr / e
                &&& resp.recipient@ == recipient@
            })
            &&& (r is Ok <==> wr <= u128::MAX && lsd_amount * wr / e <= u128::MAX)
            &&& (r is Err ==> r == Err::<MintResponse, _>(ContractError::Overflow))
        }),
{
    let exchange_rate = get_lsd_wrapper_exchange_rate(wlsd_supply, lsd_balance)?;
    proof {
        lemma_mul_is_commutative(
            lsd_amount as int,
            spec_wrapper_rate(wlsd_supply as int, lsd_balance as int),
        );
    }
    let mint_amount = match exchange_rate.checked_mul_uint(lsd_amount) {
        Some(v) => v,
        None => {
            return Err(ContractError::Overflow);
        },
    };
    Ok(MintResponse { deposit_amount: lsd_amount, mint_amount, recipient })
}

/// The LSD amount transferred back for burning `amount` wrapper tokens:
/// `amount / wrapper_rate`, floored.  Fails only on fixed-point overflow.
pub fn _before_burn(wlsd_supply: u128, lsd_balance: u128, amount: u128) -> (r: Result<
    u128,
    ContractError,
>)
    requires
        spec_wrapper_rate(wlsd_supply as int, lsd_balance as int) > 0,
    ensures
        ({
            let wr = spec_wrapper_rate(wlsd_supply as int, lsd_balance as int);
            let e = DECIMAL_FRACTIONAL as int;
            &&& (r matches Ok(sent) ==> sent == amount * e / wr)
            &&& (r is Ok <==> wr <= u128::MAX && amount * e <= u128::MAX && (amount * e) * e / wr
                <= u128::MAX)
            &&& (r is Err ==> r == Err::<u128, _>(ContractError::Overflow))
        }),
{
    let lsd_exchange_rate = get_lsd_wrapper_exchange_rate(wlsd_supply, lsd_balance)?;
    let amount_dec = match Decimal::checked_from_ratio(amount, 1u128) {
        Some(d) => d,
        None => {
            return Err(ContractError::Overflow);
        },
    };
    let lsd_dec = match amount_dec.checked_div(lsd_exchange_rate) {
        Some(d) => d,
        None => {
            return Err(ContractError::Overflow);
        },
    };
    let lsd_amount = lsd_dec.to_uint_floor();
    proof {
        let e = DECIMAL_FRACTIONAL as int;
        let wr = spec_wrapper_rate(wlsd_supply as int, lsd_balance as int);
        lemma_two_step_floor(amount as int, wr, e);
        lemma_mul_is_commutative(amount as int, e);
    }
    Ok(lsd_amount)
}

/// Burns `amount` wrapper tokens from the caller and sends back the
/// equivalent LSD at the current wrapper rate.
pub fn execute_burn(wlsd_supply: u128, lsd_balance: u128, amount: u128) -> (r: Result<
    BurnResponse,
    ContractError,
>)
    requires
        spec_wrapper_rate(wlsd_supply as int, lsd_balance as int) > 0,
    ensures
        ({
            let wr = spec_wrapper_rate(wlsd_supply as int, lsd_balance as int);
            let e = DECIMAL_FRACTIONAL as int;
            &&& (r matches Ok(resp) ==> resp.burn_amount == amount && resp.lsd_to_send == amount
                * e / wr)
            &&& (r is Ok <==> wr <= u128::MAX && amount * e <= u128::MAX && (amount * e) * e / wr
                <= u128::MAX)
            &&& (r is Err ==> r == Err::<BurnResponse, _>(ContractError::Overflow))
        }),
{
    let lsd_to_send = _before_burn(wlsd_supply, lsd_balance, amount)?;
    Ok(BurnResponse { burn_amount: amount, lsd_to_send })
}

/// Burns `amount` wrapper tokens from `owner`'s balance (the allowance
/// bookkeeping is the ledger's); the wrapper-side computation is the same
/// as a direct burn.
pub fn execute_burn_from(wlsd_supply: u128, lsd_balance: u128, owner: String, amount: u128) -> (r:
    Result<BurnResponse, ContractError>)
    requires
        spec_wrapper_rate(wlsd_supply as int, lsd_balance as int) > 0,
    ensures
        ({
            let wr = spec_wrapper_rate(wlsd_supply as int, lsd_balance as int);
            let e = DECIMAL_FRACTIONAL as int;
            &&& (r matches Ok(resp) ==> resp.burn_amount == amount && resp.lsd_to_send == amount
                * e / wr)
            &&& (r is Ok <==> wr <= u128::MAX && amount * e <= u128::MAX && (amount * e) * e / wr
                <= u128::MAX)
            &&& (r is Err ==> r == Err::<BurnResponse, _>(ContractError::Overflow))
        }),
{
    let _ = owner;
    execute_burn(wlsd_supply, lsd_balance, amount)
}

/// Burns the caller's whole wrapper balance; a zero balance burns nothing
/// and sends nothing.
pub fn execute_burn_all(wlsd_supply: u128, lsd_balance: u128, holder_balance: u128) -> (r: Result<
    BurnResponse,
    ContractError,
>)
    requires
        holder_balance != 0 ==> spec_wrapper_rate(wlsd_supply as int, lsd_balance as int) > 0,
    ensures
        holder_balance == 0 ==> (r matches Ok(resp) && resp.burn_amount == 0 && resp.lsd_to_send
            == 0),
        holder_balance != 0 ==> ({
            let wr = spec_wrapper_rate(wlsd_supply as int, lsd_balance as int);
            let e = DECIMAL_FRACTIONAL as int;
            &&& (r matches Ok(resp) ==> resp.burn_amount == holder_balance && resp.lsd_to_send
                == holder_balance * e / wr)
            &&& (r is Ok <==> wr <= u128::MAX && holder_balance * e <= u128::MAX && (holder_balance
                * e) * e / wr <= u128::MAX)
            &&& (r is Err ==> r == Err::<BurnResponse, _>(ContractError::Overflow))
        }),
{
    if holder_balance == 0 {
        return Ok(BurnResponse { burn_amount: 0, lsd_to_send: 0 });
    }
    execute_burn(wlsd_supply, lsd_balance, holder_balance)
}

} // verus!
