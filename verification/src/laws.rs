//! Laws of the wrapper: the collateralization invariant under every
//! operation, the bootstrap exchange rate, the exhaustion of rewards after
//! an uncapped decompound, and the mint/burn round trip.
//!
//! Each law is stated over the spec functions the operations' own
//! contracts use, so it applies to exactly what the executable functions
//! compute.
use vstd::arithmetic::div_mod::{
    lemma_div_is_ordered, lemma_div_multiples_vanish, lemma_div_pos_is_pos,
    lemma_fundamental_div_mod, lemma_remainder_lower, lemma_remainder_upper,
};
use vstd::arithmetic::mul::{lemma_mul_is_commutative, lemma_mul_nonnegative};
use vstd::prelude::*;

use crate::contract::{
    lemma_cur_ge_one_implies_backing, spec_compute_accrued_rewards, spec_decompoundable,
    spec_lsd_raw, spec_supply_over_rate,
};
use crate::decimal::DECIMAL_FRACTIONAL;
use crate::handler::{spec_burn_send, spec_mint_deposit};
use crate::state::{
    spec_collateralized, spec_current_rate, spec_wrapper_rate, DecompoundConfig, DecompoundState,
    WrapperState,
};
use crate::ContractError;

verus! {

/// Zero-supply bootstrap: on a freshly instantiated contract, before any
/// wrapper token exists, the current exchange rate is exactly one.
pub proof fn lemma_fresh_exchange_rate_is_one(st: WrapperState)
    requires
        st.wlsd_supply == 0,
    ensures
        spec_current_rate(st) == DECIMAL_FRACTIONAL,
{
}

/// A floored quotient bracketed by its multiples: `(x / d) * d <= x` and
/// `x < (x / d + 1) * d`.
proof fn lemma_floor_bounds(x: int, d: int)
    requires
        0 <= x,
        0 < d,
    ensures
        (x / d) * d <= x,
        x < (x / d + 1) * d,
        x / d >= 0,
{
    lemma_fundamental_div_mod(x, d);
    lemma_remainder_lower(x, d);
    lemma_remainder_upper(x, d);
    lemma_div_pos_is_pos(x, d);
    assert((x / d) * d == d * (x / d)) by (nonlinear_arith);
    assert((x / d + 1) * d == d * (x / d) + d) by (nonlinear_arith);
}

/// Collateralization is preserved by a mint: the deposit demanded for
/// `amount` fresh wrapper tokens, `amount / wrapper_rate + 1`, always adds
/// at least the backing the new tokens claim.  On an empty wrapper the
/// rate used is one, so the backing must be worth at least one (a slashed
/// LSD deposited into an empty wrapper starts undercollateralized).
pub proof fn lemma_mint_preserves_collateralization(
    balance: int,
    supply: int,
    rate: int,
    amount: int,
)
    requires
        0 <= balance,
        0 <= supply,
        0 <= rate,
        0 <= amount,
        spec_collateralized(balance, supply, rate),
        spec_wrapper_rate(supply, balance) > 0,
        (supply > 0 && balance > 0) || rate >= DECIMAL_FRACTIONAL,
    ensures
        spec_collateralized(
            balance + spec_mint_deposit(supply, balance, amount),
            supply + amount,
            rate,
        ),
{
    let e = DECIMAL_FRACTIONAL as int;
    let wr = spec_wrapper_rate(supply, balance);
    let send = amount * e / wr + 1;
    lemma_mul_nonnegative(amount, e);
    lemma_floor_bounds(amount * e, wr);
    if supply > 0 && balance > 0 {
        lemma_floor_bounds(supply * e, balance);
        // send * wr exceeds amount * e, and wr * balance stays within supply * e.
        assert(send * wr >= amount * e + 1) by (nonlinear_arith)
            requires
                amount * e < (amount * e / wr + 1) * wr,
                send == amount * e / wr + 1,
        ;
        assert(wr * balance <= supply * e) by (nonlinear_arith)
            requires
                (supply * e / balance) * balance <= supply * e,
                wr == supply * e / balance,
        ;
        assert(send * supply > amount * balance) by (nonlinear_arith)
            requires
                send * wr >= amount * e + 1,
                wr * balance <= supply * e,
                send >= 0,
                balance > 0,
                e > 0,
                amount >= 0,
                supply > 0,
        ;
        assert(send * rate >= amount * e) by (nonlinear_arith)
            requires
                send * supply > amount * balance,
                supply * e <= balance * rate,
                supply > 0,
                balance > 0,
                rate >= 0,
                e > 0,
                amount >= 0,
                send >= 0,
        ;
        assert((supply + amount) * e <= (balance + send) * rate) by (nonlinear_arith)
            requires
                send * rate >= amount * e,
                supply * e <= balance * rate,
        ;
    } else {
        lemma_mul_is_commutative(amount, e);
        lemma_div_multiples_vanish(amount, e);
        assert((supply + amount) * e <= (balance + send) * rate) by (nonlinear_arith)
            requires
                send == amount + 1,
                supply * e <= balance * rate,
                rate >= e,
                amount >= 0,
                e > 0,
        ;
    }
}

/// Collateralization is preserved by a deposit-driven mint: the wrapper
/// amount minted for `lsd_amount`, `lsd_amount * wrapper_rate` floored,
/// never claims more backing than the deposit brings.
pub proof fn lemma_mint_with_preserves_collateralization(
    balance: int,
    supply: int,
    rate: int,
    lsd_amount: int,
)
    requires
        0 <= balance,
        0 <= supply,
        0 <= rate,
        0 <= lsd_amount,
        spec_collateralized(balance, supply, rate),
        (supply > 0 && balance > 0) || rate >= DECIMAL_FRACTIONAL,
    ensures
        spec_collateralized(
            balance + lsd_amount,
            supply + lsd_amount * spec_wrapper_rate(supply, balance) / (DECIMAL_FRACTIONAL as int),
            rate,
        ),
{
    let e = DECIMAL_FRACTIONAL as int;
    let wr = spec_wrapper_rate(supply, balance);
    let minted = lsd_amount * wr / e;
    if supply > 0 && balance > 0 {
        lemma_floor_bounds(supply * e, balance);
        lemma_mul_nonnegative(lsd_amount, wr);
        lemma_floor_bounds(lsd_amount * wr, e);
        assert(wr * balance <= supply * e) by (nonlinear_arith)
            requires
                (supply * e / balance) * balance <= supply * e,
                wr == supply * e / balance,
        ;
        assert(minted * e <= lsd_amount * wr) by (nonlinear_arith)
            requires
                (lsd_amount * wr / e) * e <= lsd_amount * wr,
                minted == lsd_amount * wr / e,
        ;
        assert(minted * e * balance <= lsd_amount * (supply * e)) by (nonlinear_arith)
            requires
                minted * e <= lsd_amount * wr,
                wr * balance <= supply * e,
                lsd_amount >= 0,
                balance >= 0,
                minted >= 0,
                e > 0,
        ;
        assert(minted * e <= lsd_amount * rate) by (nonlinear_arith)
            requires
                minted * e * balance <= lsd_amount * (supply * e),
                supply * e <= balance * rate,
                balance > 0,
                lsd_amount >= 0,
                rate >= 0,
                minted >= 0,
                e > 0,
        ;
        assert((supply + minted) * e <= (balance + lsd_amount) * rate) by (nonlinear_arith)
            requires
                minted * e <= lsd_amount * rate,
                supply * e <= balance * rate,
        ;
    } else {
        lemma_mul_is_commutative(lsd_amount, e);
        lemma_div_multiples_vanish(lsd_amount, e);
        assert((supply + minted) * e <= (balance + lsd_amount) * rate) by (nonlinear_arith)
            requires
                minted == lsd_amount,
                supply * e <= balance * rate,
                rate >= e,
                lsd_amount >= 0,
                e > 0,
        ;
    }
}

/// Collateralization is preserved by a burn when the wrapper rate divides
/// evenly (`wrapper_rate * balance == supply * 10^18`): the LSD returned
/// for `amount` burned tokens, `amount / wrapper_rate` floored, never
/// removes more backing than the burned tokens released.  When the stored
/// rate is itself rounded down, a burn can overdraw by a sliver, so the
/// law is stated for exact rates.
pub proof fn lemma_burn_preserves_collateralization(
    balance: int,
    supply: int,
    rate: int,
    amount: int,
)
    requires
        0 < balance,
        0 < supply,
        0 <= rate,
        0 <= amount <= supply,
        spec_collateralized(balance, supply, rate),
        spec_wrapper_rate(supply, balance) * balance == supply * DECIMAL_FRACTIONAL,
    ensures
        spec_burn_send(supply, balance, amount) <= balance,
        spec_collateralized(
            balance - spec_burn_send(supply, balance, amount),
            supply - amount,
            rate,
        ),
{
    let e = DECIMAL_FRACTIONAL as int;
    let wr = spec_wrapper_rate(supply, balance);
    let sent = amount * e / wr;
    assert(wr > 0) by (nonlinear_arith)
        requires
            wr * balance == supply * e,
            supply > 0,
            e > 0,
            balance > 0,
            wr >= 0,
    ;
    lemma_mul_nonnegative(amount, e);
    lemma_floor_bounds(amount * e, wr);
    assert(sent * wr <= amount * e) by (nonlinear_arith)
        requires
            (amount * e / wr) * wr <= amount * e,
            sent == amount * e / wr,
    ;
    assert(sent * supply <= amount * balance) by (nonlinear_arith)
        requires
            sent * wr <= amount * e,
            wr * balance == supply * e,
            wr > 0,
            e > 0,
            sent >= 0,
            amount >= 0,
            balance > 0,
            supply > 0,
    ;
    assert(sent <= balance) by (nonlinear_arith)
        requires
            sent * supply <= amount * balance,
            amount <= supply,
            supply > 0,
            balance > 0,
            sent >= 0,
    ;
    assert(sent * rate <= amount * e + (balance * rate - supply * e)) by (nonlinear_arith)
        requires
            sent * supply <= amount * balance,
            supply * e <= balance * rate,
            amount <= supply,
            supply > 0,
            rate >= 0,
            sent >= 0,
            amount >= 0,
            e > 0,
    ;
    assert((supply - amount) * e <= (balance - sent) * rate) by (nonlinear_arith)
        requires
            sent * rate <= amount * e + (balance * rate - supply * e),
    ;
}

/// Collateralization is preserved by a decompound: whatever the cap, the
/// LSD withdrawal a successful accrued-rewards computation reports leaves
/// the remaining balance worth at least the issued supply.  The one
/// withheld atomic unit makes the preservation strict under rounding.
pub proof fn lemma_decompound_preserves_collateralization(
    st: WrapperState,
    cfg: DecompoundConfig,
    ds: DecompoundState,
    now: u64,
    t: (int, int, int),
)
    requires
        st.well_formed(),
        spec_decompoundable(st),
        spec_compute_accrued_rewards(st, cfg, ds, now) == Ok::<(int, int, int), ContractError>(t),
    ensures
        0 <= t.0 <= st.lsd_balance,
        spec_collateralized(
            st.lsd_balance - t.0,
            st.wlsd_supply as int,
            st.lsd_exchange_rate@,
        ),
{
    broadcast use crate::decimal::lemma_decimal_bounds;

    let e = DECIMAL_FRACTIONAL as int;
    let balance = st.lsd_balance as int;
    let supply = st.wlsd_supply as int;
    let rate = st.lsd_exchange_rate@;
    let backing = st.backing_luna@;

    // The computation succeeded, so the slashing exit was not taken.
    assert(spec_current_rate(st) >= e);
    if supply > 0 {
        if rate == 0 {
            assert(backing == 0) by (nonlinear_arith)
                requires
                    backing == balance * rate,
                    rate == 0,
            ;
            assert(backing / supply == 0) by (nonlinear_arith)
                requires
                    backing == 0,
                    supply > 0,
            ;
            assert(false);
        }
        lemma_cur_ge_one_implies_backing(supply, backing, e);
    }
    assert(rate > 0);
    assert(supply * e <= balance * rate) by {
        if supply > 0 {
            assert(backing >= supply * e);
        } else {
            assert(supply * e == 0) by (nonlinear_arith)
                requires
                    supply == 0,
            ;
            lemma_mul_nonnegative(balance, rate);
        }
    }

    let q = spec_supply_over_rate(st);
    let lsd_raw = spec_lsd_raw(st);
    lemma_mul_nonnegative(supply, e);
    lemma_mul_nonnegative(supply * e, e);
    lemma_floor_bounds(supply * e * e, rate);
    // q is at most balance * e, so the raw reward is between 0 and balance.
    crate::contract::lemma_supply_over_rate_le_balance(balance, rate, supply, e);
    lemma_div_pos_is_pos(balance * e - q, e);
    lemma_floor_bounds(balance * e - q, e);
    assert(lsd_raw <= balance) by (nonlinear_arith)
        requires
            lsd_raw * e <= balance * e - q,
            q >= 0,
            e > 0,
            lsd_raw == (balance * e - q) / e,
            (balance * e - q) / e >= 0,
    ;

    // The reported withdrawal never exceeds lsd_raw - 1 (or is zero).
    let lsd1 = if cfg.max_decompound_ratio is Some {
        let mr = crate::contract::spec_max_rate(cfg.max_decompound_ratio.unwrap()@, ds, now);
        let cap_lsd = mr * balance / e;
        if lsd_raw <= cap_lsd {
            lsd_raw
        } else {
            cap_lsd
        }
    } else {
        lsd_raw
    };
    if cfg.max_decompound_ratio is Some {
        let mr = crate::contract::spec_max_rate(cfg.max_decompound_ratio.unwrap()@, ds, now);
        lemma_mul_nonnegative(mr, balance);
        lemma_div_pos_is_pos(mr * balance, e);
    }
    assert(0 <= lsd1 <= lsd_raw);
    assert(t.0 == if lsd1 > 0 {
        lsd1 - 1
    } else {
        lsd1
    });

    if lsd1 > 0 {
        // (balance - lsd_raw + 1) * rate strictly exceeds supply * e.
        assert(q * rate >= supply * e * e - rate + 1) by (nonlinear_arith)
            requires
                supply * e * e < (q + 1) * rate,
                q == supply * e * e / rate,
        ;
        assert(q <= (balance - lsd_raw) * e) by (nonlinear_arith)
            requires
                lsd_raw * e <= balance * e - q,
        ;
        assert((balance - lsd_raw + 1) * rate * e > supply * e * e) by (nonlinear_arith)
            requires
                q * rate >= supply * e * e - rate + 1,
                q <= (balance - lsd_raw) * e,
                rate > 0,
                e > 0,
        ;
        assert((balance - lsd_raw + 1) * rate >= supply * e) by (nonlinear_arith)
            requires
                (balance - lsd_raw + 1) * rate * e > supply * e * e,
                e > 0,
        ;
        assert((balance - t.0) * rate >= supply * e) by (nonlinear_arith)
            requires
                (balance - lsd_raw + 1) * rate >= supply * e,
                t.0 <= lsd_raw - 1,
                rate > 0,
        ;
    } else {
        assert((balance - t.0) * rate >= supply * e) by (nonlinear_arith)
            requires
                t.0 == 0,
                supply * e <= balance * rate,
        ;
    }
}

/// Zero decompound after full extraction: once an uncapped decompound has
/// withdrawn its reported rewards, less than one whole LSD unit of excess
/// remains, and a second computation on the settled state reports a zero
/// withdrawal whenever it succeeds.
pub proof fn lemma_decompound_exhausts_rewards(
    st: WrapperState,
    st2: WrapperState,
    cfg: DecompoundConfig,
    ds: DecompoundState,
    ds2: DecompoundState,
    now: u64,
    now2: u64,
    t: (int, int, int),
)
    requires
        st.well_formed(),
        st2.well_formed(),
        spec_decompoundable(st),
        cfg.max_decompound_ratio is None,
        spec_compute_accrued_rewards(st, cfg, ds, now) == Ok::<(int, int, int), ContractError>(t),
        st2.lsd_exchange_rate == st.lsd_exchange_rate,
        st2.wlsd_supply == st.wlsd_supply,
        st2.lsd_balance == st.lsd_balance - t.0,
    ensures
        spec_lsd_raw(st2) <= 1,
        spec_compute_accrued_rewards(st2, cfg, ds2, now2) matches Ok(t2) ==> t2.0 == 0,
{
    broadcast use crate::decimal::lemma_decimal_bounds;

    let e = DECIMAL_FRACTIONAL as int;
    let balance = st.lsd_balance as int;
    let supply = st.wlsd_supply as int;
    let rate = st.lsd_exchange_rate@;

    if supply > 0 {
        if rate == 0 {
            assert(st.backing_luna@ == 0) by (nonlinear_arith)
                requires
                    st.backing_luna@ == balance * rate,
                    rate == 0,
            ;
            assert(st.backing_luna@ / supply == 0) by (nonlinear_arith)
                requires
                    st.backing_luna@ == 0,
                    supply > 0,
            ;
            assert(false);
        }
    }
    assert(rate > 0);

    let q = spec_supply_over_rate(st);
    let lsd_raw = spec_lsd_raw(st);
    assert(q == spec_supply_over_rate(st2));

    lemma_mul_nonnegative(supply, e);
    lemma_mul_nonnegative(supply * e, e);
    lemma_floor_bounds(supply * e * e, rate);
    if supply > 0 {
        lemma_cur_ge_one_implies_backing(supply, st.backing_luna@, e);
    }
    assert(supply * e <= balance * rate) by {
        if supply == 0 {
            assert(supply * e == 0) by (nonlinear_arith)
                requires
                    supply == 0,
            ;
            lemma_mul_nonnegative(balance, rate);
        }
    }
    crate::contract::lemma_supply_over_rate_le_balance(balance, rate, supply, e);
    lemma_div_pos_is_pos(balance * e - q, e);
    lemma_floor_bounds(balance * e - q, e);

    if lsd_raw > 0 {
        assert(t.0 == lsd_raw - 1);
        // The settled state holds exactly one whole unit of excess.
        let x = balance * e - q;
        assert(st2.lsd_balance * e - q == x - (lsd_raw - 1) * e) by (nonlinear_arith)
            requires
                st2.lsd_balance == balance - (lsd_raw - 1),
                x == balance * e - q,
        ;
        assert(x - (lsd_raw - 1) * e == (x - x / e * e) + e) by (nonlinear_arith)
            requires
                lsd_raw == x / e,
        ;
        lemma_fundamental_div_mod(x, e);
        assert(spec_lsd_raw(st2) == ((x % e) + e) / e);
        assert(((x % e) + e) / e == 1) by {
            assert(0 <= x % e < e);
            assert(((x % e) + e) / e == 1) by (nonlinear_arith)
                requires
                    0 <= x % e < e,
                    e > 0,
            ;
        }
    } else {
        assert(t.0 == lsd_raw);
        assert(lsd_raw >= 0) by {
            lemma_div_pos_is_pos(balance * e - q, e);
        }
        assert(t.0 == 0);
        assert(spec_lsd_raw(st2) == lsd_raw);
    }
}

/// Round trip: minting with a deposit of `lsd_amount` and immediately
/// burning everything that was minted never returns more than the deposit,
/// provided the wrapper rate is unchanged by the mint; at a rate of one or
/// above, the shortfall is at most one atomic LSD unit.  (When the mint
/// moves the floored rate, or at rates below one, rounding can widen the
/// gap in either direction.)
pub proof fn lemma_mint_with_burn_round_trip(balance: int, supply: int, lsd_amount: int)
    requires
        0 <= balance,
        0 <= supply,
        0 <= lsd_amount,
        spec_wrapper_rate(supply, balance) > 0,
        spec_wrapper_rate(
            supply + lsd_amount * spec_wrapper_rate(supply, balance) / (DECIMAL_FRACTIONAL as int),
            balance + lsd_amount,
        ) == spec_wrapper_rate(supply, balance),
    ensures
        ({
            let wr = spec_wrapper_rate(supply, balance);
            let minted = lsd_amount * wr / (DECIMAL_FRACTIONAL as int);
            let returned = spec_burn_send(supply + minted, balance + lsd_amount, minted);
            &&& returned <= lsd_amount
            &&& wr >= DECIMAL_FRACTIONAL ==> lsd_amount - returned <= 1
        }),
{
    let e = DECIMAL_FRACTIONAL as int;
    let wr = spec_wrapper_rate(supply, balance);
    let minted = lsd_amount * wr / e;
    let returned = spec_burn_send(supply + minted, balance + lsd_amount, minted);
    lemma_mul_nonnegative(lsd_amount, wr);
    lemma_floor_bounds(lsd_amount * wr, e);
    lemma_mul_nonnegative(minted, e);
    lemma_floor_bounds(minted * e, wr);
    assert(returned == minted * e / wr);
    assert(returned * wr <= minted * e) by (nonlinear_arith)
        requires
            (minted * e / wr) * wr <= minted * e,
            returned == minted * e / wr,
    ;
    assert(minted * e <= lsd_amount * wr) by (nonlinear_arith)
        requires
            (lsd_amount * wr / e) * e <= lsd_amount * wr,
            minted == lsd_amount * wr / e,
    ;
    assert(returned <= lsd_amount) by (nonlinear_arith)
        requires
            returned * wr <= lsd_amount * wr,
            wr > 0,
    ;
    if wr >= e {
        // lsd * wr - minted * e is the mint's rounding loss, below e <= wr.
        assert(lsd_amount * wr - minted * e < e) by (nonlinear_arith)
            requires
                lsd_amount * wr < (minted + 1) * e,
        ;
        assert(minted * e >= (lsd_amount - 1) * wr) by (nonlinear_arith)
            requires
                lsd_amount * wr - minted * e < e,
                e <= wr,
                minted * e >= 0,
        ;
        lemma_div_is_ordered((lsd_amount - 1) * wr, minted * e, wr);
        lemma_mul_is_commutative(lsd_amount - 1, wr);
        lemma_div_multiples_vanish(lsd_amount - 1, wr);
    }
}

} // verus!
