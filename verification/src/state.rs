//! State carried by the wrapper contract.
//!
//! `WrapperState` is the ephemeral snapshot recomputed on every call from
//! the adapter's reported exchange rate, the wrapper's LSD balance and the
//! issued supply.  `DecompoundState` and `DecompoundConfig` are the two
//! persisted singletons of the rate-limited decompound accounting.
use vstd::prelude::*;

use crate::decimal::{Decimal, DECIMAL_FRACTIONAL};

verus! {

/// The two contract addresses an LSD adapter talks to.
#[derive(Clone, Debug, PartialEq, Eq)]
pub struct LsdContracts {
    pub hub: String,
    pub token: String,
}

/// Ephemeral view of the wrapper's backing, computed fresh on each call.
///
/// `backing_luna` caches `lsd_balance * lsd_exchange_rate`, the total value
/// (in backing-asset units) of the LSD the wrapper holds; `well_formed`
/// states that relation and every operation requires it.
#[derive(Clone, Copy, Debug, PartialEq, Eq, Structural)]
pub struct WrapperState {
    /// Rate of backing asset per LSD unit, as the LSD hub reports it.
    pub lsd_exchange_rate: Decimal,
    /// Total issued wrapper-token supply.
    pub wlsd_supply: u128,
    /// `lsd_balance * lsd_exchange_rate`: backing value held, as a decimal.
    pub backing_luna: Decimal,
    /// Amount of the LSD token the wrapper contract holds.
    pub lsd_balance: u128,
}

impl WrapperState {
    /// The cached backing value is exactly balance times rate.
    pub open spec fn well_formed(self) -> bool {
        self.backing_luna@ == self.lsd_balance * self.lsd_exchange_rate@
    }

    /// Builds the snapshot from the adapter-reported rate, the held LSD
    /// balance and the issued supply; fails only when the backing value
    /// overflows the decimal range.
    pub fn new(lsd_exchange_rate: Decimal, lsd_balance: u128, wlsd_supply: u128) -> (r: Result<
        WrapperState,
        crate::ContractError,
    >)
        ensures
            lsd_balance * lsd_exchange_rate@ <= u128::MAX ==> (r matches Ok(st) && st
                == (WrapperState {
                lsd_exchange_rate,
                wlsd_supply,
                backing_luna: st.backing_luna,
                lsd_balance,
            }) && st.well_formed()),
            lsd_balance * lsd_exchange_rate@ > u128::MAX ==> (r matches Err(e) && e
                == crate::ContractError::Overflow),
    {
        match lsd_balance.checked_mul(lsd_exchange_rate.atomics()) {
            Some(backing_atomics) => Ok(
                WrapperState {
                    lsd_exchange_rate,
                    wlsd_supply,
                    backing_luna: Decimal::raw(backing_atomics),
                    lsd_balance,
                },
            ),
            None => Err(crate::ContractError::Overflow),
        }
    }
}

/// Persisted, owner-set bound on decompounding.
#[derive(Clone, Copy, Debug, PartialEq, Eq, Structural)]
pub struct DecompoundConfig {
    /// Maximum fraction of the backing value extractable per year;
    /// `None` means unlimited.
    pub max_decompound_ratio: Option<Decimal>,
}

/// Persisted rolling accounting of past decompounds.
#[derive(Clone, Copy, Debug, PartialEq, Eq, Structural)]
pub struct DecompoundState {
    /// Cumulative sum of per-decompound extraction ratios since inception.
    pub ratio_sum: Decimal,
    /// Cumulative elapsed seconds across all decompound intervals.
    pub total_seconds: u64,
    /// Wall-clock seconds of the most recent successful decompound.
    pub last_decompound: u64,
}

/// Wrapper tokens issued per unit of deposited LSD, at atomic granularity:
/// `supply / balance` floored, and one when either side is still zero.
pub open spec fn spec_wrapper_rate(wlsd_supply: int, lsd_balance: int) -> int {
    if wlsd_supply == 0 || lsd_balance == 0 {
        DECIMAL_FRACTIONAL as int
    } else {
        wlsd_supply * DECIMAL_FRACTIONAL / lsd_balance
    }
}

/// Backing asset per wrapper token: `backing_value / supply` floored at
/// atomic granularity, and one on a fresh contract with zero supply.
pub open spec fn spec_current_rate(st: WrapperState) -> int {
    if st.wlsd_supply == 0 {
        DECIMAL_FRACTIONAL as int
    } else {
        st.backing_luna@ / (st.wlsd_supply as int)
    }
}

/// The collateralization invariant: the backing value covers the issued
/// supply, `lsd_balance * rate >= wlsd_supply` in atomic units.
pub open spec fn spec_collateralized(lsd_balance: int, wlsd_supply: int, rate: int) -> bool {
    wlsd_supply * DECIMAL_FRACTIONAL <= lsd_balance * rate
}

} // verus!
