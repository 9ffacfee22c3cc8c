//! Exchange-rate accounting and rate-limited decompounding for a wrapper
//! token backed by a liquid-staking-derivative (LSD) asset.
//!
//! The wrapper contract holds a balance of an LSD token whose own exchange
//! rate against a backing asset grows over time.  This crate contains the
//! verified core of the wrapper: the exchange-rate engine, the decompound
//! accounting (optionally capped by an annualized ratio), and the mint/burn
//! orchestration that keeps the wrapper fully collateralized.  Everything
//! here computes on plain values; storage access, message emission and the
//! adapter queries live outside and hand the results in.
use vstd::prelude::*;

pub mod adapters;
pub mod contract;
pub mod decimal;
pub mod handler;
pub mod laws;
pub mod querier;
pub mod state;
pub mod wrapper_msg;

verus! {

/// Error taxonomy of the wrapper contract.  Every verified operation either
/// returns its documented value or one of these; none panics.
#[derive(Clone, Copy, Debug, PartialEq, Eq, Structural)]
pub enum ContractError {
    /// The caller is not the hub/controller identity required for the operation.
    Unauthorized,
    /// The current exchange rate is below one: the backing suffered a slashing
    /// event and there is nothing to decompound.
    SlashingDetected,
    /// Past extraction already consumed the annualized allowance for the
    /// elapsed window; decompounding must wait for headroom.
    RatioAccountingUnderflow,
    /// A decompound was attempted at or before the last decompound timestamp.
    TooSoon,
    /// A fixed-point or integer operation exceeded the representable range.
    Overflow,
}

impl ContractError {
    /// Human-readable message, mirroring the texts reported by the contract.
    pub fn message(&self) -> (r: &'static str)
        ensures
            self is Unauthorized ==> r@ == "Unauthorized"@,
            self is SlashingDetected ==> r@ == "No rewards to decompound"@,
            self is RatioAccountingUnderflow ==> r@ == "ratio accounting underflow"@,
            self is TooSoon ==> r@ == "Can't decompound too often"@,
            self is Overflow ==> r@ == "arithmetic overflow"@,
    {
        match self {
            ContractError::Unauthorized => "Unauthorized",
            ContractError::SlashingDetected => "No rewards to decompound",
            ContractError::RatioAccountingUnderflow => "ratio accounting underflow",
            ContractError::TooSoon => "Can't decompound too often",
            ContractError::Overflow => "arithmetic overflow",
        }
    }
}

} // verus!
