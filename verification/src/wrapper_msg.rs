//! Plain data carried across the wrapper's command surface.
//!
//! These are the computation results the verified core hands back to the
//! dispatch layer, which turns them into ledger mutations and outbound
//! messages to the LSD hub.
use vstd::prelude::*;

use crate::decimal::Decimal;

verus! {

/// Rewards accrued above 1:1 backing, as the uncapped computation reports them.
#[derive(Clone, Copy, Debug, PartialEq, Eq, Structural)]
pub struct AccruedRewards {
    /// The excess backing value, in backing-asset units.
    pub luna_rewards: u128,
    /// The same excess expressed in LSD-token units.
    pub lsd_rewards: u128,
}

/// Rewards accrued above 1:1 backing after the annualized cap is applied.
#[derive(Clone, Copy, Debug, PartialEq, Eq, Structural)]
pub struct AccruedRewardsLimited {
    /// The extraction ratio this decompound consumes, `luna_rewards / backing`.
    pub rate_decrease: Decimal,
    /// The extracted backing value, in backing-asset units.
    pub luna_rewards: u128,
    /// The amount of LSD tokens to withdraw from the wrapper.
    pub lsd_rewards: u128,
}

/// Result of a decompound call: the withdrawal to emit (none when
/// `lsd_rewards` is zero) and the accounting attributes.
#[derive(Clone, Debug, PartialEq, Eq)]
pub struct DecompoundResponse {
    /// LSD amount to withdraw and send to `recipient`; zero means no message.
    pub lsd_rewards: u128,
    /// Backing value extracted, reported in the call's attributes.
    pub luna_rewards: u128,
    /// Where the withdrawn LSD tokens go.
    pub recipient: String,
}

/// Result of a mint call: the deposit to request from the caller and the
/// wrapper amount to mint.
#[derive(Clone, Debug, PartialEq, Eq)]
pub struct MintResponse {
    /// LSD amount the caller must deposit into the wrapper.
    pub deposit_amount: u128,
    /// Wrapper-token amount minted to `recipient`.
    pub mint_amount: u128,
    /// Receiver of the minted wrapper tokens.
    pub recipient: String,
}

/// Result of a burn call: the wrapper amount burned from the ledger and the
/// LSD amount sent back to the burner.
#[derive(Clone, Copy, Debug, PartialEq, Eq, Structural)]
pub struct BurnResponse {
    /// Wrapper-token amount to burn.
    pub burn_amount: u128,
    /// LSD amount to send to the burner; zero means no message.
    pub lsd_to_send: u128,
}

/// Token metadata together with the wrapper's rates, as `TokenInfo` reports.
#[derive(Clone, Debug, PartialEq, Eq)]
pub struct TokenInfoResponseWithLimit {
    pub name: String,
    pub symbol: String,
    pub decimals: u8,
    pub total_supply: u128,
    pub exchange_rate: Decimal,
    pub expected_exchange_rate: Decimal,
    pub max_decompound_ratio: Option<Decimal>,
    pub lsd_exchange_rate: Decimal,
}

/// Response to the mint-amount query.
#[derive(Clone, Copy, Debug, PartialEq, Eq, Structural)]
pub struct MintAmountReponseWithLimit {
    pub mint_amount: u128,
}

/// Response to the expected-exchange-rate query.
#[derive(Clone, Copy, Debug, PartialEq, Eq, Structural)]
pub struct GetExpectedExchangeRateResponse {
    pub expected_exchange_rate: Decimal,
}

} // verus!
