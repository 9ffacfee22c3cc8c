//! Data carried across the adapter and hub boundaries.
//!
//! The wrapper reaches its underlying LSD through one of a small set of
//! adapters; these are the plain configuration records they are
//! instantiated from, the query messages they send, and a few response
//! records of the surrounding hub, oracle and reward contracts.  Address
//! validation happens at the dispatch boundary, so addresses stand here as
//! plain strings.
use vstd::prelude::*;

verus! {

/// Addresses of a steak-like LSD: its hub and its token contract.
#[derive(Clone, Debug, PartialEq, Eq)]
pub struct LsdContractsRaw {
    pub hub: String,
    pub token: String,
}

/// Addresses an ERIS-LP-like adapter is instantiated from.
#[derive(Clone, Debug, PartialEq, Eq)]
pub struct ContractsRaw {
    pub token: String,
    pub hub: String,
}

/// Configuration of a Stride-like native-coin LSD: the denoms involved and
/// the oracle that prices them.
#[derive(Clone, Debug, PartialEq, Eq)]
pub struct StrideLSDConfigRaw {
    pub denom: String,
    pub underlying_token_denom: String,
    pub oracle_contract: String,
}

/// Query message understood by steak-like LSD hubs.
#[derive(Clone, Debug, PartialEq, Eq)]
pub enum LSDQueryMsg {
    State {},
}

/// Query messages understood by spectrum-like compounder tokens.
#[derive(Clone, Debug, PartialEq, Eq)]
pub enum SpectrumQueryMsg {
    State {},
    UserInfo { user: String, lp_token: String },
    RewardInfo { staker_addr: String },
}

/// Hook message a hub accepts through the token's `send`.
#[derive(Clone, Debug, PartialEq, Eq)]
pub enum Cw20HookMsg {
    Unbond {},
}

/// Legacy instantiate message of the hub.
#[derive(Clone, Debug, PartialEq, Eq)]
pub struct OldInstantiateMsg {
    pub reward_denom: String,
}

/// The hub's tunable parameters.
#[derive(Clone, Debug, PartialEq, Eq)]
pub struct Parameters {
    pub reward_denom: String,
}

/// Validators the hub delegates to.
#[derive(Clone, Debug, PartialEq, Eq)]
pub struct WhitelistedValidatorsResponse {
    pub validators: Vec<String>,
}

/// Which feeder may post prices for an asset, as the oracle reports it.
#[derive(Clone, Debug, PartialEq, Eq)]
pub struct FeederResponse {
    pub asset: String,
    pub feeder: String,
}

/// Freshness constraints on an oracle price read.
#[derive(Clone, Copy, Debug, PartialEq, Eq, Structural)]
pub struct TimeConstraints {
    pub block_time: u64,
    pub valid_timeframe: u64,
}

/// Whether an oracle price is recent enough to act on: both legs must have
/// been updated within the valid timeframe before the current block.
pub fn price_is_fresh(
    last_updated_base: u64,
    last_updated_quote: u64,
    constraints: &TimeConstraints,
) -> (r: bool)
    requires
        constraints.valid_timeframe <= constraints.block_time,
    ensures
        r == (last_updated_base >= constraints.block_time - constraints.valid_timeframe
            && last_updated_quote >= constraints.block_time - constraints.valid_timeframe),
{
    let valid_update_time = constraints.block_time - constraints.valid_timeframe;
    last_updated_base >= valid_update_time && last_updated_quote >= valid_update_time
}

/// Whether the list holds no address twice; the reward contracts reject
/// duplicate known-token lists.
pub fn has_unique_elements(list: &[String]) -> (r: bool)
    ensures
        r <==> (forall|i: int, j: int| 0 <= i < j < list@.len() ==> list@[i]@ != list@[j]@),
{
    let mut i: usize = 0;
    while i < list.len()
        invariant
            i <= list@.len(),
            forall|k: int, l: int| 0 <= k < l < list@.len() && k < i ==> list@[k]@ != list@[l]@,
        decreases list@.len() - i,
    {
        let mut j: usize = i + 1;
        while j < list.len()
            invariant
                i < j <= list@.len() || (i + 1 == j && j > list@.len()),
                i < list@.len(),
                forall|l: int| i < l < j ==> list@[i as int]@ != list@[l]@,
            decreases list@.len() - j,
        {
            if list[i] == list[j] {
                return false;
            }
            j = j + 1;
        }
        i = i + 1;
    }
    true
}

} // verus!
