//! The exchange-rate engine, the decimal arithmetic it rests on, and the
//! small adapter helpers.
use lsd_wrapper::adapters::has_unique_elements;
use lsd_wrapper::contract::{instantiate, migrate, update_decompound_rate, SECONDS_PER_YEAR};
use lsd_wrapper::decimal::{Decimal, DECIMAL_FRACTIONAL};
use lsd_wrapper::querier::{
    get_current_exchange_rate, get_expected_exchange_rate, get_lsd_wrapper_exchange_rate,
    query_mint_amount, query_token_info,
};
use lsd_wrapper::state::WrapperState;
use lsd_wrapper::ContractError;

const T0: u64 = 1_600_000_000;

fn state(rate_atomics: u128, balance: u128, supply: u128) -> WrapperState {
    WrapperState::new(Decimal::raw(rate_atomics), balance, supply).unwrap()
}

#[test]
fn zero_supply_bootstrap_rate_is_one() {
    // A freshly instantiated wrapper (no supply) reports exactly 1.
    let st = state(DECIMAL_FRACTIONAL, 0, 0);
    assert_eq!(get_current_exchange_rate(&st), Decimal::one());

    let st = state(3 * DECIMAL_FRACTIONAL, 1_000_000, 0);
    assert_eq!(get_current_exchange_rate(&st), Decimal::one());
}

#[test]
fn current_rate_is_backing_over_supply() {
    let st = state(4 * DECIMAL_FRACTIONAL, 1_000_000, 1_000_000);
    assert_eq!(
        get_current_exchange_rate(&st),
        Decimal::raw(4 * DECIMAL_FRACTIONAL)
    );
    // A slashed position reports below one.
    let st = state(DECIMAL_FRACTIONAL / 2, 1_000_000, 1_000_000);
    assert_eq!(
        get_current_exchange_rate(&st),
        Decimal::raw(DECIMAL_FRACTIONAL / 2)
    );
}

#[test]
fn wrapper_rate_edges() {
    // One while either side is zero, supply / balance otherwise.
    assert_eq!(get_lsd_wrapper_exchange_rate(0, 0).unwrap(), Decimal::one());
    assert_eq!(get_lsd_wrapper_exchange_rate(0, 5).unwrap(), Decimal::one());
    assert_eq!(get_lsd_wrapper_exchange_rate(5, 0).unwrap(), Decimal::one());
    assert_eq!(
        get_lsd_wrapper_exchange_rate(3, 2).unwrap(),
        Decimal::raw(3 * DECIMAL_FRACTIONAL / 2)
    );
    assert_eq!(
        get_lsd_wrapper_exchange_rate(u128::MAX, 1).unwrap_err(),
        ContractError::Overflow
    );
}

#[test]
fn query_mint_amount_floors() {
    // 10 LSD at rate 1.5 mint 15; 7 at rate 1.5 mint 10 (floored).
    assert_eq!(query_mint_amount(3, 2, 10).unwrap(), 15);
    assert_eq!(query_mint_amount(3, 2, 7).unwrap(), 10);
}

#[test]
fn expected_rate_discounts_the_cap_allowance() {
    // Rate 4.0, 10%/year cap, a full year elapsed and nothing extracted:
    // the expected rate is 4.0 - 0.1 = 3.9.
    let st = state(4 * DECIMAL_FRACTIONAL, 1_000_000, 1_000_000);
    let (config, dstate) = instantiate(Some(Decimal::raw(DECIMAL_FRACTIONAL / 10)), T0);
    let r = get_expected_exchange_rate(&st, &config, &dstate, T0 + SECONDS_PER_YEAR).unwrap();
    assert_eq!(r, Decimal::raw(3_900_000_000_000_000_000));
}

#[test]
fn expected_rate_floors_at_one() {
    // Rate 1.05 with a decade of allowance: clamped to 1.
    let st = state(1_050_000_000_000_000_000, 1_000_000, 1_000_000);
    let (config, dstate) = instantiate(Some(Decimal::raw(DECIMAL_FRACTIONAL / 10)), T0);
    let r = get_expected_exchange_rate(&st, &config, &dstate, T0 + 10 * SECONDS_PER_YEAR)
        .unwrap();
    assert_eq!(r, Decimal::one());
}

#[test]
fn expected_rate_passes_slashing_through() {
    // Below one, the current rate is returned unchanged: no cap logic.
    let st = state(DECIMAL_FRACTIONAL / 2, 1_000_000, 1_000_000);
    let (config, dstate) = instantiate(Some(Decimal::raw(DECIMAL_FRACTIONAL / 10)), T0);
    let r = get_expected_exchange_rate(&st, &config, &dstate, T0 + SECONDS_PER_YEAR).unwrap();
    assert_eq!(r, Decimal::raw(DECIMAL_FRACTIONAL / 2));
}

#[test]
fn expected_rate_without_cap_is_the_current_rate() {
    let st = state(4 * DECIMAL_FRACTIONAL, 1_000_000, 1_000_000);
    let (config, dstate) = instantiate(None, T0);
    let r = get_expected_exchange_rate(&st, &config, &dstate, T0 + SECONDS_PER_YEAR).unwrap();
    assert_eq!(r, Decimal::raw(4 * DECIMAL_FRACTIONAL));
}

#[test]
fn token_info_reports_both_rates() {
    let st = state(4 * DECIMAL_FRACTIONAL, 1_000_000, 2_000_000);
    let (config, dstate) = instantiate(None, T0);
    let info = query_token_info(
        String::from("wrapper"),
        String::from("wLSD"),
        6,
        &st,
        &config,
        &dstate,
        T0 + 5,
    )
    .unwrap();
    assert_eq!(info.name, "wrapper");
    assert_eq!(info.symbol, "wLSD");
    assert_eq!(info.decimals, 6);
    assert_eq!(info.total_supply, 2_000_000);
    assert_eq!(info.exchange_rate, Decimal::raw(2 * DECIMAL_FRACTIONAL));
    assert_eq!(info.expected_exchange_rate, Decimal::raw(2 * DECIMAL_FRACTIONAL));
    assert_eq!(info.max_decompound_ratio, None);
    assert_eq!(info.lsd_exchange_rate, Decimal::raw(2 * DECIMAL_FRACTIONAL));
}

#[test]
fn update_rate_is_hub_gated() {
    let (mut config, _) = instantiate(None, T0);
    let hub = String::from("hub");

    let err = update_decompound_rate(
        &mut config,
        &hub,
        &String::from("anyone"),
        Some(Decimal::one()),
    )
    .unwrap_err();
    assert_eq!(err, ContractError::Unauthorized);
    assert_eq!(config.max_decompound_ratio, None);

    update_decompound_rate(&mut config, &hub, &hub, Some(Decimal::one())).unwrap();
    assert_eq!(config.max_decompound_ratio, Some(Decimal::one()));
}

#[test]
fn migrate_overwrites_the_cap() {
    let (mut config, _) = instantiate(Some(Decimal::one()), T0);
    migrate(&mut config, Some(Decimal::raw(DECIMAL_FRACTIONAL / 10)));
    assert_eq!(
        config.max_decompound_ratio,
        Some(Decimal::raw(DECIMAL_FRACTIONAL / 10))
    );
    migrate(&mut config, None);
    assert_eq!(config.max_decompound_ratio, None);
}

#[test]
fn backing_value_overflow_is_reported() {
    let r = WrapperState::new(Decimal::raw(u128::MAX), u128::MAX, 0);
    assert_eq!(r.unwrap_err(), ContractError::Overflow);
}

#[test]
fn decimal_arithmetic_matches_the_chain_library() {
    // The library's fixed-point results coincide with cosmwasm-std's.
    let ours = Decimal::checked_from_ratio(1, 3).unwrap().atomics();
    let theirs = cosmwasm_std::Decimal::from_ratio(1u128, 3u128).atomics().u128();
    assert_eq!(ours, theirs);

    let a = Decimal::raw(1_234_567_890_123_456_789);
    let b = Decimal::raw(987_654_321_098_765_432);
    let ours = a.checked_mul(b).unwrap().atomics();
    let theirs = (cosmwasm_std::Decimal::raw(1_234_567_890_123_456_789)
        * cosmwasm_std::Decimal::raw(987_654_321_098_765_432))
    .atomics()
    .u128();
    assert_eq!(ours, theirs);

    let ours = a.checked_div(b).unwrap().atomics();
    let theirs = (cosmwasm_std::Decimal::raw(1_234_567_890_123_456_789)
        / cosmwasm_std::Decimal::raw(987_654_321_098_765_432))
    .atomics()
    .u128();
    assert_eq!(ours, theirs);

    let ours = b.checked_mul_uint(12_340_000).unwrap();
    let theirs = (cosmwasm_std::Uint128::new(12_340_000)
        * cosmwasm_std::Decimal::raw(987_654_321_098_765_432))
    .u128();
    assert_eq!(ours, theirs);
}

#[test]
fn unique_element_detection() {
    let unique = vec![String::from("a"), String::from("b"), String::from("c")];
    assert!(has_unique_elements(&unique));

    let duplicated = vec![String::from("a"), String::from("b"), String::from("a")];
    assert!(!has_unique_elements(&duplicated));

    let empty: Vec<String> = vec![];
    assert!(has_unique_elements(&empty));
}
