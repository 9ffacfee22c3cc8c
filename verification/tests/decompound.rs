//! Decompound scenarios: the capped and uncapped extraction paths,
//! timestamp rejection and the rolling accounting.
use lsd_wrapper::contract::{compute_accrued_rewards, execute_decompound, instantiate};
use lsd_wrapper::decimal::{Decimal, DECIMAL_FRACTIONAL};
use lsd_wrapper::state::{DecompoundConfig, DecompoundState, WrapperState};
use lsd_wrapper::ContractError;

const T0: u64 = 1_600_000_000;

fn tenth() -> Decimal {
    // 0.10, the 10%/year cap used throughout.
    Decimal::raw(DECIMAL_FRACTIONAL / 10)
}

fn state(rate_atomics: u128, balance: u128, supply: u128) -> WrapperState {
    WrapperState::new(Decimal::raw(rate_atomics), balance, supply).unwrap()
}

#[test]
fn test_init_wrapper() {
    let (config, dstate) = instantiate(Some(tenth()), T0);

    // The max_decompound_ratio is indeed registered.
    assert_eq!(config.max_decompound_ratio, Some(tenth()));
    assert_eq!(dstate.ratio_sum, Decimal::zero());
    assert_eq!(dstate.total_seconds, 0);
    assert_eq!(dstate.last_decompound, T0);
}

#[test]
fn test_decompound_no_limit() {
    let (config, mut dstate) = instantiate(None, T0);
    let hub = String::from("hub");

    // 1_000_000 LSD deposited at a 1:1 rate; the LSD then jumps to 4:1,
    // so the position is worth 4_000_000 and 750_000 LSD are in excess.
    let st = state(4 * DECIMAL_FRACTIONAL, 1_000_000, 1_000_000);

    let err = execute_decompound(
        &st,
        &config,
        &mut dstate,
        &hub,
        &String::from("anyone"),
        None,
        T0,
    )
    .unwrap_err();
    assert_eq!(err, ContractError::Unauthorized);

    let res =
        execute_decompound(&st, &config, &mut dstate, &hub, &hub, None, T0 + 1).unwrap();
    // Because compute errors are limited, 1 is subtracted.
    assert_eq!(res.lsd_rewards, 750_000 - 1);
    assert_eq!(res.recipient, "hub");

    // We execute the transfer; decompounds 0 now.
    let st = state(4 * DECIMAL_FRACTIONAL, 1_000_000 - 749_999, 1_000_000);
    let res =
        execute_decompound(&st, &config, &mut dstate, &hub, &hub, None, T0 + 2).unwrap();
    assert_eq!(res.lsd_rewards, 0);
}

#[test]
fn test_decompound_same_time() {
    let (config, mut dstate) = instantiate(Some(tenth()), T0);
    let hub = String::from("hub");
    let st = state(4 * DECIMAL_FRACTIONAL, 1_000_000, 1_000_000);

    // Can't execute decompound with the same block time as the initialization.
    let err =
        execute_decompound(&st, &config, &mut dstate, &hub, &hub, None, T0).unwrap_err();
    assert_eq!(err, ContractError::TooSoon);
    assert_eq!(err.message(), "Can't decompound too often");
}

#[test]
fn test_decompound_with_limit() {
    let (config, mut dstate) = instantiate(Some(tenth()), T0);
    let hub = String::from("hub");

    // 1_000_000 LSD at 1:1, jumping to 4:1, but limited to 10%/year:
    // about 273 tokens may be decompounded per day, always minus 1 for
    // computation errors.
    let mut balance: u128 = 1_000_000;
    let st = state(4 * DECIMAL_FRACTIONAL, balance, 1_000_000);
    let res =
        execute_decompound(&st, &config, &mut dstate, &hub, &hub, None, T0 + 3600 * 24)
            .unwrap();
    assert_eq!(res.lsd_rewards, 273 - 1);

    // We execute the transfer and wait another day.
    balance -= res.lsd_rewards;
    let st = state(4 * DECIMAL_FRACTIONAL, balance, 1_000_000);
    let res =
        execute_decompound(&st, &config, &mut dstate, &hub, &hub, None, T0 + 2 * 3600 * 24)
            .unwrap();
    assert_eq!(res.lsd_rewards, 275 - 1);

    balance -= res.lsd_rewards;
    let st = state(4 * DECIMAL_FRACTIONAL, balance, 1_000_000);
    let res =
        execute_decompound(&st, &config, &mut dstate, &hub, &hub, None, T0 + 3 * 3600 * 24)
            .unwrap();
    assert_eq!(res.lsd_rewards, 274 - 1);
}

#[test]
fn uncapped_same_time_both_succeed() {
    // Without a cap configured there is no timestamp check: both calls
    // succeed and the second extracts what remains (nothing).
    let (config, mut dstate) = instantiate(None, T0);
    let hub = String::from("hub");

    let st = state(4 * DECIMAL_FRACTIONAL, 1_000_000, 1_000_000);
    let res = execute_decompound(&st, &config, &mut dstate, &hub, &hub, None, T0).unwrap();
    assert_eq!(res.lsd_rewards, 749_999);

    let st = state(4 * DECIMAL_FRACTIONAL, 1_000_000 - 749_999, 1_000_000);
    let res = execute_decompound(&st, &config, &mut dstate, &hub, &hub, None, T0).unwrap();
    assert_eq!(res.lsd_rewards, 0);
    // The uncapped path never touches the accounting state.
    assert_eq!(dstate.last_decompound, T0);
    assert_eq!(dstate.total_seconds, 0);
    assert_eq!(dstate.ratio_sum, Decimal::zero());
}

#[test]
fn capped_decompound_advances_accounting() {
    let (config, mut dstate) = instantiate(Some(tenth()), T0);
    let hub = String::from("hub");

    let st = state(4 * DECIMAL_FRACTIONAL, 1_000_000, 1_000_000);
    let res =
        execute_decompound(&st, &config, &mut dstate, &hub, &hub, None, T0 + 86_400).unwrap();
    assert_eq!(res.lsd_rewards, 272);
    assert_eq!(res.luna_rewards, 1_091);

    // last_decompound strictly increased and the window accumulated.
    assert_eq!(dstate.last_decompound, T0 + 86_400);
    assert_eq!(dstate.total_seconds, 86_400);
    assert_eq!(dstate.ratio_sum, Decimal::raw(272_750_000_000_000));
}

#[test]
fn slashing_is_a_zero_result_not_an_error() {
    // At a rate below one the decompound succeeds with nothing extracted
    // and the accounting untouched.
    let (config, mut dstate) = instantiate(Some(tenth()), T0);
    let hub = String::from("hub");

    // 1_000_000 LSD now worth half their issue value.
    let st = state(DECIMAL_FRACTIONAL / 2, 1_000_000, 1_000_000);
    let res =
        execute_decompound(&st, &config, &mut dstate, &hub, &hub, None, T0 + 10).unwrap();
    assert_eq!(res.lsd_rewards, 0);
    assert_eq!(res.luna_rewards, 0);
    assert_eq!(dstate.last_decompound, T0);

    // The inner computation reports it as the distinct slashing case.
    let err = compute_accrued_rewards(&st, &config, &dstate, T0 + 10).unwrap_err();
    assert_eq!(err, ContractError::SlashingDetected);
    assert_eq!(err.message(), "No rewards to decompound");
}

#[test]
fn exhausted_allowance_freezes_decompounding() {
    // A ratio_sum beyond the elapsed window's allowance errors until
    // enough time passes.
    let hub = String::from("hub");
    let config = DecompoundConfig { max_decompound_ratio: Some(tenth()) };
    let mut dstate = DecompoundState {
        ratio_sum: Decimal::raw(DECIMAL_FRACTIONAL / 2),
        total_seconds: 86_400,
        last_decompound: T0,
    };

    let st = state(4 * DECIMAL_FRACTIONAL, 1_000_000, 1_000_000);
    let err = execute_decompound(&st, &config, &mut dstate, &hub, &hub, None, T0 + 86_400)
        .unwrap_err();
    assert_eq!(err, ContractError::RatioAccountingUnderflow);

    // Ten years later the window has the headroom back.
    let later = T0 + 10 * 365 * 24 * 60 * 60;
    let res = execute_decompound(&st, &config, &mut dstate, &hub, &hub, None, later).unwrap();
    assert!(res.lsd_rewards > 0);
}

#[test]
fn decompound_recipient_defaults_to_sender() {
    let (config, mut dstate) = instantiate(None, T0);
    let hub = String::from("hub");

    let st = state(4 * DECIMAL_FRACTIONAL, 1_000_000, 1_000_000);
    let res = execute_decompound(
        &st,
        &config,
        &mut dstate,
        &hub,
        &hub,
        Some(String::from("treasury")),
        T0 + 1,
    )
    .unwrap();
    assert_eq!(res.recipient, "treasury");
}
