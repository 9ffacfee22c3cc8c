//! Mint and burn orchestration: deposits, mint amounts, burns and the
//! collateralization they preserve.
use lsd_wrapper::decimal::DECIMAL_FRACTIONAL;
use lsd_wrapper::handler::{
    execute_burn, execute_burn_all, execute_burn_from, execute_mint, execute_mint_with,
};
use lsd_wrapper::ContractError;

#[test]
fn test_deposit_funds() {
    // A fresh wrapper mints 1:1 against the deposited LSD.
    let res = execute_mint_with(0, 0, String::from("depositor"), 1_000_000).unwrap();
    assert_eq!(res.deposit_amount, 1_000_000);
    assert_eq!(res.mint_amount, 1_000_000);
    assert_eq!(res.recipient, "depositor");
}

#[test]
fn test_deposit_funds_share() {
    // With 4_000_000 wrapper tokens backed by 1_000_000 LSD, each LSD
    // unit mints four wrapper tokens.
    let res =
        execute_mint_with(4_000_000, 1_000_000, String::from("depositor"), 1_000_000).unwrap();
    assert_eq!(res.deposit_amount, 1_000_000);
    assert_eq!(res.mint_amount, 4_000_000);
}

#[test]
fn mint() {
    // Minting one token on a fresh wrapper asks for the token plus the
    // one-unit safety margin.
    let res = execute_mint(0, 0, String::from("addr0000"), 1).unwrap();
    assert_eq!(res.deposit_amount, 2);
    assert_eq!(res.mint_amount, 1);
}

#[test]
fn mint_multiple_exchange_rates() {
    // The deposit demanded is amount / rate + 1, at each rate.
    // Rate 1.5 (3 wrapper tokens per 2 LSD).
    let res = execute_mint(3, 2, String::from("addr0000"), 10).unwrap();
    assert_eq!(res.deposit_amount, 10 * 2 / 3 + 1);
    // Rate 1.
    let res = execute_mint(10, 10, String::from("addr0000"), 10).unwrap();
    assert_eq!(res.deposit_amount, 11);
    // Rate 0.1 (1 wrapper token per 10 LSD).
    let res = execute_mint(1, 10, String::from("addr0000"), 10).unwrap();
    assert_eq!(res.deposit_amount, 101);
}

#[test]
fn burn() {
    // 12_340_000 wrapper tokens minted at a 1.5 wrapper rate, which
    // deposited 12_340_000 / 1.5 + 1 = 8_226_667 LSD; burning 1234 sends
    // back 822 LSD (1234 / 1.5 floored).
    let res = execute_burn(12_340_000, 8_226_667, 1234).unwrap();
    assert_eq!(res.burn_amount, 1234);
    assert_eq!(res.lsd_to_send, 822);
}

#[test]
fn burn_from() {
    // Burning from an owner's balance computes the same transfer.
    let res =
        execute_burn_from(12_340_000, 8_226_667, String::from("addr0000"), 1234).unwrap();
    assert_eq!(res.burn_amount, 1234);
    assert_eq!(res.lsd_to_send, 822);
}

#[test]
fn burn_all_of_empty_balance_is_a_no_op() {
    let res = execute_burn_all(12_340_000, 8_226_667, 0).unwrap();
    assert_eq!(res.burn_amount, 0);
    assert_eq!(res.lsd_to_send, 0);
}

#[test]
fn burn_all_burns_the_whole_balance() {
    let res = execute_burn_all(3, 2, 3).unwrap();
    assert_eq!(res.burn_amount, 3);
    assert_eq!(res.lsd_to_send, 2);
}

#[test]
fn round_trip_returns_at_most_the_deposit() {
    // mint_with followed by burning everything minted, at an unchanged
    // rate: the depositor never gets back more than they put in, and at a
    // rate of one or above the shortfall is at most one atomic unit.
    let lsd: u128 = 363_938;
    let minted = execute_mint_with(2_000_000, 1_000_000, String::from("a"), lsd)
        .unwrap()
        .mint_amount;
    let returned = execute_burn(2_000_000 + minted, 1_000_000 + lsd, minted)
        .unwrap()
        .lsd_to_send;
    assert!(returned <= lsd);
    assert!(lsd - returned <= 1);
}

#[test]
fn mint_preserves_collateralization() {
    // Wrapper at 3:2 (rate 1.5), LSD worth 1.5 backing units each:
    // exactly collateralized before, still collateralized after.
    let supply: u128 = 3_000_000;
    let balance: u128 = 2_000_000;
    let rate: u128 = 3 * DECIMAL_FRACTIONAL / 2;
    assert!(balance * rate >= supply * DECIMAL_FRACTIONAL);

    let amount: u128 = 777_777;
    let res = execute_mint(supply, balance, String::from("a"), amount).unwrap();
    let new_balance = balance + res.deposit_amount;
    let new_supply = supply + amount;
    assert!(new_balance * rate >= new_supply * DECIMAL_FRACTIONAL);
}

#[test]
fn burn_at_exact_rate_preserves_collateralization() {
    let supply: u128 = 3_000_000;
    let balance: u128 = 2_000_000;
    let rate: u128 = 3 * DECIMAL_FRACTIONAL / 2;

    let res = execute_burn(supply, balance, 1_234_567).unwrap();
    let new_balance = balance - res.lsd_to_send;
    let new_supply = supply - res.burn_amount;
    assert!(new_balance * rate >= new_supply * DECIMAL_FRACTIONAL);
}

#[test]
fn mint_with_overflowing_rate_errors() {
    // supply * 10^18 / balance does not fit in the decimal range.
    let res = execute_mint_with(u128::MAX, 1, String::from("a"), 1);
    assert_eq!(res.unwrap_err(), ContractError::Overflow);
}

#[test]
fn mint_amount_overflow_errors() {
    // The wrapper rate fits (3 * 10^38) but amount * rate does not.
    let supply: u128 = 300_000_000_000_000_000_000;
    let amount: u128 = 2_000_000_000_000_000_000;
    let res = execute_mint_with(supply, 1, String::from("a"), amount);
    assert_eq!(res.unwrap_err(), ContractError::Overflow);
}
