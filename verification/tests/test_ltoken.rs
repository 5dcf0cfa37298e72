//! Tests of the lToken ledger. Accounts are numbered.

use lumenlend::ltoken::burn::burn;
use lumenlend::ltoken::mint::mint;
use lumenlend::ltoken::{LToken, LTokenError};

const ONE: i128 = 1_000_000_000_000_000_000;

fn with_ltoken<F: FnOnce(&mut LToken)>(f: F) {
    let mut client = LToken::initialize();
    f(&mut client);
}

#[test]
fn test_initialize_sets_fields() {
    with_ltoken(|client| {
        assert_eq!(client.total_supply(), 0);
        assert_eq!(client.exchange_rate().unwrap(), ONE);
        let unknown = 7;
        assert_eq!(client.balance(unknown), 0);
    });
}

#[test]
fn test_mint_increases_supply_and_balance() {
    with_ltoken(|client| {
        let to = 1;
        mint(client, to, 100).unwrap();
        assert_eq!(client.total_supply(), 100);
        assert_eq!(client.balance(to), 100);
    });
}

#[test]
fn test_burn_decreases_supply_and_balance() {
    let mut client = LToken::initialize();
    let from = 1;
    mint(&mut client, from, 100).unwrap();
    burn(&mut client, from, 50).unwrap();
    assert_eq!(client.total_supply(), 50);
    assert_eq!(client.balance(from), 50);
}

#[test]
fn test_balance_returns_zero_for_unknown_address() {
    with_ltoken(|client| {
        let unknown = 1;
        assert_eq!(client.balance(unknown), 0);
    });
}

#[test]
fn test_exchange_rate_starts_at_one() {
    with_ltoken(|client| {
        assert_eq!(client.exchange_rate().unwrap(), ONE);
    });
}

#[test]
fn test_exchange_rate_zero_supply_does_not_panic() {
    with_ltoken(|client| {
        assert_eq!(client.total_supply(), 0);
        assert_eq!(client.exchange_rate().unwrap(), ONE);
    });
}

#[test]
fn test_transfer() {
    with_ltoken(|client| {
        let from = 1;
        let to = 2;
        mint(client, from, 100).unwrap();
        client.transfer(from, to, 50).unwrap();
        assert_eq!(client.balance(from), 50);
        assert_eq!(client.balance(to), 50);
    });
}

#[test]
fn test_transfer_from() {
    with_ltoken(|client| {
        let owner = 1;
        let spender = 2;
        let to = 3;
        mint(client, owner, 100).unwrap();
        client.approve(owner, spender, 50);
        client.transfer_from(spender, owner, to, 50).unwrap();
        assert_eq!(client.balance(owner), 50);
        assert_eq!(client.balance(to), 50);
        assert_eq!(client.allowance(owner, spender), 0);
    });
}

// ---------------------------------------------------------------------------
// Further cases.
// ---------------------------------------------------------------------------

#[test]
fn burn_undoes_mint() {
    let mut t = LToken::initialize();
    mint(&mut t, 1, 30).unwrap();
    mint(&mut t, 2, 70).unwrap();
    burn(&mut t, 2, 70).unwrap();
    assert_eq!(t.total_supply(), 30);
    assert_eq!(t.balance(1), 30);
    assert_eq!(t.balance(2), 0);
}

#[test]
fn burn_more_than_balance_is_refused_without_change() {
    let mut t = LToken::initialize();
    mint(&mut t, 1, 10).unwrap();
    assert_eq!(burn(&mut t, 1, 20), Err(LTokenError::InsufficientBalance));
    assert_eq!(burn(&mut t, 1, i128::MAX), Err(LTokenError::InsufficientBalance));
    assert_eq!(t.balance(1), 10);
    assert_eq!(t.total_supply(), 10);
    assert_eq!(t.total_underlying_deposited(), 10);
}

#[test]
fn transfer_beyond_balance_is_refused() {
    let mut t = LToken::initialize();
    mint(&mut t, 1, 10).unwrap();
    assert_eq!(t.transfer(1, 2, 50), Err(LTokenError::InsufficientBalance));
    assert_eq!(t.balance(1), 10);
    assert_eq!(t.balance(2), 0);
    t.transfer(1, 2, 10).unwrap();
    assert_eq!(t.balance(1), 0);
    assert_eq!(t.balance(2), 10);
}

#[test]
fn transfer_from_without_allowance_is_refused() {
    let mut t = LToken::initialize();
    mint(&mut t, 1, 100).unwrap();
    assert_eq!(t.transfer_from(2, 1, 3, 50), Err(LTokenError::InsufficientAllowance));
    t.approve(1, 2, 60);
    assert_eq!(t.transfer_from(2, 1, 3, 61), Err(LTokenError::InsufficientAllowance));
    t.set_balance(1, 20);
    assert_eq!(t.transfer_from(2, 1, 3, 50), Err(LTokenError::InsufficientBalance));
    assert_eq!(t.allowance(1, 2), 60);
    assert_eq!(t.balance(1), 20);
    assert_eq!(t.balance(3), 0);
}

#[test]
fn mint_overflows_are_refused() {
    let mut t = LToken::initialize();
    mint(&mut t, 1, i128::MAX).unwrap();
    assert_eq!(mint(&mut t, 2, 1), Err(LTokenError::TotalSupplyOverflow));
    let mut u = LToken::from_totals(0, 0);
    u.set_balance(5, i128::MAX);
    assert_eq!(mint(&mut u, 5, 1), Err(LTokenError::BalanceOverflow));
    assert_eq!(u.total_supply(), 0);
}

#[test]
fn burn_supply_underflow_is_refused() {
    let mut t = LToken::from_totals(i128::MIN, 0);
    t.set_balance(1, 5);
    assert_eq!(burn(&mut t, 1, 1), Err(LTokenError::TotalSupplyUnderflow));
    let mut u = LToken::from_totals(3, 3);
    u.set_balance(1, 5);
    assert_eq!(burn(&mut u, 1, 4), Err(LTokenError::TotalSupplyUnderflow));
}

#[test]
fn transfer_to_self_changes_nothing() {
    let mut t = LToken::initialize();
    mint(&mut t, 1, 100).unwrap();
    t.transfer(1, 1, 60).unwrap();
    assert_eq!(t.balance(1), 100);
    assert_eq!(t.total_supply(), 100);
}

#[test]
fn transfer_conserves_supply_and_refuses_overflow() {
    let mut t = LToken::initialize();
    mint(&mut t, 1, 100).unwrap();
    t.transfer(1, 2, 100).unwrap();
    assert_eq!(t.balance(1) + t.balance(2), 100);
    assert_eq!(t.total_supply(), 100);
    t.set_balance(3, i128::MAX);
    assert_eq!(t.transfer(2, 3, 1), Err(LTokenError::BalanceOverflow));
    assert_eq!(t.balance(2), 100);
    t.set_balance(4, i128::MIN);
    assert_eq!(t.transfer(4, 2, 1), Err(LTokenError::InsufficientBalance));
}

#[test]
fn transfer_from_needs_allowance() {
    let mut t = LToken::initialize();
    mint(&mut t, 1, 100).unwrap();
    t.approve(1, 2, i128::MIN);
    assert_eq!(t.transfer_from(2, 1, 3, 1), Err(LTokenError::InsufficientAllowance));
    assert_eq!(t.allowance(1, 2), i128::MIN);
    t.approve(1, 2, 40);
    t.approve(1, 3, 7);
    t.transfer_from(2, 1, 3, 30).unwrap();
    assert_eq!(t.allowance(1, 2), 10);
    assert_eq!(t.allowance(1, 3), 7);
    assert_eq!(t.allowance(2, 1), 0);
    assert_eq!(t.balance(1), 70);
    assert_eq!(t.balance(3), 30);
}

#[test]
fn exchange_rate_stays_at_one_through_mint_and_burn() {
    let mut t = LToken::initialize();
    mint(&mut t, 1, 100).unwrap();
    assert_eq!(t.exchange_rate(), Ok(ONE));
    assert_eq!(t.total_underlying_deposited(), 100);
    burn(&mut t, 1, 40).unwrap();
    assert_eq!(t.exchange_rate(), Ok(ONE));
    assert_eq!(t.total_underlying_deposited(), 60);
    // On a ledger worth 2.5 underlying per lToken, minting records the
    // minted lTokens' worth and keeps the rate.
    let mut w = LToken::from_totals(4, 10);
    mint(&mut w, 1, 4).unwrap();
    assert_eq!(w.total_underlying_deposited(), 20);
    assert_eq!(w.exchange_rate(), Ok(2_500_000_000_000_000_000));
    let u = LToken::from_totals(4, 10);
    assert_eq!(u.exchange_rate(), Ok(2_500_000_000_000_000_000));
    assert_eq!(u.total_underlying_deposited(), 10);
    let v = LToken::from_totals(1, i128::MAX);
    assert_eq!(v.exchange_rate(), Err(LTokenError::Overflow));
}

#[test]
fn ltoken_error_messages() {
    assert_eq!(LTokenError::InsufficientBalance.message(), "LToken: insufficient balance");
    assert_eq!(LTokenError::InsufficientAllowance.message(), "LToken: insufficient allowance");
}
