//! Minting lTokens (the lending pool credits a depositor).
use vstd::prelude::*;
use crate::fixed_point::in_i128;
use super::{underlying_share, underlying_share_defined, with_balance, LToken, LTokenError, LTokenState};

verus! {

/// The error minting `amount` to `to` meets, if any.
pub open spec fn mint_error(s: LTokenState, to: u64, amount: i128) -> Option<LTokenError> {
    if !in_i128(s.total_supply + amount) {
        Some(LTokenError::TotalSupplyOverflow)
    } else if !in_i128(s.balances[to] + amount) {
        Some(LTokenError::BalanceOverflow)
    } else if !underlying_share_defined(s, amount) || !in_i128(
        s.total_underlying_deposited + underlying_share(s, amount),
    ) {
        Some(LTokenError::Overflow)
    } else {
        None
    }
}

/// The ledger after minting `amount` to `to`: the supply and `to`'s balance
/// grow by `amount`, and the recorded underlying by what `amount` lTokens
/// stand for at the current rate.
pub open spec fn minted(s: LTokenState, to: u64, amount: i128) -> LTokenState {
    let s1 = with_balance(s, to, (s.balances[to] + amount) as i128);
    LTokenState {
        total_supply: (s.total_supply + amount) as i128,
        total_underlying_deposited: (s.total_underlying_deposited + underlying_share(s, amount)) as i128,
        ..s1
    }
}

/// Creates `amount` lTokens in `to`'s account, recording the underlying
/// they stand for.
pub fn mint(token: &mut LToken, to: u64, amount: i128) -> (r: Result<(), LTokenError>)
    ensures
        match r {
            Ok(_) => mint_error(old(token)@, to, amount) is None && final(token)@ == minted(
                old(token)@,
                to,
                amount,
            ),
            Err(e) => mint_error(old(token)@, to, amount) == Some(e) && final(token)@ == old(
                token,
            )@,
        },
{
    let new_total_supply = match token.total_supply.checked_add(amount) {
        Some(v) => v,
        None => return Err(LTokenError::TotalSupplyOverflow),
    };
    let new_balance = match token.balance(to).checked_add(amount) {
        Some(v) => v,
        None => return Err(LTokenError::BalanceOverflow),
    };
    let share = match token.share_of(amount) {
        Some(v) => v,
        None => return Err(LTokenError::Overflow),
    };
    let new_underlying = match token.total_underlying_deposited.checked_add(share) {
        Some(v) => v,
        None => return Err(LTokenError::Overflow),
    };
    token.set_balance(to, new_balance);
    token.total_supply = new_total_supply;
    token.total_underlying_deposited = new_underlying;
    Ok(())
}

} // verus!
