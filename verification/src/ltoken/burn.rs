//! Burning lTokens (the lending pool debits a withdrawer).
use vstd::prelude::*;
use crate::fixed_point::in_i128;
use super::{underlying_share, underlying_share_defined, with_balance, LToken, LTokenError, LTokenState};

verus! {

/// The error burning `amount` from `from` meets, if any.
pub open spec fn burn_error(s: LTokenState, from: u64, amount: i128) -> Option<LTokenError> {
    if s.balances[from] < amount || !in_i128(s.balances[from] - amount) {
        Some(LTokenError::InsufficientBalance)
    } else if s.total_supply < amount || !in_i128(s.total_supply - amount) {
        Some(LTokenError::TotalSupplyUnderflow)
    } else if !underlying_share_defined(s, amount) || !in_i128(
        s.total_underlying_deposited - underlying_share(s, amount),
    ) {
        Some(LTokenError::Overflow)
    } else {
        None
    }
}

/// The ledger after burning `amount` from `from`: the supply and `from`'s
/// balance shrink by `amount`, and the recorded underlying by what `amount`
/// lTokens stand for at the current rate.
pub open spec fn burned(s: LTokenState, from: u64, amount: i128) -> LTokenState {
    let s1 = with_balance(s, from, (s.balances[from] - amount) as i128);
    LTokenState {
        total_supply: (s.total_supply - amount) as i128,
        total_underlying_deposited: (s.total_underlying_deposited - underlying_share(s, amount)) as i128,
        ..s1
    }
}

/// Destroys `amount` lTokens from `from`'s account, releasing the
/// underlying they stand for from the record.
pub fn burn(token: &mut LToken, from: u64, amount: i128) -> (r: Result<(), LTokenError>)
    ensures
        match r {
            Ok(_) => burn_error(old(token)@, from, amount) is None && final(token)@ == burned(
                old(token)@,
                from,
                amount,
            ),
            Err(e) => burn_error(old(token)@, from, amount) == Some(e) && final(token)@ == old(
                token,
            )@,
        },
{
    let balance = token.balance(from);
    if balance < amount {
        return Err(LTokenError::InsufficientBalance);
    }
    let new_balance = match balance.checked_sub(amount) {
        Some(v) => v,
        None => return Err(LTokenError::InsufficientBalance),
    };
    if token.total_supply < amount {
        return Err(LTokenError::TotalSupplyUnderflow);
    }
    let new_total_supply = match token.total_supply.checked_sub(amount) {
        Some(v) => v,
        None => return Err(LTokenError::TotalSupplyUnderflow),
    };
    let share = match token.share_of(amount) {
        Some(v) => v,
        None => return Err(LTokenError::Overflow),
    };
    let new_underlying = match token.total_underlying_deposited.checked_sub(share) {
        Some(v) => v,
        None => return Err(LTokenError::Overflow),
    };
    token.set_balance(from, new_balance);
    token.total_supply = new_total_supply;
    token.total_underlying_deposited = new_underlying;
    Ok(())
}

} // verus!
