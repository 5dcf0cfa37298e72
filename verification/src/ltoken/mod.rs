//! The lToken receipt-token ledger: balances, allowances, total supply and
//! the exchange rate to the underlying asset.
//!
//! Accounts are identified by `u64`; every balance and allowance that was
//! never written reads as zero.
pub mod burn;
pub mod laws;
pub mod mint;

use vstd::prelude::*;
use std::collections::HashMap;
use crate::fixed_point::{in_i128, trunc_div, wide_mul_div, wide_mul_div_defined, SCALE};
use crate::pair_key::{lemma_pair_key_injective, make_pair_key, pair_key};

verus! {

broadcast use vstd::std_specs::hash::group_hash_axioms;

/// The ledger of one lToken.
pub struct LToken {
    total_supply: i128,
    total_underlying_deposited: i128,
    balances: HashMap<u64, i128>,
    allowances: HashMap<u128, i128>,
}

/// The abstract content of a ledger: every account's balance and every
/// (owner, spender) allowance, zero where nothing was written.
pub struct LTokenState {
    pub total_supply: i128,
    pub total_underlying_deposited: i128,
    pub balances: Map<u64, i128>,
    pub allowances: Map<(u64, u64), i128>,
}

impl LTokenState {
    /// Every account has a balance and every pair an allowance, as in the
    /// content of a ledger.
    pub open spec fn total(self) -> bool {
        &&& forall|owner: u64| #[trigger] self.balances.dom().contains(owner)
        &&& forall|p: (u64, u64)| #[trigger] self.allowances.dom().contains(p)
    }
}

/// Why a ledger operation is refused.
#[derive(Clone, Copy, Debug, PartialEq, Eq)]
pub enum LTokenError {
    TotalSupplyOverflow,
    TotalSupplyUnderflow,
    BalanceOverflow,
    InsufficientBalance,
    InsufficientAllowance,
    Overflow,
}

impl LTokenError {
    /// The text of `message`.
    pub open spec fn message_text(self) -> Seq<char> {
        match self {
            LTokenError::TotalSupplyOverflow => "LToken: total supply overflow"@,
            LTokenError::TotalSupplyUnderflow => "LToken: total supply underflow"@,
            LTokenError::BalanceOverflow => "LToken: balance overflow"@,
            LTokenError::InsufficientBalance => "LToken: insufficient balance"@,
            LTokenError::InsufficientAllowance => "LToken: insufficient allowance"@,
            LTokenError::Overflow => "LToken: overflow"@,
        }
    }

    /// The message with which the contract aborts on this error.
    pub fn message(&self) -> (r: &'static str)
        ensures
            r@ == self.message_text(),
    {
        match self {
            LTokenError::TotalSupplyOverflow => "LToken: total supply overflow",
            LTokenError::TotalSupplyUnderflow => "LToken: total supply underflow",
            LTokenError::BalanceOverflow => "LToken: balance overflow",
            LTokenError::InsufficientBalance => "LToken: insufficient balance",
            LTokenError::InsufficientAllowance => "LToken: insufficient allowance",
            LTokenError::Overflow => "LToken: overflow",
        }
    }
}

/// Writes one balance.
pub open spec fn with_balance(s: LTokenState, owner: u64, value: i128) -> LTokenState {
    LTokenState { balances: s.balances.insert(owner, value), ..s }
}

/// Writes one allowance.
pub open spec fn with_allowance(s: LTokenState, owner: u64, spender: u64, value: i128) -> LTokenState {
    LTokenState { allowances: s.allowances.insert((owner, spender), value), ..s }
}

/// The error a transfer of `amount` from `from` to `to` meets, if any.
pub open spec fn transfer_error(s: LTokenState, from: u64, to: u64, amount: i128) -> Option<
    LTokenError,
> {
    let from_balance = s.balances[from] - amount;
    if s.balances[from] < amount || !in_i128(from_balance) {
        Some(LTokenError::InsufficientBalance)
    } else if !in_i128(with_balance(s, from, from_balance as i128).balances[to] + amount) {
        Some(LTokenError::BalanceOverflow)
    } else {
        None
    }
}

/// The ledger after a transfer: the sender's balance is debited, then the
/// recipient's (re-read) balance is credited.
pub open spec fn transferred(s: LTokenState, from: u64, to: u64, amount: i128) -> LTokenState {
    let s1 = with_balance(s, from, (s.balances[from] - amount) as i128);
    with_balance(s1, to, (s1.balances[to] + amount) as i128)
}

/// The error `transfer_from` meets, if any.
pub open spec fn transfer_from_error(
    s: LTokenState,
    spender: u64,
    from: u64,
    to: u64,
    amount: i128,
) -> Option<LTokenError> {
    let allowance = s.allowances[(from, spender)];
    if allowance < amount || !in_i128(allowance - amount) {
        Some(LTokenError::InsufficientAllowance)
    } else {
        transfer_error(s, from, to, amount)
    }
}

/// The ledger after `transfer_from`: the allowance is spent, then the
/// transfer is made.
pub open spec fn transferred_from(
    s: LTokenState,
    spender: u64,
    from: u64,
    to: u64,
    amount: i128,
) -> LTokenState {
    let s1 = with_allowance(s, from, spender, (s.allowances[(from, spender)] - amount) as i128);
    transferred(s1, from, to, amount)
}

/// `total_underlying * 1e18 / total_supply`, or `1e18` with no supply.
pub open spec fn exchange_rate_value(s: LTokenState) -> int {
    if s.total_supply == 0 {
        SCALE as int
    } else {
        trunc_div(s.total_underlying_deposited * SCALE, s.total_supply as int)
    }
}

/// The error `exchange_rate` meets, if any: the rate does not fit in
/// `i128`.
pub open spec fn exchange_rate_error(s: LTokenState) -> Option<LTokenError> {
    if s.total_supply == 0 {
        None
    } else if !wide_mul_div_defined(s.total_underlying_deposited as int, SCALE as int, s.total_supply as int) {
        Some(LTokenError::Overflow)
    } else {
        None
    }
}

/// The underlying that `amount` lTokens stand for: their pro-rata share of
/// the recorded underlying, rounded toward zero, and `amount` itself while
/// no lToken is outstanding (the rate is then 1.0).
pub open spec fn underlying_share(s: LTokenState, amount: i128) -> int {
    if s.total_supply == 0 {
        amount as int
    } else {
        trunc_div(amount * s.total_underlying_deposited, s.total_supply as int)
    }
}

/// The share of `amount` can be computed on `i128`.
pub open spec fn underlying_share_defined(s: LTokenState, amount: i128) -> bool {
    s.total_supply == 0 || wide_mul_div_defined(amount as int, s.total_underlying_deposited as int, s.total_supply as int)
}

impl View for LToken {
    type V = LTokenState;

    closed spec fn view(&self) -> LTokenState {
        LTokenState {
            total_supply: self.total_supply,
            total_underlying_deposited: self.total_underlying_deposited,
            balances: Map::new(
                |k: u64| true,
                |k: u64|
                    if self.balances@.contains_key(k) {
                        self.balances@[k]
                    } else {
                        0i128
                    },
            ),
            allowances: Map::new(
                |p: (u64, u64)| true,
                |p: (u64, u64)|
                    if self.allowances@.contains_key(pair_key(p.0, p.1)) {
                        self.allowances@[pair_key(p.0, p.1)]
                    } else {
                        0i128
                    },
            ),
        }
    }
}

impl LToken {
    /// The content of a ledger covers every account and every pair.
    pub proof fn lemma_view_total(&self)
        ensures
            self@.total(),
    {
    }

    /// A fresh ledger: no supply, no underlying, no balances.
    pub fn initialize() -> (r: LToken)
        ensures
            r@.total_supply == 0,
            r@.total_underlying_deposited == 0,
            forall|owner: u64| r@.balances[owner] == 0,
            forall|owner: u64, spender: u64| r@.allowances[(owner, spender)] == 0,
    {
        Self::from_totals(0, 0)
    }

    /// A ledger with the given totals and no balances yet written.
    pub fn from_totals(total_supply: i128, total_underlying_deposited: i128) -> (r: LToken)
        ensures
            r@.total_supply == total_supply,
            r@.total_underlying_deposited == total_underlying_deposited,
            forall|owner: u64| r@.balances[owner] == 0,
            forall|owner: u64, spender: u64| r@.allowances[(owner, spender)] == 0,
    {
        LToken {
            total_supply,
            total_underlying_deposited,
            balances: HashMap::new(),
            allowances: HashMap::new(),
        }
    }

    /// The lToken balance of `owner` (zero when never written).
    pub fn balance(&self, owner: u64) -> (r: i128)
        ensures
            r == self@.balances[owner],
    {
        match self.balances.get(&owner) {
            Some(v) => *v,
            None => 0,
        }
    }

    /// Total lTokens outstanding.
    pub fn total_supply(&self) -> (r: i128)
        ensures
            r == self@.total_supply,
    {
        self.total_supply
    }

    /// Total underlying recorded as deposited.
    pub fn total_underlying_deposited(&self) -> (r: i128)
        ensures
            r == self@.total_underlying_deposited,
    {
        self.total_underlying_deposited
    }

    /// Sets the balance of `owner`.
    pub fn set_balance(&mut self, owner: u64, value: i128)
        ensures
            final(self)@ == with_balance(old(self)@, owner, value),
    {
        self.balances.insert(owner, value);
        assert(final(self)@.balances =~= old(self)@.balances.insert(owner, value));
    }

    /// The amount `spender` may still transfer out of `owner`'s account.
    pub fn allowance(&self, owner: u64, spender: u64) -> (r: i128)
        ensures
            r == self@.allowances[(owner, spender)],
    {
        match self.allowances.get(&make_pair_key(owner, spender)) {
            Some(v) => *v,
            None => 0,
        }
    }

    /// Sets the allowance `owner` grants `spender` (an approval).
    pub fn approve(&mut self, owner: u64, spender: u64, amount: i128)
        ensures
            final(self)@ == with_allowance(old(self)@, owner, spender, amount),
    {
        let k = make_pair_key(owner, spender);
        self.allowances.insert(k, amount);
        assert forall|p: (u64, u64)| #[trigger]
            final(self)@.allowances[p] == old(self)@.allowances.insert((owner, spender), amount)[p] by {
            lemma_pair_key_injective(p.0, p.1, owner, spender);
        }
        assert(final(self)@.allowances =~= old(self)@.allowances.insert((owner, spender), amount));
    }

    /// Moves `amount` lTokens from `from` to `to`.
    pub fn transfer(&mut self, from: u64, to: u64, amount: i128) -> (r: Result<(), LTokenError>)
        ensures
            match r {
                Ok(_) => transfer_error(old(self)@, from, to, amount) is None && final(self)@
                    == transferred(old(self)@, from, to, amount),
                Err(e) => transfer_error(old(self)@, from, to, amount) == Some(e) && final(self)@
                    == old(self)@,
            },
    {
        let balance = self.balance(from);
        if balance < amount {
            return Err(LTokenError::InsufficientBalance);
        }
        let new_balance = match balance.checked_sub(amount) {
            Some(v) => v,
            None => return Err(LTokenError::InsufficientBalance),
        };
        let to_balance = if to == from {
            new_balance
        } else {
            self.balance(to)
        };
        let new_to_balance = match to_balance.checked_add(amount) {
            Some(v) => v,
            None => return Err(LTokenError::BalanceOverflow),
        };
        self.set_balance(from, new_balance);
        self.set_balance(to, new_to_balance);
        Ok(())
    }

    /// Moves `amount` lTokens from `from` to `to` on behalf of `spender`,
    /// spending that much of the allowance `from` granted `spender`.
    pub fn transfer_from(&mut self, spender: u64, from: u64, to: u64, amount: i128) -> (r: Result<
        (),
        LTokenError,
    >)
        ensures
            match r {
                Ok(_) => transfer_from_error(old(self)@, spender, from, to, amount) is None
                    && final(self)@ == transferred_from(old(self)@, spender, from, to, amount),
                Err(e) => transfer_from_error(old(self)@, spender, from, to, amount) == Some(e)
                    && final(self)@ == old(self)@,
            },
    {
        let allowance = self.allowance(from, spender);
        if allowance < amount {
            return Err(LTokenError::InsufficientAllowance);
        }
        let new_allowance = match allowance.checked_sub(amount) {
            Some(v) => v,
            None => return Err(LTokenError::InsufficientAllowance),
        };
        let balance = self.balance(from);
        if balance < amount || balance.checked_sub(amount).is_none() {
            return Err(LTokenError::InsufficientBalance);
        }
        let to_balance = if to == from {
            balance - amount
        } else {
            self.balance(to)
        };
        if to_balance.checked_add(amount).is_none() {
            return Err(LTokenError::BalanceOverflow);
        }
        self.approve(from, spender, new_allowance);
        let result = self.transfer(from, to, amount);
        assert(result is Ok);
        Ok(())
    }

    /// The underlying that `amount` lTokens stand for; `None` when it does
    /// not fit in `i128`.
    pub fn share_of(&self, amount: i128) -> (r: Option<i128>)
        ensures
            r is Some <==> underlying_share_defined(self@, amount),
            r matches Some(v) ==> v == underlying_share(self@, amount),
    {
        if self.total_supply == 0 {
            return Some(amount);
        }
        wide_mul_div(amount, self.total_underlying_deposited, self.total_supply)
    }

    /// The lToken to underlying exchange rate (18-decimal fixed point):
    /// `total_underlying * 1e18 / total_supply`, and `1e18` with no supply.
    pub fn exchange_rate(&self) -> (r: Result<i128, LTokenError>)
        ensures
            match r {
                Ok(v) => exchange_rate_error(self@) is None && v == exchange_rate_value(self@),
                Err(e) => exchange_rate_error(self@) == Some(e),
            },
    {
        if self.total_supply == 0 {
            return Ok(SCALE);
        }
        match wide_mul_div(self.total_underlying_deposited, SCALE, self.total_supply) {
            Some(v) => Ok(v),
            None => Err(LTokenError::Overflow),
        }
    }
}

} // verus!
