//! Properties of the lToken ledger.
use vstd::prelude::*;
use crate::fixed_point::{lemma_floor_div_cancel, lemma_floor_div_monotonic, trunc_div, SCALE};
use super::burn::{burn_error, burned};
use super::mint::{mint_error, minted};
use super::{
    exchange_rate_error, exchange_rate_value, underlying_share, underlying_share_defined, transfer_error, transfer_from_error, transferred,
    transferred_from, with_allowance, LTokenState,
};

verus! {

/// `(a * x) / x == a` for a non-zero `x`, rounding toward zero.
proof fn lemma_trunc_div_cancel(a: int, x: int)
    requires
        x != 0,
    ensures
        trunc_div(a * x, x) == a,
{
    if x > 0 {
        lemma_floor_div_cancel(a, x);
        lemma_floor_div_cancel(-a, x);
        assert((-a) * x == -(a * x)) by (nonlinear_arith);
    } else {
        lemma_floor_div_cancel(a, -x);
        lemma_floor_div_cancel(-a, -x);
        assert(a * (-x) == -(a * x)) by (nonlinear_arith);
        assert((-a) * (-x) == a * x) by (nonlinear_arith);
    }
}

/// On a ledger whose recorded underlying equals its supply, `amount`
/// lTokens stand for exactly `amount` of the underlying.
proof fn lemma_share_at_par(s: LTokenState, amount: i128)
    requires
        s.total_underlying_deposited == s.total_supply,
    ensures
        underlying_share_defined(s, amount),
        underlying_share(s, amount) == amount,
{
    if s.total_supply != 0 {
        lemma_trunc_div_cancel(amount as int, s.total_supply as int);
    }
}

/// Burning what was just minted, on a ledger backed one for one (as every
/// ledger is from `initialize` on until interest is added), always succeeds
/// and gives back the ledger as it was.
pub proof fn law_burn_undoes_mint(s: LTokenState, to: u64, amount: i128)
    requires
        s.total(),
        s.balances[to] >= 0,
        s.total_supply >= 0,
        s.total_underlying_deposited == s.total_supply,
        mint_error(s, to, amount) is None,
    ensures
        burn_error(minted(s, to, amount), to, amount) is None,
        burned(minted(s, to, amount), to, amount) == s,
{
    let m = minted(s, to, amount);
    lemma_share_at_par(s, amount);
    lemma_share_at_par(m, amount);
    assert(burned(m, to, amount).balances =~= s.balances);
}

/// A ledger backed one for one stays so through mints and burns, and its
/// exchange rate is exactly 1.0: without interest, one lToken always
/// redeems for one unit of the underlying.
pub proof fn law_par_ledger_stays_at_one(s: LTokenState, account: u64, amount: i128)
    requires
        s.total_underlying_deposited == s.total_supply,
    ensures
        exchange_rate_error(s) is None,
        exchange_rate_value(s) == SCALE,
        mint_error(s, account, amount) is None ==> minted(s, account, amount).total_underlying_deposited
            == minted(s, account, amount).total_supply,
        burn_error(s, account, amount) is None ==> burned(s, account, amount).total_underlying_deposited
            == burned(s, account, amount).total_supply,
{
    lemma_share_at_par(s, amount);
    if s.total_supply != 0 {
        lemma_trunc_div_cancel(SCALE as int, s.total_supply as int);
        assert(s.total_underlying_deposited * SCALE == SCALE * s.total_supply) by (nonlinear_arith)
            requires
                s.total_underlying_deposited == s.total_supply,
        ;
    }
}

/// While the recorded underlying covers the supply, the exchange rate is at
/// least 1.0, and minting or burning a non-negative amount keeps the
/// underlying covering the supply.
pub proof fn law_backed_rate_at_least_one(s: LTokenState, account: u64, amount: i128)
    requires
        s.total_supply >= 0,
        s.total_underlying_deposited >= s.total_supply,
        amount >= 0,
    ensures
        exchange_rate_error(s) is None ==> exchange_rate_value(s) >= SCALE,
        mint_error(s, account, amount) is None ==> minted(s, account, amount).total_underlying_deposited
            >= minted(s, account, amount).total_supply,
        burn_error(s, account, amount) is None ==> burned(s, account, amount).total_underlying_deposited
            >= burned(s, account, amount).total_supply,
{
    let sup = s.total_supply as int;
    let und = s.total_underlying_deposited as int;
    let a = amount as int;
    if sup > 0 {
        assert(und * SCALE >= sup * SCALE) by (nonlinear_arith)
            requires
                und >= sup,
        ;
        lemma_floor_div_monotonic(sup * SCALE, und * SCALE, sup);
        assert(sup * SCALE == SCALE * sup) by (nonlinear_arith);
        lemma_floor_div_cancel(SCALE as int, sup);
        assert(a * und >= 0) by (nonlinear_arith)
            requires
                a >= 0,
                und >= 0,
        ;
        assert(a * und >= a * sup) by (nonlinear_arith)
            requires
                a >= 0,
                und >= sup,
        ;
        lemma_floor_div_monotonic(a * sup, a * und, sup);
        lemma_floor_div_cancel(a, sup);
        let q = (a * und) / sup;
        vstd::arithmetic::div_mod::lemma_fundamental_div_mod(a * und, sup);
        vstd::arithmetic::div_mod::lemma_mod_pos_bound(a * und, sup);
        assert(q * sup <= a * und) by (nonlinear_arith)
            requires
                a * und == sup * q + (a * und) % sup,
                0 <= (a * und) % sup,
        ;
        if a <= sup {
            assert(q <= und - sup + a) by (nonlinear_arith)
                requires
                    q * sup <= a * und,
                    sup > 0,
                    a <= sup,
                    und >= sup,
                    q == (a * und) / sup,
                    a * und == sup * q + (a * und) % sup,
                    0 <= (a * und) % sup,
            {
                assert((und - sup) * (sup - a) >= 0) by (nonlinear_arith)
                    requires
                        und >= sup,
                        sup >= a,
                ;
            }
        }
    }
}

/// Minting and burning change the total supply by exactly the amount
/// credited to or debited from the one account, and touch no other account.
pub proof fn law_mint_and_burn_keep_supply_in_step(s: LTokenState, account: u64, amount: i128, other: u64)
    requires
        other != account,
    ensures
        mint_error(s, account, amount) is None ==> {
            &&& minted(s, account, amount).total_supply - s.total_supply == amount
            &&& minted(s, account, amount).balances[account] - s.balances[account] == amount
            &&& minted(s, account, amount).balances[other] == s.balances[other]
        },
        burn_error(s, account, amount) is None ==> {
            &&& s.total_supply - burned(s, account, amount).total_supply == amount
            &&& s.balances[account] - burned(s, account, amount).balances[account] == amount
            &&& burned(s, account, amount).balances[other] == s.balances[other]
        },
{
}

/// A transfer leaves the total supply unchanged, moves exactly `amount`
/// from the sender to the recipient, touches no other account, and changes
/// nothing when sender and recipient are the same account.
pub proof fn law_transfer_conserves_balances(s: LTokenState, from: u64, to: u64, amount: i128, other: u64)
    requires
        s.total(),
        transfer_error(s, from, to, amount) is None,
        other != from,
        other != to,
    ensures
        transferred(s, from, to, amount).total_supply == s.total_supply,
        transferred(s, from, to, amount).balances[other] == s.balances[other],
        from != to ==> transferred(s, from, to, amount).balances[from] == s.balances[from] - amount,
        from != to ==> transferred(s, from, to, amount).balances[to] == s.balances[to] + amount,
        from == to ==> transferred(s, from, to, amount) == s,
{
    if from == to {
        assert(transferred(s, from, to, amount).balances =~= s.balances);
    }
}

/// `transfer_from` spends exactly `amount` of the allowance the sender
/// granted the spender, leaves every other allowance as it was, and moves
/// the balances as a transfer does.
pub proof fn law_transfer_from_spends_allowance(
    s: LTokenState,
    spender: u64,
    from: u64,
    to: u64,
    amount: i128,
    owner: u64,
    other_spender: u64,
)
    requires
        transfer_from_error(s, spender, from, to, amount) is None,
        (owner, other_spender) != (from, spender),
    ensures
        transferred_from(s, spender, from, to, amount).allowances[(from, spender)] == s.allowances[(
            from,
            spender,
        )] - amount,
        transferred_from(s, spender, from, to, amount).allowances[(owner, other_spender)]
            == s.allowances[(owner, other_spender)],
        transferred_from(s, spender, from, to, amount).balances == transferred(
            s,
            from,
            to,
            amount,
        ).balances,
        transferred_from(s, spender, from, to, amount).total_supply == s.total_supply,
{
}

/// An approval is read back by `allowance` and changes no other allowance.
pub proof fn law_approve_then_allowance(
    s: LTokenState,
    owner: u64,
    spender: u64,
    amount: i128,
    other_owner: u64,
    other_spender: u64,
)
    requires
        (other_owner, other_spender) != (owner, spender),
    ensures
        with_allowance(s, owner, spender, amount).allowances[(owner, spender)] == amount,
        with_allowance(s, owner, spender, amount).allowances[(other_owner, other_spender)]
            == s.allowances[(other_owner, other_spender)],
{
}

/// With no lTokens outstanding, one lToken is worth exactly one unit of the
/// underlying asset.
pub proof fn law_exchange_rate_starts_at_one(s: LTokenState)
    requires
        s.total_supply == 0,
    ensures
        exchange_rate_error(s) is None,
        exchange_rate_value(s) == SCALE,
{
}

/// A mutating operation on a ledger.
pub enum LedgerOp {
    Mint { to: u64, amount: i128 },
    Burn { from: u64, amount: i128 },
    Transfer { from: u64, to: u64, amount: i128 },
    TransferFrom { spender: u64, from: u64, to: u64, amount: i128 },
    Approve { owner: u64, spender: u64, amount: i128 },
}

/// The ledger after `op`, as its method leaves it: changed as the method
/// states on success, unchanged when the method refuses.
pub open spec fn apply_op(s: LTokenState, op: LedgerOp) -> LTokenState {
    match op {
        LedgerOp::Mint { to, amount } => if mint_error(s, to, amount) is None {
            minted(s, to, amount)
        } else {
            s
        },
        LedgerOp::Burn { from, amount } => if burn_error(s, from, amount) is None {
            burned(s, from, amount)
        } else {
            s
        },
        LedgerOp::Transfer { from, to, amount } => if transfer_error(s, from, to, amount) is None {
            transferred(s, from, to, amount)
        } else {
            s
        },
        LedgerOp::TransferFrom { spender, from, to, amount } => if transfer_from_error(
            s,
            spender,
            from,
            to,
            amount,
        ) is None {
            transferred_from(s, spender, from, to, amount)
        } else {
            s
        },
        LedgerOp::Approve { owner, spender, amount } => with_allowance(s, owner, spender, amount),
    }
}

/// The ledger after the operations `ops`, in order.
pub open spec fn run_ops(s: LTokenState, ops: Seq<LedgerOp>) -> LTokenState
    decreases ops.len(),
{
    if ops.len() == 0 {
        s
    } else {
        run_ops(apply_op(s, ops[0]), ops.subrange(1, ops.len() as int))
    }
}

/// Without interest, one lToken always redeems for one unit of the
/// underlying: from a ledger backed one for one (as `initialize` makes it,
/// with no supply and no underlying), every sequence of mints, burns,
/// transfers and approvals leaves the recorded underlying equal to the
/// supply and the exchange rate exactly 1.0.
pub proof fn law_exchange_rate_stays_at_one(s: LTokenState, ops: Seq<LedgerOp>)
    requires
        s.total_underlying_deposited == s.total_supply,
    ensures
        run_ops(s, ops).total_underlying_deposited == run_ops(s, ops).total_supply,
        exchange_rate_error(run_ops(s, ops)) is None,
        exchange_rate_value(run_ops(s, ops)) == SCALE,
    decreases ops.len(),
{
    if ops.len() == 0 {
        law_par_ledger_stays_at_one(s, 0, 0);
    } else {
        let next = apply_op(s, ops[0]);
        match ops[0] {
            LedgerOp::Mint { to, amount } => {
                law_par_ledger_stays_at_one(s, to, amount);
            },
            LedgerOp::Burn { from, amount } => {
                law_par_ledger_stays_at_one(s, from, amount);
            },
            _ => {},
        }
        assert(next.total_underlying_deposited == next.total_supply);
        law_exchange_rate_stays_at_one(next, ops.subrange(1, ops.len() as int));
    }
}

} // verus!

verus! {

/// With lTokens outstanding and a non-negative underlying, the exchange
/// rate is the underlying per lToken in fixed point, rounded down:
/// `rate * supply <= underlying * 1e18 < (rate + 1) * supply`.
pub proof fn law_exchange_rate_is_the_ratio(s: LTokenState)
    requires
        s.total_supply > 0,
        s.total_underlying_deposited >= 0,
        exchange_rate_error(s) is None,
    ensures
        ({
            let r = exchange_rate_value(s);
            &&& 0 <= r
            &&& r * s.total_supply <= s.total_underlying_deposited * SCALE
            &&& s.total_underlying_deposited * SCALE < (r + 1) * s.total_supply
        }),
{
    assert(s.total_underlying_deposited * SCALE >= 0) by (nonlinear_arith)
        requires
            s.total_underlying_deposited >= 0,
    ;
    crate::fixed_point::lemma_floor_bracket(
        s.total_underlying_deposited * SCALE,
        s.total_supply as int,
    );
}

} // verus!

verus! {

/// No account pays out more than it holds, and no spender more than it was
/// allowed: an accepted transfer or burn has `amount <= balance`, an
/// accepted `transfer_from` also has `amount <= allowance`, and a burn never
/// takes the supply below zero.
pub proof fn law_no_overdraft(s: LTokenState, spender: u64, from: u64, to: u64, amount: i128)
    ensures
        transfer_error(s, from, to, amount) is None ==> amount <= s.balances[from],
        transfer_from_error(s, spender, from, to, amount) is None ==> amount <= s.allowances[(
            from,
            spender,
        )] && amount <= s.balances[from],
        burn_error(s, from, amount) is None ==> amount <= s.balances[from] && amount
            <= s.total_supply,
        transfer_error(s, from, to, amount) is None && from != to ==> transferred(
            s,
            from,
            to,
            amount,
        ).balances[from] == s.balances[from] - amount && transferred(s, from, to, amount).balances[to]
            == s.balances[to] + amount,
{
}

} // verus!
