# lumenlend

The accounting core of the LumenLend lending protocol for Soroban, written
in Verus: every amount the protocol computes and every decision it takes is
an executable function with a contract, and the properties that tie the
operations together are proof functions checked by Verus.

## Layout

- `src/fixed_point.rs`: 18-decimal fixed-point helpers, including an exact
  `a * b / c` that does not overflow in the intermediate product.
- `src/big_nat.rs`: natural numbers of any size (vectors of 64-bit limbs)
  for the health factor's exact sums and the exact collateral-to-seize
  quotient.
- `src/interest_rate_model/`: the kinked utilization-based rate model.
- `src/ltoken/`: the receipt-token ledger (mint, burn, transfer, allowances,
  exchange rate).
- `src/price_oracle/`: staleness check and 14- to 18-decimal rescaling of
  Reflector price reports.
- `src/lending_pool/`: assets, positions, interest accrual, deposit, borrow,
  repay, withdraw, health factor and liquidation settlement.
- `src/liquidation_engine/`: close factor and collateral-to-seize
  calculation.
- `*/laws.rs`: properties spanning several operations (an operation undone
  by its inverse, conservation of balances, monotonicity of rates and health
  factors, and so on).
- `tests/`: executable scenarios.
- `app/`: the Soroban contracts (storage, authorization, token transfers and
  cross-contract calls) that drive the library.

Accounts and assets are `u64` identifiers in the library; the contracts map
their `Address` values onto them for each call.
