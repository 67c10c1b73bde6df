# contract

A constant-product liquidity pool for a pair of tokens, as a Verus-verified
library (`src/`) and the on-chain program around it (`app/`).

- `src/math.rs`: integer square root, the deposit ratio check, the liquidity
  minted for first and later deposits, the pro-rata payout of a burn, and the
  swap computation, each with a contract over spec functions of the formulas.
- `src/instructions/`: the state transition of each pool instruction (create a
  pool, attach its reserves, register a provider, deposit, mint, withdraw,
  burn, swap, change the fee) on plain-value records from `src/state.rs`;
  withdraw and swap also return the token transfers that the program must
  carry out.
- `src/laws.rs`: properties across functions, such as that depositing and
  then withdrawing the minted liquidity pays out no more than was deposited.
- `app/`: the Anchor program: account validation, token transfers, mints and
  burns, the clock, and the conversion between account records and the
  library's records.
