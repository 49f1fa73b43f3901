# spectrum

Share, reward and governance arithmetic of the Spectrum protocol contracts,
written in Verus and proved against its contracts.

## Layout

- `src/math.rs` – fixed-point decimals (18 fractional digits) and the one call
  into cosmwasm-std, `Uint128::multiply_ratio`, behind a trusted wrapper.
- `src/gov/` – the governance contract: staking pools per lock period, accounts,
  SPEC minting, balance reconciliation (SPEC in `reconcile.rs`, aUST in
  `aust.rs`), polls.
- `src/farm/` – auto-compounding farms: bond shares, SPEC and farm-token reward
  indices, reward withdrawal, the split of harvested rewards into commission,
  re-investment and staking, and the sharing out of commission. Where the farms
  differ (which fee rates a compound charges, whether it always provides
  liquidity, whether it counts the SPEC it bought) the rule is a parameter.
- `src/spec_farm/` – the SPEC farm: SPEC rewards spread over bonded LP tokens by
  pool weight.
- `src/platform.rs`, `src/deployer.rs` – board weights, configuration and
  time-locked migrations.
- `tests/` – scenarios on concrete values.
- `app/` – conversions between the library's types and cosmwasm-std's, serde
  copies of the stored records, and two query helpers.

Every operation takes what it reads from storage or other contracts as plain
values and returns the new values, and, where a contract decides which messages
to send, those decisions as plain values. The crate holds no contract entry
points: no instantiate, execute or query handlers, no message encoding and no
storage access; a contract built on it loads and saves the values, calls the
operations and turns their results into messages.
