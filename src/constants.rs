use vstd::prelude::*;

verus! {

/// Basis points: 10_000 stands for 100%.
pub const BPS: u128 = 10_000;

/// One unit of the base asset in its smallest denomination (1e18).
pub const WAD: u128 = 1_000_000_000_000_000_000;

/// The exchange rate used while no shares are outstanding.
pub const INITIAL_EXCHANGE_RATE: u128 = 1_000_000_000_000_000_000;

/// The smallest amount that can be delegated to or undelegated from a counterparty.
pub const MIN_DELEGATION_AMOUNT: u128 = 1_000_000_000_000_000_000;

/// The unbond period on devnet, in epochs.
pub const DEVNET_UNBOND_PERIOD: u64 = 1;

/// The unbond period on mainnet, in epochs.
pub const MAINNET_UNBOND_PERIOD: u64 = 10;

/// The largest number of counterparties the ordered registry holds.
pub const MAX_DELEGATION_CONTRACTS_LIST_SIZE: usize = 100;

/// Epochs without a successful undelegation after which anyone may open the undelegation mode.
pub const NO_UNDELEGATE_EPOCHS: u64 = 10;

/// Epochs without a counterparty data update after which anyone may open the undelegation mode.
pub const NO_DATA_UPDATE_EPOCHS: u64 = 10;

/// Epochs the admin waits before the undelegation algorithm can be reactivated.
pub const COOLDOWN_REACTIVATE_UNDELEGATION_ALGORITHM: u64 = 1;

/// The largest sampling premium accepted, so that candidate weights and their sums stay in range.
pub const MAX_SAMPLING_PREMIUM: u128 = 18_446_744_073_709_551_615;

} // verus!
