//! A trust-minimized oracle core: a single authorized relayer reports a
//! measured value for each fixed-length time window ("epoch"); the contract
//! keeps an append-only, gap-free series of epoch records, tracks a
//! consecutive-epoch continuity streak of values above a threshold, and
//! releases its full escrowed balance to a fixed recipient once the streak
//! reaches the configured requirement.
//!
//! The host environment (durable storage, caller authentication, wall-clock
//! time, the asset ledger) is outside this crate: entry points take the
//! authenticated-caller flag and the current timestamp as plain arguments, and
//! payouts act on an [`ledger::AssetLedger`] balance book handed in by the
//! caller.

pub mod errors;
pub mod ledger;
pub mod oracle;

pub use errors::OracleError;
pub use ledger::AssetLedger;
pub use oracle::{DataKey, EpochData, WeatherOracle};
