//! Materialization core for a stream of decoded on-chain transaction effects.
//!
//! A batch of typed events and upgrade changes is routed into per-kind ordered
//! lists, each list is partitioned into bounded chunks, and every chunk is
//! applied atomically against a relational store model with kind-specific
//! conflict semantics (insert-if-absent or merge).  Selected kinds additionally
//! produce outbound notification requests for a best-effort side channel.

pub mod accounts;

pub mod address;

pub mod chunking;

pub mod errors;

pub mod notifier;

pub mod numeric;

pub mod rows;

pub mod spin_events_storer;

pub mod staking_events_storer;

pub mod stakings;

pub mod store;

pub mod storer;

pub mod token_events_storer;

pub mod tokens;

pub mod trade_events_storer;

pub mod trades;

pub mod upgrade_module_change_storer;

pub mod upgrade_package_change_storer;

pub mod upgrades;
