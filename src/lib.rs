//! A batch payment ledger: validated transaction records are applied, in
//! arrival order, to per-client accounts under a dispute lifecycle.
pub mod account;
pub mod args;
pub mod ingest;
pub mod laws;
pub mod ledger;
pub mod transaction;
