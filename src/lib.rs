//! Control plane for an external transfer worker: the task ledger with debounced saves,
//! reconciliation of the ledger with the worker's live state, the change feed, and the
//! decisions of the worker's supervisor.

pub mod error;
pub mod state;
pub mod text;
pub mod task;
pub mod ledger;
pub mod store;
pub mod reconcile;
pub mod feed;
pub mod naming;
pub mod commands;
pub mod supervisor;
pub mod format;
pub mod torrent;
