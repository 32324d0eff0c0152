//! A small on-ledger accounting core for a micro-payment and tipping
//! application: it registers users, records payments on an append-only
//! ledger, and keeps per-user tip pages whose aggregates never drift from
//! the ledger deltas.
//!
//! The core is a pure state machine over plain values. The hosting
//! environment authenticates callers, persists the state, and settles the
//! actual value transfers; it hands the core the transfer outcome and the
//! ledger time as arguments, and the core's contracts say exactly how the
//! state moves — or, on any failure, that it does not move at all.

pub mod laws;
pub mod model;
pub mod state;
pub mod types;

pub use state::StellarPassContract;
pub use types::{Address, Error, Payment, PaymentType, TipLink, User};
