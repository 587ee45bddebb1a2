//! Transactions that stay encrypted until they are executed.
//!
//! A user submits a call that is encrypted twice, once for each of two
//! collators. The builder takes off the outer layer, the executor takes off the
//! inner one, and the calls that come out are dispatched on the user's behalf.
//! A user whose transaction was not executed in the session it was submitted in
//! can have it marked for a refund in the session that follows.

pub mod config;
pub mod execution;
pub mod fee;
pub mod history;
pub mod laws;
pub mod pallet;
pub mod session;
pub mod state;
pub mod storage;
pub mod substrate;
pub mod types;
