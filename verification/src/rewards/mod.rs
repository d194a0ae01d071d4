//! How the rewards of a cycle are shared out between the delegates and their delegators.
pub mod block_totals;
pub mod course;
pub mod credits;
pub mod distribution;
pub mod error;
pub mod history;
pub mod laws;
pub mod receipts;
pub mod requests;
pub mod run;
pub mod schedule;
pub mod types;
pub mod unread;
