//! The Roshi vault protocol interface: share accounting, vault and asset
//! state, oracle configurations, authorized actions, instruction layouts and
//! the account checks the program makes.

pub mod access;
pub mod access_list;
pub mod accounts;
pub mod action;
pub mod addresses;
pub mod bytes;
pub mod client;
pub mod error;
pub mod hashing;
pub mod instructions;
pub mod math;
pub mod oracle;
pub mod state;
