//! Canonical one-byte instruction tags.

use vstd::prelude::*;

verus! {

pub const INITIALIZE_PROGRAM: u8 = 0;
pub const INITIALIZE_VAULT: u8 = 1;
pub const AUTHORIZE_ACTION: u8 = 2;
pub const REVOKE_ACTION: u8 = 3;
pub const MANAGE: u8 = 4;
pub const MANAGE_BATCH: u8 = 5;
pub const REPORT_NAV: u8 = 6;
pub const DEPOSIT: u8 = 7;
pub const REDEEM: u8 = 8;
pub const CANCEL_REDEEM: u8 = 9;
pub const PROCESS_WITHDRAWALS: u8 = 10;
pub const UPDATE_VAULT_CONFIG: u8 = 11;
pub const INITIALIZE_ASSET: u8 = 12;
pub const UPDATE_ASSET: u8 = 13;
pub const SET_PAUSE_FLAGS: u8 = 14;
pub const SET_VAULT_ACCESS: u8 = 15;
pub const TRANSFER_PROGRAM_AUTHORITY: u8 = 16;
pub const TRANSFER_VAULT_AUTHORITY: u8 = 17;
pub const SET_STRATEGIST: u8 = 18;
pub const SET_NAV_AUTHORITY: u8 = 19;
pub const SET_WITHDRAWAL_AUTHORITY: u8 = 20;
pub const COLLECT_FEES: u8 = 21;
pub const INVEST_EXTERNAL: u8 = 22;
pub const RETURN_EXTERNAL: u8 = 23;
pub const SET_SWAP_AUTHORITY: u8 = 24;
pub const ATOMIC_REDEEM: u8 = 25;
pub const SWAP: u8 = 26;

} // verus!
