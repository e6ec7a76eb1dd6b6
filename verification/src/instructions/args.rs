//! Instruction argument payloads.

use vstd::prelude::*;

use crate::action::{ActionScope, Ops};
use crate::oracle::OracleConfig;
use crate::state::vault::VaultControls;

pub use crate::instructions::account_flags::AccountFlags;

verus! {

#[derive(Clone, Debug, PartialEq, Eq)]
pub struct InitializeProgramArgs {
    pub authority: [u8; 32],
}

#[derive(Clone, Debug, PartialEq, Eq)]
pub struct InitializeVaultArgs {
    pub tag: [u8; 32],
    pub tag_len: u8,
    pub admin: [u8; 32],
    pub strategist: [u8; 32],
    pub swap_authority: [u8; 32],
    pub nav_authority: [u8; 32],
    pub withdrawal_authority: [u8; 32],
    pub base_mint: [u8; 32],
    pub base_decimals: u8,
    pub base_oracle: OracleConfig,
    pub deposit_sub_account: u8,
    pub withdraw_sub_account: u8,
    pub treasury: [u8; 32],
    pub performance_fee_bps: u16,
    pub withdrawal_buffer_bps: u16,
    pub controls: VaultControls,
    pub private: bool,
    pub access_merkle_root: [u8; 32],
}

#[derive(Clone, Debug, PartialEq, Eq)]
pub struct AuthorizeActionArgs {
    pub action_hash: [u8; 32],
    pub scope: ActionScope,
    pub ops: Ops,
    pub redeem_amount_offset: u16,
    /// `FlashApprove` flash-fee rate as an opaque committed fraction; stored
    /// on the action but not part of its hash. `fee_num == 0` is fee-free.
    pub fee_num: u64,
    pub fee_den: u64,
}

#[derive(Clone, Debug, PartialEq, Eq)]
pub struct RevokeActionArgs {
    pub action_hash: [u8; 32],
}

#[derive(Clone, Debug, PartialEq, Eq)]
pub struct ManageArgs {
    pub sub_account: u8,
    pub program_id: [u8; 32],
    pub accounts_start: u8,
    pub accounts_len: u8,
    pub account_flags: Vec<AccountFlags>,
    pub ix_data: Vec<u8>,
}

#[derive(Clone, Debug, PartialEq, Eq)]
pub struct AtomicRedeemArgs {
    pub shares: u64,
    pub min_output: u64,
    pub sub_account: u8,
    pub program_id: [u8; 32],
    pub accounts_start: u8,
    pub accounts_len: u8,
    pub account_flags: Vec<AccountFlags>,
    pub ix_data: Vec<u8>,
}

#[derive(Clone, Debug, PartialEq, Eq)]
pub struct SwapArgs {
    pub min_out: u64,
    pub max_in: u64,
    pub sub_account: u8,
    pub program_id: [u8; 32],
    pub accounts_start: u8,
    pub accounts_len: u8,
    pub account_flags: Vec<AccountFlags>,
    pub ix_data: Vec<u8>,
}

#[derive(Clone, Debug, PartialEq, Eq)]
pub struct ManageBatchArgs {
    pub actions: Vec<ManageArgs>,
}

#[derive(Clone, Debug, PartialEq, Eq)]
pub struct DepositArgs {
    pub asset_mint: [u8; 32],
    pub amount: u64,
    pub min_shares_out: u64,
    pub access_proof: Vec<[u8; 32]>,
}

#[derive(Clone, Debug, PartialEq, Eq)]
pub struct RedeemArgs {
    pub recipient_token_account: [u8; 32],
    pub ticket_index: u8,
    pub shares: u64,
}

#[derive(Clone, Debug, PartialEq, Eq)]
pub struct CancelRedeemArgs {
    pub min_shares_out: u64,
}

#[derive(Clone, Debug, PartialEq, Eq)]
pub struct ProcessWithdrawalsArgs;

#[derive(Clone, Debug, PartialEq, Eq)]
pub struct InvestExternalArgs {
    pub sub_account: u8,
    pub amount: u64,
}

#[derive(Clone, Debug, PartialEq, Eq)]
pub struct ReturnExternalArgs {
    pub sub_account: u8,
    pub amount: u64,
}

#[derive(Clone, Debug, PartialEq, Eq)]
pub struct CollectFeesArgs {
    pub sub_account: u8,
    pub amount: u64,
}

#[derive(Clone, Debug, PartialEq, Eq)]
pub struct ReportNavArgs {
    /// Marked base-atom value of everything the program does not read as
    /// idle; gross NAV is on-chain idle base plus this value.
    pub external_value: u64,
    pub report_hash: [u8; 32],
}

#[derive(Clone, Debug, PartialEq, Eq)]
pub struct UpdateVaultConfigArgs {
    pub treasury: [u8; 32],
    pub deposit_sub_account: u8,
    pub withdraw_sub_account: u8,
    pub base_oracle: OracleConfig,
    pub performance_fee_bps: u16,
    pub withdrawal_buffer_bps: u16,
    pub controls: VaultControls,
    pub external_enabled: bool,
}

#[derive(Clone, Debug, PartialEq, Eq)]
pub struct InitializeAssetArgs {
    pub asset_mint: [u8; 32],
    pub oracle: OracleConfig,
    pub asset_decimals: u8,
    pub enabled: bool,
    /// Price deposits as `oracle / vault.base_oracle` instead of reading
    /// `oracle` as a direct asset/base feed.
    pub routed: bool,
    /// Inventory cap in asset atoms; `u64::MAX` = uncapped.
    pub deposit_cap_atoms: u64,
}

#[derive(Clone, Debug, PartialEq, Eq)]
pub struct UpdateAssetArgs {
    pub oracle: OracleConfig,
    pub enabled: bool,
    pub routed: bool,
    pub deposit_cap_atoms: u64,
}

#[derive(Clone, Debug, PartialEq, Eq)]
pub struct SetPauseFlagsArgs {
    pub deposits_paused: bool,
    pub withdrawals_paused: bool,
    pub manage_paused: bool,
}

#[derive(Clone, Debug, PartialEq, Eq)]
pub struct SetVaultAccessArgs {
    pub private: bool,
    pub access_merkle_root: [u8; 32],
}

#[derive(Clone, Debug, PartialEq, Eq)]
pub struct TransferProgramAuthorityArgs {
    pub new_authority: [u8; 32],
}

#[derive(Clone, Debug, PartialEq, Eq)]
pub struct TransferVaultAuthorityArgs {
    pub new_authority: [u8; 32],
}

#[derive(Clone, Debug, PartialEq, Eq)]
pub struct SetStrategistArgs {
    pub strategist: [u8; 32],
}

#[derive(Clone, Debug, PartialEq, Eq)]
pub struct SetSwapAuthorityArgs {
    pub swap_authority: [u8; 32],
}

#[derive(Clone, Debug, PartialEq, Eq)]
pub struct SetNavAuthorityArgs {
    pub nav_authority: [u8; 32],
}

#[derive(Clone, Debug, PartialEq, Eq)]
pub struct SetWithdrawalAuthorityArgs {
    pub withdrawal_authority: [u8; 32],
}

#[derive(Clone, Debug, PartialEq, Eq)]
pub struct SetShareMetadataArgs {
    /// Display metadata for the share mint; display only, no economic
    /// invariant may depend on it.
    pub name: String,
    pub symbol: String,
    pub uri: String,
}

#[derive(Clone, Debug, PartialEq, Eq)]
pub struct WriteDownFeesArgs {
    /// Fee liability to forgive: `0 < amount <= fees_payable`.
    pub amount: u64,
}

#[derive(Clone, Debug, PartialEq, Eq)]
pub struct AssertDelegateClearedArgs;

#[derive(Clone, Debug, PartialEq, Eq)]
pub struct AdminSetFlashFeeRateArgs {
    pub fee_num: u64,
    pub fee_den: u64,
}

#[derive(Clone, Debug, PartialEq, Eq)]
pub struct StrategistLowerFlashFeeRateArgs {
    pub fee_num: u64,
    pub fee_den: u64,
}

#[derive(Clone, Debug, PartialEq, Eq)]
pub struct RegisterExternalDestinationArgs;

#[derive(Clone, Debug, PartialEq, Eq)]
pub struct RevokeExternalDestinationArgs;

} // verus!
