//! The account lists of each instruction, in the order and with the
//! privileges the program expects them.

use vstd::prelude::*;

use crate::accounts::system_program_id;
use crate::action::AccountMeta;
use crate::addresses::{try_find_share_mint_address, program_address, share_mint_seed, ID};

verus! {

broadcast use vstd::array::group_array_axioms;

/// The classic SPL Token program, `TokenkegQfeZyiNwAJbNbGKPFXCWuBvf9Ss623VQ5DA`.
pub const TOKEN_PROGRAM_ID: [u8; 32] = [
    6, 221, 246, 225, 215, 101, 161, 147, 217, 203, 225, 70, 206, 235, 121, 172, 28, 180, 133, 237, 95, 91,
    55, 145, 58, 140, 245, 133, 126, 255, 0, 169,
];

/// An account entry as bytes and privileges.
pub open spec fn meta_view(meta: AccountMeta) -> (Seq<u8>, bool, bool) {
    (meta.pubkey@, meta.is_signer, meta.is_writable)
}

/// The byte views of an account list.
pub open spec fn metas_view(metas: Seq<AccountMeta>) -> Seq<(Seq<u8>, bool, bool)> {
    metas.map_values(|meta: AccountMeta| meta_view(meta))
}

fn append_metas(accounts: &mut Vec<AccountMeta>, extra: &[AccountMeta])
    ensures
        final(accounts)@ == old(accounts)@ + extra@,
{
    let ghost initial = accounts@;
    let mut index: usize = 0;
    while index < extra.len()
        invariant
            index <= extra@.len(),
            accounts@ == initial + extra@.subrange(0, index as int),
        decreases extra@.len() - index,
    {
        accounts.push(extra[index]);
        proof {
            assert(extra@.subrange(0, index + 1) =~= extra@.subrange(0, index as int).push(extra@[index as int]));
        }
        index = index + 1;
    }
    assert(extra@.subrange(0, extra@.len() as int) =~= extra@);
}

/// The accounts of `initialize_program`.
pub fn initialize_program_accounts(payer: &[u8; 32], program_config: &[u8; 32]) -> (r: Vec<AccountMeta>)
    ensures
        metas_view(r@) == seq![(payer@, true, true), (ID@, true, false), (program_config@, false, true), (system_program_id(), false, false)],
{
    let mut accounts: Vec<AccountMeta> = Vec::new();
    accounts.push(AccountMeta::new(*payer, true));
    accounts.push(AccountMeta::new_readonly(ID, true));
    accounts.push(AccountMeta::new(*program_config, false));
    let system = [0u8; 32];
    assert(system@ =~= system_program_id());
    accounts.push(AccountMeta::new_readonly(system, false));
    assert(metas_view(accounts@) =~= seq![(payer@, true, true), (ID@, true, false), (program_config@, false, true), (system_program_id(), false, false)]);
    accounts
}

/// The accounts of `transfer_program_authority`.
pub fn transfer_program_authority_accounts(authority: &[u8; 32], program_config: &[u8; 32]) -> (r: Vec<AccountMeta>)
    ensures
        metas_view(r@) == seq![(authority@, true, false), (program_config@, false, true)],
{
    let mut accounts: Vec<AccountMeta> = Vec::new();
    accounts.push(AccountMeta::new_readonly(*authority, true));
    accounts.push(AccountMeta::new(*program_config, false));
    assert(metas_view(accounts@) =~= seq![(authority@, true, false), (program_config@, false, true)]);
    accounts
}

/// The accounts of `transfer_vault_authority`.
pub fn transfer_vault_authority_accounts(authority: &[u8; 32], vault: &[u8; 32]) -> (r: Vec<AccountMeta>)
    ensures
        metas_view(r@) == seq![(authority@, true, false), (vault@, false, true)],
{
    let mut accounts: Vec<AccountMeta> = Vec::new();
    accounts.push(AccountMeta::new_readonly(*authority, true));
    accounts.push(AccountMeta::new(*vault, false));
    assert(metas_view(accounts@) =~= seq![(authority@, true, false), (vault@, false, true)]);
    accounts
}

/// The accounts of `vault_admin`.
pub fn vault_admin_accounts(admin: &[u8; 32], vault: &[u8; 32]) -> (r: Vec<AccountMeta>)
    ensures
        metas_view(r@) == seq![(admin@, true, false), (vault@, false, true)],
{
    let mut accounts: Vec<AccountMeta> = Vec::new();
    accounts.push(AccountMeta::new_readonly(*admin, true));
    accounts.push(AccountMeta::new(*vault, false));
    assert(metas_view(accounts@) =~= seq![(admin@, true, false), (vault@, false, true)]);
    accounts
}

/// The accounts of `update_vault_config`.
pub fn update_vault_config_accounts(admin: &[u8; 32], vault: &[u8; 32], treasury: &[u8; 32]) -> (r: Vec<AccountMeta>)
    ensures
        metas_view(r@) == seq![(admin@, true, false), (vault@, false, true), (treasury@, false, false)],
{
    let mut accounts: Vec<AccountMeta> = Vec::new();
    accounts.push(AccountMeta::new_readonly(*admin, true));
    accounts.push(AccountMeta::new(*vault, false));
    accounts.push(AccountMeta::new_readonly(*treasury, false));
    assert(metas_view(accounts@) =~= seq![(admin@, true, false), (vault@, false, true), (treasury@, false, false)]);
    accounts
}

/// The accounts of `report_nav`.
pub fn report_nav_accounts(nav_authority: &[u8; 32], vault: &[u8; 32], share_mint: &[u8; 32], base_mint: &[u8; 32], deposit_base_custody: &[u8; 32], withdraw_base_custody: &[u8; 32]) -> (r: Vec<AccountMeta>)
    ensures
        metas_view(r@) == seq![(nav_authority@, true, false), (vault@, false, true), (share_mint@, false, false), (base_mint@, false, false), (deposit_base_custody@, false, false), (withdraw_base_custody@, false, false)],
{
    let mut accounts: Vec<AccountMeta> = Vec::new();
    accounts.push(AccountMeta::new_readonly(*nav_authority, true));
    accounts.push(AccountMeta::new(*vault, false));
    accounts.push(AccountMeta::new_readonly(*share_mint, false));
    accounts.push(AccountMeta::new_readonly(*base_mint, false));
    accounts.push(AccountMeta::new_readonly(*deposit_base_custody, false));
    accounts.push(AccountMeta::new_readonly(*withdraw_base_custody, false));
    assert(metas_view(accounts@) =~= seq![(nav_authority@, true, false), (vault@, false, true), (share_mint@, false, false), (base_mint@, false, false), (deposit_base_custody@, false, false), (withdraw_base_custody@, false, false)]);
    accounts
}

/// The accounts of `set_share_metadata`.
pub fn set_share_metadata_accounts(admin: &[u8; 32], vault: &[u8; 32], share_mint: &[u8; 32], metadata: &[u8; 32], token_metadata_program: &[u8; 32]) -> (r: Vec<AccountMeta>)
    ensures
        metas_view(r@) == seq![(admin@, true, true), (vault@, false, false), (share_mint@, false, false), (metadata@, false, true), (token_metadata_program@, false, false), (system_program_id(), false, false)],
{
    let mut accounts: Vec<AccountMeta> = Vec::new();
    accounts.push(AccountMeta::new(*admin, true));
    accounts.push(AccountMeta::new_readonly(*vault, false));
    accounts.push(AccountMeta::new_readonly(*share_mint, false));
    accounts.push(AccountMeta::new(*metadata, false));
    accounts.push(AccountMeta::new_readonly(*token_metadata_program, false));
    let system = [0u8; 32];
    assert(system@ =~= system_program_id());
    accounts.push(AccountMeta::new_readonly(system, false));
    assert(metas_view(accounts@) =~= seq![(admin@, true, true), (vault@, false, false), (share_mint@, false, false), (metadata@, false, true), (token_metadata_program@, false, false), (system_program_id(), false, false)]);
    accounts
}

/// The accounts of `register_external_destination`.
pub fn register_external_destination_accounts(admin: &[u8; 32], vault: &[u8; 32], destination_token_account: &[u8; 32], external_destination: &[u8; 32]) -> (r: Vec<AccountMeta>)
    ensures
        metas_view(r@) == seq![(admin@, true, true), (vault@, false, false), (destination_token_account@, false, false), (external_destination@, false, true), (system_program_id(), false, false)],
{
    let mut accounts: Vec<AccountMeta> = Vec::new();
    accounts.push(AccountMeta::new(*admin, true));
    accounts.push(AccountMeta::new_readonly(*vault, false));
    accounts.push(AccountMeta::new_readonly(*destination_token_account, false));
    accounts.push(AccountMeta::new(*external_destination, false));
    let system = [0u8; 32];
    assert(system@ =~= system_program_id());
    accounts.push(AccountMeta::new_readonly(system, false));
    assert(metas_view(accounts@) =~= seq![(admin@, true, true), (vault@, false, false), (destination_token_account@, false, false), (external_destination@, false, true), (system_program_id(), false, false)]);
    accounts
}

/// The accounts of `revoke_external_destination`.
pub fn revoke_external_destination_accounts(admin: &[u8; 32], vault: &[u8; 32], external_destination: &[u8; 32]) -> (r: Vec<AccountMeta>)
    ensures
        metas_view(r@) == seq![(admin@, true, true), (vault@, false, false), (external_destination@, false, true)],
{
    let mut accounts: Vec<AccountMeta> = Vec::new();
    accounts.push(AccountMeta::new(*admin, true));
    accounts.push(AccountMeta::new_readonly(*vault, false));
    accounts.push(AccountMeta::new(*external_destination, false));
    assert(metas_view(accounts@) =~= seq![(admin@, true, true), (vault@, false, false), (external_destination@, false, true)]);
    accounts
}

/// The accounts of `collect_fees`.
pub fn collect_fees_accounts(admin: &[u8; 32], vault: &[u8; 32], fee_sub_account: &[u8; 32], custody: &[u8; 32], treasury: &[u8; 32]) -> (r: Vec<AccountMeta>)
    ensures
        metas_view(r@) == seq![(admin@, true, false), (vault@, false, true), (fee_sub_account@, false, false), (custody@, false, true), (treasury@, false, true), (TOKEN_PROGRAM_ID@, false, false)],
{
    let mut accounts: Vec<AccountMeta> = Vec::new();
    accounts.push(AccountMeta::new_readonly(*admin, true));
    accounts.push(AccountMeta::new(*vault, false));
    accounts.push(AccountMeta::new_readonly(*fee_sub_account, false));
    accounts.push(AccountMeta::new(*custody, false));
    accounts.push(AccountMeta::new(*treasury, false));
    accounts.push(AccountMeta::new_readonly(TOKEN_PROGRAM_ID, false));
    assert(metas_view(accounts@) =~= seq![(admin@, true, false), (vault@, false, true), (fee_sub_account@, false, false), (custody@, false, true), (treasury@, false, true), (TOKEN_PROGRAM_ID@, false, false)]);
    accounts
}

/// The accounts of `invest_external`.
pub fn invest_external_accounts(strategist: &[u8; 32], vault: &[u8; 32], sub_account: &[u8; 32], custody: &[u8; 32], external_account: &[u8; 32], external_destination: &[u8; 32]) -> (r: Vec<AccountMeta>)
    ensures
        metas_view(r@) == seq![(strategist@, true, false), (vault@, false, true), (sub_account@, false, false), (custody@, false, true), (external_account@, false, true), (external_destination@, false, false), (TOKEN_PROGRAM_ID@, false, false)],
{
    let mut accounts: Vec<AccountMeta> = Vec::new();
    accounts.push(AccountMeta::new_readonly(*strategist, true));
    accounts.push(AccountMeta::new(*vault, false));
    accounts.push(AccountMeta::new_readonly(*sub_account, false));
    accounts.push(AccountMeta::new(*custody, false));
    accounts.push(AccountMeta::new(*external_account, false));
    accounts.push(AccountMeta::new_readonly(*external_destination, false));
    accounts.push(AccountMeta::new_readonly(TOKEN_PROGRAM_ID, false));
    assert(metas_view(accounts@) =~= seq![(strategist@, true, false), (vault@, false, true), (sub_account@, false, false), (custody@, false, true), (external_account@, false, true), (external_destination@, false, false), (TOKEN_PROGRAM_ID@, false, false)]);
    accounts
}

/// The accounts of `return_external`.
pub fn return_external_accounts(strategist: &[u8; 32], external_authority: &[u8; 32], vault: &[u8; 32], sub_account: &[u8; 32], external_account: &[u8; 32], custody: &[u8; 32]) -> (r: Vec<AccountMeta>)
    ensures
        metas_view(r@) == seq![(strategist@, true, false), (external_authority@, true, false), (vault@, false, true), (sub_account@, false, false), (external_account@, false, true), (custody@, false, true), (TOKEN_PROGRAM_ID@, false, false)],
{
    let mut accounts: Vec<AccountMeta> = Vec::new();
    accounts.push(AccountMeta::new_readonly(*strategist, true));
    accounts.push(AccountMeta::new_readonly(*external_authority, true));
    accounts.push(AccountMeta::new(*vault, false));
    accounts.push(AccountMeta::new_readonly(*sub_account, false));
    accounts.push(AccountMeta::new(*external_account, false));
    accounts.push(AccountMeta::new(*custody, false));
    accounts.push(AccountMeta::new_readonly(TOKEN_PROGRAM_ID, false));
    assert(metas_view(accounts@) =~= seq![(strategist@, true, false), (external_authority@, true, false), (vault@, false, true), (sub_account@, false, false), (external_account@, false, true), (custody@, false, true), (TOKEN_PROGRAM_ID@, false, false)]);
    accounts
}

/// The accounts of `initialize_asset`.
pub fn initialize_asset_accounts(admin: &[u8; 32], vault: &[u8; 32], asset_mint: &[u8; 32], asset: &[u8; 32]) -> (r: Vec<AccountMeta>)
    ensures
        metas_view(r@) == seq![(admin@, true, true), (vault@, false, false), (asset_mint@, false, false), (asset@, false, true), (system_program_id(), false, false)],
{
    let mut accounts: Vec<AccountMeta> = Vec::new();
    accounts.push(AccountMeta::new(*admin, true));
    accounts.push(AccountMeta::new_readonly(*vault, false));
    accounts.push(AccountMeta::new_readonly(*asset_mint, false));
    accounts.push(AccountMeta::new(*asset, false));
    let system = [0u8; 32];
    assert(system@ =~= system_program_id());
    accounts.push(AccountMeta::new_readonly(system, false));
    assert(metas_view(accounts@) =~= seq![(admin@, true, true), (vault@, false, false), (asset_mint@, false, false), (asset@, false, true), (system_program_id(), false, false)]);
    accounts
}

/// The accounts of `update_asset`.
pub fn update_asset_accounts(admin: &[u8; 32], vault: &[u8; 32], asset: &[u8; 32]) -> (r: Vec<AccountMeta>)
    ensures
        metas_view(r@) == seq![(admin@, true, false), (vault@, false, false), (asset@, false, true)],
{
    let mut accounts: Vec<AccountMeta> = Vec::new();
    accounts.push(AccountMeta::new_readonly(*admin, true));
    accounts.push(AccountMeta::new_readonly(*vault, false));
    accounts.push(AccountMeta::new(*asset, false));
    assert(metas_view(accounts@) =~= seq![(admin@, true, false), (vault@, false, false), (asset@, false, true)]);
    accounts
}

/// The accounts of `authorize_action`.
pub fn authorize_action_accounts(admin: &[u8; 32], vault: &[u8; 32], action: &[u8; 32]) -> (r: Vec<AccountMeta>)
    ensures
        metas_view(r@) == seq![(admin@, true, true), (vault@, false, false), (action@, false, true), (system_program_id(), false, false)],
{
    let mut accounts: Vec<AccountMeta> = Vec::new();
    accounts.push(AccountMeta::new(*admin, true));
    accounts.push(AccountMeta::new_readonly(*vault, false));
    accounts.push(AccountMeta::new(*action, false));
    let system = [0u8; 32];
    assert(system@ =~= system_program_id());
    accounts.push(AccountMeta::new_readonly(system, false));
    assert(metas_view(accounts@) =~= seq![(admin@, true, true), (vault@, false, false), (action@, false, true), (system_program_id(), false, false)]);
    accounts
}

/// The accounts of `assert_delegate_cleared`.
pub fn assert_delegate_cleared_accounts(token_account: &[u8; 32]) -> (r: Vec<AccountMeta>)
    ensures
        metas_view(r@) == seq![(token_account@, false, false)],
{
    let mut accounts: Vec<AccountMeta> = Vec::new();
    accounts.push(AccountMeta::new_readonly(*token_account, false));
    assert(metas_view(accounts@) =~= seq![(token_account@, false, false)]);
    accounts
}

/// The accounts of `manage`.
pub fn manage_accounts(executor: &[u8; 32], vault: &[u8; 32], sub_account_pda: &[u8; 32], action: &[u8; 32], cpi_accounts: &[AccountMeta]) -> (r: Vec<AccountMeta>)
    ensures
        metas_view(r@) == seq![(executor@, true, false), (vault@, false, false), (sub_account_pda@, false, true), (action@, false, false)] + metas_view(cpi_accounts@),
{
    let mut accounts: Vec<AccountMeta> = Vec::new();
    accounts.push(AccountMeta::new_readonly(*executor, true));
    accounts.push(AccountMeta::new_readonly(*vault, false));
    accounts.push(AccountMeta::new(*sub_account_pda, false));
    accounts.push(AccountMeta::new_readonly(*action, false));
    let ghost fixed = accounts@;
    append_metas(&mut accounts, cpi_accounts);
    proof {
        assert(metas_view(accounts@) =~= metas_view(fixed) + metas_view(cpi_accounts@));
    }
    assert(metas_view(accounts@) =~= seq![(executor@, true, false), (vault@, false, false), (sub_account_pda@, false, true), (action@, false, false)] + metas_view(cpi_accounts@));
    accounts
}

/// The accounts of `atomic_redeem`.
pub fn atomic_redeem_accounts(owner: &[u8; 32], vault: &[u8; 32], user_share_account: &[u8; 32], share_mint: &[u8; 32], recipient_token_account: &[u8; 32], custody: &[u8; 32], base_token_program: &[u8; 32], sub_account_pda: &[u8; 32], action: &[u8; 32], cpi_accounts: &[AccountMeta]) -> (r: Vec<AccountMeta>)
    ensures
        metas_view(r@) == seq![(owner@, true, true), (vault@, false, true), (user_share_account@, false, true), (share_mint@, false, true), (recipient_token_account@, false, true), (custody@, false, true), (base_token_program@, false, false), (sub_account_pda@, false, false), (action@, false, false), (TOKEN_PROGRAM_ID@, false, false)] + metas_view(cpi_accounts@),
{
    let mut accounts: Vec<AccountMeta> = Vec::new();
    accounts.push(AccountMeta::new(*owner, true));
    accounts.push(AccountMeta::new(*vault, false));
    accounts.push(AccountMeta::new(*user_share_account, false));
    accounts.push(AccountMeta::new(*share_mint, false));
    accounts.push(AccountMeta::new(*recipient_token_account, false));
    accounts.push(AccountMeta::new(*custody, false));
    accounts.push(AccountMeta::new_readonly(*base_token_program, false));
    accounts.push(AccountMeta::new_readonly(*sub_account_pda, false));
    accounts.push(AccountMeta::new_readonly(*action, false));
    accounts.push(AccountMeta::new_readonly(TOKEN_PROGRAM_ID, false));
    let ghost fixed = accounts@;
    append_metas(&mut accounts, cpi_accounts);
    proof {
        assert(metas_view(accounts@) =~= metas_view(fixed) + metas_view(cpi_accounts@));
    }
    assert(metas_view(accounts@) =~= seq![(owner@, true, true), (vault@, false, true), (user_share_account@, false, true), (share_mint@, false, true), (recipient_token_account@, false, true), (custody@, false, true), (base_token_program@, false, false), (sub_account_pda@, false, false), (action@, false, false), (TOKEN_PROGRAM_ID@, false, false)] + metas_view(cpi_accounts@));
    accounts
}

/// The accounts of `deposit`.
pub fn deposit_accounts(depositor: &[u8; 32], vault: &[u8; 32], user_source_token_account: &[u8; 32], vault_custody_token_account: &[u8; 32], user_share_account: &[u8; 32], share_mint: &[u8; 32], asset_token_program: &[u8; 32], additional_accounts: &[AccountMeta]) -> (r: Vec<AccountMeta>)
    ensures
        metas_view(r@) == seq![(depositor@, true, false), (vault@, false, true), (user_source_token_account@, false, true), (vault_custody_token_account@, false, true), (user_share_account@, false, true), (share_mint@, false, true), (TOKEN_PROGRAM_ID@, false, false), (asset_token_program@, false, false)] + metas_view(additional_accounts@),
{
    let mut accounts: Vec<AccountMeta> = Vec::new();
    accounts.push(AccountMeta::new_readonly(*depositor, true));
    accounts.push(AccountMeta::new(*vault, false));
    accounts.push(AccountMeta::new(*user_source_token_account, false));
    accounts.push(AccountMeta::new(*vault_custody_token_account, false));
    accounts.push(AccountMeta::new(*user_share_account, false));
    accounts.push(AccountMeta::new(*share_mint, false));
    accounts.push(AccountMeta::new_readonly(TOKEN_PROGRAM_ID, false));
    accounts.push(AccountMeta::new_readonly(*asset_token_program, false));
    let ghost fixed = accounts@;
    append_metas(&mut accounts, additional_accounts);
    proof {
        assert(metas_view(accounts@) =~= metas_view(fixed) + metas_view(additional_accounts@));
    }
    assert(metas_view(accounts@) =~= seq![(depositor@, true, false), (vault@, false, true), (user_source_token_account@, false, true), (vault_custody_token_account@, false, true), (user_share_account@, false, true), (share_mint@, false, true), (TOKEN_PROGRAM_ID@, false, false), (asset_token_program@, false, false)] + metas_view(additional_accounts@));
    accounts
}

/// The accounts of `redeem`.
pub fn redeem_accounts(owner: &[u8; 32], vault: &[u8; 32], user_share_account: &[u8; 32], share_mint: &[u8; 32], recipient_token_account: &[u8; 32], withdrawal_ticket: &[u8; 32]) -> (r: Vec<AccountMeta>)
    ensures
        metas_view(r@) == seq![(owner@, true, true), (vault@, false, true), (user_share_account@, false, true), (share_mint@, false, true), (recipient_token_account@, false, false), (withdrawal_ticket@, false, true), (system_program_id(), false, false), (TOKEN_PROGRAM_ID@, false, false)],
{
    let mut accounts: Vec<AccountMeta> = Vec::new();
    accounts.push(AccountMeta::new(*owner, true));
    accounts.push(AccountMeta::new(*vault, false));
    accounts.push(AccountMeta::new(*user_share_account, false));
    accounts.push(AccountMeta::new(*share_mint, false));
    accounts.push(AccountMeta::new_readonly(*recipient_token_account, false));
    accounts.push(AccountMeta::new(*withdrawal_ticket, false));
    let system = [0u8; 32];
    assert(system@ =~= system_program_id());
    accounts.push(AccountMeta::new_readonly(system, false));
    accounts.push(AccountMeta::new_readonly(TOKEN_PROGRAM_ID, false));
    assert(metas_view(accounts@) =~= seq![(owner@, true, true), (vault@, false, true), (user_share_account@, false, true), (share_mint@, false, true), (recipient_token_account@, false, false), (withdrawal_ticket@, false, true), (system_program_id(), false, false), (TOKEN_PROGRAM_ID@, false, false)]);
    accounts
}

/// The accounts of `revoke_action`.
pub fn revoke_action_accounts(admin: &[u8; 32], vault: &[u8; 32], action: &[u8; 32]) -> (r: Vec<AccountMeta>)
    ensures
        metas_view(r@) == seq![(admin@, true, true), (vault@, false, false), (action@, false, true)],
{
    let mut accounts: Vec<AccountMeta> = Vec::new();
    accounts.push(AccountMeta::new(*admin, true));
    accounts.push(AccountMeta::new_readonly(*vault, false));
    accounts.push(AccountMeta::new(*action, false));
    assert(metas_view(accounts@) =~= seq![(admin@, true, true), (vault@, false, false), (action@, false, true)]);
    accounts
}

/// The accounts of the flash-fee rate instructions: the signing authority,
/// the vault, and the writable action.
pub fn flash_fee_rate_accounts(authority: &[u8; 32], vault: &[u8; 32], action: &[u8; 32]) -> (r: Vec<AccountMeta>)
    ensures
        metas_view(r@) == seq![(authority@, true, false), (vault@, false, false), (action@, false, true)],
{
    let mut accounts: Vec<AccountMeta> = Vec::new();
    accounts.push(AccountMeta::new_readonly(*authority, true));
    accounts.push(AccountMeta::new_readonly(*vault, false));
    accounts.push(AccountMeta::new(*action, false));
    assert(metas_view(accounts@) =~= seq![(authority@, true, false), (vault@, false, false), (action@, false, true)]);
    accounts
}

/// The accounts of `cancel_redeem`.
pub fn cancel_redeem_accounts(
    owner: &[u8; 32],
    vault: &[u8; 32],
    withdrawal_ticket: &[u8; 32],
    share_mint: &[u8; 32],
    owner_share_account: &[u8; 32],
) -> (r: Vec<AccountMeta>)
    ensures
        metas_view(r@) == seq![
            (owner@, true, true),
            (vault@, false, true),
            (withdrawal_ticket@, false, true),
            (share_mint@, false, true),
            (owner_share_account@, false, true),
            (TOKEN_PROGRAM_ID@, false, false),
        ],
{
    let mut accounts: Vec<AccountMeta> = Vec::new();
    accounts.push(AccountMeta::new(*owner, true));
    accounts.push(AccountMeta::new(*vault, false));
    accounts.push(AccountMeta::new(*withdrawal_ticket, false));
    accounts.push(AccountMeta::new(*share_mint, false));
    accounts.push(AccountMeta::new(*owner_share_account, false));
    accounts.push(AccountMeta::new_readonly(TOKEN_PROGRAM_ID, false));
    assert(metas_view(accounts@) =~= seq![
        (owner@, true, true),
        (vault@, false, true),
        (withdrawal_ticket@, false, true),
        (share_mint@, false, true),
        (owner_share_account@, false, true),
        (TOKEN_PROGRAM_ID@, false, false),
    ]);
    accounts
}

/// A batch action's sub-account and action accounts.
#[derive(Clone, Copy, Debug, PartialEq, Eq)]
pub struct ManageBatchActionAccounts {
    pub sub_account_pda: [u8; 32],
    pub action: [u8; 32],
}

/// The account pairs of batch actions, in order: each writable sub-account
/// then its read-only action.
pub open spec fn batch_metas(actions: Seq<ManageBatchActionAccounts>) -> Seq<(Seq<u8>, bool, bool)>
    decreases actions.len(),
{
    if actions.len() == 0 {
        Seq::empty()
    } else {
        batch_metas(actions.drop_last()) + seq![(actions.last().sub_account_pda@, false, true), (actions.last().action@, false, false)]
    }
}

/// The accounts of `manage_batch`: executor, vault, each action's pair, then
/// the CPI accounts.
pub fn manage_batch_accounts(
    executor: &[u8; 32],
    vault: &[u8; 32],
    action_accounts: &[ManageBatchActionAccounts],
    cpi_accounts: &[AccountMeta],
) -> (r: Vec<AccountMeta>)
    ensures
        metas_view(r@) == seq![(executor@, true, false), (vault@, false, false)] + batch_metas(action_accounts@)
            + metas_view(cpi_accounts@),
{
    let mut accounts: Vec<AccountMeta> = Vec::new();
    accounts.push(AccountMeta::new_readonly(*executor, true));
    accounts.push(AccountMeta::new_readonly(*vault, false));
    let ghost head = seq![(executor@, true, false), (vault@, false, false)];
    assert(metas_view(accounts@) =~= head);
    let mut index: usize = 0;
    while index < action_accounts.len()
        invariant
            index <= action_accounts@.len(),
            metas_view(accounts@) == head + batch_metas(action_accounts@.subrange(0, index as int)),
        decreases action_accounts@.len() - index,
    {
        let pair = action_accounts[index];
        let ghost before = accounts@;
        accounts.push(AccountMeta::new(pair.sub_account_pda, false));
        accounts.push(AccountMeta::new_readonly(pair.action, false));
        proof {
            let prefix = action_accounts@.subrange(0, index + 1);
            assert(prefix.drop_last() =~= action_accounts@.subrange(0, index as int));
            assert(metas_view(accounts@) =~= metas_view(before) + seq![(pair.sub_account_pda@, false, true), (pair.action@, false, false)]);
        }
        index = index + 1;
    }
    assert(action_accounts@.subrange(0, action_accounts@.len() as int) =~= action_accounts@);
    let ghost fixed = accounts@;
    append_metas(&mut accounts, cpi_accounts);
    assert(metas_view(accounts@) =~= metas_view(fixed) + metas_view(cpi_accounts@));
    accounts
}

/// A withdrawal settlement's ticket, owner and destination accounts.
#[derive(Clone, Copy, Debug, PartialEq, Eq)]
pub struct WithdrawalSettlement {
    pub ticket: [u8; 32],
    pub owner: [u8; 32],
    pub destination: [u8; 32],
}

/// The writable account triples of settlements, in order.
pub open spec fn settlement_metas(settlements: Seq<WithdrawalSettlement>) -> Seq<(Seq<u8>, bool, bool)>
    decreases settlements.len(),
{
    if settlements.len() == 0 {
        Seq::empty()
    } else {
        let last = settlements.last();
        settlement_metas(settlements.drop_last()) + seq![(last.ticket@, false, true), (last.owner@, false, true), (last.destination@, false, true)]
    }
}

/// Every settlement contributes its own three accounts, in the order the
/// settlements come: entries `3i`, `3i + 1` and `3i + 2` are settlement
/// `i`'s ticket, owner and destination, each writable and not a signer,
/// and nothing else is listed.
pub proof fn law_each_settlement_lists_its_three_accounts(settlements: Seq<WithdrawalSettlement>)
    ensures
        settlement_metas(settlements).len() == 3 * settlements.len(),
        forall|i: int| 0 <= i < settlements.len() ==> {
            &&& settlement_metas(settlements)[3 * i] == (#[trigger] settlements[i].ticket@, false, true)
            &&& settlement_metas(settlements)[3 * i + 1] == (settlements[i].owner@, false, true)
            &&& settlement_metas(settlements)[3 * i + 2] == (settlements[i].destination@, false, true)
        },
    decreases settlements.len(),
{
    if settlements.len() > 0 {
        let rest = settlements.drop_last();
        law_each_settlement_lists_its_three_accounts(rest);
        assert forall|i: int| 0 <= i < settlements.len() implies {
            &&& settlement_metas(settlements)[3 * i] == (#[trigger] settlements[i].ticket@, false, true)
            &&& settlement_metas(settlements)[3 * i + 1] == (settlements[i].owner@, false, true)
            &&& settlement_metas(settlements)[3 * i + 2] == (settlements[i].destination@, false, true)
        } by {
            if i < rest.len() {
                assert(rest[i] == settlements[i]);
            }
        }
    }
}

/// The accounts of `process_withdrawals`: the fixed accounts, then each
/// settlement's writable ticket, owner and destination.
pub fn process_withdrawals_accounts(
    withdrawal_authority: &[u8; 32],
    vault: &[u8; 32],
    withdraw_sub_account: &[u8; 32],
    custody: &[u8; 32],
    share_mint: &[u8; 32],
    settlements: &[WithdrawalSettlement],
) -> (r: Vec<AccountMeta>)
    ensures
        metas_view(r@) == seq![
            (withdrawal_authority@, true, false),
            (vault@, false, true),
            (withdraw_sub_account@, false, false),
            (custody@, false, true),
            (share_mint@, false, false),
            (TOKEN_PROGRAM_ID@, false, false),
        ] + settlement_metas(settlements@),
{
    let mut accounts: Vec<AccountMeta> = Vec::new();
    accounts.push(AccountMeta::new_readonly(*withdrawal_authority, true));
    accounts.push(AccountMeta::new(*vault, false));
    accounts.push(AccountMeta::new_readonly(*withdraw_sub_account, false));
    accounts.push(AccountMeta::new(*custody, false));
    accounts.push(AccountMeta::new_readonly(*share_mint, false));
    accounts.push(AccountMeta::new_readonly(TOKEN_PROGRAM_ID, false));
    let ghost head = seq![
        (withdrawal_authority@, true, false),
        (vault@, false, true),
        (withdraw_sub_account@, false, false),
        (custody@, false, true),
        (share_mint@, false, false),
        (TOKEN_PROGRAM_ID@, false, false),
    ];
    assert(metas_view(accounts@) =~= head);
    let mut index: usize = 0;
    while index < settlements.len()
        invariant
            index <= settlements@.len(),
            metas_view(accounts@) == head + settlement_metas(settlements@.subrange(0, index as int)),
        decreases settlements@.len() - index,
    {
        let settlement = settlements[index];
        let ghost before = accounts@;
        accounts.push(AccountMeta::new(settlement.ticket, false));
        accounts.push(AccountMeta::new(settlement.owner, false));
        accounts.push(AccountMeta::new(settlement.destination, false));
        proof {
            let prefix = settlements@.subrange(0, index + 1);
            assert(prefix.drop_last() =~= settlements@.subrange(0, index as int));
            assert(metas_view(accounts@) =~= metas_view(before) + seq![(settlement.ticket@, false, true), (settlement.owner@, false, true), (settlement.destination@, false, true)]);
        }
        index = index + 1;
    }
    assert(settlements@.subrange(0, settlements@.len() as int) =~= settlements@);
    accounts
}

/// The accounts of `swap`: the fixed accounts, then the valuation accounts,
/// then the CPI accounts.
pub fn swap_accounts(
    strategist: &[u8; 32],
    vault: &[u8; 32],
    sub_account_pda: &[u8; 32],
    input_custody: &[u8; 32],
    output_custody: &[u8; 32],
    action: &[u8; 32],
    valuation_accounts: &[AccountMeta],
    cpi_accounts: &[AccountMeta],
) -> (r: Vec<AccountMeta>)
    ensures
        metas_view(r@) == seq![
            (strategist@, true, false),
            (vault@, false, false),
            (sub_account_pda@, false, false),
            (input_custody@, false, true),
            (output_custody@, false, true),
            (action@, false, false),
        ] + metas_view(valuation_accounts@) + metas_view(cpi_accounts@),
{
    let mut accounts: Vec<AccountMeta> = Vec::new();
    accounts.push(AccountMeta::new_readonly(*strategist, true));
    accounts.push(AccountMeta::new_readonly(*vault, false));
    accounts.push(AccountMeta::new_readonly(*sub_account_pda, false));
    accounts.push(AccountMeta::new(*input_custody, false));
    accounts.push(AccountMeta::new(*output_custody, false));
    accounts.push(AccountMeta::new_readonly(*action, false));
    let ghost fixed = accounts@;
    append_metas(&mut accounts, valuation_accounts);
    let ghost valued = accounts@;
    append_metas(&mut accounts, cpi_accounts);
    assert(metas_view(valued) =~= metas_view(fixed) + metas_view(valuation_accounts@));
    assert(metas_view(accounts@) =~= metas_view(valued) + metas_view(cpi_accounts@));
    assert(metas_view(fixed) =~= seq![
        (strategist@, true, false),
        (vault@, false, false),
        (sub_account_pda@, false, false),
        (input_custody@, false, true),
        (output_custody@, false, true),
        (action@, false, false),
    ]);
    accounts
}

/// The accounts of `initialize_vault`; the share mint is derived from the
/// vault, and `None` comes back where no share mint address derives.
pub fn initialize_vault_accounts(
    program_authority: &[u8; 32],
    program_config: &[u8; 32],
    payer: &[u8; 32],
    vault: &[u8; 32],
    base_mint: &[u8; 32],
    treasury: &[u8; 32],
) -> (r: Option<Vec<AccountMeta>>)
    ensures
        match program_address(seq![share_mint_seed(), vault@], ID@) {
            None => r is None,
            Some((share_mint, _)) => r matches Some(accounts) && metas_view(accounts@) == seq![
                (program_authority@, true, false),
                (program_config@, false, false),
                (payer@, true, true),
                (vault@, false, true),
                (base_mint@, false, false),
                (share_mint, false, true),
                (treasury@, false, false),
                (system_program_id(), false, false),
                (TOKEN_PROGRAM_ID@, false, false),
            ],
        },
{
    let (share_mint, _) = match try_find_share_mint_address(vault) {
        Some(found) => found,
        None => return None,
    };
    let mut accounts: Vec<AccountMeta> = Vec::new();
    accounts.push(AccountMeta::new_readonly(*program_authority, true));
    accounts.push(AccountMeta::new_readonly(*program_config, false));
    accounts.push(AccountMeta::new(*payer, true));
    accounts.push(AccountMeta::new(*vault, false));
    accounts.push(AccountMeta::new_readonly(*base_mint, false));
    accounts.push(AccountMeta::new(share_mint, false));
    accounts.push(AccountMeta::new_readonly(*treasury, false));
    let system = [0u8; 32];
    assert(system@ =~= system_program_id());
    accounts.push(AccountMeta::new_readonly(system, false));
    accounts.push(AccountMeta::new_readonly(TOKEN_PROGRAM_ID, false));
    assert(metas_view(accounts@) =~= seq![
        (program_authority@, true, false),
        (program_config@, false, false),
        (payer@, true, true),
        (vault@, false, true),
        (base_mint@, false, false),
        (share_mint@, false, true),
        (treasury@, false, false),
        (system_program_id(), false, false),
        (TOKEN_PROGRAM_ID@, false, false),
    ]);
    Some(accounts)
}

/// The data of an instruction: its tag, then its argument payload.
pub fn instruction_data(tag: u8, payload: &[u8]) -> (r: Vec<u8>)
    ensures
        r@ == seq![tag] + payload@,
{
    let mut data: Vec<u8> = Vec::new();
    data.push(tag);
    crate::access::append_bytes(&mut data, payload);
    assert(data@ =~= seq![tag] + payload@);
    data
}

} // verus!
