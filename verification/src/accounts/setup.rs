//! The account loading of vault initialization and of authorizing and
//! revoking actions, and the state an authorized action stores.

use vstd::prelude::*;

use crate::accounts::{
    after, check_layout, layout_check, loaded, new_vault_addresses_result, program_authority_check,
    verify_new_asset_address, verify_new_asset_mint, verify_new_vault_addresses, verify_program_authority,
    AccountRule, AccountView,
};
use crate::addresses::{asset_seed, program_address, ID};
use crate::error::{program_error, RoshiError};
use crate::instructions::InitializeAssetArgs;
use crate::state::asset::Asset;
use crate::action::{ActionScope, Ops};
use crate::bytes::bytes32_eq;
use crate::error::ProgramError;
use crate::instructions::InitializeVaultArgs;
use crate::state::vault::Vault;

verus! {

/// The fixed initialize-vault layout: program authority, program config,
/// payer (signer, writable), the uninitialized vault, the base mint, the
/// writable and uninitialized share mint, the treasury, the system program
/// and the token program.
pub open spec fn initialize_vault_layout() -> Seq<AccountRule> {
    seq![
        AccountRule::Any,
        AccountRule::Any,
        AccountRule::WritableSigner,
        AccountRule::Uninitialized,
        AccountRule::Any,
        AccountRule::WritableUninitialized,
        AccountRule::Any,
        AccountRule::SystemProgram,
        AccountRule::TokenProgram,
    ]
}

/// The checks of a vault initialization before its addresses: the layout,
/// then the program config (its configured authority, as its loader reads
/// it) and that account 0 is that authority and signs.
pub open spec fn initialize_vault_head(accounts: Seq<AccountView>, program_config: Result<[u8; 32], ProgramError>) -> Result<(), ProgramError> {
    after(layout_check(accounts, 0, initialize_vault_layout()),
    match program_config {
        Err(error) => Err(error),
        Ok(authority) => program_authority_check(accounts[0], authority),
    })
}

/// Load the accounts of a vault initialization. `program_config` is the
/// authority the program config account records, or why it could not be
/// read. On success the packed tag, its length, the vault's bump and the
/// share mint's bump come back.
pub fn load_initialize_vault(
    accounts: &[AccountView],
    args: &InitializeVaultArgs,
    program_config: Result<[u8; 32], ProgramError>,
) -> (r: Result<([u8; 32], u8, u8, u8), ProgramError>)
    ensures
        match initialize_vault_head(accounts@, program_config) {
            Err(error) => r == Err::<([u8; 32], u8, u8, u8), ProgramError>(error),
            Ok(()) => new_vault_addresses_result(accounts@[3].key, accounts@[5].key, args.tag, args.tag_len, args.base_mint, r),
        },
{
    let rules = [
        AccountRule::Any,
        AccountRule::Any,
        AccountRule::WritableSigner,
        AccountRule::Uninitialized,
        AccountRule::Any,
        AccountRule::WritableUninitialized,
        AccountRule::Any,
        AccountRule::SystemProgram,
        AccountRule::TokenProgram,
    ];
    assert(rules@ =~= initialize_vault_layout());
    match check_layout(accounts, 0, &rules) {
        Ok(()) => {},
        Err(error) => return Err(error),
    }
    let authority = match program_config {
        Ok(authority) => authority,
        Err(error) => return Err(error),
    };
    match verify_program_authority(&accounts[0], &authority) {
        Ok(()) => {},
        Err(error) => return Err(error),
    }
    verify_new_vault_addresses(&accounts[3].key, &accounts[5].key, &args.tag, args.tag_len, &args.base_mint)
}

/// What the vault loader, the admin-role check and the action address
/// derivation report when an action is authorized or revoked.
#[derive(Clone, Copy, Debug, PartialEq, Eq)]
pub struct ActionAdminReads {
    /// The vault decoded from account 1.
    pub vault: Result<Vault, ProgramError>,
    /// Whether account 0 holds the vault's admin role.
    pub admin: Result<(), ProgramError>,
    /// The action address and bump derived for the vault and the action
    /// hash.
    pub action_address: ([u8; 32], u8),
}

/// The fixed authorize-action layout: admin (signer, writable), vault, the
/// uninitialized action, the system program.
pub open spec fn authorize_action_layout() -> Seq<AccountRule> {
    seq![AccountRule::WritableSigner, AccountRule::Any, AccountRule::Uninitialized, AccountRule::SystemProgram]
}

/// The outcome of loading an action authorization: the layout, the vault
/// and its admin, and the action at its derived address; its bump on
/// success.
pub open spec fn spec_load_authorize_action(accounts: Seq<AccountView>, reads: ActionAdminReads) -> Result<u8, ProgramError> {
    after(layout_check(accounts, 0, authorize_action_layout()),
    after(loaded(reads.vault),
    after(reads.admin,
    if accounts[2].key != reads.action_address.0 {
        Err(ProgramError::InvalidSeeds)
    } else {
        Ok(reads.action_address.1)
    })))
}

/// Load the accounts of an action authorization; the action's bump comes
/// back.
pub fn load_authorize_action(accounts: &[AccountView], reads: &ActionAdminReads) -> (r: Result<u8, ProgramError>)
    ensures
        r == spec_load_authorize_action(accounts@, *reads),
{
    let rules = [AccountRule::WritableSigner, AccountRule::Any, AccountRule::Uninitialized, AccountRule::SystemProgram];
    assert(rules@ =~= authorize_action_layout());
    match check_layout(accounts, 0, &rules) {
        Ok(()) => {},
        Err(error) => return Err(error),
    }
    match reads.vault {
        Ok(_) => {},
        Err(error) => return Err(error),
    }
    match reads.admin {
        Ok(()) => {},
        Err(error) => return Err(error),
    }
    if !bytes32_eq(&accounts[2].key, &reads.action_address.0) {
        return Err(ProgramError::InvalidSeeds);
    }
    Ok(reads.action_address.1)
}

/// The fixed revoke-action layout: admin (signer, writable), vault, the
/// writable action.
pub open spec fn revoke_action_layout() -> Seq<AccountRule> {
    seq![AccountRule::WritableSigner, AccountRule::Any, AccountRule::Writable]
}

/// The outcome of loading an action revocation: the layout, the vault and
/// its admin, the action at its derived address, and then the stored
/// action, which must belong to the vault.
pub open spec fn spec_load_revoke_action(
    accounts: Seq<AccountView>,
    reads: ActionAdminReads,
    stored_action: Result<(), ProgramError>,
    stored_vault: Result<(), ProgramError>,
) -> Result<(), ProgramError> {
    after(layout_check(accounts, 0, revoke_action_layout()),
    after(loaded(reads.vault),
    after(reads.admin,
    after(
        if accounts[2].key != reads.action_address.0 {
            Err(ProgramError::InvalidSeeds)
        } else {
            Ok(())
        },
    after(stored_action, stored_vault)))))
}

/// Load the accounts of an action revocation. `stored_action` says whether
/// account 2 holds an action, and `stored_vault` whether that action
/// belongs to the vault.
pub fn load_revoke_action(
    accounts: &[AccountView],
    reads: &ActionAdminReads,
    stored_action: Result<(), ProgramError>,
    stored_vault: Result<(), ProgramError>,
) -> (r: Result<(), ProgramError>)
    ensures
        r == spec_load_revoke_action(accounts@, *reads, stored_action, stored_vault),
{
    let rules = [AccountRule::WritableSigner, AccountRule::Any, AccountRule::Writable];
    assert(rules@ =~= revoke_action_layout());
    match check_layout(accounts, 0, &rules) {
        Ok(()) => {},
        Err(error) => return Err(error),
    }
    match reads.vault {
        Ok(_) => {},
        Err(error) => return Err(error),
    }
    match reads.admin {
        Ok(()) => {},
        Err(error) => return Err(error),
    }
    if !bytes32_eq(&accounts[2].key, &reads.action_address.0) {
        return Err(ProgramError::InvalidSeeds);
    }
    match stored_action {
        Ok(()) => {},
        Err(error) => return Err(error),
    }
    stored_vault
}

/// The state an Action account stores: the vault it is scoped to, the
/// approved hash and op program, the flash-fee rate, the scope, the offset
/// of the redeemed amount and the bump.
#[derive(Clone, Copy, Debug, PartialEq, Eq)]
pub struct Action {
    pub vault: [u8; 32],
    pub action_hash: [u8; 32],
    pub ops: Ops,
    pub fee_num: u64,
    pub fee_den: u64,
    pub scope: ActionScope,
    pub redeem_amount_offset: u16,
    pub bump: u8,
}

/// The action an authorization stores, once its op program has passed
/// validation (`ops_check`): the vault's key, the approved hash, the ops,
/// the fee rate, the scope, the amount offset and the bump, as given.
pub fn authorized_action(
    vault: [u8; 32],
    action_hash: [u8; 32],
    scope: ActionScope,
    ops: Ops,
    redeem_amount_offset: u16,
    fee_num: u64,
    fee_den: u64,
    bump: u8,
    ops_check: Result<(), ProgramError>,
) -> (r: Result<Action, ProgramError>)
    ensures
        r == after(ops_check, Ok::<Action, ProgramError>(Action {
            vault,
            action_hash,
            ops,
            fee_num,
            fee_den,
            scope,
            redeem_amount_offset,
            bump,
        })),
{
    match ops_check {
        Ok(()) => {},
        Err(error) => return Err(error),
    }
    Ok(Action { vault, action_hash, ops, fee_num, fee_den, scope, redeem_amount_offset, bump })
}

/// What the vault loader and a role check report for an instruction gated
/// by one of the vault's roles.
#[derive(Clone, Copy, Debug, PartialEq, Eq)]
pub struct VaultRoleReads {
    /// The vault decoded from account 1.
    pub vault: Result<Vault, ProgramError>,
    /// Whether account 0 holds the role.
    pub role: Result<(), ProgramError>,
}

/// The layout of program initialization: payer (signer, writable), the
/// uninitialized program config, the system program.
pub open spec fn initialize_program_layout() -> Seq<AccountRule> {
    seq![AccountRule::WritableSigner, AccountRule::Uninitialized, AccountRule::SystemProgram]
}

/// Load the accounts of program initialization. `config_bump` is the bump
/// of the program config's derived address, or why account 1 is not at it.
pub fn load_initialize_program(accounts: &[AccountView], config_bump: Result<u8, ProgramError>) -> (r: Result<u8, ProgramError>)
    ensures
        r == after(layout_check(accounts@, 0, initialize_program_layout()), config_bump),
{
    let rules = [AccountRule::WritableSigner, AccountRule::Uninitialized, AccountRule::SystemProgram];
    assert(rules@ =~= initialize_program_layout());
    match check_layout(accounts, 0, &rules) {
        Ok(()) => {},
        Err(error) => return Err(error),
    }
    config_bump
}

/// Load the accounts of an admin update of a vault: the admin and the
/// writable vault, then the vault and the admin's role.
pub fn load_vault_update(accounts: &[AccountView], reads: &VaultRoleReads) -> (r: Result<(), ProgramError>)
    ensures
        r == after(layout_check(accounts@, 0, seq![AccountRule::Any, AccountRule::Writable]),
            after(loaded(reads.vault), reads.role)),
{
    let rules = [AccountRule::Any, AccountRule::Writable];
    assert(rules@ =~= seq![AccountRule::Any, AccountRule::Writable]);
    match check_layout(accounts, 0, &rules) {
        Ok(()) => {},
        Err(error) => return Err(error),
    }
    match reads.vault {
        Ok(_) => {},
        Err(error) => return Err(error),
    }
    reads.role
}

/// The layout of an asset registration: admin (signer, writable), vault,
/// asset mint, the uninitialized registration, the system program.
pub open spec fn initialize_asset_layout() -> Seq<AccountRule> {
    seq![
        AccountRule::WritableSigner,
        AccountRule::Any,
        AccountRule::Any,
        AccountRule::Uninitialized,
        AccountRule::SystemProgram,
    ]
}

/// Where a new registration of `asset_mint` under `vault_key` must sit;
/// its bump on success.
pub open spec fn new_asset_address_check(vault_key: [u8; 32], asset_mint: [u8; 32], asset_key: [u8; 32]) -> Result<u8, ProgramError> {
    match program_address(seq![asset_seed(), vault_key@, asset_mint@], ID@) {
        Some((address, bump)) => if address == asset_key@ {
            Ok(bump)
        } else {
            Err(ProgramError::InvalidSeeds)
        },
        None => Err(ProgramError::InvalidSeeds),
    }
}

/// The outcome of loading an asset registration: the layout, the vault and
/// its admin, a mint other than the base mint and passed as account 2, the
/// mint's own check (`mint`), and the registration at its derived address;
/// its bump on success.
pub open spec fn spec_load_initialize_asset(
    accounts: Seq<AccountView>,
    args: InitializeAssetArgs,
    reads: VaultRoleReads,
    mint: Result<(), ProgramError>,
) -> Result<u8, ProgramError> {
    after(layout_check(accounts, 0, initialize_asset_layout()),
    match reads.vault {
        Err(error) => Err(error),
        Ok(vault) => after(reads.role,
            after(
                if args.asset_mint == vault.base_mint {
                    Err(ProgramError::InvalidArgument)
                } else if accounts[2].key != args.asset_mint {
                    Err(program_error(RoshiError::InvalidMintAccount))
                } else {
                    Ok(())
                },
            after(mint,
            new_asset_address_check(accounts[1].key, args.asset_mint, accounts[3].key)))),
    })
}

/// Load the accounts of an asset registration; the registration's bump
/// comes back. `mint` says whether the mint account is a mint with the
/// registered decimals.
pub fn load_initialize_asset(
    accounts: &[AccountView],
    args: &InitializeAssetArgs,
    reads: &VaultRoleReads,
    mint: Result<(), ProgramError>,
) -> (r: Result<u8, ProgramError>)
    ensures
        r == spec_load_initialize_asset(accounts@, *args, *reads, mint),
{
    let rules = [
        AccountRule::WritableSigner,
        AccountRule::Any,
        AccountRule::Any,
        AccountRule::Uninitialized,
        AccountRule::SystemProgram,
    ];
    assert(rules@ =~= initialize_asset_layout());
    match check_layout(accounts, 0, &rules) {
        Ok(()) => {},
        Err(error) => return Err(error),
    }
    let vault = match reads.vault {
        Ok(vault) => vault,
        Err(error) => return Err(error),
    };
    match reads.role {
        Ok(()) => {},
        Err(error) => return Err(error),
    }
    match verify_new_asset_mint(&args.asset_mint, &vault.base_mint, &accounts[2].key) {
        Ok(()) => {},
        Err(error) => return Err(error),
    }
    match mint {
        Ok(()) => {},
        Err(error) => return Err(error),
    }
    verify_new_asset_address(&accounts[1].key, &args.asset_mint, &accounts[3].key)
}

/// The outcome of loading an admin update of a registration: admin, vault
/// and the writable registration, the vault and its admin, and the stored
/// registration at its derived address with its bump; the registration on
/// success.
pub open spec fn spec_load_asset_update(
    accounts: Seq<AccountView>,
    reads: VaultRoleReads,
    asset: Result<Asset, ProgramError>,
) -> Result<Asset, ProgramError> {
    after(layout_check(accounts, 0, seq![AccountRule::Any, AccountRule::Any, AccountRule::Writable]),
    after(loaded(reads.vault),
    after(reads.role,
    match asset {
        Err(error) => Err(error),
        Ok(asset) => match program_address(seq![asset_seed(), accounts[1].key@, asset.asset_mint@], ID@) {
            Some((address, bump)) => if address != accounts[2].key@ || asset.bump != bump {
                Err(ProgramError::InvalidSeeds)
            } else {
                Ok(asset)
            },
            None => Err(ProgramError::InvalidSeeds),
        },
    })))
}

/// Load the accounts of an admin update of a registration; `asset` is the
/// registration account 2 holds. The registration comes back.
pub fn load_asset_update(
    accounts: &[AccountView],
    reads: &VaultRoleReads,
    asset: Result<Asset, ProgramError>,
) -> (r: Result<Asset, ProgramError>)
    ensures
        r == spec_load_asset_update(accounts@, *reads, asset),
{
    let rules = [AccountRule::Any, AccountRule::Any, AccountRule::Writable];
    assert(rules@ =~= seq![AccountRule::Any, AccountRule::Any, AccountRule::Writable]);
    match check_layout(accounts, 0, &rules) {
        Ok(()) => {},
        Err(error) => return Err(error),
    }
    match reads.vault {
        Ok(_) => {},
        Err(error) => return Err(error),
    }
    match reads.role {
        Ok(()) => {},
        Err(error) => return Err(error),
    }
    let asset = match asset {
        Ok(asset) => asset,
        Err(error) => return Err(error),
    };
    match Asset::try_find_address(&accounts[1].key, &asset.asset_mint) {
        Some((address, bump)) => {
            if !bytes32_eq(&address, &accounts[2].key) || asset.bump != bump {
                return Err(ProgramError::InvalidSeeds);
            }
            Ok(asset)
        },
        None => Err(ProgramError::InvalidSeeds),
    }
}

/// The layout of registering an external destination: admin (signer,
/// writable), vault, destination token account, the uninitialized record,
/// the system program.
pub open spec fn register_destination_layout() -> Seq<AccountRule> {
    seq![
        AccountRule::WritableSigner,
        AccountRule::Any,
        AccountRule::Any,
        AccountRule::Uninitialized,
        AccountRule::SystemProgram,
    ]
}

/// Load the accounts of registering an external destination: the layout,
/// the vault and its admin, the destination's base mint
/// (`destination_mint`), and the record at the address derived for the
/// vault and the destination (`record_address`); the record's bump comes
/// back.
pub fn load_register_external_destination(
    accounts: &[AccountView],
    reads: &VaultRoleReads,
    destination_mint: Result<(), ProgramError>,
    record_address: ([u8; 32], u8),
) -> (r: Result<u8, ProgramError>)
    ensures
        r == after(layout_check(accounts@, 0, register_destination_layout()),
            after(loaded(reads.vault),
            after(reads.role,
            after(destination_mint,
            if accounts@[3].key != record_address.0 {
                Err(ProgramError::InvalidSeeds)
            } else {
                Ok(record_address.1)
            })))),
{
    let rules = [
        AccountRule::WritableSigner,
        AccountRule::Any,
        AccountRule::Any,
        AccountRule::Uninitialized,
        AccountRule::SystemProgram,
    ];
    assert(rules@ =~= register_destination_layout());
    match check_layout(accounts, 0, &rules) {
        Ok(()) => {},
        Err(error) => return Err(error),
    }
    match reads.vault {
        Ok(_) => {},
        Err(error) => return Err(error),
    }
    match reads.role {
        Ok(()) => {},
        Err(error) => return Err(error),
    }
    match destination_mint {
        Ok(()) => {},
        Err(error) => return Err(error),
    }
    if !bytes32_eq(&accounts[3].key, &record_address.0) {
        return Err(ProgramError::InvalidSeeds);
    }
    Ok(record_address.1)
}

/// Load the accounts of closing an external destination: admin (signer,
/// writable), vault and the writable record, the vault and its admin, the
/// stored record's bump (`record_bump`), and the record at the address
/// derived for the vault and its token account (`record_address`) with
/// that bump.
pub fn load_close_external_destination(
    accounts: &[AccountView],
    reads: &VaultRoleReads,
    record_bump: Result<u8, ProgramError>,
    record_address: ([u8; 32], u8),
) -> (r: Result<(), ProgramError>)
    ensures
        r == after(layout_check(accounts@, 0, seq![AccountRule::WritableSigner, AccountRule::Any, AccountRule::Writable]),
            after(loaded(reads.vault),
            after(reads.role,
            match record_bump {
                Err(error) => Err(error),
                Ok(bump) => if accounts@[2].key != record_address.0 || bump != record_address.1 {
                    Err(ProgramError::InvalidSeeds)
                } else {
                    Ok(())
                },
            }))),
{
    let rules = [AccountRule::WritableSigner, AccountRule::Any, AccountRule::Writable];
    assert(rules@ =~= seq![AccountRule::WritableSigner, AccountRule::Any, AccountRule::Writable]);
    match check_layout(accounts, 0, &rules) {
        Ok(()) => {},
        Err(error) => return Err(error),
    }
    match reads.vault {
        Ok(_) => {},
        Err(error) => return Err(error),
    }
    match reads.role {
        Ok(()) => {},
        Err(error) => return Err(error),
    }
    let bump = match record_bump {
        Ok(bump) => bump,
        Err(error) => return Err(error),
    };
    if !bytes32_eq(&accounts[2].key, &record_address.0) || bump != record_address.1 {
        return Err(ProgramError::InvalidSeeds);
    }
    Ok(())
}

/// A vault initialization loads only when the configured program authority
/// signs, the payer signs and is writable, the vault and the writable share
/// mint are uninitialized, the system and token programs are in place, and
/// then the vault and its share mint sit at their derived addresses, whose
/// bumps come back with the packed tag.
pub proof fn law_initialize_vault_binds_authority_and_addresses(
    accounts: Seq<AccountView>,
    args: InitializeVaultArgs,
    program_config: Result<[u8; 32], ProgramError>,
    r: Result<([u8; 32], u8, u8, u8), ProgramError>,
)
    requires
        match initialize_vault_head(accounts, program_config) {
            Err(error) => r == Err::<([u8; 32], u8, u8, u8), ProgramError>(error),
            Ok(()) => new_vault_addresses_result(accounts[3].key, accounts[5].key, args.tag, args.tag_len, args.base_mint, r),
        },
        r is Ok,
    ensures
        accounts.len() >= 9,
        program_config == Ok::<[u8; 32], ProgramError>(accounts[0].key) && accounts[0].is_signer,
        accounts[2].is_signer && accounts[2].is_writable && accounts[5].is_writable,
        crate::accounts::uninitialized_check(accounts[3]) is Ok && crate::accounts::uninitialized_check(accounts[5]) is Ok,
        crate::accounts::system_program_check(accounts[7]) is Ok,
        accounts[8].key == crate::client::TOKEN_PROGRAM_ID,
        ({
            let (packed, len, vault_bump, mint_bump) = r->Ok_0;
            &&& len == args.tag_len && 1 <= len <= 32
            &&& packed@ == args.tag@.subrange(0, len as int) + crate::bytes::zeros((32 - len) as nat)
            &&& program_address(seq![crate::addresses::vault_seed(), args.tag@.subrange(0, len as int), args.base_mint@], ID@)
                == Some((accounts[3].key@, vault_bump))
            &&& program_address(seq![crate::addresses::share_mint_seed(), accounts[3].key@], ID@)
                == Some((accounts[5].key@, mint_bump))
        }),
{
    crate::accounts::law_layout_checks_every_account(accounts, 0, initialize_vault_layout());
    assert(crate::accounts::rule_check(accounts, 2int, initialize_vault_layout()[2]) is Ok);
    assert(crate::accounts::rule_check(accounts, 3int, initialize_vault_layout()[3]) is Ok);
    assert(crate::accounts::rule_check(accounts, 5int, initialize_vault_layout()[5]) is Ok);
    assert(crate::accounts::rule_check(accounts, 7int, initialize_vault_layout()[7]) is Ok);
    assert(crate::accounts::rule_check(accounts, 8int, initialize_vault_layout()[8]) is Ok);
    let (packed, len, vault_bump, mint_bump) = r->Ok_0;
    let seed = args.tag@.subrange(0, args.tag_len as int);
    assert(program_address(seq![crate::addresses::vault_seed(), seed, args.base_mint@], ID@) matches Some((a, b))
        && a == accounts[3].key@ && b == vault_bump);
}

/// An action authorization loads only when the admin signs and is writable,
/// the action account is uninitialized and sits at the address derived for
/// the vault and the hash, the system program is in place, and the vault
/// and the admin role were read; the derived bump comes back.
pub proof fn law_authorize_action_binds_admin_and_address(accounts: Seq<AccountView>, reads: ActionAdminReads)
    requires
        spec_load_authorize_action(accounts, reads) is Ok,
    ensures
        accounts.len() >= 4,
        accounts[0].is_signer && accounts[0].is_writable,
        crate::accounts::uninitialized_check(accounts[2]) is Ok,
        crate::accounts::system_program_check(accounts[3]) is Ok,
        reads.vault is Ok && reads.admin is Ok,
        accounts[2].key == reads.action_address.0,
        spec_load_authorize_action(accounts, reads) == Ok::<u8, ProgramError>(reads.action_address.1),
{
    crate::accounts::law_layout_checks_every_account(accounts, 0, authorize_action_layout());
    assert(crate::accounts::rule_check(accounts, 0int, authorize_action_layout()[0]) is Ok);
    assert(crate::accounts::rule_check(accounts, 2int, authorize_action_layout()[2]) is Ok);
    assert(crate::accounts::rule_check(accounts, 3int, authorize_action_layout()[3]) is Ok);
}

} // verus!
