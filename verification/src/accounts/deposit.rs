//! The account loading of a deposit, and how the deposited amount is valued
//! in the vault's base atoms.

use vstd::prelude::*;

use crate::accounts::{after, check_layout, layout_check, loaded, verify_deposit_asset, AccountRule, AccountView};
use crate::addresses::{asset_seed, program_address, ID};
use crate::bytes::bytes32_eq;
use crate::error::{program_error, ProgramError, RoshiError};
use crate::instructions::DepositArgs;
use crate::math::{base_atoms_from_asset_atoms, spec_base_atoms_from_asset_atoms};
use crate::oracle::feeds::oracle_leg_count_of;
use crate::oracle::{config_kind, kind_of_byte, OracleKind, OraclePrice};
use crate::state::asset::Asset;
use crate::state::flags::TRUE;
use crate::state::vault::Vault;

verus! {

/// What the token-program checks, the vault loader and the share-mint
/// check report for a deposit.
#[derive(Clone, Copy, Debug, PartialEq, Eq)]
pub struct DepositReads {
    /// Whether account 7 is the source's token program.
    pub source_token_program: Result<(), ProgramError>,
    /// Whether account 7 is the custody's token program.
    pub custody_token_program: Result<(), ProgramError>,
    /// The vault decoded from account 1.
    pub vault: Result<Vault, ProgramError>,
    /// Whether account 5 is that vault's share mint.
    pub share_mint: Result<(), ProgramError>,
}

/// The fixed deposit layout: the signing depositor, then vault, source,
/// custody, share destination and share mint (writable), the share token
/// program and the asset token program; an asset registration and its
/// oracle accounts follow for a non-base deposit.
pub open spec fn deposit_layout() -> Seq<AccountRule> {
    seq![
        AccountRule::Signer,
        AccountRule::Writable,
        AccountRule::Writable,
        AccountRule::Writable,
        AccountRule::Writable,
        AccountRule::Writable,
        AccountRule::TokenProgram,
        AccountRule::Any,
    ]
}

/// Accounts before the asset registration of a deposit.
pub const DEPOSIT_FIXED_ACCOUNTS: usize = 8;

/// The outcome of loading a deposit: the layout, the asset token program of
/// source and custody, then the vault and its share mint.
pub open spec fn spec_load_deposit(accounts: Seq<AccountView>, reads: DepositReads) -> Result<(), ProgramError> {
    after(layout_check(accounts, 0, deposit_layout()),
    after(reads.source_token_program,
    after(reads.custody_token_program,
    after(loaded(reads.vault),
    reads.share_mint))))
}

/// Load the fixed accounts of a deposit.
pub fn load_deposit(accounts: &[AccountView], reads: &DepositReads) -> (r: Result<(), ProgramError>)
    ensures
        r == spec_load_deposit(accounts@, *reads),
{
    let rules = [
        AccountRule::Signer,
        AccountRule::Writable,
        AccountRule::Writable,
        AccountRule::Writable,
        AccountRule::Writable,
        AccountRule::Writable,
        AccountRule::TokenProgram,
        AccountRule::Any,
    ];
    assert(rules@ =~= deposit_layout());
    match check_layout(accounts, 0, &rules) {
        Ok(()) => {},
        Err(error) => return Err(error),
    }
    match reads.source_token_program {
        Ok(()) => {},
        Err(error) => return Err(error),
    }
    match reads.custody_token_program {
        Ok(()) => {},
        Err(error) => return Err(error),
    }
    match reads.vault {
        Ok(_) => {},
        Err(error) => return Err(error),
    }
    reads.share_mint
}

/// The deposited amount in base atoms: the custody must be the account
/// expected for the deposited mint (the deposit sub-account's associated
/// token account); a base-mint deposit counts one to one; otherwise the
/// first account after the fixed ones must hold an enabled registration of
/// the mint for this vault at its derived address, and the amount is
/// priced at the registration's oracle price.
pub open spec fn spec_resolve_base_atoms(
    vault: Vault,
    vault_key: [u8; 32],
    args: DepositArgs,
    custody: [u8; 32],
    expected_custody: [u8; 32],
    extra: Seq<AccountView>,
    asset: Result<Asset, ProgramError>,
    price: Result<OraclePrice, ProgramError>,
) -> Result<u64, ProgramError> {
    if custody != expected_custody {
        Err(program_error(RoshiError::InvalidTokenAccount))
    } else if args.asset_mint == vault.base_mint {
        Ok(args.amount)
    } else if extra.len() == 0 {
        Err(ProgramError::NotEnoughAccountKeys)
    } else {
        match asset {
            Err(error) => Err(error),
            Ok(asset) => if !((program_address(seq![asset_seed(), vault_key@, args.asset_mint@], ID@) matches Some((key, _))
                && key == extra[0].key@) && asset.vault == vault_key && asset.enabled_flag == TRUE) {
                Err(program_error(RoshiError::InvalidAssetAccount))
            } else {
                match price {
                    Err(error) => Err(error),
                    Ok(price) => match spec_base_atoms_from_asset_atoms(args.amount, price.value, price.decimals) {
                        Ok(atoms) => Ok(atoms),
                        Err(error) => Err(program_error(error)),
                    },
                }
            },
        }
    }
}

/// Value a deposit in base atoms. `expected_custody` is the deposit
/// sub-account's associated token account for the deposited mint, `extra`
/// the accounts after the fixed ones, `asset` the registration the first of
/// them holds, and `price` the verified oracle price of that registration.
pub fn resolve_base_atoms(
    vault: &Vault,
    vault_key: &[u8; 32],
    args: &DepositArgs,
    custody: &[u8; 32],
    expected_custody: &[u8; 32],
    extra: &[AccountView],
    asset: Result<Asset, ProgramError>,
    price: Result<OraclePrice, ProgramError>,
) -> (r: Result<u64, ProgramError>)
    ensures
        r == spec_resolve_base_atoms(*vault, *vault_key, *args, *custody, *expected_custody, extra@, asset, price),
{
    if !bytes32_eq(custody, expected_custody) {
        return Err(ProgramError::from(RoshiError::InvalidTokenAccount));
    }
    if bytes32_eq(&args.asset_mint, &vault.base_mint) {
        return Ok(args.amount);
    }
    if extra.len() == 0 {
        return Err(ProgramError::NotEnoughAccountKeys);
    }
    let asset = match asset {
        Ok(asset) => asset,
        Err(error) => return Err(error),
    };
    match verify_deposit_asset(vault_key, &args.asset_mint, &asset, &extra[0].key) {
        Ok(()) => {},
        Err(error) => return Err(error),
    }
    let price = match price {
        Ok(price) => price,
        Err(error) => return Err(error),
    };
    match base_atoms_from_asset_atoms(args.amount, price.value, price.decimals) {
        Ok(atoms) => Ok(atoms),
        Err(error) => Err(ProgramError::from(error)),
    }
}

/// What the sub-account, custody and action checks report for a deposit
/// that is deployed at once.
#[derive(Clone, Copy, Debug, PartialEq, Eq)]
pub struct DeployReads {
    /// Whether account 8 is the vault's deposit sub-account, and its bump.
    pub sub_account: Result<u8, ProgramError>,
    /// Whether the custody holds the base mint and belongs to the
    /// sub-account.
    pub custody: Result<(), ProgramError>,
    /// Whether the custody is a plain custody account of the sub-account.
    pub custody_account: Result<(), ProgramError>,
    /// Whether account 9 holds an action.
    pub action: Result<(), ProgramError>,
    /// Whether that action is this vault's, at its derived address.
    pub action_vault: Result<(), ProgramError>,
}

/// The outcome of loading a deposit that is deployed at once: the eight
/// base-deposit accounts loaded as a deposit, then the deposit sub-account
/// and the action, the custody, and the action's vault; the sub-account's
/// bump on success.
pub open spec fn spec_load_deposit_and_deploy(accounts: Seq<AccountView>, deposit: DepositReads, reads: DeployReads) -> Result<u8, ProgramError> {
    if accounts.len() < DEPOSIT_FIXED_ACCOUNTS {
        Err(ProgramError::NotEnoughAccountKeys)
    } else {
        after(spec_load_deposit(accounts.take(8), deposit),
        after(layout_check(accounts, 8, seq![AccountRule::Any, AccountRule::Any]),
        match reads.sub_account {
            Err(error) => Err(error),
            Ok(bump) => after(reads.custody,
                after(reads.custody_account,
                after(reads.action,
                after(reads.action_vault, Ok(bump))))),
        }))
    }
}

/// Load the accounts of a deposit that is deployed at once; the deposit
/// sub-account's bump comes back, and the relayed call's accounts start
/// after the action.
pub fn load_deposit_and_deploy(accounts: &[AccountView], deposit: &DepositReads, reads: &DeployReads) -> (r: Result<u8, ProgramError>)
    ensures
        r == spec_load_deposit_and_deploy(accounts@, *deposit, *reads),
{
    if accounts.len() < DEPOSIT_FIXED_ACCOUNTS {
        return Err(ProgramError::NotEnoughAccountKeys);
    }
    let base = vstd::slice::slice_subrange(accounts, 0, DEPOSIT_FIXED_ACCOUNTS);
    assert(base@ =~= accounts@.take(8));
    match load_deposit(base, deposit) {
        Ok(()) => {},
        Err(error) => return Err(error),
    }
    let rules = [AccountRule::Any, AccountRule::Any];
    assert(rules@ =~= seq![AccountRule::Any, AccountRule::Any]);
    match check_layout(accounts, 8, &rules) {
        Ok(()) => {},
        Err(error) => return Err(error),
    }
    let bump = match reads.sub_account {
        Ok(bump) => bump,
        Err(error) => return Err(error),
    };
    match reads.custody {
        Ok(()) => {},
        Err(error) => return Err(error),
    }
    match reads.custody_account {
        Ok(()) => {},
        Err(error) => return Err(error),
    }
    match reads.action {
        Ok(()) => {},
        Err(error) => return Err(error),
    }
    match reads.action_vault {
        Ok(()) => {},
        Err(error) => return Err(error),
    }
    Ok(bump)
}

/// The accounts a deposit's oracle read takes, after the registration at
/// the front of `extra`: one price update for Pyth, the quote, queue, slot
/// hashes and instructions accounts for Switchboard, the prices and
/// mappings accounts for Scope. A registration whose oracle kind is unknown
/// is an invalid asset account, and too few accounts is an error.
pub open spec fn spec_deposit_oracle_accounts(asset: Asset, extra_len: nat) -> Result<(usize, usize), ProgramError> {
    match kind_of_byte(config_kind(asset.oracle)) {
        None => Err(program_error(RoshiError::InvalidAssetAccount)),
        Some(kind) => {
            let count: nat = match kind {
                OracleKind::Pyth => 1,
                OracleKind::Switchboard => 4,
                OracleKind::Scope => 2,
            };
            if extra_len < 1 + count {
                Err(ProgramError::NotEnoughAccountKeys)
            } else {
                Ok((1usize, (1 + count) as usize))
            }
        },
    }
}

/// The range of `extra` that a deposit's oracle read takes.
pub fn deposit_oracle_accounts(asset: &Asset, extra: &[AccountView]) -> (r: Result<(usize, usize), ProgramError>)
    ensures
        r == spec_deposit_oracle_accounts(*asset, extra@.len()),
{
    let count: usize = match asset.oracle.kind() {
        Ok(OracleKind::Pyth) => 1,
        Ok(OracleKind::Switchboard) => 4,
        Ok(OracleKind::Scope) => 2,
        Err(_) => return Err(ProgramError::from(RoshiError::InvalidAssetAccount)),
    };
    if extra.len() < 1 + count {
        return Err(ProgramError::NotEnoughAccountKeys);
    }
    Ok((1, 1 + count))
}

/// A deposit's oracle read takes, right after the registration, exactly
/// the accounts the registration's oracle leg reads, as a swap leg of the
/// same oracle does: one for Pyth, four for Switchboard, two for Scope.
/// With enough accounts the range is `1..1 + count`; with fewer, too few
/// accounts; an oracle of unknown kind makes the registration invalid.
pub proof fn law_deposit_oracle_range_is_the_oracle_leg(asset: Asset, extra_len: nat)
    ensures
        match kind_of_byte(config_kind(asset.oracle)) {
            None => spec_deposit_oracle_accounts(asset, extra_len) == Err::<(usize, usize), ProgramError>(
                program_error(RoshiError::InvalidAssetAccount),
            ),
            Some(kind) => {
                let count: int = match kind {
                    OracleKind::Pyth => 1,
                    OracleKind::Switchboard => 4,
                    OracleKind::Scope => 2,
                };
                &&& oracle_leg_count_of(asset.oracle) == Ok::<nat, ProgramError>(count as nat)
                &&& extra_len >= 1 + count ==> spec_deposit_oracle_accounts(asset, extra_len) == Ok::<(usize, usize), ProgramError>(
                    (1usize, (1 + count) as usize),
                )
                &&& extra_len < 1 + count ==> spec_deposit_oracle_accounts(asset, extra_len) == Err::<(usize, usize), ProgramError>(
                    ProgramError::NotEnoughAccountKeys,
                )
            },
        },
{
}

/// A deposit loads only when the depositor signs, the vault, source,
/// custody, share destination and share mint are writable, the share token
/// program is the SPL Token program, and every read passed.
pub proof fn law_deposit_loads_only_signed_and_writable(accounts: Seq<AccountView>, reads: DepositReads)
    requires
        spec_load_deposit(accounts, reads) is Ok,
    ensures
        accounts.len() >= DEPOSIT_FIXED_ACCOUNTS,
        accounts[0].is_signer,
        forall|i: int| 1 <= i <= 5 ==> (#[trigger] accounts[i]).is_writable,
        accounts[6].key == crate::client::TOKEN_PROGRAM_ID,
        reads.source_token_program is Ok && reads.custody_token_program is Ok,
        reads.vault is Ok && reads.share_mint is Ok,
{
    crate::accounts::law_layout_checks_every_account(accounts, 0, deposit_layout());
    assert forall|i: int| 1 <= i <= 5 implies (#[trigger] accounts[i]).is_writable by {
        assert(crate::accounts::rule_check(accounts, 0 + i, deposit_layout()[i]) is Ok);
    }
    assert(crate::accounts::rule_check(accounts, 0int, deposit_layout()[0]) is Ok);
    assert(crate::accounts::rule_check(accounts, 6int, deposit_layout()[6]) is Ok);
}

} // verus!
