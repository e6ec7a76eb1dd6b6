//! The account loading of atomic redeems and swaps, and how a swap's
//! endpoints are to be priced.

use vstd::prelude::*;

use crate::accounts::{after, check_layout, layout_check, loaded, AccountRule, AccountView};
use crate::action::ActionScope;
use crate::addresses::{asset_seed, program_address, ID};
use crate::bytes::bytes32_eq;
use crate::error::{program_error, ProgramError, RoshiError};
use crate::oracle::feeds::{oracle_leg_count, oracle_leg_count_of};
use crate::oracle::{config_kind, kind_of_byte, OracleConfig, OracleKind};
use crate::state::asset::Asset;
use crate::state::flags::spec_flag_to_bool;
use crate::state::vault::{manage_enabled_check, vault_address_check, Vault};

verus! {

/// What the vault loader and the share, token-account, sub-account and
/// action checks report for an atomic redeem, in the order the program
/// makes them.
#[derive(Clone, Copy, Debug, PartialEq, Eq)]
pub struct AtomicRedeemReads {
    /// The vault decoded from account 1.
    pub vault: Result<Vault, ProgramError>,
    /// Whether account 3 is that vault's share mint.
    pub share_mint: Result<(), ProgramError>,
    /// Whether the user share account holds the share mint and belongs to
    /// the owner.
    pub user_share_account: Result<(), ProgramError>,
    /// Whether the recipient holds the base mint.
    pub recipient_mint: Result<(), ProgramError>,
    /// Whether account 6 is the recipient's token program.
    pub recipient_token_program: Result<(), ProgramError>,
    /// Whether account 7 is the named sub-account, and its bump.
    pub sub_account: Result<u8, ProgramError>,
    /// Whether the custody holds the base mint and belongs to the
    /// sub-account.
    pub custody: Result<(), ProgramError>,
    /// Whether account 6 is the custody's token program.
    pub custody_token_program: Result<(), ProgramError>,
    /// Whether the custody is a plain custody account of the sub-account.
    pub custody_account: Result<(), ProgramError>,
    /// Whether account 8 holds an action.
    pub action: Result<(), ProgramError>,
    /// Whether that action is this vault's, at its derived address.
    pub action_vault: Result<(), ProgramError>,
}

/// The fixed atomic-redeem layout: owner (signer, writable), then vault,
/// user share account, share mint, recipient and custody (writable), the
/// base token program, the sub-account, the action and the token program;
/// the accounts of the relayed call follow.
pub open spec fn atomic_redeem_layout() -> Seq<AccountRule> {
    seq![
        AccountRule::WritableSigner,
        AccountRule::Writable,
        AccountRule::Writable,
        AccountRule::Writable,
        AccountRule::Writable,
        AccountRule::Writable,
        AccountRule::Any,
        AccountRule::Any,
        AccountRule::Any,
        AccountRule::TokenProgram,
    ]
}

/// Accounts before the relayed call's accounts in an atomic redeem.
pub const ATOMIC_REDEEM_FIXED_ACCOUNTS: usize = 10;

/// The checks of an atomic redeem up to the sub-account.
pub open spec fn atomic_redeem_head(accounts: Seq<AccountView>, reads: AtomicRedeemReads) -> Result<(), ProgramError> {
    after(layout_check(accounts, 0, atomic_redeem_layout()),
    after(loaded(reads.vault),
    after(reads.share_mint,
    after(reads.user_share_account,
    after(reads.recipient_mint,
    reads.recipient_token_program)))))
}

/// The checks of an atomic redeem after the sub-account.
pub open spec fn atomic_redeem_tail(reads: AtomicRedeemReads) -> Result<(), ProgramError> {
    after(reads.custody,
    after(reads.custody_token_program,
    after(reads.custody_account,
    after(reads.action,
    reads.action_vault))))
}

/// The outcome of loading an atomic redeem; the sub-account's bump on
/// success.
pub open spec fn spec_load_atomic_redeem(accounts: Seq<AccountView>, reads: AtomicRedeemReads) -> Result<u8, ProgramError> {
    after(atomic_redeem_head(accounts, reads),
    match reads.sub_account {
        Err(error) => Err(error),
        Ok(bump) => after(atomic_redeem_tail(reads), Ok(bump)),
    })
}

/// Load the accounts of an atomic redeem; the sub-account's bump comes
/// back, and the relayed call's accounts start at
/// [`ATOMIC_REDEEM_FIXED_ACCOUNTS`].
pub fn load_atomic_redeem(accounts: &[AccountView], reads: &AtomicRedeemReads) -> (r: Result<u8, ProgramError>)
    ensures
        r == spec_load_atomic_redeem(accounts@, *reads),
{
    let rules = [
        AccountRule::WritableSigner,
        AccountRule::Writable,
        AccountRule::Writable,
        AccountRule::Writable,
        AccountRule::Writable,
        AccountRule::Writable,
        AccountRule::Any,
        AccountRule::Any,
        AccountRule::Any,
        AccountRule::TokenProgram,
    ];
    assert(rules@ =~= atomic_redeem_layout());
    match check_layout(accounts, 0, &rules) {
        Ok(()) => {},
        Err(error) => return Err(error),
    }
    match reads.vault {
        Ok(_) => {},
        Err(error) => return Err(error),
    }
    match reads.share_mint {
        Ok(()) => {},
        Err(error) => return Err(error),
    }
    match reads.user_share_account {
        Ok(()) => {},
        Err(error) => return Err(error),
    }
    match reads.recipient_mint {
        Ok(()) => {},
        Err(error) => return Err(error),
    }
    match reads.recipient_token_program {
        Ok(()) => {},
        Err(error) => return Err(error),
    }
    let bump = match reads.sub_account {
        Ok(bump) => bump,
        Err(error) => return Err(error),
    };
    match reads.custody {
        Ok(()) => {},
        Err(error) => return Err(error),
    }
    match reads.custody_token_program {
        Ok(()) => {},
        Err(error) => return Err(error),
    }
    match reads.custody_account {
        Ok(()) => {},
        Err(error) => return Err(error),
    }
    match reads.action {
        Ok(()) => {},
        Err(error) => return Err(error),
    }
    match reads.action_vault {
        Ok(()) => {},
        Err(error) => return Err(error),
    }
    Ok(bump)
}

/// What the vault loader and the role, sub-account, custody and action
/// checks report for a swap.
#[derive(Clone, Copy, Debug, PartialEq, Eq)]
pub struct SwapReads {
    /// The vault decoded from account 1.
    pub vault: Result<Vault, ProgramError>,
    /// Whether account 0 holds the vault's swap-authority or strategist
    /// role.
    pub executor: Result<(), ProgramError>,
    /// Whether account 2 is the named sub-account, and its bump.
    pub sub_account: Result<u8, ProgramError>,
    /// Whether the input custody is a swap endpoint of the sub-account.
    pub input_custody: Result<(), ProgramError>,
    /// Whether the output custody is a swap endpoint of the sub-account.
    pub output_custody: Result<(), ProgramError>,
    /// The scope of the action account 5 holds.
    pub action_scope: Result<ActionScope, ProgramError>,
    /// Whether that action is this vault's, at its derived address.
    pub action_vault: Result<(), ProgramError>,
}

/// Accounts before the valuation and relayed-call accounts of a swap.
pub const SWAP_FIXED_ACCOUNTS: usize = 6;

/// The checks of a swap up to the sub-account: executor and vault present,
/// the vault, the executor's role, strategy execution unpaused, and the
/// sub-account present.
pub open spec fn swap_head(accounts: Seq<AccountView>, reads: SwapReads) -> Result<(), ProgramError> {
    after(layout_check(accounts, 0, seq![AccountRule::Any, AccountRule::Any]),
    match reads.vault {
        Err(error) => Err(error),
        Ok(vault) => after(reads.executor,
            after(manage_enabled_check(vault),
            layout_check(accounts, 2, seq![AccountRule::Any]))),
    })
}

/// The checks of a swap after the sub-account: both writable custodies,
/// which must differ, and the action, which must be this vault's and
/// scoped to swaps.
pub open spec fn swap_tail(accounts: Seq<AccountView>, reads: SwapReads) -> Result<(), ProgramError> {
    after(layout_check(accounts, 3, seq![AccountRule::Writable]),
    after(reads.input_custody,
    after(layout_check(accounts, 4, seq![AccountRule::Writable]),
    after(reads.output_custody,
    after(
        if accounts[3].key == accounts[4].key {
            Err(program_error(RoshiError::InvalidTokenAccount))
        } else {
            Ok(())
        },
    after(layout_check(accounts, 5, seq![AccountRule::Any]),
    match reads.action_scope {
        Err(error) => Err(error),
        Ok(scope) => after(reads.action_vault,
            if scope != ActionScope::Swap {
                Err(program_error(RoshiError::UnauthorizedAction))
            } else {
                Ok(())
            }),
    }))))))
}

/// The outcome of loading a swap; the sub-account's bump on success.
pub open spec fn spec_load_swap(accounts: Seq<AccountView>, reads: SwapReads) -> Result<u8, ProgramError> {
    after(swap_head(accounts, reads),
    match reads.sub_account {
        Err(error) => Err(error),
        Ok(bump) => after(swap_tail(accounts, reads), Ok(bump)),
    })
}

/// Load the fixed accounts of a swap; the sub-account's bump comes back,
/// and the valuation accounts start at [`SWAP_FIXED_ACCOUNTS`].
pub fn load_swap(accounts: &[AccountView], reads: &SwapReads) -> (r: Result<u8, ProgramError>)
    ensures
        r == spec_load_swap(accounts@, *reads),
{
    let head = [AccountRule::Any, AccountRule::Any];
    assert(head@ =~= seq![AccountRule::Any, AccountRule::Any]);
    let any = [AccountRule::Any];
    assert(any@ =~= seq![AccountRule::Any]);
    let writable = [AccountRule::Writable];
    assert(writable@ =~= seq![AccountRule::Writable]);
    match check_layout(accounts, 0, &head) {
        Ok(()) => {},
        Err(error) => return Err(error),
    }
    let vault = match reads.vault {
        Ok(vault) => vault,
        Err(error) => return Err(error),
    };
    match reads.executor {
        Ok(()) => {},
        Err(error) => return Err(error),
    }
    match vault.verify_manage_enabled() {
        Ok(()) => {},
        Err(error) => return Err(error),
    }
    match check_layout(accounts, 2, &any) {
        Ok(()) => {},
        Err(error) => return Err(error),
    }
    let bump = match reads.sub_account {
        Ok(bump) => bump,
        Err(error) => return Err(error),
    };
    match check_layout(accounts, 3, &writable) {
        Ok(()) => {},
        Err(error) => return Err(error),
    }
    match reads.input_custody {
        Ok(()) => {},
        Err(error) => return Err(error),
    }
    match check_layout(accounts, 4, &writable) {
        Ok(()) => {},
        Err(error) => return Err(error),
    }
    match reads.output_custody {
        Ok(()) => {},
        Err(error) => return Err(error),
    }
    if bytes32_eq(&accounts[3].key, &accounts[4].key) {
        return Err(ProgramError::from(RoshiError::InvalidTokenAccount));
    }
    match check_layout(accounts, 5, &any) {
        Ok(()) => {},
        Err(error) => return Err(error),
    }
    let scope = match reads.action_scope {
        Ok(scope) => scope,
        Err(error) => return Err(error),
    };
    match reads.action_vault {
        Ok(()) => {},
        Err(error) => return Err(error),
    }
    match scope {
        ActionScope::Swap => Ok(bump),
        _ => Err(ProgramError::from(RoshiError::UnauthorizedAction)),
    }
}

/// How one swap endpoint is valued in base atoms: the base mint at face
/// value, or a registered asset through the oracle accounts in
/// `oracle_start..oracle_end`.
#[derive(Clone, Copy, Debug, PartialEq, Eq)]
pub enum LegPricing {
    Base,
    Asset { asset: Asset, oracle_start: usize, oracle_end: usize },
}

/// The outcome of parsing one endpoint's valuation accounts from `start`:
/// nothing for the base mint; otherwise an account at the asset's derived
/// address that holds an asset registration, followed by as many accounts
/// as its oracle leg reads. `decoded[k]` is the registration account `k`
/// holds, if any. The position after the endpoint's accounts comes back.
pub open spec fn spec_parse_leg(
    vault: Vault,
    vault_key: [u8; 32],
    mint: [u8; 32],
    accounts: Seq<AccountView>,
    decoded: Seq<Option<Asset>>,
    start: usize,
) -> Result<(LegPricing, usize), ProgramError> {
    if mint == vault.base_mint {
        Ok((LegPricing::Base, start))
    } else if start >= accounts.len() {
        Err(ProgramError::NotEnoughAccountKeys)
    } else if !(program_address(seq![asset_seed(), vault_key@, mint@], ID@) matches Some((address, _))
        && address == accounts[start as int].key@) {
        Err(program_error(RoshiError::UnpriceableSwapLeg))
    } else {
        match decoded[start as int] {
            None => Err(program_error(RoshiError::UnpriceableSwapLeg)),
            Some(asset) => match oracle_leg_count_of(asset.oracle) {
                Err(error) => Err(error),
                Ok(count) => if start + 1 + count > accounts.len() {
                    Err(ProgramError::NotEnoughAccountKeys)
                } else {
                    Ok((
                        LegPricing::Asset {
                            asset,
                            oracle_start: (start + 1) as usize,
                            oracle_end: (start + 1 + count) as usize,
                        },
                        (start + 1 + count) as usize,
                    ))
                },
            },
        }
    }
}

/// Parse one endpoint's valuation accounts from `start`.
pub fn parse_leg(
    vault: &Vault,
    vault_key: &[u8; 32],
    mint: &[u8; 32],
    accounts: &[AccountView],
    decoded: &[Option<Asset>],
    start: usize,
) -> (r: Result<(LegPricing, usize), ProgramError>)
    requires
        decoded@.len() == accounts@.len(),
    ensures
        r == spec_parse_leg(*vault, *vault_key, *mint, accounts@, decoded@, start),
{
    if bytes32_eq(mint, &vault.base_mint) {
        return Ok((LegPricing::Base, start));
    }
    if start >= accounts.len() {
        return Err(ProgramError::NotEnoughAccountKeys);
    }
    let at_address = match Asset::try_find_address(vault_key, mint) {
        Some((address, _)) => bytes32_eq(&address, &accounts[start].key),
        None => false,
    };
    if !at_address {
        return Err(ProgramError::from(RoshiError::UnpriceableSwapLeg));
    }
    let asset = match decoded[start] {
        Some(asset) => asset,
        None => return Err(ProgramError::from(RoshiError::UnpriceableSwapLeg)),
    };
    let count = match oracle_leg_count(&asset.oracle) {
        Ok(count) => count,
        Err(error) => return Err(error),
    };
    if count > accounts.len() - start - 1 {
        return Err(ProgramError::NotEnoughAccountKeys);
    }
    Ok((LegPricing::Asset { asset, oracle_start: start + 1, oracle_end: start + 1 + count }, start + 1 + count))
}

/// Whether an endpoint prices through the vault's base oracle leg.
pub open spec fn leg_routed(leg: LegPricing) -> Result<bool, ProgramError> {
    match leg {
        LegPricing::Base => Ok(false),
        LegPricing::Asset { asset, .. } => spec_flag_to_bool(asset.routed_flag, RoshiError::InvalidAssetAccount),
    }
}

/// Whether an endpoint prices through the vault's base oracle leg.
pub fn routed(leg: &LegPricing) -> (r: Result<bool, ProgramError>)
    ensures
        r == leg_routed(*leg),
{
    match leg {
        LegPricing::Base => Ok(false),
        LegPricing::Asset { asset, .. } => asset.routed(),
    }
}

/// Both endpoints of a swap and, when either routes, the accounts of the
/// vault's base oracle leg, read once and shared by both.
#[derive(Clone, Copy, Debug, PartialEq, Eq)]
pub struct SwapValuation {
    pub input: LegPricing,
    pub output: LegPricing,
    pub base_leg: Option<(usize, usize)>,
}

/// The outcome of the shared base leg after both endpoints, from `start`:
/// none unless an endpoint routes (the input is asked first), else as many
/// accounts as the vault's base oracle leg reads.
pub open spec fn spec_parse_base_leg(
    vault: Vault,
    input: LegPricing,
    output: LegPricing,
    accounts: Seq<AccountView>,
    start: usize,
) -> Result<(Option<(usize, usize)>, usize), ProgramError> {
    let any_routed = match leg_routed(input) {
        Err(error) => Err(error),
        Ok(true) => Ok(true),
        Ok(false) => leg_routed(output),
    };
    match any_routed {
        Err(error) => Err(error),
        Ok(false) => Ok((None, start)),
        Ok(true) => match oracle_leg_count_of(vault.base_oracle) {
            Err(error) => Err(error),
            Ok(count) => if start + count > accounts.len() {
                Err(ProgramError::NotEnoughAccountKeys)
            } else {
                Ok((Some((start, (start + count) as usize)), (start + count) as usize))
            },
        },
    }
}

/// The outcome of parsing a swap's valuation section from `start`: the
/// input endpoint, the output endpoint, then the shared base leg; the
/// position after it comes back.
pub open spec fn spec_parse_swap_valuation(
    vault: Vault,
    vault_key: [u8; 32],
    input_mint: [u8; 32],
    output_mint: [u8; 32],
    accounts: Seq<AccountView>,
    decoded: Seq<Option<Asset>>,
    start: usize,
) -> Result<(SwapValuation, usize), ProgramError> {
    match spec_parse_leg(vault, vault_key, input_mint, accounts, decoded, start) {
        Err(error) => Err(error),
        Ok((input, after_input)) => match spec_parse_leg(vault, vault_key, output_mint, accounts, decoded, after_input) {
            Err(error) => Err(error),
            Ok((output, after_output)) => match spec_parse_base_leg(vault, input, output, accounts, after_output) {
                Err(error) => Err(error),
                Ok((base_leg, after_base)) => Ok((SwapValuation { input, output, base_leg }, after_base)),
            },
        },
    }
}

/// Parse a swap's valuation section from `start`.
pub fn parse_swap_valuation(
    vault: &Vault,
    vault_key: &[u8; 32],
    input_mint: &[u8; 32],
    output_mint: &[u8; 32],
    accounts: &[AccountView],
    decoded: &[Option<Asset>],
    start: usize,
) -> (r: Result<(SwapValuation, usize), ProgramError>)
    requires
        decoded@.len() == accounts@.len(),
    ensures
        r == spec_parse_swap_valuation(*vault, *vault_key, *input_mint, *output_mint, accounts@, decoded@, start),
{
    let (input, after_input) = match parse_leg(vault, vault_key, input_mint, accounts, decoded, start) {
        Ok(parsed) => parsed,
        Err(error) => return Err(error),
    };
    let (output, after_output) = match parse_leg(vault, vault_key, output_mint, accounts, decoded, after_input) {
        Ok(parsed) => parsed,
        Err(error) => return Err(error),
    };
    let any_routed = match routed(&input) {
        Err(error) => return Err(error),
        Ok(true) => true,
        Ok(false) => match routed(&output) {
            Err(error) => return Err(error),
            Ok(value) => value,
        },
    };
    if !any_routed {
        return Ok((SwapValuation { input, output, base_leg: None }, after_output));
    }
    let count = match oracle_leg_count(&vault.base_oracle) {
        Ok(count) => count,
        Err(error) => return Err(error),
    };
    if after_output > accounts.len() || count > accounts.len() - after_output {
        return Err(ProgramError::NotEnoughAccountKeys);
    }
    Ok((SwapValuation { input, output, base_leg: Some((after_output, after_output + count)) }, after_output + count))
}

/// The outcome of a swap's valuation section: none while the vault's swap
/// slippage bound is off; else the input and output custodies' mints (as
/// their token accounts report them), then the section from
/// [`SWAP_FIXED_ACCOUNTS`]. The position of the relayed call's accounts
/// comes back.
pub open spec fn spec_swap_valuation(
    vault: Vault,
    vault_key: [u8; 32],
    input_mint: Result<[u8; 32], ProgramError>,
    output_mint: Result<[u8; 32], ProgramError>,
    accounts: Seq<AccountView>,
    decoded: Seq<Option<Asset>>,
) -> Result<(Option<SwapValuation>, usize), ProgramError> {
    if vault.controls.max_swap_slippage_bps == 0 {
        Ok((None, SWAP_FIXED_ACCOUNTS))
    } else {
        match input_mint {
            Err(error) => Err(error),
            Ok(input) => match output_mint {
                Err(error) => Err(error),
                Ok(output) => match spec_parse_swap_valuation(vault, vault_key, input, output, accounts, decoded, SWAP_FIXED_ACCOUNTS) {
                    Err(error) => Err(error),
                    Ok((valuation, after)) => Ok((Some(valuation), after)),
                },
            },
        }
    }
}

/// The valuation section of a swap, present only while the vault's swap
/// slippage bound is on.
pub fn swap_valuation(
    vault: &Vault,
    vault_key: &[u8; 32],
    input_mint: Result<[u8; 32], ProgramError>,
    output_mint: Result<[u8; 32], ProgramError>,
    accounts: &[AccountView],
    decoded: &[Option<Asset>],
) -> (r: Result<(Option<SwapValuation>, usize), ProgramError>)
    requires
        decoded@.len() == accounts@.len(),
    ensures
        r == spec_swap_valuation(*vault, *vault_key, input_mint, output_mint, accounts@, decoded@),
{
    if vault.controls.max_swap_slippage_bps == 0 {
        return Ok((None, SWAP_FIXED_ACCOUNTS));
    }
    let input = match input_mint {
        Ok(mint) => mint,
        Err(error) => return Err(error),
    };
    let output = match output_mint {
        Ok(mint) => mint,
        Err(error) => return Err(error),
    };
    match parse_swap_valuation(vault, vault_key, &input, &output, accounts, decoded, SWAP_FIXED_ACCOUNTS) {
        Ok((valuation, after)) => Ok((Some(valuation), after)),
        Err(error) => Err(error),
    }
}

/// A swap loads only for an unpaused vault, two distinct custodies and an
/// action scoped to swaps.
pub proof fn law_swaps_load_only_swap_actions(accounts: Seq<AccountView>, reads: SwapReads)
    requires
        spec_load_swap(accounts, reads) is Ok,
    ensures
        accounts.len() >= SWAP_FIXED_ACCOUNTS,
        reads.vault matches Ok(vault) && manage_enabled_check(vault) is Ok,
        accounts[3].key != accounts[4].key,
        accounts[3].is_writable && accounts[4].is_writable,
        reads.action_scope == Ok::<ActionScope, ProgramError>(ActionScope::Swap),
{
    crate::accounts::law_layout_checks_every_account(accounts, 5, seq![AccountRule::Any]);
    crate::accounts::law_layout_checks_every_account(accounts, 3, seq![AccountRule::Writable]);
    crate::accounts::law_layout_checks_every_account(accounts, 4, seq![AccountRule::Writable]);
    assert(seq![AccountRule::Writable][0] == AccountRule::Writable);
    assert(crate::accounts::rule_check(accounts, 3int, seq![AccountRule::Writable][0]) is Ok);
    assert(crate::accounts::rule_check(accounts, 4int, seq![AccountRule::Writable][0]) is Ok);
}

/// Load the accounts of a single manage: executor, vault, sub-account and
/// action must be present; the relayed call's accounts start at the
/// position that comes back.
pub fn load_manage(accounts: &[AccountView]) -> (r: Result<usize, ProgramError>)
    ensures
        r == after(
            layout_check(accounts@, 0, seq![AccountRule::Any, AccountRule::Any, AccountRule::Any, AccountRule::Any]),
            Ok::<usize, ProgramError>(4),
        ),
{
    let rules = [AccountRule::Any, AccountRule::Any, AccountRule::Any, AccountRule::Any];
    assert(rules@ =~= seq![AccountRule::Any, AccountRule::Any, AccountRule::Any, AccountRule::Any]);
    match check_layout(accounts, 0, &rules) {
        Ok(()) => Ok(4),
        Err(error) => Err(error),
    }
}

/// Load the accounts of a manage batch of `actions_len` actions: executor
/// and vault, then a sub-account and an action per action; too few
/// accounts for them is an error. The relayed calls' accounts start at the
/// position that comes back.
pub fn load_manage_batch(accounts: &[AccountView], actions_len: usize) -> (r: Result<usize, ProgramError>)
    ensures
        r == (if accounts@.len() < 2 + 2 * actions_len {
            Err::<usize, ProgramError>(ProgramError::NotEnoughAccountKeys)
        } else {
            Ok((2 + 2 * actions_len) as usize)
        }),
{
    if accounts.len() < 2 || (accounts.len() - 2) / 2 < actions_len {
        return Err(ProgramError::NotEnoughAccountKeys);
    }
    Ok(2 + 2 * actions_len)
}

/// What the vault, sub-account and action loaders and the role checks
/// report for one manage action.
#[derive(Clone, Copy, Debug, PartialEq, Eq)]
pub struct ManageReads {
    /// The vault the vault account holds.
    pub vault: Result<Vault, ProgramError>,
    /// Whether the sub-account is the named one, and its bump.
    pub sub_account: Result<u8, ProgramError>,
    /// The scope of the action the action account holds.
    pub action_scope: Result<ActionScope, ProgramError>,
    /// Whether that action is this vault's, at its derived address.
    pub action_vault: Result<(), ProgramError>,
    /// Whether the executor holds the strategist role.
    pub strategist: Result<(), ProgramError>,
    /// Whether the executor holds the swap-authority role.
    pub swap_authority: Result<(), ProgramError>,
}

/// Who may execute an action of `scope`: the strategist a manager action,
/// the swap authority a swap; no one relays other scopes through manage.
pub open spec fn executor_check(scope: ActionScope, reads: ManageReads) -> Result<(), ProgramError> {
    match scope {
        ActionScope::Manager => reads.strategist,
        ActionScope::Swap => reads.swap_authority,
        _ => Err(program_error(RoshiError::UnauthorizedAction)),
    }
}

/// The outcome of validating one manage action: the vault at its derived
/// address, the sub-account, the action and its vault, the executor for
/// the action's scope, and strategy execution unpaused; the sub-account's
/// bump on success.
pub open spec fn spec_validate_manage(vault_key: [u8; 32], reads: ManageReads) -> Result<u8, ProgramError> {
    match reads.vault {
        Err(error) => Err(error),
        Ok(vault) => after(vault_address_check(vault, vault_key),
            match reads.sub_account {
                Err(error) => Err(error),
                Ok(bump) => match reads.action_scope {
                    Err(error) => Err(error),
                    Ok(scope) => after(reads.action_vault,
                        after(executor_check(scope, reads),
                        after(manage_enabled_check(vault), Ok(bump)))),
                },
            }),
    }
}

/// Validate one manage action of the vault at `vault_key`; the
/// sub-account's bump comes back.
pub fn validate_manage(vault_key: &[u8; 32], reads: &ManageReads) -> (r: Result<u8, ProgramError>)
    ensures
        r == spec_validate_manage(*vault_key, *reads),
{
    let vault = match reads.vault {
        Ok(vault) => vault,
        Err(error) => return Err(error),
    };
    match vault.try_verify_address(vault_key) {
        Ok(()) => {},
        Err(error) => return Err(error),
    }
    let bump = match reads.sub_account {
        Ok(bump) => bump,
        Err(error) => return Err(error),
    };
    let scope = match reads.action_scope {
        Ok(scope) => scope,
        Err(error) => return Err(error),
    };
    match reads.action_vault {
        Ok(()) => {},
        Err(error) => return Err(error),
    }
    let executor = match scope {
        ActionScope::Manager => reads.strategist,
        ActionScope::Swap => reads.swap_authority,
        _ => Err(ProgramError::from(RoshiError::UnauthorizedAction)),
    };
    match executor {
        Ok(()) => {},
        Err(error) => return Err(error),
    }
    match vault.verify_manage_enabled() {
        Ok(()) => {},
        Err(error) => return Err(error),
    }
    Ok(bump)
}

/// The accounts an oracle leg of `oracle`'s kind reads, if the kind is
/// known: one for Pyth, four for Switchboard, two for Scope.
pub open spec fn oracle_accounts_of_kind(oracle: OracleConfig) -> Option<int> {
    match kind_of_byte(config_kind(oracle)) {
        Some(OracleKind::Pyth) => Some(1),
        Some(OracleKind::Switchboard) => Some(4),
        Some(OracleKind::Scope) => Some(2),
        None => None,
    }
}

/// The position after an endpoint's valuation accounts, given where they
/// start.
pub open spec fn leg_end(leg: LegPricing, start: int) -> int {
    match leg {
        LegPricing::Base => start,
        LegPricing::Asset { oracle_end, .. } => oracle_end as int,
    }
}

/// Whether an endpoint parsed from `start` lays out its accounts as the
/// pricing path reads them: nothing for the base mint; otherwise the
/// registration at `start`, then exactly the accounts its oracle leg reads.
pub open spec fn leg_laid_out(leg: LegPricing, start: int) -> bool {
    match leg {
        LegPricing::Base => true,
        LegPricing::Asset { asset, oracle_start, oracle_end } => {
            &&& oracle_start == start + 1
            &&& oracle_accounts_of_kind(asset.oracle) == Some(oracle_end - oracle_start)
        },
    }
}

/// A parsed valuation section lays out the input endpoint, then the output
/// endpoint, then, exactly when either endpoint is a routed asset, the
/// vault's base oracle leg once, shared by both; the parse ends after the
/// last of these.
pub proof fn law_routed_endpoints_share_one_base_leg(
    vault: Vault,
    vault_key: [u8; 32],
    input_mint: [u8; 32],
    output_mint: [u8; 32],
    accounts: Seq<AccountView>,
    decoded: Seq<Option<Asset>>,
    start: usize,
)
    requires
        accounts.len() <= usize::MAX,
        spec_parse_swap_valuation(vault, vault_key, input_mint, output_mint, accounts, decoded, start) is Ok,
    ensures
        ({
            let (valuation, after) = spec_parse_swap_valuation(vault, vault_key, input_mint, output_mint, accounts, decoded, start)->Ok_0;
            let after_input = leg_end(valuation.input, start as int);
            let after_output = leg_end(valuation.output, after_input);
            let routed = leg_routed(valuation.input) == Ok::<bool, ProgramError>(true)
                || leg_routed(valuation.output) == Ok::<bool, ProgramError>(true);
            &&& leg_laid_out(valuation.input, start as int)
            &&& leg_laid_out(valuation.output, after_input)
            &&& (valuation.input is Base <==> input_mint == vault.base_mint)
            &&& (valuation.output is Base <==> output_mint == vault.base_mint)
            &&& routed ==> valuation.base_leg == Some((after_output as usize, after as usize))
                && oracle_accounts_of_kind(vault.base_oracle) == Some(after - after_output)
            &&& !routed ==> valuation.base_leg is None && after == after_output
            &&& start <= accounts.len() ==> after <= accounts.len()
        }),
{
    let (input, after_input) = spec_parse_leg(vault, vault_key, input_mint, accounts, decoded, start)->Ok_0;
    lemma_parse_leg_layout(vault, vault_key, input_mint, accounts, decoded, start);
    lemma_parse_leg_layout(vault, vault_key, output_mint, accounts, decoded, after_input);
}

/// One endpoint's parse lays out its accounts and ends after them.
proof fn lemma_parse_leg_layout(
    vault: Vault,
    vault_key: [u8; 32],
    mint: [u8; 32],
    accounts: Seq<AccountView>,
    decoded: Seq<Option<Asset>>,
    start: usize,
)
    requires
        accounts.len() <= usize::MAX,
    ensures
        spec_parse_leg(vault, vault_key, mint, accounts, decoded, start) matches Ok((leg, after)) ==> {
            &&& leg_laid_out(leg, start as int)
            &&& leg_end(leg, start as int) == after
            &&& (leg is Base <==> mint == vault.base_mint)
            &&& (leg is Asset ==> after <= accounts.len())
            &&& (leg is Base ==> after == start)
        },
{
}

/// An atomic redeem loads only when the owner signs, the vault, share,
/// recipient and custody accounts are writable, account 9 is the SPL Token
/// program, and every read passed; the sub-account's bump comes back.
pub proof fn law_atomic_redeem_loads_only_when_every_check_passes(accounts: Seq<AccountView>, reads: AtomicRedeemReads)
    requires
        spec_load_atomic_redeem(accounts, reads) is Ok,
    ensures
        accounts.len() >= ATOMIC_REDEEM_FIXED_ACCOUNTS,
        accounts[0].is_signer,
        forall|i: int| 0 <= i <= 5 ==> (#[trigger] accounts[i]).is_writable,
        accounts[9].key == crate::client::TOKEN_PROGRAM_ID,
        reads.vault is Ok && reads.share_mint is Ok && reads.user_share_account is Ok,
        reads.recipient_mint is Ok && reads.recipient_token_program is Ok,
        reads.custody is Ok && reads.custody_token_program is Ok && reads.custody_account is Ok,
        reads.action is Ok && reads.action_vault is Ok,
        reads.sub_account is Ok && spec_load_atomic_redeem(accounts, reads) == reads.sub_account,
{
    crate::accounts::law_layout_checks_every_account(accounts, 0, atomic_redeem_layout());
    assert forall|i: int| 0 <= i <= 5 implies (#[trigger] accounts[i]).is_writable by {
        assert(crate::accounts::rule_check(accounts, 0 + i, atomic_redeem_layout()[i]) is Ok);
    }
    assert(crate::accounts::rule_check(accounts, 9int, atomic_redeem_layout()[9]) is Ok);
}

} // verus!
