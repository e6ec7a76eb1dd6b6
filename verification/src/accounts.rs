//! The checks the program makes on the accounts an instruction names, over
//! the plain values it reads from each account.

pub mod deposit;
pub mod execution;
pub mod setup;
pub mod tickets;

use vstd::prelude::*;

use crate::addresses::{asset_seed, try_find_share_mint_address, program_address, share_mint_seed, vault_seed, ID};
use crate::state::vault::{Vault, VAULT_MAX_TAG_LEN};
use crate::bytes::{bytes32_eq, bytes_are_zero, zeros};
use crate::error::{program_error, ProgramError, RoshiError};
use crate::state::asset::Asset;
use crate::state::flags::TRUE;
use crate::client::TOKEN_PROGRAM_ID;

verus! {

broadcast use vstd::array::group_array_axioms;

/// What the program reads of one account passed to an instruction.
#[derive(Clone, Copy, Debug, PartialEq, Eq)]
pub struct AccountView {
    pub key: [u8; 32],
    pub owner: [u8; 32],
    pub lamports: u64,
    pub data_len: usize,
    pub is_signer: bool,
    pub is_writable: bool,
}

/// The system program's address: all zero bytes.
pub open spec fn system_program_id() -> Seq<u8> {
    zeros(32)
}

/// The outcome of requiring `account` to be writable.
pub open spec fn writable_check(account: AccountView) -> Result<(), ProgramError> {
    if account.is_writable {
        Ok(())
    } else {
        Err(ProgramError::InvalidAccountData)
    }
}

/// The outcome of requiring `account` to sign.
pub open spec fn signer_check(account: AccountView) -> Result<(), ProgramError> {
    if account.is_signer {
        Ok(())
    } else {
        Err(ProgramError::MissingRequiredSignature)
    }
}

/// The outcome of requiring `account` to sign and then to be writable.
pub open spec fn writable_signer_check(account: AccountView) -> Result<(), ProgramError> {
    if !account.is_signer {
        Err(ProgramError::MissingRequiredSignature)
    } else {
        writable_check(account)
    }
}

/// The outcome of requiring `account` to be uninitialized.
pub open spec fn uninitialized_check(account: AccountView) -> Result<(), ProgramError> {
    if account.data_len != 0 || account.owner@ != system_program_id() {
        Err(ProgramError::AccountAlreadyInitialized)
    } else {
        Ok(())
    }
}

/// The outcome of requiring `account` to be the system program.
pub open spec fn system_program_check(account: AccountView) -> Result<(), ProgramError> {
    if account.key@ != system_program_id() {
        Err(ProgramError::IncorrectProgramId)
    } else {
        Ok(())
    }
}

/// The outcome of requiring `account` to be the SPL Token program.
pub open spec fn token_program_check(account: AccountView) -> Result<(), ProgramError> {
    if account.key != TOKEN_PROGRAM_ID {
        Err(ProgramError::IncorrectProgramId)
    } else {
        Ok(())
    }
}

/// `rest`, unless `check` failed first.
pub open spec fn after<T>(check: Result<(), ProgramError>, rest: Result<T, ProgramError>) -> Result<T, ProgramError> {
    match check {
        Ok(()) => rest,
        Err(error) => Err(error),
    }
}

/// Whether a loaded value came back, as a check.
pub open spec fn loaded<T>(value: Result<T, ProgramError>) -> Result<(), ProgramError> {
    match value {
        Ok(_) => Ok(()),
        Err(error) => Err(error),
    }
}

/// What an instruction requires of the account at one position.
#[derive(Clone, Copy, Debug, PartialEq, Eq)]
pub enum AccountRule {
    /// Only that it is present.
    Any,
    Signer,
    Writable,
    WritableSigner,
    Uninitialized,
    /// Writable, and then uninitialized.
    WritableUninitialized,
    SystemProgram,
    TokenProgram,
}

/// The outcome of `rule` on the account at `position`: too few accounts when
/// there is none there.
pub open spec fn rule_check(accounts: Seq<AccountView>, position: int, rule: AccountRule) -> Result<(), ProgramError> {
    if position >= accounts.len() {
        Err(ProgramError::NotEnoughAccountKeys)
    } else {
        let account = accounts[position];
        match rule {
            AccountRule::Any => Ok(()),
            AccountRule::Signer => signer_check(account),
            AccountRule::Writable => writable_check(account),
            AccountRule::WritableSigner => writable_signer_check(account),
            AccountRule::Uninitialized => uninitialized_check(account),
            AccountRule::WritableUninitialized => after(writable_check(account), uninitialized_check(account)),
            AccountRule::SystemProgram => system_program_check(account),
            AccountRule::TokenProgram => token_program_check(account),
        }
    }
}

/// The outcome of a run of rules on the accounts from `start` on, taken in
/// order: the first account that is missing or breaks its rule decides.
pub open spec fn layout_check(accounts: Seq<AccountView>, start: int, rules: Seq<AccountRule>) -> Result<(), ProgramError>
    decreases rules.len(),
{
    if rules.len() == 0 {
        Ok(())
    } else {
        after(
            layout_check(accounts, start, rules.drop_last()),
            rule_check(accounts, start + rules.len() - 1, rules.last()),
        )
    }
}

/// Once a prefix of a run of rules fails, the whole run fails the same way.
proof fn lemma_layout_prefix(accounts: Seq<AccountView>, start: int, rules: Seq<AccountRule>, k: int)
    requires
        0 <= k <= rules.len(),
        layout_check(accounts, start, rules.take(k)) is Err,
    ensures
        layout_check(accounts, start, rules) == layout_check(accounts, start, rules.take(k)),
    decreases rules.len() - k,
{
    if k < rules.len() {
        assert(rules.take(k + 1).drop_last() =~= rules.take(k));
        assert(rules.take(k + 1).last() == rules[k]);
        lemma_layout_prefix(accounts, start, rules, k + 1);
    } else {
        assert(rules.take(k) =~= rules);
    }
}

/// An instruction's accounts pass a run of rules only when every account of
/// the run is present and meets its own rule.
pub proof fn law_layout_checks_every_account(accounts: Seq<AccountView>, start: int, rules: Seq<AccountRule>)
    requires
        layout_check(accounts, start, rules) is Ok,
    ensures
        rules.len() > 0 ==> start + rules.len() <= accounts.len(),
        forall|k: int| 0 <= k < rules.len() ==> rule_check(accounts, start + k, #[trigger] rules[k]) is Ok,
    decreases rules.len(),
{
    if rules.len() > 0 {
        law_layout_checks_every_account(accounts, start, rules.drop_last());
        assert(rule_check(accounts, start + rules.len() - 1, rules.last()) is Ok);
        assert forall|k: int| 0 <= k < rules.len() implies rule_check(accounts, start + k, #[trigger] rules[k]) is Ok by {
            if k < rules.len() - 1 {
                assert(rules.drop_last()[k] == rules[k]);
            }
        }
    }
}

/// Apply `rule` to the account at `position`.
pub fn check_rule(accounts: &[AccountView], position: usize, rule: AccountRule) -> (r: Result<(), ProgramError>)
    ensures
        r == rule_check(accounts@, position as int, rule),
{
    let account = match next_account(accounts, position) {
        Ok(account) => account,
        Err(error) => return Err(error),
    };
    match rule {
        AccountRule::Any => Ok(()),
        AccountRule::Signer => {
            if !account.is_signer {
                return Err(ProgramError::MissingRequiredSignature);
            }
            Ok(())
        },
        AccountRule::Writable => require_writable(account),
        AccountRule::WritableSigner => require_writable_signer(account),
        AccountRule::Uninitialized => require_uninitialized_account(account),
        AccountRule::WritableUninitialized => {
            match require_writable(account) {
                Ok(()) => {},
                Err(error) => return Err(error),
            }
            require_uninitialized_account(account)
        },
        AccountRule::SystemProgram => require_system_program(account),
        AccountRule::TokenProgram => {
            if !bytes32_eq(&account.key, &TOKEN_PROGRAM_ID) {
                return Err(ProgramError::IncorrectProgramId);
            }
            Ok(())
        },
    }
}

/// Apply `rules` in order to the accounts from `start` on.
pub fn check_layout(accounts: &[AccountView], start: usize, rules: &[AccountRule]) -> (r: Result<(), ProgramError>)
    requires
        start + rules@.len() <= usize::MAX,
    ensures
        r == layout_check(accounts@, start as int, rules@),
{
    let mut index: usize = 0;
    while index < rules.len()
        invariant
            index <= rules@.len(),
            start + rules@.len() <= usize::MAX,
            layout_check(accounts@, start as int, rules@.take(index as int)) is Ok,
        decreases rules@.len() - index,
    {
        let ghost before = rules@.take(index as int);
        let outcome = check_rule(accounts, start + index, rules[index]);
        proof {
            assert(rules@.take(index + 1).drop_last() =~= before);
            assert(rules@.take(index + 1).last() == rules@[index as int]);
        }
        match outcome {
            Ok(()) => {},
            Err(error) => {
                proof {
                    lemma_layout_prefix(accounts@, start as int, rules@, index + 1);
                }
                return Err(error);
            },
        }
        index = index + 1;
    }
    assert(rules@.take(index as int) =~= rules@);
    Ok(())
}

/// The account at `position`, or too few accounts.
pub fn next_account(accounts: &[AccountView], position: usize) -> (r: Result<&AccountView, ProgramError>)
    ensures
        match r {
            Ok(account) => position < accounts@.len() && *account == accounts@[position as int],
            Err(e) => position >= accounts@.len() && e == ProgramError::NotEnoughAccountKeys,
        },
{
    if position >= accounts.len() {
        return Err(ProgramError::NotEnoughAccountKeys);
    }
    Ok(&accounts[position])
}

/// The account must be writable.
pub fn require_writable(account: &AccountView) -> (r: Result<(), ProgramError>)
    ensures
        r == (if account.is_writable {
            Ok::<(), ProgramError>(())
        } else {
            Err(ProgramError::InvalidAccountData)
        }),
{
    if !account.is_writable {
        return Err(ProgramError::InvalidAccountData);
    }
    Ok(())
}

/// The account must sign, and then be writable.
pub fn require_writable_signer(account: &AccountView) -> (r: Result<(), ProgramError>)
    ensures
        r == (if !account.is_signer {
            Err::<(), ProgramError>(ProgramError::MissingRequiredSignature)
        } else if !account.is_writable {
            Err(ProgramError::InvalidAccountData)
        } else {
            Ok(())
        }),
{
    if !account.is_signer {
        return Err(ProgramError::MissingRequiredSignature);
    }
    require_writable(account)
}

/// The account must not be initialized: empty data and owned by the system
/// program. A lamports-only prefund is tolerated, since anyone can move
/// lamports to a deterministic address.
pub fn require_uninitialized_account(account: &AccountView) -> (r: Result<(), ProgramError>)
    ensures
        r == (if account.data_len != 0 || account.owner@ != system_program_id() {
            Err::<(), ProgramError>(ProgramError::AccountAlreadyInitialized)
        } else {
            Ok(())
        }),
{
    let system_owned = bytes_are_zero(&account.owner);
    proof {
        assert(account.owner@ =~= account.owner@.subrange(0, 32));
        if system_owned {
            assert(account.owner@ =~= zeros(32));
        } else if account.owner@ == zeros(32) {
            assert(false);
        }
    }
    if account.data_len != 0 || !system_owned {
        return Err(ProgramError::AccountAlreadyInitialized);
    }
    Ok(())
}

/// The account must be the system program.
pub fn require_system_program(account: &AccountView) -> (r: Result<(), ProgramError>)
    ensures
        r == (if account.key@ != system_program_id() {
            Err::<(), ProgramError>(ProgramError::IncorrectProgramId)
        } else {
            Ok(())
        }),
{
    let is_system = bytes_are_zero(&account.key);
    proof {
        assert(account.key@ =~= account.key@.subrange(0, 32));
        if is_system {
            assert(account.key@ =~= zeros(32));
        } else if account.key@ == zeros(32) {
            assert(false);
        }
    }
    if !is_system {
        return Err(ProgramError::IncorrectProgramId);
    }
    Ok(())
}

/// The refund account's balance after closing an account into it: the
/// closed account's lamports move over, and an overflowing balance is
/// refused.
pub fn close_account_refund(reclaimed: u64, refund_balance: u64) -> (r: Result<u64, ProgramError>)
    ensures
        r == (if refund_balance + reclaimed > u64::MAX {
            Err::<u64, ProgramError>(ProgramError::ArithmeticOverflow)
        } else {
            Ok((refund_balance + reclaimed) as u64)
        }),
{
    match refund_balance.checked_add(reclaimed) {
        Some(balance) => Ok(balance),
        None => Err(ProgramError::ArithmeticOverflow),
    }
}

/// How a program-owned address gets created.
#[derive(Clone, Copy, Debug, PartialEq, Eq, Structural)]
pub enum PdaFunding {
    /// The address holds nothing: create it funded with the rent exemption.
    Create { lamports: u64 },
    /// The address was prefunded: top it up by `shortfall` (when nonzero),
    /// then allocate and assign it in place.
    Prefunded { shortfall: u64 },
}

/// How to create a program-owned address holding `target_lamports`, given
/// the rent exemption its data needs.
pub fn pda_funding(target_lamports: u64, rent_exemption: u64) -> (r: PdaFunding)
    ensures
        r == (if target_lamports == 0 {
            PdaFunding::Create { lamports: rent_exemption }
        } else if rent_exemption > target_lamports {
            PdaFunding::Prefunded { shortfall: (rent_exemption - target_lamports) as u64 }
        } else {
            PdaFunding::Prefunded { shortfall: 0 }
        }),
{
    if target_lamports == 0 {
        return PdaFunding::Create { lamports: rent_exemption };
    }
    PdaFunding::Prefunded { shortfall: rent_exemption.saturating_sub(target_lamports) }
}

/// Write `serialized` over the front of an account's `data`; state that
/// does not fit is invalid account data and leaves `data` untouched.
pub fn store_account_data(data: &mut Vec<u8>, serialized: &[u8]) -> (r: Result<(), ProgramError>)
    ensures
        serialized@.len() > old(data)@.len() ==> r == Err::<(), ProgramError>(ProgramError::InvalidAccountData)
            && final(data)@ == old(data)@,
        serialized@.len() <= old(data)@.len() ==> r is Ok && final(data)@ == serialized@ + old(data)@.subrange(
            serialized@.len() as int,
            old(data)@.len() as int,
        ),
{
    if serialized.len() > data.len() {
        return Err(ProgramError::InvalidAccountData);
    }
    let ghost initial = data@;
    let mut index: usize = 0;
    while index < serialized.len()
        invariant
            serialized@.len() <= initial.len(),
            index <= serialized@.len(),
            data@.len() == initial.len(),
            forall|i: int| 0 <= i < index ==> data@[i] == serialized@[i],
            forall|i: int| index <= i < initial.len() ==> data@[i] == initial[i],
        decreases serialized@.len() - index,
    {
        data.set(index, serialized[index]);
        index = index + 1;
    }
    assert(data@ =~= serialized@ + initial.subrange(serialized@.len() as int, initial.len() as int));
    Ok(())
}

/// The outcome of requiring `authority` to be the configured program
/// authority, and then to sign.
pub open spec fn program_authority_check(authority: AccountView, configured: [u8; 32]) -> Result<(), ProgramError> {
    if authority.key != configured {
        Err(ProgramError::IllegalOwner)
    } else if !authority.is_signer {
        Err(ProgramError::MissingRequiredSignature)
    } else {
        Ok(())
    }
}

/// The program authority must be the configured one, and must sign.
pub fn verify_program_authority(authority: &AccountView, configured: &[u8; 32]) -> (r: Result<(), ProgramError>)
    ensures
        r == program_authority_check(*authority, *configured),
{
    if !bytes32_eq(&authority.key, configured) {
        return Err(ProgramError::IllegalOwner);
    }
    if !authority.is_signer {
        return Err(ProgramError::MissingRequiredSignature);
    }
    Ok(())
}

/// A new asset's mint: not the vault's base mint, and the mint account
/// passed must be that mint.
pub fn verify_new_asset_mint(asset_mint: &[u8; 32], base_mint: &[u8; 32], mint_account: &[u8; 32]) -> (r: Result<
    (),
    ProgramError,
>)
    ensures
        r == (if *asset_mint == *base_mint {
            Err::<(), ProgramError>(ProgramError::InvalidArgument)
        } else if *mint_account != *asset_mint {
            Err(program_error(RoshiError::InvalidMintAccount))
        } else {
            Ok(())
        }),
{
    if bytes32_eq(asset_mint, base_mint) {
        return Err(ProgramError::InvalidArgument);
    }
    if !bytes32_eq(mint_account, asset_mint) {
        return Err(ProgramError::from(RoshiError::InvalidMintAccount));
    }
    Ok(())
}

/// A non-base deposit prices through a registration that sits at the
/// asset's derived address for this vault, belongs to this vault, and is
/// enabled; anything else is an invalid asset account.
pub fn verify_deposit_asset(vault: &[u8; 32], asset_mint: &[u8; 32], asset: &Asset, asset_key: &[u8; 32]) -> (r: Result<
    (),
    ProgramError,
>)
    ensures
        r == (if (program_address(seq![asset_seed(), vault@, asset_mint@], ID@) matches Some((key, _))
            && key == asset_key@) && asset.vault == *vault && asset.enabled_flag == TRUE {
            Ok::<(), ProgramError>(())
        } else {
            Err(program_error(RoshiError::InvalidAssetAccount))
        }),
{
    let at_derived_address = match Asset::try_find_address(vault, asset_mint) {
        Some((expected, _)) => bytes32_eq(&expected, asset_key),
        None => false,
    };
    if !at_derived_address || !bytes32_eq(&asset.vault, vault) {
        return Err(ProgramError::from(RoshiError::InvalidAssetAccount));
    }
    match asset.enabled() {
        Ok(true) => Ok(()),
        _ => Err(ProgramError::from(RoshiError::InvalidAssetAccount)),
    }
}

/// What checking a new vault's addresses gives: a tag of 0 or more than 32
/// bytes is refused; the vault must sit at `["vault", tag, base_mint]` and
/// its share mint at `["share_mint", vault]`; on success the packed tag, its
/// length and both bumps.
pub open spec fn new_vault_addresses_result(
    vault_key: [u8; 32],
    share_mint_key: [u8; 32],
    tag: [u8; 32],
    tag_len: u8,
    base_mint: [u8; 32],
    r: Result<([u8; 32], u8, u8, u8), ProgramError>,
) -> bool {
    &&& (!(1 <= tag_len <= VAULT_MAX_TAG_LEN) ==> r == Err::<([u8; 32], u8, u8, u8), ProgramError>(
            program_error(RoshiError::InvalidVaultTag),
        ))
    &&& (1 <= tag_len <= VAULT_MAX_TAG_LEN ==> {
            let seed = tag@.subrange(0, tag_len as int);
            match program_address(seq![vault_seed(), seed, base_mint@], ID@) {
                None => r == Err::<([u8; 32], u8, u8, u8), ProgramError>(ProgramError::InvalidSeeds),
                Some((vault_address, vault_bump)) => if vault_address != vault_key@ {
                    r == Err::<([u8; 32], u8, u8, u8), ProgramError>(ProgramError::InvalidSeeds)
                } else {
                    match program_address(seq![share_mint_seed(), vault_key@], ID@) {
                        Some((mint_address, mint_bump)) => if mint_address == share_mint_key@ {
                            r matches Ok((packed, len, vb, mb)) && packed@ == seed + zeros(
                                (32 - tag_len) as nat,
                            ) && len == tag_len && vb == vault_bump && mb == mint_bump
                        } else {
                            r == Err::<([u8; 32], u8, u8, u8), ProgramError>(ProgramError::InvalidSeeds)
                        },
                        None => r == Err::<([u8; 32], u8, u8, u8), ProgramError>(ProgramError::InvalidSeeds),
                    }
                },
            }
        })
}

/// The derived addresses a new vault's accounts must sit at: the vault at
/// `["vault", tag, base_mint]` and its share mint at `["share_mint", vault]`.
/// A tag of 0 or more than 32 bytes is refused; on success the packed tag,
/// its length and both bumps come back.
pub fn verify_new_vault_addresses(
    vault_key: &[u8; 32],
    share_mint_key: &[u8; 32],
    tag: &[u8; 32],
    tag_len: u8,
    base_mint: &[u8; 32],
) -> (r: Result<([u8; 32], u8, u8, u8), ProgramError>)
    ensures
        new_vault_addresses_result(*vault_key, *share_mint_key, *tag, tag_len, *base_mint, r),
{
    let seed = match Vault::unpack_tag(tag, tag_len) {
        Ok(seed) => seed,
        Err(error) => return Err(error),
    };
    let (packed, packed_len) = match Vault::pack_tag(seed) {
        Ok(packed) => packed,
        Err(error) => return Err(error),
    };
    proof {
        assert(packed@.subrange(0, packed_len as int) =~= seed@);
    }
    let vault_seed_bytes = vstd::slice::slice_subrange(packed.as_slice(), 0, packed_len as usize);
    assert(vault_seed_bytes@ == tag@.subrange(0, tag_len as int));
    let (expected_vault, vault_bump) = match Vault::try_find_address(vault_seed_bytes, base_mint) {
        Ok(found) => found,
        Err(error) => return Err(error),
    };
    if !bytes32_eq(vault_key, &expected_vault) {
        return Err(ProgramError::InvalidSeeds);
    }
    let (expected_mint, mint_bump) = match try_find_share_mint_address(vault_key) {
        Some(found) => found,
        None => return Err(ProgramError::InvalidSeeds),
    };
    if !bytes32_eq(share_mint_key, &expected_mint) {
        return Err(ProgramError::InvalidSeeds);
    }
    Ok((packed, packed_len, vault_bump, mint_bump))
}

/// A new asset registration must sit at `["asset", vault, asset_mint]`; its
/// bump comes back.
pub fn verify_new_asset_address(vault: &[u8; 32], asset_mint: &[u8; 32], asset_key: &[u8; 32]) -> (r: Result<u8, ProgramError>)
    ensures
        match program_address(seq![asset_seed(), vault@, asset_mint@], ID@) {
            Some((address, bump)) => r == (if address == asset_key@ {
                Ok::<u8, ProgramError>(bump)
            } else {
                Err(ProgramError::InvalidSeeds)
            }),
            None => r == Err::<u8, ProgramError>(ProgramError::InvalidSeeds),
        },
{
    match Asset::try_find_address(vault, asset_mint) {
        Some((expected, bump)) => {
            if bytes32_eq(&expected, asset_key) {
                Ok(bump)
            } else {
                Err(ProgramError::InvalidSeeds)
            }
        },
        None => Err(ProgramError::InvalidSeeds),
    }
}

/// How many tickets the accounts after the fixed ones settle: each ticket
/// brings three accounts (ticket, owner, destination), and at least one
/// ticket is needed.
pub fn settlement_ticket_count(remaining: usize) -> (r: Result<usize, ProgramError>)
    ensures
        r == (if remaining == 0 || remaining % 3 != 0 {
            Err::<usize, ProgramError>(ProgramError::NotEnoughAccountKeys)
        } else {
            Ok((remaining / 3) as usize)
        }),
{
    if remaining == 0 || remaining % 3 != 0 {
        return Err(ProgramError::NotEnoughAccountKeys);
    }
    Ok(remaining / 3)
}

/// A ticket settles only into the vault, owner and destination it records,
/// and only while it holds burned shares.
pub fn verify_ticket_settlement(
    vault: &[u8; 32],
    owner: &[u8; 32],
    destination: &[u8; 32],
    ticket_vault: &[u8; 32],
    ticket_owner: &[u8; 32],
    ticket_recipient: &[u8; 32],
    shares_burned: u64,
) -> (r: Result<(), ProgramError>)
    ensures
        r == (if *ticket_vault != *vault || *ticket_owner != *owner || *ticket_recipient != *destination
            || shares_burned == 0 {
            Err::<(), ProgramError>(program_error(RoshiError::InvalidWithdrawalTicketAccount))
        } else {
            Ok(())
        }),
{
    if !bytes32_eq(ticket_vault, vault) || !bytes32_eq(ticket_owner, owner) || !bytes32_eq(
        ticket_recipient,
        destination,
    ) || shares_burned == 0 {
        return Err(ProgramError::from(RoshiError::InvalidWithdrawalTicketAccount));
    }
    Ok(())
}

/// Only the owner a ticket records may cancel it, in the vault it records.
pub fn verify_ticket_holder(vault: &[u8; 32], owner: &[u8; 32], ticket_vault: &[u8; 32], ticket_owner: &[u8; 32]) -> (r:
    Result<(), ProgramError>)
    ensures
        r == (if *ticket_vault != *vault || *ticket_owner != *owner {
            Err::<(), ProgramError>(program_error(RoshiError::InvalidWithdrawalTicketAccount))
        } else {
            Ok(())
        }),
{
    if !bytes32_eq(ticket_vault, vault) || !bytes32_eq(ticket_owner, owner) {
        return Err(ProgramError::from(RoshiError::InvalidWithdrawalTicketAccount));
    }
    Ok(())
}

/// A derived account must sit at the derived address with the derived bump.
pub fn verify_derived_address(key: &[u8; 32], bump: u8, expected_key: &[u8; 32], expected_bump: u8) -> (r: Result<
    (),
    ProgramError,
>)
    ensures
        r == (if *key != *expected_key || bump != expected_bump {
            Err::<(), ProgramError>(ProgramError::InvalidSeeds)
        } else {
            Ok(())
        }),
{
    if !bytes32_eq(key, expected_key) || bump != expected_bump {
        return Err(ProgramError::InvalidSeeds);
    }
    Ok(())
}

/// A settlement batch names each ticket once: `ticket` must not be among
/// the tickets already accepted.
pub fn verify_ticket_not_repeated(accepted: &[[u8; 32]], ticket: &[u8; 32]) -> (r: Result<(), ProgramError>)
    ensures
        r == (if accepted@.contains(*ticket) {
            Err::<(), ProgramError>(program_error(RoshiError::InvalidWithdrawalTicketAccount))
        } else {
            Ok(())
        }),
{
    let mut index: usize = 0;
    while index < accepted.len()
        invariant
            index <= accepted@.len(),
            forall|i: int| 0 <= i < index ==> accepted@[i] != *ticket,
        decreases accepted@.len() - index,
    {
        if bytes32_eq(&accepted[index], ticket) {
            proof {
                assert(accepted@[index as int] == *ticket);
            }
            return Err(ProgramError::from(RoshiError::InvalidWithdrawalTicketAccount));
        }
        index = index + 1;
    }
    Ok(())
}

} // verus!
