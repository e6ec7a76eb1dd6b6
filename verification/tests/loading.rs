use roshi::accounts::deposit::{
    deposit_oracle_accounts, load_deposit, load_deposit_and_deploy, resolve_base_atoms,
    DeployReads, DepositReads,
};
use roshi::accounts::execution::{
    load_atomic_redeem, load_manage, load_manage_batch, load_swap, parse_swap_valuation,
    swap_valuation, validate_manage, AtomicRedeemReads, LegPricing, ManageReads, SwapReads,
    SwapValuation, SWAP_FIXED_ACCOUNTS,
};
use roshi::accounts::setup::{
    authorized_action, load_asset_update, load_authorize_action, load_close_external_destination,
    load_initialize_asset, load_initialize_program, load_initialize_vault,
    load_register_external_destination, load_revoke_action, load_vault_update, Action,
    ActionAdminReads, VaultRoleReads,
};
use roshi::accounts::tickets::{
    load_cancel_redeem, load_process_withdrawals, load_redeem, CancelRedeemReads,
    ProcessWithdrawalsReads, RedeemReads, SettlementReads, TicketView,
};
use roshi::accounts::{check_layout, AccountRule, AccountView};
use roshi::action::{ActionScope, Ops};
use roshi::addresses::ID;
use roshi::client::TOKEN_PROGRAM_ID;
use roshi::error::{ProgramError, RoshiError};
use roshi::instructions::{DepositArgs, InitializeAssetArgs, InitializeVaultArgs, RedeemArgs};
use roshi::oracle::{OracleConfig, OraclePrice, PythOracleConfig};
use roshi::state::asset::Asset;
use roshi::state::vault::{Vault, VaultControls};
use solana_pubkey::Pubkey;

const SYSTEM: [u8; 32] = [0; 32];

fn key(seed: u8) -> [u8; 32] {
    [seed; 32]
}

fn view(key: [u8; 32], is_signer: bool, is_writable: bool) -> AccountView {
    AccountView {
        key,
        owner: SYSTEM,
        lamports: 0,
        data_len: 0,
        is_signer,
        is_writable,
    }
}

fn custom(error: RoshiError) -> ProgramError {
    ProgramError::from(error)
}

fn vault_with(base_mint: [u8; 32], max_swap_slippage_bps: u16) -> Vault {
    Vault::new(
        b"test",
        key(1),
        key(2),
        key(3),
        key(4),
        base_mint,
        key(6),
        6,
        OracleConfig::default(),
        0,
        1,
        key(9),
        100,
        250,
        VaultControls::new(0, 0, 0, 0, 0, 0, max_swap_slippage_bps),
        false,
        [0; 32],
        255,
    )
    .unwrap()
}

#[test]
fn layout_checks_accounts_in_order() {
    let accounts = [view(key(1), false, false), view(key(2), true, false)];
    let rules = [AccountRule::Writable, AccountRule::Signer];
    assert_eq!(
        check_layout(&accounts, 0, &rules),
        Err(ProgramError::InvalidAccountData)
    );
    assert_eq!(check_layout(&accounts, 1, &[AccountRule::Signer]), Ok(()));
    assert_eq!(
        check_layout(&accounts, 1, &[AccountRule::Signer, AccountRule::Any]),
        Err(ProgramError::NotEnoughAccountKeys)
    );
    let mut token = view(TOKEN_PROGRAM_ID, false, false);
    assert_eq!(check_layout(&[token], 0, &[AccountRule::TokenProgram]), Ok(()));
    token.key = key(3);
    assert_eq!(
        check_layout(&[token], 0, &[AccountRule::TokenProgram]),
        Err(ProgramError::IncorrectProgramId)
    );
    let mut initialized = view(key(4), false, true);
    initialized.data_len = 8;
    assert_eq!(
        check_layout(&[initialized], 0, &[AccountRule::WritableUninitialized]),
        Err(ProgramError::AccountAlreadyInitialized)
    );
}

fn redeem_accounts() -> Vec<AccountView> {
    vec![
        view(key(10), true, true),
        view(key(11), false, true),
        view(key(12), false, true),
        view(key(13), false, true),
        view(key(14), false, false),
        view(key(15), false, true),
        view(SYSTEM, false, false),
        view(TOKEN_PROGRAM_ID, false, false),
    ]
}

fn redeem_reads() -> RedeemReads {
    RedeemReads {
        vault: Ok(vault_with(key(5), 0)),
        share_mint: Ok(()),
        recipient_mint: Ok(()),
        ticket_address: (key(15), 254),
    }
}

#[test]
fn redeem_loads_and_returns_the_ticket_bump() {
    let args = RedeemArgs { recipient_token_account: key(14), ticket_index: 0, shares: 5 };
    let accounts = redeem_accounts();
    assert_eq!(load_redeem(&accounts, &args, &redeem_reads()), Ok(254));

    assert_eq!(
        load_redeem(&accounts[..5], &args, &redeem_reads()),
        Err(ProgramError::NotEnoughAccountKeys)
    );
    let mut unsigned = accounts.clone();
    unsigned[0].is_signer = false;
    assert_eq!(
        load_redeem(&unsigned, &args, &redeem_reads()),
        Err(ProgramError::MissingRequiredSignature)
    );
    let mut reads = redeem_reads();
    reads.vault = Err(ProgramError::InvalidAccountData);
    assert_eq!(load_redeem(&accounts, &args, &reads), Err(ProgramError::InvalidAccountData));
    let other_recipient = RedeemArgs { recipient_token_account: key(99), ..args.clone() };
    assert_eq!(
        load_redeem(&accounts, &other_recipient, &redeem_reads()),
        Err(custom(RoshiError::InvalidTokenAccount))
    );
    let mut reads = redeem_reads();
    reads.ticket_address = (key(16), 254);
    assert_eq!(load_redeem(&accounts, &args, &reads), Err(ProgramError::InvalidSeeds));
    let mut no_system = accounts.clone();
    no_system[6].key = key(1);
    assert_eq!(
        load_redeem(&no_system, &args, &redeem_reads()),
        Err(ProgramError::IncorrectProgramId)
    );
}

fn ticket(owner: u8, recipient: u8, bump: u8) -> TicketView {
    TicketView {
        vault: key(11),
        owner: key(owner),
        recipient_token_account: key(recipient),
        shares_burned: 10,
        ticket_index: 0,
        bump,
    }
}

#[test]
fn cancel_redeem_checks_holder_address_and_destination() {
    let accounts = vec![
        view(key(10), true, true),
        view(key(11), false, true),
        view(key(12), false, true),
        view(key(13), false, true),
        view(key(14), false, true),
        view(TOKEN_PROGRAM_ID, false, false),
    ];
    let reads = CancelRedeemReads {
        vault: Ok(vault_with(key(5), 0)),
        share_mint: Ok(()),
        ticket: Ok(ticket(10, 20, 250)),
        ticket_address: (key(12), 250),
        share_destination: Ok(()),
    };
    assert_eq!(load_cancel_redeem(&accounts, &reads), Ok(ticket(10, 20, 250)));
    let stranger = CancelRedeemReads { ticket: Ok(ticket(9, 20, 250)), ..reads };
    assert_eq!(
        load_cancel_redeem(&accounts, &stranger),
        Err(custom(RoshiError::InvalidWithdrawalTicketAccount))
    );
    let wrong_bump = CancelRedeemReads { ticket_address: (key(12), 251), ..reads };
    assert_eq!(load_cancel_redeem(&accounts, &wrong_bump), Err(ProgramError::InvalidSeeds));
    let bad_destination = CancelRedeemReads {
        share_destination: Err(custom(RoshiError::InvalidTokenAccount)),
        ..reads
    };
    assert_eq!(
        load_cancel_redeem(&accounts, &bad_destination),
        Err(custom(RoshiError::InvalidTokenAccount))
    );
}

fn withdrawal_accounts(tickets: &[(u8, u8, u8)]) -> Vec<AccountView> {
    let mut accounts = vec![
        view(key(1), true, false),
        view(key(11), false, true),
        view(key(12), false, false),
        view(key(13), false, true),
        view(key(14), false, false),
        view(TOKEN_PROGRAM_ID, false, false),
    ];
    for (ticket, owner, destination) in tickets {
        accounts.push(view(key(*ticket), false, true));
        accounts.push(view(key(*owner), false, true));
        accounts.push(view(key(*destination), false, true));
    }
    accounts
}

fn withdrawal_reads() -> ProcessWithdrawalsReads {
    ProcessWithdrawalsReads {
        vault: Ok(vault_with(key(5), 0)),
        withdrawal_authority: Ok(()),
        sub_account: Ok(253),
        custody: Ok(()),
        share_mint: Ok(()),
        token_program: Ok(()),
    }
}

fn settlement(ticket_key: u8, owner: u8, destination: u8) -> SettlementReads {
    SettlementReads {
        ticket: Ok(ticket(owner, destination, 200)),
        ticket_address: (key(ticket_key), 200),
        destination_mint: Ok(()),
    }
}

#[test]
fn process_withdrawals_settles_each_ticket_once() {
    let accounts = withdrawal_accounts(&[(30, 31, 32), (40, 41, 42)]);
    let tickets = [settlement(30, 31, 32), settlement(40, 41, 42)];
    assert_eq!(
        load_process_withdrawals(&accounts, &withdrawal_reads(), &tickets),
        Ok(253)
    );

    let repeated = withdrawal_accounts(&[(30, 31, 32), (30, 31, 32)]);
    let repeated_reads = [settlement(30, 31, 32), settlement(30, 31, 32)];
    assert_eq!(
        load_process_withdrawals(&repeated, &withdrawal_reads(), &repeated_reads),
        Err(custom(RoshiError::InvalidWithdrawalTicketAccount))
    );

    let none = withdrawal_accounts(&[]);
    assert_eq!(
        load_process_withdrawals(&none, &withdrawal_reads(), &[]),
        Err(ProgramError::NotEnoughAccountKeys)
    );
    assert_eq!(
        load_process_withdrawals(&accounts[..10], &withdrawal_reads(), &tickets),
        Err(ProgramError::NotEnoughAccountKeys)
    );

    let mut drained = tickets;
    drained[1].ticket = Ok(TicketView { shares_burned: 0, ..ticket(41, 42, 200) });
    assert_eq!(
        load_process_withdrawals(&accounts, &withdrawal_reads(), &drained),
        Err(custom(RoshiError::InvalidWithdrawalTicketAccount))
    );

    let mut misplaced = tickets;
    misplaced[0].ticket_address = (key(30), 199);
    assert_eq!(
        load_process_withdrawals(&accounts, &withdrawal_reads(), &misplaced),
        Err(ProgramError::InvalidSeeds)
    );

    let mut readonly = accounts.clone();
    readonly[8].is_writable = false;
    assert_eq!(
        load_process_withdrawals(&readonly, &withdrawal_reads(), &tickets),
        Err(ProgramError::InvalidAccountData)
    );

    let mut reads = withdrawal_reads();
    reads.sub_account = Err(ProgramError::InvalidSeeds);
    assert_eq!(
        load_process_withdrawals(&accounts, &reads, &tickets),
        Err(ProgramError::InvalidSeeds)
    );
}

#[test]
fn initialize_vault_checks_authority_then_addresses() {
    let base_mint = key(2);
    let (vault, vault_bump) =
        Pubkey::find_program_address(&[b"vault", b"test", &base_mint], &Pubkey::from(ID));
    let (share_mint, mint_bump) =
        Pubkey::find_program_address(&[b"share_mint", vault.as_ref()], &Pubkey::from(ID));
    let mut tag = [0u8; 32];
    tag[..4].copy_from_slice(b"test");
    let accounts = vec![
        view(key(1), true, false),
        view(key(2), false, false),
        view(key(3), true, true),
        view(vault.to_bytes(), false, true),
        view(base_mint, false, false),
        view(share_mint.to_bytes(), false, true),
        view(key(7), false, false),
        view(SYSTEM, false, false),
        view(TOKEN_PROGRAM_ID, false, false),
    ];
    let args = InitializeVaultArgs {
        tag,
        tag_len: 4,
        admin: key(1),
        strategist: key(1),
        swap_authority: key(1),
        nav_authority: key(1),
        withdrawal_authority: key(1),
        base_mint,
        base_decimals: 6,
        base_oracle: OracleConfig::default(),
        deposit_sub_account: 0,
        withdraw_sub_account: 1,
        treasury: key(7),
        performance_fee_bps: 0,
        withdrawal_buffer_bps: 0,
        controls: VaultControls::default(),
        private: false,
        access_merkle_root: [0; 32],
    };
    assert_eq!(
        load_initialize_vault(&accounts, &args, Ok(key(1))),
        Ok((tag, 4, vault_bump, mint_bump))
    );
    assert_eq!(
        load_initialize_vault(&accounts, &args, Ok(key(9))),
        Err(ProgramError::IllegalOwner)
    );
    assert_eq!(
        load_initialize_vault(&accounts, &args, Err(ProgramError::InvalidSeeds)),
        Err(ProgramError::InvalidSeeds)
    );
    let mut swapped = accounts.clone();
    swapped[5].key = key(8);
    assert_eq!(
        load_initialize_vault(&swapped, &args, Ok(key(1))),
        Err(ProgramError::InvalidSeeds)
    );
    let mut readonly_mint = accounts.clone();
    readonly_mint[5].is_writable = false;
    assert_eq!(
        load_initialize_vault(&readonly_mint, &args, Ok(key(1))),
        Err(ProgramError::InvalidAccountData)
    );
}

#[test]
fn actions_are_authorized_and_revoked_at_their_address() {
    let reads = ActionAdminReads {
        vault: Ok(vault_with(key(5), 0)),
        admin: Ok(()),
        action_address: (key(20), 251),
    };
    let authorize = vec![
        view(key(1), true, true),
        view(key(11), false, false),
        view(key(20), false, true),
        view(SYSTEM, false, false),
    ];
    assert_eq!(load_authorize_action(&authorize, &reads), Ok(251));
    let elsewhere = ActionAdminReads { action_address: (key(21), 251), ..reads };
    assert_eq!(load_authorize_action(&authorize, &elsewhere), Err(ProgramError::InvalidSeeds));
    let not_admin = ActionAdminReads { admin: Err(ProgramError::IllegalOwner), ..reads };
    assert_eq!(load_authorize_action(&authorize, &not_admin), Err(ProgramError::IllegalOwner));

    let revoke = &authorize[..3];
    assert_eq!(load_revoke_action(revoke, &reads, Ok(()), Ok(())), Ok(()));
    assert_eq!(
        load_revoke_action(revoke, &reads, Ok(()), Err(ProgramError::InvalidAccountData)),
        Err(ProgramError::InvalidAccountData)
    );
    assert_eq!(
        load_revoke_action(revoke, &elsewhere, Err(ProgramError::InvalidAccountData), Ok(())),
        Err(ProgramError::InvalidSeeds)
    );

    let ops = Ops::empty();
    assert_eq!(
        authorized_action(key(11), key(12), ActionScope::Swap, ops, 7, 1, 100, 251, Ok(())),
        Ok(Action {
            vault: key(11),
            action_hash: key(12),
            ops,
            fee_num: 1,
            fee_den: 100,
            scope: ActionScope::Swap,
            redeem_amount_offset: 7,
            bump: 251,
        })
    );
    assert_eq!(
        authorized_action(key(11), key(12), ActionScope::Swap, ops, 7, 1, 100, 251, Err(ProgramError::InvalidInstructionData)),
        Err(ProgramError::InvalidInstructionData)
    );
}

fn atomic_reads() -> AtomicRedeemReads {
    AtomicRedeemReads {
        vault: Ok(vault_with(key(5), 0)),
        share_mint: Ok(()),
        user_share_account: Ok(()),
        recipient_mint: Ok(()),
        recipient_token_program: Ok(()),
        sub_account: Ok(249),
        custody: Ok(()),
        custody_token_program: Ok(()),
        custody_account: Ok(()),
        action: Ok(()),
        action_vault: Ok(()),
    }
}

#[test]
fn atomic_redeem_loads_fixed_accounts_then_reads() {
    let mut accounts = vec![view(key(1), true, true)];
    for seed in 2..7 {
        accounts.push(view(key(seed), false, true));
    }
    accounts.push(view(key(7), false, false));
    accounts.push(view(key(8), false, false));
    accounts.push(view(key(9), false, false));
    accounts.push(view(TOKEN_PROGRAM_ID, false, false));
    accounts.push(view(key(30), false, true));
    assert_eq!(load_atomic_redeem(&accounts, &atomic_reads()), Ok(249));
    let mut wrong_program = accounts.clone();
    wrong_program[9].key = key(10);
    assert_eq!(
        load_atomic_redeem(&wrong_program, &atomic_reads()),
        Err(ProgramError::IncorrectProgramId)
    );
    let reads = AtomicRedeemReads { action_vault: Err(ProgramError::InvalidSeeds), ..atomic_reads() };
    assert_eq!(load_atomic_redeem(&accounts, &reads), Err(ProgramError::InvalidSeeds));
    let reads = AtomicRedeemReads {
        custody: Err(custom(RoshiError::InvalidTokenAccount)),
        action_vault: Err(ProgramError::InvalidSeeds),
        ..atomic_reads()
    };
    assert_eq!(
        load_atomic_redeem(&accounts, &reads),
        Err(custom(RoshiError::InvalidTokenAccount))
    );
}

fn swap_accounts() -> Vec<AccountView> {
    vec![
        view(key(1), true, false),
        view(key(11), false, false),
        view(key(12), false, false),
        view(key(13), false, true),
        view(key(14), false, true),
        view(key(15), false, false),
    ]
}

fn swap_reads(vault: Vault) -> SwapReads {
    SwapReads {
        vault: Ok(vault),
        executor: Ok(()),
        sub_account: Ok(248),
        input_custody: Ok(()),
        output_custody: Ok(()),
        action_scope: Ok(ActionScope::Swap),
        action_vault: Ok(()),
    }
}

#[test]
fn swap_loads_only_for_swap_actions_on_distinct_custodies() {
    let accounts = swap_accounts();
    let vault = vault_with(key(5), 0);
    assert_eq!(load_swap(&accounts, &swap_reads(vault)), Ok(248));
    let mut same = accounts.clone();
    same[4].key = key(13);
    assert_eq!(
        load_swap(&same, &swap_reads(vault)),
        Err(custom(RoshiError::InvalidTokenAccount))
    );
    let manager = SwapReads { action_scope: Ok(ActionScope::Manager), ..swap_reads(vault) };
    assert_eq!(
        load_swap(&accounts, &manager),
        Err(custom(RoshiError::UnauthorizedAction))
    );
    let mut paused = vault;
    paused.set_manage_paused(true);
    assert_eq!(
        load_swap(&accounts, &swap_reads(paused)),
        Err(custom(RoshiError::VaultPaused))
    );
}

#[test]
fn swap_valuation_parses_endpoints_and_shared_base_leg() {
    let base_mint = key(5);
    let vault = vault_with(base_mint, 100);
    let vault_key = key(11);
    let asset_mint = key(40);
    let (asset_key, bump) =
        Pubkey::find_program_address(&[b"asset", &vault_key, &asset_mint], &Pubkey::from(ID));
    let oracle = OracleConfig::pyth(PythOracleConfig::new(key(41), 8, 30, 100));
    let mut asset = Asset::new(vault_key, asset_mint, oracle, 6, true, false, 0, bump).unwrap();

    let mut accounts = swap_accounts();
    accounts.push(view(asset_key.to_bytes(), false, false));
    accounts.push(view(key(42), false, false));
    accounts.push(view(key(50), false, false));
    let mut decoded = vec![None; accounts.len()];
    decoded[6] = Some(asset);

    assert_eq!(
        parse_swap_valuation(&vault, &vault_key, &asset_mint, &base_mint, &accounts, &decoded, 6),
        Ok((
            SwapValuation {
                input: LegPricing::Asset { asset, oracle_start: 7, oracle_end: 8 },
                output: LegPricing::Base,
                base_leg: None,
            },
            8
        ))
    );

    asset.set_routed(true);
    decoded[6] = Some(asset);
    assert_eq!(
        parse_swap_valuation(&vault, &vault_key, &asset_mint, &base_mint, &accounts, &decoded, 6),
        Err(ProgramError::NotEnoughAccountKeys)
    );
    let mut with_base_leg = accounts.clone();
    for seed in 51..54 {
        with_base_leg.push(view(key(seed), false, false));
    }
    let mut decoded_with_base = decoded.clone();
    decoded_with_base.resize(with_base_leg.len(), None);
    assert_eq!(
        parse_swap_valuation(&vault, &vault_key, &asset_mint, &base_mint, &with_base_leg, &decoded_with_base, 6),
        Ok((
            SwapValuation {
                input: LegPricing::Asset { asset, oracle_start: 7, oracle_end: 8 },
                output: LegPricing::Base,
                base_leg: Some((8, 12)),
            },
            12
        ))
    );

    let mut stranger = accounts.clone();
    stranger[6].key = key(60);
    assert_eq!(
        parse_swap_valuation(&vault, &vault_key, &asset_mint, &base_mint, &stranger, &decoded, 6),
        Err(custom(RoshiError::UnpriceableSwapLeg))
    );
    let undecoded = vec![None; accounts.len()];
    assert_eq!(
        parse_swap_valuation(&vault, &vault_key, &asset_mint, &base_mint, &accounts, &undecoded, 6),
        Err(custom(RoshiError::UnpriceableSwapLeg))
    );

    let quiet = vault_with(base_mint, 0);
    assert_eq!(
        swap_valuation(&quiet, &vault_key, Err(ProgramError::InvalidAccountData), Ok(base_mint), &accounts, &decoded),
        Ok((None, SWAP_FIXED_ACCOUNTS))
    );
    assert_eq!(
        swap_valuation(&vault, &vault_key, Ok(base_mint), Ok(base_mint), &accounts, &decoded),
        Ok((
            Some(SwapValuation { input: LegPricing::Base, output: LegPricing::Base, base_leg: None }),
            SWAP_FIXED_ACCOUNTS
        ))
    );
    assert_eq!(
        swap_valuation(&vault, &vault_key, Err(ProgramError::InvalidAccountData), Ok(base_mint), &accounts, &decoded),
        Err(ProgramError::InvalidAccountData)
    );
}

#[test]
fn deposits_load_and_price_through_the_registration() {
    let mut accounts = vec![view(key(1), true, false)];
    for seed in 2..7 {
        accounts.push(view(key(seed), false, true));
    }
    accounts.push(view(TOKEN_PROGRAM_ID, false, false));
    accounts.push(view(key(8), false, false));
    let reads = DepositReads {
        source_token_program: Ok(()),
        custody_token_program: Ok(()),
        vault: Ok(vault_with(key(5), 0)),
        share_mint: Ok(()),
    };
    assert_eq!(load_deposit(&accounts, &reads), Ok(()));
    let mut unsigned = accounts.clone();
    unsigned[0].is_signer = false;
    assert_eq!(load_deposit(&unsigned, &reads), Err(ProgramError::MissingRequiredSignature));
    let wrong_program = DepositReads { custody_token_program: Err(ProgramError::IncorrectProgramId), ..reads };
    assert_eq!(load_deposit(&accounts, &wrong_program), Err(ProgramError::IncorrectProgramId));

    let base_mint = key(5);
    let vault = vault_with(base_mint, 0);
    let vault_key = key(11);
    let base_deposit = DepositArgs { asset_mint: base_mint, amount: 123, min_shares_out: 0, access_proof: vec![] };
    let price = Ok(OraclePrice { value: 150_000_000, decimals: 8 });
    assert_eq!(
        resolve_base_atoms(&vault, &vault_key, &base_deposit, &key(3), &key(3), &[], Err(ProgramError::InvalidAccountData), price),
        Ok(123)
    );
    assert_eq!(
        resolve_base_atoms(&vault, &vault_key, &base_deposit, &key(3), &key(4), &[], Err(ProgramError::InvalidAccountData), price),
        Err(custom(RoshiError::InvalidTokenAccount))
    );

    let asset_mint = key(40);
    let (asset_key, bump) =
        Pubkey::find_program_address(&[b"asset", &vault_key, &asset_mint], &Pubkey::from(ID));
    let asset = Asset::new(vault_key, asset_mint, OracleConfig::default(), 6, true, false, 0, bump).unwrap();
    let extra = [view(asset_key.to_bytes(), false, false)];
    let asset_deposit = DepositArgs { asset_mint, amount: 1_000, min_shares_out: 0, access_proof: vec![] };
    assert_eq!(
        resolve_base_atoms(&vault, &vault_key, &asset_deposit, &key(3), &key(3), &extra, Ok(asset), price),
        Ok(1_500)
    );
    assert_eq!(
        resolve_base_atoms(&vault, &vault_key, &asset_deposit, &key(3), &key(3), &[], Ok(asset), price),
        Err(ProgramError::NotEnoughAccountKeys)
    );
    let elsewhere = [view(key(60), false, false)];
    assert_eq!(
        resolve_base_atoms(&vault, &vault_key, &asset_deposit, &key(3), &key(3), &elsewhere, Ok(asset), price),
        Err(custom(RoshiError::InvalidAssetAccount))
    );
    let mut disabled = asset;
    disabled.set_enabled(false);
    assert_eq!(
        resolve_base_atoms(&vault, &vault_key, &asset_deposit, &key(3), &key(3), &extra, Ok(disabled), price),
        Err(custom(RoshiError::InvalidAssetAccount))
    );
}

fn role_reads() -> VaultRoleReads {
    VaultRoleReads { vault: Ok(vault_with(key(5), 0)), role: Ok(()) }
}

#[test]
fn program_and_vault_admin_layouts() {
    let accounts = [view(key(1), true, true), view(key(2), false, true), view(SYSTEM, false, false)];
    assert_eq!(load_initialize_program(&accounts, Ok(252)), Ok(252));
    assert_eq!(
        load_initialize_program(&accounts[..2], Ok(252)),
        Err(ProgramError::NotEnoughAccountKeys)
    );
    assert_eq!(load_vault_update(&accounts[..2], &role_reads()), Ok(()));
    let readonly = [view(key(1), true, true), view(key(2), false, false)];
    assert_eq!(
        load_vault_update(&readonly, &role_reads()),
        Err(ProgramError::InvalidAccountData)
    );
    let not_admin = VaultRoleReads { role: Err(ProgramError::IllegalOwner), ..role_reads() };
    assert_eq!(load_vault_update(&accounts[..2], &not_admin), Err(ProgramError::IllegalOwner));
}

#[test]
fn asset_registration_and_update_sit_at_the_derived_address() {
    let vault_key = key(11);
    let asset_mint = key(40);
    let (asset_key, bump) =
        Pubkey::find_program_address(&[b"asset", &vault_key, &asset_mint], &Pubkey::from(ID));
    let accounts = [
        view(key(1), true, true),
        view(vault_key, false, false),
        view(asset_mint, false, false),
        view(asset_key.to_bytes(), false, true),
        view(SYSTEM, false, false),
    ];
    let args = InitializeAssetArgs {
        asset_mint,
        oracle: OracleConfig::default(),
        asset_decimals: 6,
        enabled: true,
        routed: false,
        deposit_cap_atoms: u64::MAX,
    };
    assert_eq!(load_initialize_asset(&accounts, &args, &role_reads(), Ok(())), Ok(bump));
    let base = InitializeAssetArgs { asset_mint: key(5), ..args.clone() };
    assert_eq!(
        load_initialize_asset(&accounts, &base, &role_reads(), Ok(())),
        Err(ProgramError::InvalidArgument)
    );
    let mut wrong_mint = accounts;
    wrong_mint[2].key = key(41);
    assert_eq!(
        load_initialize_asset(&wrong_mint, &args, &role_reads(), Ok(())),
        Err(custom(RoshiError::InvalidMintAccount))
    );
    let mut elsewhere = accounts;
    elsewhere[3].key = key(42);
    assert_eq!(
        load_initialize_asset(&elsewhere, &args, &role_reads(), Ok(())),
        Err(ProgramError::InvalidSeeds)
    );

    let asset = Asset::new(vault_key, asset_mint, OracleConfig::default(), 6, true, false, 0, bump).unwrap();
    let update = [view(key(1), true, false), view(vault_key, false, false), view(asset_key.to_bytes(), false, true)];
    assert_eq!(load_asset_update(&update, &role_reads(), Ok(asset)), Ok(asset));
    let mut stale = asset;
    stale.bump = bump.wrapping_add(1);
    assert_eq!(load_asset_update(&update, &role_reads(), Ok(stale)), Err(ProgramError::InvalidSeeds));
}

#[test]
fn external_destinations_are_registered_and_closed_at_their_record() {
    let accounts = [
        view(key(1), true, true),
        view(key(11), false, false),
        view(key(30), false, false),
        view(key(31), false, true),
        view(SYSTEM, false, false),
    ];
    assert_eq!(
        load_register_external_destination(&accounts, &role_reads(), Ok(()), (key(31), 247)),
        Ok(247)
    );
    assert_eq!(
        load_register_external_destination(&accounts, &role_reads(), Ok(()), (key(32), 247)),
        Err(ProgramError::InvalidSeeds)
    );
    assert_eq!(
        load_register_external_destination(&accounts, &role_reads(), Err(custom(RoshiError::InvalidTokenAccount)), (key(31), 247)),
        Err(custom(RoshiError::InvalidTokenAccount))
    );
    let close = [view(key(1), true, true), view(key(11), false, false), view(key(31), false, true)];
    assert_eq!(load_close_external_destination(&close, &role_reads(), Ok(247), (key(31), 247)), Ok(()));
    assert_eq!(
        load_close_external_destination(&close, &role_reads(), Ok(246), (key(31), 247)),
        Err(ProgramError::InvalidSeeds)
    );
}

fn manage_reads(vault: Vault, scope: ActionScope) -> ManageReads {
    ManageReads {
        vault: Ok(vault),
        sub_account: Ok(246),
        action_scope: Ok(scope),
        action_vault: Ok(()),
        strategist: Ok(()),
        swap_authority: Err(ProgramError::IllegalOwner),
    }
}

#[test]
fn manage_checks_the_executor_for_the_action_scope() {
    let accounts = [view(key(1), true, false), view(key(2), false, false), view(key(3), false, false), view(key(4), false, false)];
    assert_eq!(load_manage(&accounts), Ok(4));
    assert_eq!(load_manage(&accounts[..3]), Err(ProgramError::NotEnoughAccountKeys));
    assert_eq!(load_manage_batch(&accounts, 1), Ok(4));
    assert_eq!(load_manage_batch(&accounts, 2), Err(ProgramError::NotEnoughAccountKeys));
    assert_eq!(load_manage_batch(&accounts[..2], 0), Ok(2));

    let base_mint = key(2);
    let (vault_key, bump) =
        Pubkey::find_program_address(&[b"vault", b"test", &base_mint], &Pubkey::from(ID));
    let mut vault = vault_with(base_mint, 0);
    vault.bump = bump;
    let vault_key = vault_key.to_bytes();
    assert_eq!(validate_manage(&vault_key, &manage_reads(vault, ActionScope::Manager)), Ok(246));
    assert_eq!(
        validate_manage(&vault_key, &manage_reads(vault, ActionScope::Swap)),
        Err(ProgramError::IllegalOwner)
    );
    assert_eq!(
        validate_manage(&vault_key, &manage_reads(vault, ActionScope::AtomicRedeem)),
        Err(custom(RoshiError::UnauthorizedAction))
    );
    assert_eq!(
        validate_manage(&key(9), &manage_reads(vault, ActionScope::Manager)),
        Err(ProgramError::InvalidSeeds)
    );
    let mut paused = vault;
    paused.set_manage_paused(true);
    assert_eq!(
        validate_manage(&vault_key, &manage_reads(paused, ActionScope::Manager)),
        Err(custom(RoshiError::VaultPaused))
    );
}

#[test]
fn deposit_and_deploy_loads_the_deposit_then_the_deployment() {
    let mut accounts = vec![view(key(1), true, false)];
    for seed in 2..7 {
        accounts.push(view(key(seed), false, true));
    }
    accounts.push(view(TOKEN_PROGRAM_ID, false, false));
    accounts.push(view(key(8), false, false));
    accounts.push(view(key(9), false, false));
    accounts.push(view(key(10), false, false));
    let deposit = DepositReads {
        source_token_program: Ok(()),
        custody_token_program: Ok(()),
        vault: Ok(vault_with(key(5), 0)),
        share_mint: Ok(()),
    };
    let deploy = DeployReads {
        sub_account: Ok(245),
        custody: Ok(()),
        custody_account: Ok(()),
        action: Ok(()),
        action_vault: Ok(()),
    };
    assert_eq!(load_deposit_and_deploy(&accounts, &deposit, &deploy), Ok(245));
    assert_eq!(
        load_deposit_and_deploy(&accounts[..9], &deposit, &deploy),
        Err(ProgramError::NotEnoughAccountKeys)
    );
    assert_eq!(
        load_deposit_and_deploy(&accounts[..7], &deposit, &deploy),
        Err(ProgramError::NotEnoughAccountKeys)
    );
    let no_action = DeployReads { action: Err(ProgramError::InvalidAccountData), ..deploy };
    assert_eq!(
        load_deposit_and_deploy(&accounts, &deposit, &no_action),
        Err(ProgramError::InvalidAccountData)
    );
}

#[test]
fn deposit_oracle_reads_take_the_accounts_of_the_oracle_kind() {
    let pyth = OracleConfig::pyth(PythOracleConfig::new(key(41), 8, 30, 100));
    let asset = Asset::new(key(11), key(40), pyth, 6, true, false, 0, 1).unwrap();
    let extra = [view(key(1), false, false), view(key(2), false, false)];
    assert_eq!(deposit_oracle_accounts(&asset, &extra), Ok((1, 2)));
    assert_eq!(
        deposit_oracle_accounts(&asset, &extra[..1]),
        Err(ProgramError::NotEnoughAccountKeys)
    );
    let switchboard = Asset::new(key(11), key(40), OracleConfig::default(), 6, true, false, 0, 1).unwrap();
    assert_eq!(
        deposit_oracle_accounts(&switchboard, &extra),
        Err(ProgramError::NotEnoughAccountKeys)
    );
    let five = [view(key(1), false, false); 5];
    assert_eq!(deposit_oracle_accounts(&switchboard, &five), Ok((1, 5)));
}
