use roshi::access::{access_merkle_leaf, access_merkle_node};
use roshi::error::{ProgramError, RoshiError};
use roshi::oracle::OracleConfig;
use roshi::state::vault::{Role, Vault, VaultControls};

fn new_test_vault(private: bool, access_merkle_root: [u8; 32]) -> Vault {
    Vault::new(
        b"test",
        [1; 32],
        [2; 32],
        [4; 32],
        [5; 32],
        [3; 32],
        [6; 32],
        6,
        OracleConfig::default(),
        7,
        8,
        [9; 32],
        100,
        250,
        VaultControls::default(),
        private,
        access_merkle_root,
        254,
    )
    .unwrap()
}

fn drip_vault(total: u64, locked: u64, start: i64, end: i64) -> Vault {
    let mut vault = new_test_vault(false, [0; 32]);
    vault.total_assets = total;
    vault.locked_profit = locked;
    vault.profit_unlock_start_ts = start;
    vault.profit_unlock_end_ts = end;
    vault
}

#[test]
fn new_initializes_default_accounting_and_config() {
    let vault = new_test_vault(true, [10; 32]);

    assert_eq!(vault.tag_seed().unwrap(), b"test");
    assert_eq!(vault.strategist, [2; 32]);
    assert_eq!(vault.nav_authority, [4; 32]);
    assert_eq!(vault.withdrawal_authority, [5; 32]);
    assert_eq!(vault.base_decimals, 6);
    assert_eq!(vault.deposit_sub_account, 7);
    assert_eq!(vault.withdraw_sub_account, 8);
    assert_eq!(vault.treasury, [9; 32]);
    assert_eq!(vault.total_assets, 0);
    assert_eq!(vault.external_assets, 0);
    assert_eq!(vault.pending_withdrawal_assets, 0);
    assert_eq!(vault.fees_payable, 0);
    assert_eq!(vault.high_watermark, 0);
    assert_eq!(vault.report_epoch, 0);
    assert_eq!(vault.requested_withdrawal_shares, 0);
    assert_eq!(vault.locked_profit, 0);
    assert_eq!(vault.profit_unlock_start_ts, 0);
    assert_eq!(vault.profit_unlock_end_ts, 0);
    assert_eq!(vault.performance_fee_bps, 100);
    assert_eq!(vault.withdrawal_buffer_bps, 250);
    assert_eq!(vault.controls, VaultControls::default());
    assert_eq!(vault.last_update_ts, 0);
    assert_eq!(vault.deposits_paused(), Ok(false));
    assert_eq!(vault.withdrawals_paused(), Ok(false));
    assert_eq!(vault.manage_paused(), Ok(false));
    assert_eq!(vault.private(), Ok(true));
    assert_eq!(vault.external_enabled(), Ok(false));
    assert_eq!(vault.access_merkle_root, [10; 32]);
}

#[test]
fn vault_controls_reject_invalid_percentage_bps() {
    assert!(VaultControls::new(0, 0, 0, 0, 0, 10_001, 0)
        .validate()
        .is_err());
    assert!(VaultControls::new(0, 0, 0, 0, 0, 0, 10_001)
        .validate()
        .is_err());
    assert!(VaultControls::new(0, 0, 0, 0, 60_000, 10_000, 10_000)
        .validate()
        .is_ok());
}

#[test]
fn remaining_locked_profit_interpolates_linearly() {
    let vault = drip_vault(2_000, 1_000, 0, 100);

    assert_eq!(vault.remaining_locked_profit(-5), Ok(1_000));
    assert_eq!(vault.remaining_locked_profit(0), Ok(1_000));
    assert_eq!(vault.remaining_locked_profit(25), Ok(750));
    assert_eq!(vault.remaining_locked_profit(50), Ok(500));
    assert_eq!(vault.remaining_locked_profit(99), Ok(10));
    assert_eq!(vault.remaining_locked_profit(100), Ok(0));
    assert_eq!(vault.remaining_locked_profit(1_000), Ok(0));

    assert_eq!(vault.effective_total_assets(50), Ok(1_500));
    assert_eq!(vault.effective_total_assets(100), Ok(2_000));
}

#[test]
fn debit_at_effective_re_anchors_without_moving_the_unlock_line() {
    let mut vault = drip_vault(2_000, 1_000, 0, 100);
    let expected_remaining_at_70 = vault.remaining_locked_profit(70).unwrap();

    vault.debit_assets_at_effective(1_400, 40).unwrap();

    assert_eq!(vault.total_assets, 600);
    assert_eq!(vault.locked_profit, 600);
    assert_eq!(vault.profit_unlock_start_ts, 40);
    assert_eq!(vault.profit_unlock_end_ts, 100);
    assert_eq!(
        vault.remaining_locked_profit(70),
        Ok(expected_remaining_at_70)
    );
    assert!(vault.validate_state().is_ok());
}

#[test]
fn debit_at_effective_rejects_amounts_above_effective() {
    let mut vault = drip_vault(2_000, 1_000, 0, 100);
    let before = vault;

    assert_eq!(
        vault.debit_assets_at_effective(1_401, 40),
        Err(ProgramError::from(RoshiError::InvalidVaultState))
    );
    assert_eq!(vault, before);
}

#[test]
fn apply_reported_nav_locks_gains_over_the_elapsed_window() {
    let mut vault = new_test_vault(false, [0; 32]);
    vault.controls = VaultControls::new(1_000, 0, 0, 0, 0, 0, 0);
    vault.total_assets = 1_000;
    vault.last_update_ts = 100;

    vault.apply_reported_nav(1_600, 400).unwrap();

    assert_eq!(vault.total_assets, 1_600);
    assert_eq!(vault.locked_profit, 600);
    assert_eq!(vault.profit_unlock_start_ts, 400);
    assert_eq!(vault.profit_unlock_end_ts, 700);
    assert_eq!(vault.effective_total_assets(400), Ok(1_000));
}

#[test]
fn apply_reported_nav_clamps_the_window() {
    let mut vault = new_test_vault(false, [0; 32]);
    vault.controls = VaultControls::new(1_000, 0, 0, 0, 0, 0, 0);
    vault.total_assets = 1_000;
    vault.last_update_ts = 0;

    vault.apply_reported_nav(1_600, 5_000).unwrap();

    assert_eq!(vault.profit_unlock_start_ts, 5_000);
    assert_eq!(vault.profit_unlock_end_ts, 6_000);
}

#[test]
fn apply_reported_nav_rolls_unfinished_drip_forward() {
    let mut vault = drip_vault(1_600, 600, 400, 700);
    vault.controls = VaultControls::new(1_000, 0, 0, 0, 0, 0, 0);
    vault.last_update_ts = 400;

    vault.apply_reported_nav(1_700, 550).unwrap();

    assert_eq!(vault.total_assets, 1_700);
    assert_eq!(vault.locked_profit, 400);
    assert_eq!(vault.profit_unlock_start_ts, 550);
    assert_eq!(vault.profit_unlock_end_ts, 700);
    assert_eq!(vault.effective_total_assets(550), Ok(1_300));
}

#[test]
fn apply_reported_nav_applies_losses_instantly() {
    let mut vault = drip_vault(1_600, 600, 400, 700);
    vault.controls = VaultControls::new(1_000, 0, 0, 0, 0, 0, 0);
    vault.last_update_ts = 400;

    vault.apply_reported_nav(1_200, 550).unwrap();

    assert_eq!(vault.total_assets, 1_200);
    assert_eq!(vault.locked_profit, 0);
    assert_eq!(vault.effective_total_assets(550), Ok(1_200));
}

#[test]
fn apply_reported_nav_with_unlock_disabled_recognizes_gains_instantly() {
    let mut vault = new_test_vault(false, [0; 32]);
    vault.total_assets = 1_000;
    vault.last_update_ts = 100;

    vault.apply_reported_nav(1_600, 400).unwrap();

    assert_eq!(vault.locked_profit, 0);
    assert_eq!(vault.effective_total_assets(400), Ok(1_600));
}

#[test]
fn verify_report_fresh_gates_only_configured_post_first_report_vaults() {
    let mut vault = new_test_vault(false, [0; 32]);
    vault.last_update_ts = 0;

    assert!(vault.verify_report_fresh(i64::MAX).is_ok());

    vault.controls = VaultControls::new(0, 100, 0, 0, 0, 0, 0);
    assert!(vault.verify_report_fresh(1_000).is_ok());

    vault.report_epoch = 1;
    assert!(vault.verify_report_fresh(100).is_ok());
    assert_eq!(
        vault.verify_report_fresh(101),
        Err(ProgramError::from(RoshiError::StaleNavReport))
    );
}

#[test]
fn verify_report_interval_rejects_rapid_reports() {
    let mut vault = new_test_vault(false, [0; 32]);
    vault.controls = VaultControls::new(0, 0, 60, 0, 0, 0, 0);
    vault.last_update_ts = 1_000;

    assert!(vault.verify_report_interval(1_001).is_ok());

    vault.report_epoch = 1;
    assert_eq!(
        vault.verify_report_interval(1_059),
        Err(ProgramError::from(RoshiError::ReportTooFrequent))
    );
    assert!(vault.verify_report_interval(1_060).is_ok());
}

#[test]
fn verify_nav_gain_bound_caps_upward_price_moves_only() {
    let mut vault = new_test_vault(false, [0; 32]);
    vault.controls = VaultControls::new(0, 0, 0, 0, 1_000, 0, 0);
    vault.total_assets = 1_000;
    let supply = 1_000_000_000;

    assert!(vault.verify_nav_gain_bound(1_100, supply).is_ok());
    assert_eq!(
        vault.verify_nav_gain_bound(1_101, supply),
        Err(ProgramError::from(RoshiError::NavGainExceedsBound))
    );
    assert!(vault.verify_nav_gain_bound(0, supply).is_ok());
    assert!(vault.verify_nav_gain_bound(u64::MAX, 0).is_ok());
    vault.total_assets = 0;
    assert!(vault.verify_nav_gain_bound(u64::MAX, supply).is_ok());
    vault.total_assets = 1_000;
    vault.controls = VaultControls::default();
    assert!(vault.verify_nav_gain_bound(u64::MAX, supply).is_ok());
}

#[test]
fn validate_state_rejects_locked_profit_above_total_assets() {
    let mut vault = new_test_vault(false, [0; 32]);
    vault.total_assets = 100;
    vault.locked_profit = 101;

    assert_eq!(
        vault.validate_state(),
        Err(ProgramError::from(RoshiError::InvalidVaultState))
    );
}

#[test]
fn validate_state_rejects_inverted_unlock_window() {
    let mut vault = new_test_vault(false, [0; 32]);
    vault.profit_unlock_start_ts = 10;
    vault.profit_unlock_end_ts = 9;

    assert_eq!(
        vault.validate_state(),
        Err(ProgramError::from(RoshiError::InvalidVaultState))
    );
}

#[test]
fn pause_and_access_flags_use_typed_accessors() {
    let mut vault = new_test_vault(false, [0; 32]);

    assert_eq!(vault.deposits_paused(), Ok(false));
    assert_eq!(vault.withdrawals_paused(), Ok(false));
    assert_eq!(vault.manage_paused(), Ok(false));
    assert_eq!(vault.private(), Ok(false));
    assert_eq!(vault.external_enabled(), Ok(false));

    vault.set_deposits_paused(true);
    vault.set_withdrawals_paused(true);
    vault.set_manage_paused(true);
    vault.set_private(true);
    vault.set_external_enabled(true);

    assert_eq!(vault.deposits_paused(), Ok(true));
    assert_eq!(vault.withdrawals_paused(), Ok(true));
    assert_eq!(vault.manage_paused(), Ok(true));
    assert_eq!(vault.private(), Ok(true));
    assert_eq!(vault.external_enabled(), Ok(true));
}

#[test]
fn verify_manage_enabled_rejects_paused_vault() {
    let mut vault = new_test_vault(false, [0; 32]);

    vault.set_manage_paused(true);

    assert_eq!(
        vault.verify_manage_enabled(),
        Err(ProgramError::from(RoshiError::VaultPaused))
    );
}

#[test]
fn unpack_tag_rejects_invalid_tags() {
    let (tag, _) = Vault::pack_tag(b"test").unwrap();

    assert!(matches!(
        Vault::unpack_tag(&tag, 0),
        Err(error) if error == ProgramError::from(RoshiError::InvalidVaultTag)
    ));
    assert!(matches!(
        Vault::unpack_tag(&tag, 33),
        Err(error) if error == ProgramError::from(RoshiError::InvalidVaultTag)
    ));
}

#[test]
fn validate_config_rejects_invalid_bps() {
    assert!(matches!(
        Vault::validate_config([1; 32], [2; 32], 6, 10_001, 0),
        Err(error) if error == ProgramError::from(RoshiError::InvalidBps)
    ));
}

#[test]
fn validate_config_rejects_matching_base_and_share_mints() {
    assert!(matches!(
        Vault::validate_config([1; 32], [1; 32], 6, 0, 0),
        Err(ProgramError::InvalidArgument)
    ));
}

#[test]
fn validate_config_rejects_base_decimals_above_share_decimals() {
    assert!(Vault::validate_config([1; 32], [2; 32], 9, 0, 0).is_ok());
    assert!(matches!(
        Vault::validate_config([1; 32], [2; 32], 10, 0, 0),
        Err(error) if error == ProgramError::from(RoshiError::InvalidDecimals)
    ));
}

#[test]
fn public_vault_allows_any_depositor_without_proof() {
    let vault = new_test_vault(false, [0; 32]);

    assert!(vault.allows_depositor(&[21; 32], &[]));
    assert!(vault.allows_depositor(&[22; 32], &[[7; 32]]));
}

#[test]
fn private_vault_accepts_valid_access_proof() {
    let allowed = [23; 32];
    let sibling = access_merkle_leaf(&[24; 32]);
    let root = access_merkle_node(&access_merkle_leaf(&allowed), &sibling);
    let vault = new_test_vault(true, root);

    assert!(vault.allows_depositor(&allowed, &[sibling]));
}

#[test]
fn private_vault_rejects_missing_or_wrong_access_proof() {
    let allowed = [25; 32];
    let sibling = access_merkle_leaf(&[26; 32]);
    let root = access_merkle_node(&access_merkle_leaf(&allowed), &sibling);
    let vault = new_test_vault(true, root);

    assert!(!vault.allows_depositor(&allowed, &[]));
    assert!(!vault.allows_depositor(&[27; 32], &[sibling]));
    assert!(!vault.allows_depositor(&allowed, &[[9; 32]]));
}

#[test]
fn corrupt_private_flag_admits_nobody() {
    let mut vault = new_test_vault(false, [0; 32]);
    vault.private_flag = 2;
    assert!(!vault.allows_depositor(&[21; 32], &[]));
    assert_eq!(
        vault.validate_state(),
        Err(ProgramError::from(RoshiError::InvalidVaultState))
    );
}

#[test]
fn new_rejects_bad_tags_and_invalid_oracles() {
    let result = Vault::new(
        b"",
        [1; 32], [2; 32], [4; 32], [5; 32], [3; 32], [6; 32], 6,
        OracleConfig::default(), 7, 8, [9; 32], 100, 250,
        VaultControls::default(), false, [0; 32], 1,
    );
    assert_eq!(result, Err(ProgramError::from(RoshiError::InvalidVaultTag)));
    let oracle = OracleConfig::from_raw_parts([0; 192], 9, [0; 7]);
    let result = Vault::new(
        b"tag",
        [1; 32], [2; 32], [4; 32], [5; 32], [3; 32], [6; 32], 6,
        oracle, 7, 8, [9; 32], 100, 250,
        VaultControls::default(), false, [0; 32], 1,
    );
    assert_eq!(result, Err(ProgramError::from(RoshiError::InvalidVaultState)));
}

#[test]
fn roles_resolve_to_their_authorities() {
    let vault = new_test_vault(false, [0; 32]);
    assert_eq!(vault.authority_for_role(Role::Admin), [1; 32]);
    assert_eq!(vault.authority_for_role(Role::Strategist), [2; 32]);
    assert!(vault.has_role(Role::NavAuthority, &[4; 32]));
    assert!(!vault.has_role(Role::WithdrawalAuthority, &[4; 32]));
}

#[test]
fn idle_sub_account_and_supply_checks() {
    let mut vault = new_test_vault(false, [0; 32]);
    assert!(vault.verify_idle_sub_account(7).is_ok());
    assert!(vault.verify_idle_sub_account(8).is_ok());
    assert_eq!(
        vault.verify_idle_sub_account(9),
        Err(ProgramError::from(RoshiError::InvalidSubAccount))
    );
    vault.requested_withdrawal_shares = 5;
    assert_eq!(vault.economic_share_supply(10), Ok(15));
    assert_eq!(
        vault.economic_share_supply(u64::MAX),
        Err(ProgramError::from(RoshiError::Overflow))
    );
}

#[test]
fn debit_then_unlock_line_moves_by_at_most_one_atom() {
    let mut vault = drip_vault(10_000, 7_777, 0, 333);
    let before = vault.remaining_locked_profit(200).unwrap();
    vault.debit_assets_at_effective(1_234, 101).unwrap();
    let after = vault.remaining_locked_profit(200).unwrap();
    assert!(after <= before && before - after <= 1);
    assert_eq!(vault.total_assets, 10_000 - 1_234);
    assert!(vault.validate_state().is_ok());
}

#[test]
fn remaining_locked_profit_overflowing_window_is_reported() {
    let vault = drip_vault(u64::MAX, 1, i64::MIN, i64::MAX);
    assert_eq!(
        vault.remaining_locked_profit(0),
        Err(ProgramError::from(RoshiError::Overflow))
    );
}
