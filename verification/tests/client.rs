use roshi::action::AccountMeta;
use roshi::addresses::{find_share_mint_address, ID};
use roshi::client::{
    deposit_accounts, initialize_program_accounts, initialize_vault_accounts, instruction_data,
    manage_accounts, manage_batch_accounts, process_withdrawals_accounts, redeem_accounts,
    swap_accounts, vault_admin_accounts, ManageBatchActionAccounts, WithdrawalSettlement,
    TOKEN_PROGRAM_ID,
};

const SYSTEM: [u8; 32] = [0; 32];

fn key(seed: u8) -> [u8; 32] {
    [seed; 32]
}

#[test]
fn initialize_program_is_signed_by_the_program_key() {
    let accounts = initialize_program_accounts(&key(1), &key(2));
    assert_eq!(
        accounts,
        vec![
            AccountMeta::new(key(1), true),
            AccountMeta::new_readonly(ID, true),
            AccountMeta::new(key(2), false),
            AccountMeta::new_readonly(SYSTEM, false),
        ]
    );
}

#[test]
fn initialize_vault_derives_the_share_mint() {
    let accounts =
        initialize_vault_accounts(&key(1), &key(2), &key(3), &key(4), &key(5), &key(6)).unwrap();
    let (share_mint, _) = find_share_mint_address(&key(4));
    assert_eq!(accounts.len(), 9);
    assert_eq!(accounts[0], AccountMeta::new_readonly(key(1), true));
    assert_eq!(accounts[2], AccountMeta::new(key(3), true));
    assert_eq!(accounts[3], AccountMeta::new(key(4), false));
    assert_eq!(accounts[5], AccountMeta::new(share_mint, false));
    assert_eq!(accounts[7], AccountMeta::new_readonly(SYSTEM, false));
    assert_eq!(accounts[8], AccountMeta::new_readonly(TOKEN_PROGRAM_ID, false));
}

#[test]
fn manage_appends_cpi_accounts() {
    let cpi = [AccountMeta::new(key(9), false), AccountMeta::new_readonly(key(10), true)];
    let accounts = manage_accounts(&key(1), &key(2), &key(3), &key(4), &cpi);
    assert_eq!(
        accounts,
        vec![
            AccountMeta::new_readonly(key(1), true),
            AccountMeta::new_readonly(key(2), false),
            AccountMeta::new(key(3), false),
            AccountMeta::new_readonly(key(4), false),
            AccountMeta::new(key(9), false),
            AccountMeta::new_readonly(key(10), true),
        ]
    );
}

#[test]
fn manage_batch_interleaves_sub_accounts_and_actions() {
    let pairs = [
        ManageBatchActionAccounts {
            sub_account_pda: key(3),
            action: key(4),
        },
        ManageBatchActionAccounts {
            sub_account_pda: key(5),
            action: key(6),
        },
    ];
    let cpi = [AccountMeta::new(key(9), false)];
    let accounts = manage_batch_accounts(&key(1), &key(2), &pairs, &cpi);
    assert_eq!(
        accounts,
        vec![
            AccountMeta::new_readonly(key(1), true),
            AccountMeta::new_readonly(key(2), false),
            AccountMeta::new(key(3), false),
            AccountMeta::new_readonly(key(4), false),
            AccountMeta::new(key(5), false),
            AccountMeta::new_readonly(key(6), false),
            AccountMeta::new(key(9), false),
        ]
    );
}

#[test]
fn process_withdrawals_appends_writable_settlement_triples() {
    let settlements = [WithdrawalSettlement {
        ticket: key(7),
        owner: key(8),
        destination: key(9),
    }];
    let accounts =
        process_withdrawals_accounts(&key(1), &key(2), &key(3), &key(4), &key(5), &settlements);
    assert_eq!(accounts.len(), 9);
    assert_eq!(accounts[0], AccountMeta::new_readonly(key(1), true));
    assert_eq!(accounts[1], AccountMeta::new(key(2), false));
    assert_eq!(accounts[5], AccountMeta::new_readonly(TOKEN_PROGRAM_ID, false));
    assert_eq!(accounts[6], AccountMeta::new(key(7), false));
    assert_eq!(accounts[7], AccountMeta::new(key(8), false));
    assert_eq!(accounts[8], AccountMeta::new(key(9), false));
}

#[test]
fn swap_puts_valuation_before_cpi_accounts() {
    let valuation = [AccountMeta::new_readonly(key(20), false)];
    let cpi = [AccountMeta::new(key(21), false)];
    let accounts = swap_accounts(
        &key(1),
        &key(2),
        &key(3),
        &key(4),
        &key(5),
        &key(6),
        &valuation,
        &cpi,
    );
    assert_eq!(accounts.len(), 8);
    assert_eq!(accounts[3], AccountMeta::new(key(4), false));
    assert_eq!(accounts[6], AccountMeta::new_readonly(key(20), false));
    assert_eq!(accounts[7], AccountMeta::new(key(21), false));
}

#[test]
fn deposit_and_redeem_layouts() {
    let extra = [AccountMeta::new_readonly(key(30), false)];
    let accounts = deposit_accounts(&key(1), &key(2), &key(3), &key(4), &key(5), &key(6), &key(7), &extra);
    assert_eq!(accounts.len(), 9);
    assert_eq!(accounts[0], AccountMeta::new_readonly(key(1), true));
    assert_eq!(accounts[1], AccountMeta::new(key(2), false));
    assert_eq!(accounts[2], AccountMeta::new(key(3), false));
    assert_eq!(accounts[3], AccountMeta::new(key(4), false));
    assert_eq!(accounts[4], AccountMeta::new(key(5), false));
    assert_eq!(accounts[5], AccountMeta::new(key(6), false));
    assert_eq!(accounts[6], AccountMeta::new_readonly(TOKEN_PROGRAM_ID, false));
    assert_eq!(accounts[7], AccountMeta::new_readonly(key(7), false));
    assert_eq!(accounts[8], AccountMeta::new_readonly(key(30), false));
    let accounts = redeem_accounts(&key(1), &key(2), &key(3), &key(4), &key(5), &key(6));
    assert_eq!(accounts.len(), 8);
    assert_eq!(accounts[0], AccountMeta::new(key(1), true));
    assert_eq!(accounts[4], AccountMeta::new_readonly(key(5), false));
    assert_eq!(accounts[5], AccountMeta::new(key(6), false));
    assert_eq!(accounts[6], AccountMeta::new_readonly(SYSTEM, false));
    let accounts = vault_admin_accounts(&key(1), &key(2));
    assert_eq!(
        accounts,
        vec![
            AccountMeta::new_readonly(key(1), true),
            AccountMeta::new(key(2), false),
        ]
    );
}

#[test]
fn instruction_data_is_tag_then_payload() {
    assert_eq!(instruction_data(7, &[1, 2, 3]), vec![7, 1, 2, 3]);
    assert_eq!(instruction_data(10, &[]), vec![10]);
}
