use roshi::accounts::{
    close_account_refund, next_account, pda_funding, require_system_program,
    require_uninitialized_account, require_writable, require_writable_signer,
    settlement_ticket_count, store_account_data, verify_derived_address, verify_new_asset_mint,
    verify_program_authority, verify_ticket_holder, verify_ticket_not_repeated,
    verify_ticket_settlement, AccountView, PdaFunding,
};
use roshi::error::{ProgramError, RoshiError};
use roshi::state::{account_payload, ASSET_ACCOUNT_TAG, VAULT_ACCOUNT_TAG};

fn account(is_signer: bool, is_writable: bool) -> AccountView {
    AccountView {
        key: [7; 32],
        owner: [0; 32],
        lamports: 0,
        data_len: 0,
        is_signer,
        is_writable,
    }
}

#[test]
fn next_account_reports_missing_accounts() {
    let accounts = [account(true, false), account(false, true)];
    assert_eq!(next_account(&accounts, 1), Ok(&accounts[1]));
    assert_eq!(
        next_account(&accounts, 2),
        Err(ProgramError::NotEnoughAccountKeys)
    );
}

#[test]
fn signer_and_writable_checks_report_the_first_failure() {
    assert_eq!(require_writable_signer(&account(true, true)), Ok(()));
    assert_eq!(
        require_writable_signer(&account(false, false)),
        Err(ProgramError::MissingRequiredSignature)
    );
    assert_eq!(
        require_writable_signer(&account(true, false)),
        Err(ProgramError::InvalidAccountData)
    );
    assert_eq!(
        require_writable(&account(false, false)),
        Err(ProgramError::InvalidAccountData)
    );
}

#[test]
fn prefunded_addresses_count_as_uninitialized() {
    let mut prefunded = account(false, true);
    prefunded.lamports = 5_000;
    assert_eq!(require_uninitialized_account(&prefunded), Ok(()));
    let mut with_data = prefunded;
    with_data.data_len = 1;
    assert_eq!(
        require_uninitialized_account(&with_data),
        Err(ProgramError::AccountAlreadyInitialized)
    );
    let mut program_owned = prefunded;
    program_owned.owner = [1; 32];
    assert_eq!(
        require_uninitialized_account(&program_owned),
        Err(ProgramError::AccountAlreadyInitialized)
    );
}

#[test]
fn system_program_is_the_zero_address() {
    let mut system = account(false, false);
    system.key = [0; 32];
    assert_eq!(require_system_program(&system), Ok(()));
    assert_eq!(
        require_system_program(&account(false, false)),
        Err(ProgramError::IncorrectProgramId)
    );
}

#[test]
fn closing_moves_lamports_without_overflow() {
    assert_eq!(close_account_refund(10, 5), Ok(15));
    assert_eq!(
        close_account_refund(1, u64::MAX),
        Err(ProgramError::ArithmeticOverflow)
    );
}

#[test]
fn pda_funding_absorbs_prefunds() {
    assert_eq!(pda_funding(0, 1_000), PdaFunding::Create { lamports: 1_000 });
    assert_eq!(pda_funding(400, 1_000), PdaFunding::Prefunded { shortfall: 600 });
    assert_eq!(pda_funding(2_000, 1_000), PdaFunding::Prefunded { shortfall: 0 });
}

#[test]
fn stored_state_must_fit_the_account() {
    let mut data = vec![9u8; 4];
    assert_eq!(store_account_data(&mut data, &[1, 2]), Ok(()));
    assert_eq!(data, vec![1, 2, 9, 9]);
    assert_eq!(
        store_account_data(&mut data, &[1, 2, 3, 4, 5]),
        Err(ProgramError::InvalidAccountData)
    );
    assert_eq!(data, vec![1, 2, 9, 9]);
}

#[test]
fn program_authority_must_match_then_sign() {
    let mut authority = account(true, false);
    assert_eq!(verify_program_authority(&authority, &[7; 32]), Ok(()));
    assert_eq!(
        verify_program_authority(&authority, &[8; 32]),
        Err(ProgramError::IllegalOwner)
    );
    authority.is_signer = false;
    assert_eq!(
        verify_program_authority(&authority, &[7; 32]),
        Err(ProgramError::MissingRequiredSignature)
    );
}

#[test]
fn new_assets_cannot_be_the_base_mint() {
    assert_eq!(verify_new_asset_mint(&[1; 32], &[2; 32], &[1; 32]), Ok(()));
    assert_eq!(
        verify_new_asset_mint(&[2; 32], &[2; 32], &[2; 32]),
        Err(ProgramError::InvalidArgument)
    );
    assert_eq!(
        verify_new_asset_mint(&[1; 32], &[2; 32], &[3; 32]),
        Err(ProgramError::from(RoshiError::InvalidMintAccount))
    );
}

#[test]
fn settlements_come_in_triples() {
    assert_eq!(settlement_ticket_count(6), Ok(2));
    assert_eq!(
        settlement_ticket_count(0),
        Err(ProgramError::NotEnoughAccountKeys)
    );
    assert_eq!(
        settlement_ticket_count(4),
        Err(ProgramError::NotEnoughAccountKeys)
    );
}

#[test]
fn tickets_settle_only_to_what_they_record() {
    let ok = verify_ticket_settlement(&[1; 32], &[2; 32], &[3; 32], &[1; 32], &[2; 32], &[3; 32], 5);
    assert_eq!(ok, Ok(()));
    let bad = Err(ProgramError::from(RoshiError::InvalidWithdrawalTicketAccount));
    assert_eq!(
        verify_ticket_settlement(&[1; 32], &[2; 32], &[3; 32], &[9; 32], &[2; 32], &[3; 32], 5),
        bad
    );
    assert_eq!(
        verify_ticket_settlement(&[1; 32], &[2; 32], &[3; 32], &[1; 32], &[2; 32], &[4; 32], 5),
        bad
    );
    assert_eq!(
        verify_ticket_settlement(&[1; 32], &[2; 32], &[3; 32], &[1; 32], &[2; 32], &[3; 32], 0),
        bad
    );
    assert_eq!(verify_ticket_holder(&[1; 32], &[2; 32], &[1; 32], &[2; 32]), Ok(()));
    assert_eq!(
        verify_ticket_holder(&[1; 32], &[2; 32], &[1; 32], &[3; 32]),
        bad
    );
    assert_eq!(verify_ticket_not_repeated(&[[4; 32], [5; 32]], &[6; 32]), Ok(()));
    assert_eq!(verify_ticket_not_repeated(&[[4; 32], [5; 32]], &[5; 32]), bad);
    assert_eq!(verify_derived_address(&[1; 32], 254, &[1; 32], 254), Ok(()));
    assert_eq!(
        verify_derived_address(&[1; 32], 253, &[1; 32], 254),
        Err(ProgramError::InvalidSeeds)
    );
}

#[test]
fn account_payload_checks_the_tag_byte() {
    assert_eq!(
        account_payload(&[VAULT_ACCOUNT_TAG, 5, 6], VAULT_ACCOUNT_TAG, RoshiError::InvalidVaultAccount),
        Ok(&[5u8, 6][..])
    );
    assert_eq!(
        account_payload(&[ASSET_ACCOUNT_TAG + 1], ASSET_ACCOUNT_TAG, RoshiError::InvalidAssetAccount),
        Err(ProgramError::from(RoshiError::InvalidAssetAccount))
    );
    assert_eq!(
        account_payload(&[], VAULT_ACCOUNT_TAG, RoshiError::InvalidVaultAccount),
        Err(ProgramError::from(RoshiError::InvalidVaultAccount))
    );
}
