use roshi::instructions::{
    split_instruction, tags, AccountFlags, AtomicRedeemArgs, AuthorizeActionArgs, CancelRedeemArgs,
    CollectFeesArgs, DepositArgs, InitializeAssetArgs, InitializeProgramArgs, InitializeVaultArgs,
    InstructionArgs, InvestExternalArgs, ManageArgs, ManageBatchArgs, ProcessWithdrawalsArgs,
    RedeemArgs, ReportNavArgs, ReturnExternalArgs, RevokeActionArgs, RoshiInstruction,
    SetNavAuthorityArgs, SetPauseFlagsArgs, SetStrategistArgs, SetSwapAuthorityArgs,
    SetVaultAccessArgs, SetWithdrawalAuthorityArgs, SwapArgs, TransferProgramAuthorityArgs,
    TransferVaultAuthorityArgs, UpdateAssetArgs, UpdateVaultConfigArgs,
};

const TAG_CASES: &[u8] = &[
    InitializeProgramArgs::TAG,
    InitializeVaultArgs::TAG,
    AuthorizeActionArgs::TAG,
    RevokeActionArgs::TAG,
    ManageArgs::TAG,
    ManageBatchArgs::TAG,
    ReportNavArgs::TAG,
    DepositArgs::TAG,
    RedeemArgs::TAG,
    CancelRedeemArgs::TAG,
    ProcessWithdrawalsArgs::TAG,
    UpdateVaultConfigArgs::TAG,
    InitializeAssetArgs::TAG,
    UpdateAssetArgs::TAG,
    SetPauseFlagsArgs::TAG,
    SetVaultAccessArgs::TAG,
    TransferProgramAuthorityArgs::TAG,
    TransferVaultAuthorityArgs::TAG,
    SetStrategistArgs::TAG,
    SetNavAuthorityArgs::TAG,
    SetWithdrawalAuthorityArgs::TAG,
    CollectFeesArgs::TAG,
    InvestExternalArgs::TAG,
    ReturnExternalArgs::TAG,
    SetSwapAuthorityArgs::TAG,
    AtomicRedeemArgs::TAG,
    SwapArgs::TAG,
];

#[test]
fn instruction_args_tags_match_canonical_tags() {
    assert_eq!(
        TAG_CASES,
        &[
            0, 1, 2, 3, 4, 5, 6, 7, 8, 9, 10, 11, 12, 13, 14, 15, 16, 17, 18, 19, 20, 21, 22, 23,
            24, 25, 26
        ]
    );
    assert_eq!(
        RoshiInstruction::ProcessWithdrawals.tag(),
        <ProcessWithdrawalsArgs as InstructionArgs>::TAG
    );
}

#[test]
fn instruction_decode_rejects_unknown_values() {
    assert!(split_instruction(&[255]).is_err());
}

#[test]
fn split_instruction_returns_tag_and_payload() {
    assert_eq!(split_instruction(&[]), Err(()));
    assert_eq!(split_instruction(&[27, 1]), Err(()));
    let (tag, payload) = split_instruction(&[tags::SWAP, 9, 8]).unwrap();
    assert_eq!(tag, 26);
    assert_eq!(payload, &[9, 8]);
    let (tag, payload) = split_instruction(&[tags::PROCESS_WITHDRAWALS]).unwrap();
    assert_eq!(tag, 10);
    assert!(payload.is_empty());
}

#[test]
fn each_variant_carries_its_args_tag() {
    let deposit = RoshiInstruction::Deposit(DepositArgs {
        asset_mint: [4; 32],
        amount: 123,
        min_shares_out: 456,
        access_proof: vec![[1; 32]],
    });
    assert_eq!(deposit.tag(), DepositArgs::TAG);
    let manage = RoshiInstruction::Manage(ManageArgs {
        sub_account: 0,
        program_id: [1; 32],
        accounts_start: 0,
        accounts_len: 1,
        account_flags: vec![AccountFlags {
            is_signer: false,
            is_writable: true,
        }],
        ix_data: vec![1, 2],
    });
    assert_eq!(manage.tag(), ManageArgs::TAG);
    let swap = RoshiInstruction::SetSwapAuthority(SetSwapAuthorityArgs {
        swap_authority: [3; 32],
    });
    assert_eq!(swap.tag(), tags::SET_SWAP_AUTHORITY);
    let pause = RoshiInstruction::SetPauseFlags(SetPauseFlagsArgs {
        deposits_paused: true,
        withdrawals_paused: false,
        manage_paused: false,
    });
    assert_eq!(pause.tag(), 14);
}
