//! Instruction wire types: argument layouts, tags and packed account flags.

pub mod account_flags;
pub mod args;
pub mod tags;

use vstd::prelude::*;

pub use args::{
    InitializeProgramArgs,
    InitializeVaultArgs,
    AuthorizeActionArgs,
    RevokeActionArgs,
    ManageArgs,
    AtomicRedeemArgs,
    SwapArgs,
    ManageBatchArgs,
    DepositArgs,
    RedeemArgs,
    CancelRedeemArgs,
    ProcessWithdrawalsArgs,
    InvestExternalArgs,
    ReturnExternalArgs,
    CollectFeesArgs,
    ReportNavArgs,
    UpdateVaultConfigArgs,
    InitializeAssetArgs,
    UpdateAssetArgs,
    SetPauseFlagsArgs,
    SetVaultAccessArgs,
    TransferProgramAuthorityArgs,
    TransferVaultAuthorityArgs,
    SetStrategistArgs,
    SetSwapAuthorityArgs,
    SetNavAuthorityArgs,
    SetWithdrawalAuthorityArgs,
    SetShareMetadataArgs,
    WriteDownFeesArgs,
    AssertDelegateClearedArgs,
    AdminSetFlashFeeRateArgs,
    StrategistLowerFlashFeeRateArgs,
    RegisterExternalDestinationArgs,
    RevokeExternalDestinationArgs,
    AccountFlags,
};

verus! {

/// An instruction argument payload and the tag that announces it.
pub trait InstructionArgs {
    const TAG: u8;
}

impl InstructionArgs for InitializeProgramArgs {
    const TAG: u8 = tags::INITIALIZE_PROGRAM;
}

impl InstructionArgs for InitializeVaultArgs {
    const TAG: u8 = tags::INITIALIZE_VAULT;
}

impl InstructionArgs for AuthorizeActionArgs {
    const TAG: u8 = tags::AUTHORIZE_ACTION;
}

impl InstructionArgs for RevokeActionArgs {
    const TAG: u8 = tags::REVOKE_ACTION;
}

impl InstructionArgs for ManageArgs {
    const TAG: u8 = tags::MANAGE;
}

impl InstructionArgs for ManageBatchArgs {
    const TAG: u8 = tags::MANAGE_BATCH;
}

impl InstructionArgs for ReportNavArgs {
    const TAG: u8 = tags::REPORT_NAV;
}

impl InstructionArgs for DepositArgs {
    const TAG: u8 = tags::DEPOSIT;
}

impl InstructionArgs for RedeemArgs {
    const TAG: u8 = tags::REDEEM;
}

impl InstructionArgs for CancelRedeemArgs {
    const TAG: u8 = tags::CANCEL_REDEEM;
}

impl InstructionArgs for ProcessWithdrawalsArgs {
    const TAG: u8 = tags::PROCESS_WITHDRAWALS;
}

impl InstructionArgs for UpdateVaultConfigArgs {
    const TAG: u8 = tags::UPDATE_VAULT_CONFIG;
}

impl InstructionArgs for InitializeAssetArgs {
    const TAG: u8 = tags::INITIALIZE_ASSET;
}

impl InstructionArgs for UpdateAssetArgs {
    const TAG: u8 = tags::UPDATE_ASSET;
}

impl InstructionArgs for SetPauseFlagsArgs {
    const TAG: u8 = tags::SET_PAUSE_FLAGS;
}

impl InstructionArgs for SetVaultAccessArgs {
    const TAG: u8 = tags::SET_VAULT_ACCESS;
}

impl InstructionArgs for TransferProgramAuthorityArgs {
    const TAG: u8 = tags::TRANSFER_PROGRAM_AUTHORITY;
}

impl InstructionArgs for TransferVaultAuthorityArgs {
    const TAG: u8 = tags::TRANSFER_VAULT_AUTHORITY;
}

impl InstructionArgs for SetStrategistArgs {
    const TAG: u8 = tags::SET_STRATEGIST;
}

impl InstructionArgs for SetNavAuthorityArgs {
    const TAG: u8 = tags::SET_NAV_AUTHORITY;
}

impl InstructionArgs for SetWithdrawalAuthorityArgs {
    const TAG: u8 = tags::SET_WITHDRAWAL_AUTHORITY;
}

impl InstructionArgs for CollectFeesArgs {
    const TAG: u8 = tags::COLLECT_FEES;
}

impl InstructionArgs for InvestExternalArgs {
    const TAG: u8 = tags::INVEST_EXTERNAL;
}

impl InstructionArgs for ReturnExternalArgs {
    const TAG: u8 = tags::RETURN_EXTERNAL;
}

impl InstructionArgs for SetSwapAuthorityArgs {
    const TAG: u8 = tags::SET_SWAP_AUTHORITY;
}

impl InstructionArgs for AtomicRedeemArgs {
    const TAG: u8 = tags::ATOMIC_REDEEM;
}

impl InstructionArgs for SwapArgs {
    const TAG: u8 = tags::SWAP;
}

/// Every instruction of the program, with its argument payload.
#[derive(Clone, Debug, PartialEq, Eq)]
pub enum RoshiInstruction {
    InitializeProgram(InitializeProgramArgs),
    InitializeVault(InitializeVaultArgs),
    AuthorizeAction(AuthorizeActionArgs),
    RevokeAction(RevokeActionArgs),
    Manage(ManageArgs),
    ManageBatch(ManageBatchArgs),
    ReportNav(ReportNavArgs),
    Deposit(DepositArgs),
    Redeem(RedeemArgs),
    CancelRedeem(CancelRedeemArgs),
    ProcessWithdrawals,
    UpdateVaultConfig(UpdateVaultConfigArgs),
    InitializeAsset(InitializeAssetArgs),
    UpdateAsset(UpdateAssetArgs),
    SetPauseFlags(SetPauseFlagsArgs),
    SetVaultAccess(SetVaultAccessArgs),
    TransferProgramAuthority(TransferProgramAuthorityArgs),
    TransferVaultAuthority(TransferVaultAuthorityArgs),
    SetStrategist(SetStrategistArgs),
    SetNavAuthority(SetNavAuthorityArgs),
    SetWithdrawalAuthority(SetWithdrawalAuthorityArgs),
    CollectFees(CollectFeesArgs),
    InvestExternal(InvestExternalArgs),
    ReturnExternal(ReturnExternalArgs),
    SetSwapAuthority(SetSwapAuthorityArgs),
    AtomicRedeem(AtomicRedeemArgs),
    Swap(SwapArgs),
}

/// The tag an instruction is announced by.
pub open spec fn instruction_tag(instruction: RoshiInstruction) -> u8 {
    match instruction {
        RoshiInstruction::InitializeProgram(_) => tags::INITIALIZE_PROGRAM,
        RoshiInstruction::InitializeVault(_) => tags::INITIALIZE_VAULT,
        RoshiInstruction::AuthorizeAction(_) => tags::AUTHORIZE_ACTION,
        RoshiInstruction::RevokeAction(_) => tags::REVOKE_ACTION,
        RoshiInstruction::Manage(_) => tags::MANAGE,
        RoshiInstruction::ManageBatch(_) => tags::MANAGE_BATCH,
        RoshiInstruction::ReportNav(_) => tags::REPORT_NAV,
        RoshiInstruction::Deposit(_) => tags::DEPOSIT,
        RoshiInstruction::Redeem(_) => tags::REDEEM,
        RoshiInstruction::CancelRedeem(_) => tags::CANCEL_REDEEM,
        RoshiInstruction::ProcessWithdrawals => tags::PROCESS_WITHDRAWALS,
        RoshiInstruction::UpdateVaultConfig(_) => tags::UPDATE_VAULT_CONFIG,
        RoshiInstruction::InitializeAsset(_) => tags::INITIALIZE_ASSET,
        RoshiInstruction::UpdateAsset(_) => tags::UPDATE_ASSET,
        RoshiInstruction::SetPauseFlags(_) => tags::SET_PAUSE_FLAGS,
        RoshiInstruction::SetVaultAccess(_) => tags::SET_VAULT_ACCESS,
        RoshiInstruction::TransferProgramAuthority(_) => tags::TRANSFER_PROGRAM_AUTHORITY,
        RoshiInstruction::TransferVaultAuthority(_) => tags::TRANSFER_VAULT_AUTHORITY,
        RoshiInstruction::SetStrategist(_) => tags::SET_STRATEGIST,
        RoshiInstruction::SetNavAuthority(_) => tags::SET_NAV_AUTHORITY,
        RoshiInstruction::SetWithdrawalAuthority(_) => tags::SET_WITHDRAWAL_AUTHORITY,
        RoshiInstruction::CollectFees(_) => tags::COLLECT_FEES,
        RoshiInstruction::InvestExternal(_) => tags::INVEST_EXTERNAL,
        RoshiInstruction::ReturnExternal(_) => tags::RETURN_EXTERNAL,
        RoshiInstruction::SetSwapAuthority(_) => tags::SET_SWAP_AUTHORITY,
        RoshiInstruction::AtomicRedeem(_) => tags::ATOMIC_REDEEM,
        RoshiInstruction::Swap(_) => tags::SWAP,
    }
}

/// Whether `tag` announces an instruction of the program.
pub open spec fn is_instruction_tag(tag: u8) -> bool {
    tag <= tags::SWAP
}

impl RoshiInstruction {
    /// The tag this instruction is announced by.
    pub fn tag(&self) -> (r: u8)
        ensures
            r == instruction_tag(*self),
    {
        match self {
            Self::InitializeProgram(_) => tags::INITIALIZE_PROGRAM,
            Self::InitializeVault(_) => tags::INITIALIZE_VAULT,
            Self::AuthorizeAction(_) => tags::AUTHORIZE_ACTION,
            Self::RevokeAction(_) => tags::REVOKE_ACTION,
            Self::Manage(_) => tags::MANAGE,
            Self::ManageBatch(_) => tags::MANAGE_BATCH,
            Self::ReportNav(_) => tags::REPORT_NAV,
            Self::Deposit(_) => tags::DEPOSIT,
            Self::Redeem(_) => tags::REDEEM,
            Self::CancelRedeem(_) => tags::CANCEL_REDEEM,
            Self::ProcessWithdrawals => tags::PROCESS_WITHDRAWALS,
            Self::UpdateVaultConfig(_) => tags::UPDATE_VAULT_CONFIG,
            Self::InitializeAsset(_) => tags::INITIALIZE_ASSET,
            Self::UpdateAsset(_) => tags::UPDATE_ASSET,
            Self::SetPauseFlags(_) => tags::SET_PAUSE_FLAGS,
            Self::SetVaultAccess(_) => tags::SET_VAULT_ACCESS,
            Self::TransferProgramAuthority(_) => tags::TRANSFER_PROGRAM_AUTHORITY,
            Self::TransferVaultAuthority(_) => tags::TRANSFER_VAULT_AUTHORITY,
            Self::SetStrategist(_) => tags::SET_STRATEGIST,
            Self::SetNavAuthority(_) => tags::SET_NAV_AUTHORITY,
            Self::SetWithdrawalAuthority(_) => tags::SET_WITHDRAWAL_AUTHORITY,
            Self::CollectFees(_) => tags::COLLECT_FEES,
            Self::InvestExternal(_) => tags::INVEST_EXTERNAL,
            Self::ReturnExternal(_) => tags::RETURN_EXTERNAL,
            Self::SetSwapAuthority(_) => tags::SET_SWAP_AUTHORITY,
            Self::AtomicRedeem(_) => tags::ATOMIC_REDEEM,
            Self::Swap(_) => tags::SWAP,
        }
    }
}

/// The tag of an encoded instruction and its payload. Empty data, or a tag
/// that announces no instruction, is refused; the payload itself is decoded
/// by the argument type the tag names.
pub fn split_instruction(data: &[u8]) -> (r: Result<(u8, &[u8]), ()>)
    ensures
        r is Ok <==> data@.len() > 0 && is_instruction_tag(data@[0]),
        r matches Ok((tag, payload)) ==> tag == data@[0] && payload@ == data@.subrange(1, data@.len() as int),
{
    if data.len() == 0 {
        return Err(());
    }
    let tag = data[0];
    if tag > tags::SWAP {
        return Err(());
    }
    Ok((tag, vstd::slice::slice_subrange(data, 1, data.len())))
}

/// Every instruction is announced by a tag that [`split_instruction`]
/// accepts.
pub proof fn law_instruction_tags_are_known(instruction: RoshiInstruction)
    ensures
        is_instruction_tag(instruction_tag(instruction)),
{
}

/// Each instruction is announced by the tag of its argument payload type.
pub proof fn law_instruction_tags_match_args(instruction: RoshiInstruction)
    ensures
        instruction matches RoshiInstruction::InitializeProgram(_) ==> instruction_tag(instruction) == <InitializeProgramArgs as InstructionArgs>::TAG,
        instruction matches RoshiInstruction::InitializeVault(_) ==> instruction_tag(instruction) == <InitializeVaultArgs as InstructionArgs>::TAG,
        instruction matches RoshiInstruction::AuthorizeAction(_) ==> instruction_tag(instruction) == <AuthorizeActionArgs as InstructionArgs>::TAG,
        instruction matches RoshiInstruction::RevokeAction(_) ==> instruction_tag(instruction) == <RevokeActionArgs as InstructionArgs>::TAG,
        instruction matches RoshiInstruction::Manage(_) ==> instruction_tag(instruction) == <ManageArgs as InstructionArgs>::TAG,
        instruction matches RoshiInstruction::ManageBatch(_) ==> instruction_tag(instruction) == <ManageBatchArgs as InstructionArgs>::TAG,
        instruction matches RoshiInstruction::ReportNav(_) ==> instruction_tag(instruction) == <ReportNavArgs as InstructionArgs>::TAG,
        instruction matches RoshiInstruction::Deposit(_) ==> instruction_tag(instruction) == <DepositArgs as InstructionArgs>::TAG,
        instruction matches RoshiInstruction::Redeem(_) ==> instruction_tag(instruction) == <RedeemArgs as InstructionArgs>::TAG,
        instruction matches RoshiInstruction::CancelRedeem(_) ==> instruction_tag(instruction) == <CancelRedeemArgs as InstructionArgs>::TAG,
        instruction matches RoshiInstruction::ProcessWithdrawals ==> instruction_tag(instruction) == <ProcessWithdrawalsArgs as InstructionArgs>::TAG,
        instruction matches RoshiInstruction::UpdateVaultConfig(_) ==> instruction_tag(instruction) == <UpdateVaultConfigArgs as InstructionArgs>::TAG,
        instruction matches RoshiInstruction::InitializeAsset(_) ==> instruction_tag(instruction) == <InitializeAssetArgs as InstructionArgs>::TAG,
        instruction matches RoshiInstruction::UpdateAsset(_) ==> instruction_tag(instruction) == <UpdateAssetArgs as InstructionArgs>::TAG,
        instruction matches RoshiInstruction::SetPauseFlags(_) ==> instruction_tag(instruction) == <SetPauseFlagsArgs as InstructionArgs>::TAG,
        instruction matches RoshiInstruction::SetVaultAccess(_) ==> instruction_tag(instruction) == <SetVaultAccessArgs as InstructionArgs>::TAG,
        instruction matches RoshiInstruction::TransferProgramAuthority(_) ==> instruction_tag(instruction) == <TransferProgramAuthorityArgs as InstructionArgs>::TAG,
        instruction matches RoshiInstruction::TransferVaultAuthority(_) ==> instruction_tag(instruction) == <TransferVaultAuthorityArgs as InstructionArgs>::TAG,
        instruction matches RoshiInstruction::SetStrategist(_) ==> instruction_tag(instruction) == <SetStrategistArgs as InstructionArgs>::TAG,
        instruction matches RoshiInstruction::SetNavAuthority(_) ==> instruction_tag(instruction) == <SetNavAuthorityArgs as InstructionArgs>::TAG,
        instruction matches RoshiInstruction::SetWithdrawalAuthority(_) ==> instruction_tag(instruction) == <SetWithdrawalAuthorityArgs as InstructionArgs>::TAG,
        instruction matches RoshiInstruction::CollectFees(_) ==> instruction_tag(instruction) == <CollectFeesArgs as InstructionArgs>::TAG,
        instruction matches RoshiInstruction::InvestExternal(_) ==> instruction_tag(instruction) == <InvestExternalArgs as InstructionArgs>::TAG,
        instruction matches RoshiInstruction::ReturnExternal(_) ==> instruction_tag(instruction) == <ReturnExternalArgs as InstructionArgs>::TAG,
        instruction matches RoshiInstruction::SetSwapAuthority(_) ==> instruction_tag(instruction) == <SetSwapAuthorityArgs as InstructionArgs>::TAG,
        instruction matches RoshiInstruction::AtomicRedeem(_) ==> instruction_tag(instruction) == <AtomicRedeemArgs as InstructionArgs>::TAG,
        instruction matches RoshiInstruction::Swap(_) ==> instruction_tag(instruction) == <SwapArgs as InstructionArgs>::TAG,
{
}

/// Instructions of different kinds are announced by different tags.
pub proof fn law_instruction_tags_are_distinct(a: RoshiInstruction, b: RoshiInstruction)
    ensures
        instruction_tag(a) == instruction_tag(b) && a is InitializeProgram ==> b is InitializeProgram,
        instruction_tag(a) == instruction_tag(b) && a is InitializeVault ==> b is InitializeVault,
        instruction_tag(a) == instruction_tag(b) && a is AuthorizeAction ==> b is AuthorizeAction,
        instruction_tag(a) == instruction_tag(b) && a is RevokeAction ==> b is RevokeAction,
        instruction_tag(a) == instruction_tag(b) && a is Manage ==> b is Manage,
        instruction_tag(a) == instruction_tag(b) && a is ManageBatch ==> b is ManageBatch,
        instruction_tag(a) == instruction_tag(b) && a is ReportNav ==> b is ReportNav,
        instruction_tag(a) == instruction_tag(b) && a is Deposit ==> b is Deposit,
        instruction_tag(a) == instruction_tag(b) && a is Redeem ==> b is Redeem,
        instruction_tag(a) == instruction_tag(b) && a is CancelRedeem ==> b is CancelRedeem,
        instruction_tag(a) == instruction_tag(b) && a is ProcessWithdrawals ==> b is ProcessWithdrawals,
        instruction_tag(a) == instruction_tag(b) && a is UpdateVaultConfig ==> b is UpdateVaultConfig,
        instruction_tag(a) == instruction_tag(b) && a is InitializeAsset ==> b is InitializeAsset,
        instruction_tag(a) == instruction_tag(b) && a is UpdateAsset ==> b is UpdateAsset,
        instruction_tag(a) == instruction_tag(b) && a is SetPauseFlags ==> b is SetPauseFlags,
        instruction_tag(a) == instruction_tag(b) && a is SetVaultAccess ==> b is SetVaultAccess,
        instruction_tag(a) == instruction_tag(b) && a is TransferProgramAuthority ==> b is TransferProgramAuthority,
        instruction_tag(a) == instruction_tag(b) && a is TransferVaultAuthority ==> b is TransferVaultAuthority,
        instruction_tag(a) == instruction_tag(b) && a is SetStrategist ==> b is SetStrategist,
        instruction_tag(a) == instruction_tag(b) && a is SetNavAuthority ==> b is SetNavAuthority,
        instruction_tag(a) == instruction_tag(b) && a is SetWithdrawalAuthority ==> b is SetWithdrawalAuthority,
        instruction_tag(a) == instruction_tag(b) && a is CollectFees ==> b is CollectFees,
        instruction_tag(a) == instruction_tag(b) && a is InvestExternal ==> b is InvestExternal,
        instruction_tag(a) == instruction_tag(b) && a is ReturnExternal ==> b is ReturnExternal,
        instruction_tag(a) == instruction_tag(b) && a is SetSwapAuthority ==> b is SetSwapAuthority,
        instruction_tag(a) == instruction_tag(b) && a is AtomicRedeem ==> b is AtomicRedeem,
        instruction_tag(a) == instruction_tag(b) && a is Swap ==> b is Swap,
{
}

} // verus!
