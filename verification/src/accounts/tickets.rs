//! The account loading of the instructions that queue, cancel and settle
//! withdrawal tickets.

use vstd::prelude::*;

use crate::accounts::{
    after, check_layout, layout_check, loaded, settlement_ticket_count, verify_derived_address, verify_ticket_holder,
    verify_ticket_not_repeated, verify_ticket_settlement, AccountRule, AccountView,
};
use crate::bytes::bytes32_eq;
use crate::error::{program_error, ProgramError, RoshiError};
use crate::instructions::RedeemArgs;
use crate::state::vault::Vault;

verus! {

/// The fields of a decoded withdrawal ticket that account loading reads.
#[derive(Clone, Copy, Debug, PartialEq, Eq)]
pub struct TicketView {
    pub vault: [u8; 32],
    pub owner: [u8; 32],
    pub recipient_token_account: [u8; 32],
    pub shares_burned: u64,
    pub ticket_index: u8,
    pub bump: u8,
}

/// What the vault loader, the share-mint and token-account checks and the
/// ticket address derivation report for a redeem.
#[derive(Clone, Copy, Debug, PartialEq, Eq)]
pub struct RedeemReads {
    /// The vault decoded from account 1.
    pub vault: Result<Vault, ProgramError>,
    /// Whether account 3 is that vault's share mint.
    pub share_mint: Result<(), ProgramError>,
    /// Whether the recipient token account holds the vault's base mint.
    pub recipient_mint: Result<(), ProgramError>,
    /// The ticket address and bump derived for the vault, the owner and the
    /// ticket index.
    pub ticket_address: ([u8; 32], u8),
}

/// The fixed redeem layout: owner (signer, writable), vault, share source
/// and share mint (writable), recipient, the uninitialized ticket, the
/// system program and the token program.
pub open spec fn redeem_layout() -> Seq<AccountRule> {
    seq![
        AccountRule::WritableSigner,
        AccountRule::Writable,
        AccountRule::Writable,
        AccountRule::Writable,
        AccountRule::Any,
        AccountRule::Uninitialized,
        AccountRule::SystemProgram,
        AccountRule::TokenProgram,
    ]
}

/// The outcome of loading a redeem: the layout, then the vault, its share
/// mint, the recipient named by the arguments and its mint, and last the
/// ticket address; the ticket's bump on success.
pub open spec fn spec_load_redeem(accounts: Seq<AccountView>, args: RedeemArgs, reads: RedeemReads) -> Result<u8, ProgramError> {
    after(layout_check(accounts, 0, redeem_layout()),
    after(loaded(reads.vault),
    after(reads.share_mint,
    after(
        if accounts[4].key != args.recipient_token_account {
            Err(program_error(RoshiError::InvalidTokenAccount))
        } else {
            Ok(())
        },
    after(reads.recipient_mint,
    if accounts[5].key != reads.ticket_address.0 {
        Err(ProgramError::InvalidSeeds)
    } else {
        Ok(reads.ticket_address.1)
    })))))
}

/// Load the accounts of a redeem; the ticket's bump comes back.
pub fn load_redeem(accounts: &[AccountView], args: &RedeemArgs, reads: &RedeemReads) -> (r: Result<u8, ProgramError>)
    ensures
        r == spec_load_redeem(accounts@, *args, *reads),
{
    let rules = [
        AccountRule::WritableSigner,
        AccountRule::Writable,
        AccountRule::Writable,
        AccountRule::Writable,
        AccountRule::Any,
        AccountRule::Uninitialized,
        AccountRule::SystemProgram,
        AccountRule::TokenProgram,
    ];
    assert(rules@ =~= redeem_layout());
    match check_layout(accounts, 0, &rules) {
        Ok(()) => {},
        Err(error) => return Err(error),
    }
    match reads.vault {
        Ok(_) => {},
        Err(error) => return Err(error),
    }
    match reads.share_mint {
        Ok(()) => {},
        Err(error) => return Err(error),
    }
    if !bytes32_eq(&accounts[4].key, &args.recipient_token_account) {
        return Err(ProgramError::from(RoshiError::InvalidTokenAccount));
    }
    match reads.recipient_mint {
        Ok(()) => {},
        Err(error) => return Err(error),
    }
    if !bytes32_eq(&accounts[5].key, &reads.ticket_address.0) {
        return Err(ProgramError::InvalidSeeds);
    }
    Ok(reads.ticket_address.1)
}

/// A redeem loads only when the owner signs, the ticket account is
/// uninitialized and sits at its derived address, and the recipient is the
/// one the arguments name; the ticket's derived bump comes back.
pub proof fn law_redeem_binds_owner_ticket_and_recipient(accounts: Seq<AccountView>, args: RedeemArgs, reads: RedeemReads)
    requires
        spec_load_redeem(accounts, args, reads) is Ok,
    ensures
        accounts.len() >= 8,
        accounts[0].is_signer && accounts[0].is_writable,
        crate::accounts::uninitialized_check(accounts[5]) is Ok,
        accounts[5].key == reads.ticket_address.0,
        accounts[4].key == args.recipient_token_account,
        spec_load_redeem(accounts, args, reads) == Ok::<u8, ProgramError>(reads.ticket_address.1),
{
    crate::accounts::law_layout_checks_every_account(accounts, 0, redeem_layout());
    assert(crate::accounts::rule_check(accounts, 0int, redeem_layout()[0]) is Ok);
    assert(crate::accounts::rule_check(accounts, 5int, redeem_layout()[5]) is Ok);
}

/// What the loaders and checks report for a cancelled redeem.
#[derive(Clone, Copy, Debug, PartialEq, Eq)]
pub struct CancelRedeemReads {
    /// The vault decoded from account 1.
    pub vault: Result<Vault, ProgramError>,
    /// Whether account 3 is that vault's share mint.
    pub share_mint: Result<(), ProgramError>,
    /// The ticket decoded from account 2.
    pub ticket: Result<TicketView, ProgramError>,
    /// The ticket address and bump derived for the vault, the ticket's
    /// recipient and its index.
    pub ticket_address: ([u8; 32], u8),
    /// Whether the share destination holds the share mint and belongs to
    /// the owner.
    pub share_destination: Result<(), ProgramError>,
}

/// The fixed cancel-redeem layout: owner (signer, writable), then vault,
/// ticket, share mint and share destination (writable), and the token
/// program.
pub open spec fn cancel_redeem_layout() -> Seq<AccountRule> {
    seq![
        AccountRule::WritableSigner,
        AccountRule::Writable,
        AccountRule::Writable,
        AccountRule::Writable,
        AccountRule::Writable,
        AccountRule::TokenProgram,
    ]
}

/// The outcome of loading a cancelled redeem: the layout, the vault and its
/// share mint, the ticket and whose it is, its address, and last the share
/// destination; the ticket on success.
pub open spec fn spec_load_cancel_redeem(accounts: Seq<AccountView>, reads: CancelRedeemReads) -> Result<TicketView, ProgramError> {
    after(layout_check(accounts, 0, cancel_redeem_layout()),
    after(loaded(reads.vault),
    after(reads.share_mint,
    match reads.ticket {
        Err(error) => Err(error),
        Ok(ticket) => if ticket.vault != accounts[1].key || ticket.owner != accounts[0].key {
            Err(program_error(RoshiError::InvalidWithdrawalTicketAccount))
        } else if accounts[2].key != reads.ticket_address.0 || ticket.bump != reads.ticket_address.1 {
            Err(ProgramError::InvalidSeeds)
        } else {
            after(reads.share_destination, Ok(ticket))
        },
    })))
}

/// Load the accounts of a cancelled redeem; the ticket comes back.
pub fn load_cancel_redeem(accounts: &[AccountView], reads: &CancelRedeemReads) -> (r: Result<TicketView, ProgramError>)
    ensures
        r == spec_load_cancel_redeem(accounts@, *reads),
{
    let rules = [
        AccountRule::WritableSigner,
        AccountRule::Writable,
        AccountRule::Writable,
        AccountRule::Writable,
        AccountRule::Writable,
        AccountRule::TokenProgram,
    ];
    assert(rules@ =~= cancel_redeem_layout());
    match check_layout(accounts, 0, &rules) {
        Ok(()) => {},
        Err(error) => return Err(error),
    }
    match reads.vault {
        Ok(_) => {},
        Err(error) => return Err(error),
    }
    match reads.share_mint {
        Ok(()) => {},
        Err(error) => return Err(error),
    }
    let ticket = match reads.ticket {
        Ok(ticket) => ticket,
        Err(error) => return Err(error),
    };
    match verify_ticket_holder(&accounts[1].key, &accounts[0].key, &ticket.vault, &ticket.owner) {
        Ok(()) => {},
        Err(error) => return Err(error),
    }
    match verify_derived_address(&accounts[2].key, ticket.bump, &reads.ticket_address.0, reads.ticket_address.1) {
        Ok(()) => {},
        Err(error) => return Err(error),
    }
    match reads.share_destination {
        Ok(()) => {},
        Err(error) => return Err(error),
    }
    Ok(ticket)
}

/// What the ticket loader, the address derivation and the token-account
/// check report for one ticket of a settlement batch.
#[derive(Clone, Copy, Debug, PartialEq, Eq)]
pub struct SettlementReads {
    /// The ticket decoded from the ticket account.
    pub ticket: Result<TicketView, ProgramError>,
    /// The ticket address and bump derived for the vault, the ticket's
    /// recipient and its index.
    pub ticket_address: ([u8; 32], u8),
    /// Whether the destination holds the vault's base mint.
    pub destination_mint: Result<(), ProgramError>,
}

/// What the vault loader and the role, sub-account and token checks report
/// for a settlement batch.
#[derive(Clone, Copy, Debug, PartialEq, Eq)]
pub struct ProcessWithdrawalsReads {
    /// The vault decoded from account 1.
    pub vault: Result<Vault, ProgramError>,
    /// Whether account 0 holds the vault's withdrawal-authority role.
    pub withdrawal_authority: Result<(), ProgramError>,
    /// Whether account 2 is the vault's withdraw sub-account, and its bump.
    pub sub_account: Result<u8, ProgramError>,
    /// Whether the custody holds the base mint and belongs to the
    /// sub-account.
    pub custody: Result<(), ProgramError>,
    /// Whether account 4 is the vault's share mint.
    pub share_mint: Result<(), ProgramError>,
    /// Whether account 5 is the token program of the custody.
    pub token_program: Result<(), ProgramError>,
}

/// Accounts before the ticket triples of a settlement batch.
pub const SETTLEMENT_FIXED_ACCOUNTS: usize = 6;

/// The three writable accounts of one settled ticket.
pub open spec fn settlement_layout() -> Seq<AccountRule> {
    seq![AccountRule::Writable, AccountRule::Writable, AccountRule::Writable]
}

/// The outcome of the `i`th ticket of a batch: its ticket, owner and
/// destination accounts are writable; the ticket records this vault, that
/// owner and that destination and holds burned shares; it sits at its
/// derived address with its bump; the destination holds the base mint; and
/// no earlier ticket of the batch is the same account.
pub open spec fn settlement_check(accounts: Seq<AccountView>, vault_key: [u8; 32], reads: Seq<SettlementReads>, i: int) -> Result<(), ProgramError> {
    let p = 6 + 3 * i;
    after(layout_check(accounts, p, settlement_layout()),
    match reads[i].ticket {
        Err(error) => Err(error),
        Ok(ticket) => if ticket.vault != vault_key || ticket.owner != accounts[p + 1].key
            || ticket.recipient_token_account != accounts[p + 2].key || ticket.shares_burned == 0 {
            Err(program_error(RoshiError::InvalidWithdrawalTicketAccount))
        } else if accounts[p].key != reads[i].ticket_address.0 || ticket.bump != reads[i].ticket_address.1 {
            Err(ProgramError::InvalidSeeds)
        } else {
            after(reads[i].destination_mint,
            if exists|j: int| 0 <= j < i && #[trigger] accounts[6 + 3 * j].key == accounts[p].key {
                Err(program_error(RoshiError::InvalidWithdrawalTicketAccount))
            } else {
                Ok(())
            })
        },
    })
}

/// The outcome of the first `n` tickets of a batch, taken in order.
pub open spec fn settlements_check(accounts: Seq<AccountView>, vault_key: [u8; 32], reads: Seq<SettlementReads>, n: int) -> Result<(), ProgramError>
    decreases n,
{
    if n <= 0 {
        Ok(())
    } else {
        after(settlements_check(accounts, vault_key, reads, n - 1), settlement_check(accounts, vault_key, reads, n - 1))
    }
}

/// Once a ticket of a batch fails, the batch fails the same way.
proof fn lemma_settlements_fail_stays(accounts: Seq<AccountView>, vault_key: [u8; 32], reads: Seq<SettlementReads>, k: int, n: int)
    requires
        0 <= k <= n,
        settlements_check(accounts, vault_key, reads, k) is Err,
    ensures
        settlements_check(accounts, vault_key, reads, n) == settlements_check(accounts, vault_key, reads, k),
    decreases n - k,
{
    if k < n {
        lemma_settlements_fail_stays(accounts, vault_key, reads, k, n - 1);
    }
}

/// The checks of a settlement batch up to the sub-account: the authority
/// and the writable vault, the vault and the authority's role, and the
/// presence of the sub-account.
pub open spec fn process_withdrawals_head(accounts: Seq<AccountView>, reads: ProcessWithdrawalsReads) -> Result<(), ProgramError> {
    after(layout_check(accounts, 0, seq![AccountRule::Any, AccountRule::Writable]),
    after(loaded(reads.vault),
    after(reads.withdrawal_authority,
    layout_check(accounts, 2, seq![AccountRule::Any]))))
}

/// The checks of a settlement batch after the sub-account: the writable
/// custody, the share mint and the token program.
pub open spec fn process_withdrawals_middle(accounts: Seq<AccountView>, reads: ProcessWithdrawalsReads) -> Result<(), ProgramError> {
    after(layout_check(accounts, 3, seq![AccountRule::Writable]),
    after(reads.custody,
    after(layout_check(accounts, 4, seq![AccountRule::Any]),
    after(reads.share_mint,
    after(layout_check(accounts, 5, seq![AccountRule::Any]),
    reads.token_program)))))
}

/// The ticket part of a settlement batch: at least one whole triple after
/// the fixed accounts, and then each ticket in order.
pub open spec fn process_withdrawals_tickets(accounts: Seq<AccountView>, tickets: Seq<SettlementReads>) -> Result<(), ProgramError> {
    if accounts.len() == 6 || (accounts.len() - 6) % 3 != 0 {
        Err(ProgramError::NotEnoughAccountKeys)
    } else {
        settlements_check(accounts, accounts[1].key, tickets, (accounts.len() - 6) / 3)
    }
}

/// The outcome of loading a settlement batch, in order: the head, the
/// sub-account, the middle and the tickets; the sub-account's bump on
/// success.
pub open spec fn spec_load_process_withdrawals(accounts: Seq<AccountView>, reads: ProcessWithdrawalsReads, tickets: Seq<SettlementReads>) -> Result<u8, ProgramError> {
    after(process_withdrawals_head(accounts, reads),
    match reads.sub_account {
        Err(error) => Err(error),
        Ok(bump) => after(process_withdrawals_middle(accounts, reads),
            after(process_withdrawals_tickets(accounts, tickets), Ok(bump))),
    })
}

/// Load the accounts of a settlement batch; `tickets` holds what was read
/// for each ticket triple, in order. The withdraw sub-account's bump comes
/// back.
pub fn load_process_withdrawals(accounts: &[AccountView], reads: &ProcessWithdrawalsReads, tickets: &[SettlementReads]) -> (r: Result<u8, ProgramError>)
    requires
        accounts@.len() <= 6 + 3 * tickets@.len(),
    ensures
        r == spec_load_process_withdrawals(accounts@, *reads, tickets@),
{
    let head = [AccountRule::Any, AccountRule::Writable];
    assert(head@ =~= seq![AccountRule::Any, AccountRule::Writable]);
    match check_layout(accounts, 0, &head) {
        Ok(()) => {},
        Err(error) => return Err(error),
    }
    match reads.vault {
        Ok(_) => {},
        Err(error) => return Err(error),
    }
    match reads.withdrawal_authority {
        Ok(()) => {},
        Err(error) => return Err(error),
    }
    let any = [AccountRule::Any];
    assert(any@ =~= seq![AccountRule::Any]);
    let writable = [AccountRule::Writable];
    assert(writable@ =~= seq![AccountRule::Writable]);
    match check_layout(accounts, 2, &any) {
        Ok(()) => {},
        Err(error) => return Err(error),
    }
    let bump = match reads.sub_account {
        Ok(bump) => bump,
        Err(error) => return Err(error),
    };
    match check_layout(accounts, 3, &writable) {
        Ok(()) => {},
        Err(error) => return Err(error),
    }
    match reads.custody {
        Ok(()) => {},
        Err(error) => return Err(error),
    }
    match check_layout(accounts, 4, &any) {
        Ok(()) => {},
        Err(error) => return Err(error),
    }
    match reads.share_mint {
        Ok(()) => {},
        Err(error) => return Err(error),
    }
    match check_layout(accounts, 5, &any) {
        Ok(()) => {},
        Err(error) => return Err(error),
    }
    match reads.token_program {
        Ok(()) => {},
        Err(error) => return Err(error),
    }
    let count = match settlement_ticket_count(accounts.len() - SETTLEMENT_FIXED_ACCOUNTS) {
        Ok(count) => count,
        Err(error) => return Err(error),
    };
    let vault_key = accounts[1].key;
    let triple = [AccountRule::Writable, AccountRule::Writable, AccountRule::Writable];
    assert(triple@ =~= settlement_layout());
    let mut accepted: Vec<[u8; 32]> = Vec::new();
    let total = accounts.len();
    let mut i: usize = 0;
    while i < count
        invariant
            total == accounts@.len(),
            process_withdrawals_head(accounts@, *reads) is Ok,
            reads.sub_account == Ok::<u8, ProgramError>(bump),
            process_withdrawals_middle(accounts@, *reads) is Ok,
            accounts@.len() > 6,
            count == (accounts@.len() - 6) / 3,
            (accounts@.len() - 6) % 3 == 0,
            accounts@.len() <= 6 + 3 * tickets@.len(),
            vault_key == accounts@[1].key,
            triple@ == settlement_layout(),
            i <= count,
            accepted@.len() == i,
            forall|j: int| 0 <= j < i ==> accepted@[j] == #[trigger] accounts@[6 + 3 * j].key,
            settlements_check(accounts@, vault_key, tickets@, i as int) is Ok,
        decreases count - i,
    {
        assert(6 + 3 * i + 3 <= accounts@.len()) by (nonlinear_arith)
            requires
                i < count,
                count == (accounts@.len() - 6) / 3,
                (accounts@.len() - 6) % 3 == 0,
                accounts@.len() >= 6,
        ;
        let p = 6 + 3 * i;
        let ghost before = settlements_check(accounts@, vault_key, tickets@, i as int);
        assert(settlements_check(accounts@, vault_key, tickets@, i + 1) == after(
            before,
            settlement_check(accounts@, vault_key, tickets@, i as int),
        ));
        let outcome = settle_one(accounts, &vault_key, &tickets[i], p, &triple, accepted.as_slice());
        proof {
            assert forall|j: int| 0 <= j < i && #[trigger] accounts@[6 + 3 * j].key == accounts@[p as int].key implies accepted@.contains(accounts@[p as int].key) by {
                assert(accepted@[j] == accounts@[6 + 3 * j].key);
            }
            if accepted@.contains(accounts@[p as int].key) {
                let k = choose|k: int| 0 <= k < accepted@.len() && accepted@[k] == accounts@[p as int].key;
                assert(accepted@[k] == accounts@[6 + 3 * k].key);
            }
            assert(outcome == settlement_check(accounts@, vault_key, tickets@, i as int));
        }
        match outcome {
            Ok(()) => {},
            Err(error) => {
                proof {
                    lemma_settlements_fail_stays(accounts@, vault_key, tickets@, i + 1, count as int);
                }
                return Err(error);
            },
        }
        accepted.push(accounts[p].key);
        i = i + 1;
    }
    Ok(bump)
}

/// The checks of one ticket triple at `p`, given the ticket accounts
/// accepted before it.
fn settle_one(
    accounts: &[AccountView],
    vault_key: &[u8; 32],
    read: &SettlementReads,
    p: usize,
    triple: &[AccountRule; 3],
    accepted: &[[u8; 32]],
) -> (r: Result<(), ProgramError>)
    requires
        p + 3 <= accounts@.len(),
        triple@ == settlement_layout(),
    ensures
        r == after(layout_check(accounts@, p as int, settlement_layout()),
        match read.ticket {
            Err(error) => Err(error),
            Ok(ticket) => if ticket.vault != *vault_key || ticket.owner != accounts@[p + 1].key
                || ticket.recipient_token_account != accounts@[p + 2].key || ticket.shares_burned == 0 {
                Err(program_error(RoshiError::InvalidWithdrawalTicketAccount))
            } else if accounts@[p as int].key != read.ticket_address.0 || ticket.bump != read.ticket_address.1 {
                Err(ProgramError::InvalidSeeds)
            } else {
                after(read.destination_mint,
                if accepted@.contains(accounts@[p as int].key) {
                    Err(program_error(RoshiError::InvalidWithdrawalTicketAccount))
                } else {
                    Ok(())
                })
            },
        }),
{
    let total = accounts.len();
    assert(p + 3 <= total);
    match check_layout(accounts, p, triple) {
        Ok(()) => {},
        Err(error) => return Err(error),
    }
    let ticket = match read.ticket {
        Ok(ticket) => ticket,
        Err(error) => return Err(error),
    };
    match verify_ticket_settlement(
        vault_key,
        &accounts[p + 1].key,
        &accounts[p + 2].key,
        &ticket.vault,
        &ticket.owner,
        &ticket.recipient_token_account,
        ticket.shares_burned,
    ) {
        Ok(()) => {},
        Err(error) => return Err(error),
    }
    match verify_derived_address(&accounts[p].key, ticket.bump, &read.ticket_address.0, read.ticket_address.1) {
        Ok(()) => {},
        Err(error) => return Err(error),
    }
    match read.destination_mint {
        Ok(()) => {},
        Err(error) => return Err(error),
    }
    verify_ticket_not_repeated(accepted, &accounts[p].key)
}

/// Each ticket of a batch that passes passed on its own.
proof fn lemma_settlements_each_pass(accounts: Seq<AccountView>, vault_key: [u8; 32], reads: Seq<SettlementReads>, n: int)
    requires
        settlements_check(accounts, vault_key, reads, n) is Ok,
    ensures
        forall|i: int| 0 <= i < n ==> #[trigger] settlement_check(accounts, vault_key, reads, i) is Ok,
    decreases n,
{
    if n > 0 {
        lemma_settlements_each_pass(accounts, vault_key, reads, n - 1);
    }
}

/// A settlement batch loads only when it names each ticket account once,
/// and each ticket records this vault, the owner and destination beside it
/// and burned shares, and sits at its derived address with its bump.
pub proof fn law_settled_tickets_are_distinct_and_bound(
    accounts: Seq<AccountView>,
    reads: ProcessWithdrawalsReads,
    tickets: Seq<SettlementReads>,
)
    requires
        spec_load_process_withdrawals(accounts, reads, tickets) is Ok,
    ensures
        accounts.len() > 6 && (accounts.len() - 6) % 3 == 0,
        forall|i: int, j: int| 0 <= i < j < (accounts.len() - 6) / 3
            ==> #[trigger] accounts[6 + 3 * i].key != #[trigger] accounts[6 + 3 * j].key,
        forall|i: int| 0 <= i < (accounts.len() - 6) / 3 ==> {
            &&& #[trigger] tickets[i].ticket matches Ok(ticket)
            &&& ticket.vault == accounts[1].key
            &&& ticket.owner == accounts[6 + 3 * i + 1].key
            &&& ticket.recipient_token_account == accounts[6 + 3 * i + 2].key
            &&& ticket.shares_burned > 0
            &&& accounts[6 + 3 * i].key == tickets[i].ticket_address.0
            &&& ticket.bump == tickets[i].ticket_address.1
        },
{
    let n = (accounts.len() - 6) / 3;
    let vault_key = accounts[1].key;
    lemma_settlements_each_pass(accounts, vault_key, tickets, n);
    assert forall|i: int, j: int| 0 <= i < j < n implies #[trigger] accounts[6 + 3 * i].key != #[trigger] accounts[6 + 3 * j].key by {
        assert(settlement_check(accounts, vault_key, tickets, j) is Ok);
    }
    assert forall|i: int| 0 <= i < n implies {
        &&& #[trigger] tickets[i].ticket matches Ok(ticket)
        &&& ticket.vault == accounts[1].key
        &&& ticket.owner == accounts[6 + 3 * i + 1].key
        &&& ticket.recipient_token_account == accounts[6 + 3 * i + 2].key
        &&& ticket.shares_burned > 0
        &&& accounts[6 + 3 * i].key == tickets[i].ticket_address.0
        &&& ticket.bump == tickets[i].ticket_address.1
    } by {
        assert(settlement_check(accounts, vault_key, tickets, i) is Ok);
    }
}

} // verus!
