//! `Vault` account state: accounting, profit-unlock drip, report gates,
//! roles, pause flags and configuration validation.

use vstd::prelude::*;

use crate::access::{proof_verifies, verify_access_merkle_proof};
use crate::addresses::{find_program_address, program_address, seed_from, seeds_view, vault_seed, vault_seed_bytes, ID};
use crate::bytes::{bytes32_eq, zeros};
use crate::error::{program_error, ProgramError, RoshiError};
use crate::math::{
    checked_u64, mul_div_floor, share_price_from_assets, spec_share_price_from_assets,
    BPS_DENOMINATOR, SHARE_DECIMALS,
};
use crate::oracle::{oracle_config_valid, OracleConfig};
use crate::state::flags::{bool_to_flag, flag_byte, flag_to_bool, spec_flag_to_bool, FALSE, TRUE};

verus! {

broadcast use vstd::array::group_array_axioms;

#[derive(Clone, Copy, Debug, PartialEq, Eq, Structural)]
pub enum Role {
    Admin,
    Strategist,
    NavAuthority,
    WithdrawalAuthority,
}

/// Admin-configured economic risk controls. Zero disables a control, so the
/// all-zeros default is "every control off".
#[derive(Clone, Copy, Debug, PartialEq, Eq)]
pub struct VaultControls {
    /// Clamp on the adaptive profit-unlock window: a reported gain drips over
    /// `min(now - last_update_ts, max_unlock_duration_secs)`. 0 = gains apply
    /// instantly.
    pub max_unlock_duration_secs: u32,
    /// Atomic redeems reject once the last NAV report is older than this
    /// (pre-first-report vaults are exempt). 0 = disabled.
    pub max_report_age_secs: u32,
    /// Reports arriving sooner than this after the previous report are
    /// rejected (the first report is exempt). 0 = disabled.
    pub min_report_interval_secs: u32,
    /// Slots after which an unstruck withdrawal ticket becomes cancellable
    /// again. 0 = escape disabled.
    pub cancel_grace_slots: u32,
    /// A report may not move the net share price up by more than this many
    /// bps vs. the stored pre-report price. May exceed 10_000. 0 = disabled.
    pub max_nav_gain_bps: u16,
    /// Fee on atomic redemptions, retained by the pool. At most 10_000.
    pub atomic_redeem_fee_bps: u16,
    /// Oracle-valued swap output must be at least input value times
    /// `1 - max_swap_slippage_bps`. At most 10_000. 0 = disabled.
    pub max_swap_slippage_bps: u16,
    pub _padding: [u8; 2],
}

/// Whether the percentage controls are at most 100%. The gain bound is not a
/// percentage: a bound above +100% is meaningful.
pub open spec fn controls_valid(controls: VaultControls) -> bool {
    controls.atomic_redeem_fee_bps <= BPS_DENOMINATOR && controls.max_swap_slippage_bps <= BPS_DENOMINATOR
}

impl VaultControls {
    pub fn new(
        max_unlock_duration_secs: u32,
        max_report_age_secs: u32,
        min_report_interval_secs: u32,
        cancel_grace_slots: u32,
        max_nav_gain_bps: u16,
        atomic_redeem_fee_bps: u16,
        max_swap_slippage_bps: u16,
    ) -> (r: Self)
        ensures
            r.max_unlock_duration_secs == max_unlock_duration_secs,
            r.max_report_age_secs == max_report_age_secs,
            r.min_report_interval_secs == min_report_interval_secs,
            r.cancel_grace_slots == cancel_grace_slots,
            r.max_nav_gain_bps == max_nav_gain_bps,
            r.atomic_redeem_fee_bps == atomic_redeem_fee_bps,
            r.max_swap_slippage_bps == max_swap_slippage_bps,
            r._padding@ == zeros(2),
    {
        let r = VaultControls {
            max_unlock_duration_secs,
            max_report_age_secs,
            min_report_interval_secs,
            cancel_grace_slots,
            max_nav_gain_bps,
            atomic_redeem_fee_bps,
            max_swap_slippage_bps,
            _padding: [0u8; 2],
        };
        assert(r._padding@ =~= zeros(2));
        r
    }

    pub fn validate(&self) -> (r: Result<(), ProgramError>)
        ensures
            r is Ok <==> controls_valid(*self),
            r is Err ==> r == Err::<(), ProgramError>(program_error(RoshiError::InvalidBps)),
    {
        if self.atomic_redeem_fee_bps > BPS_DENOMINATOR || self.max_swap_slippage_bps > BPS_DENOMINATOR {
            return Err(ProgramError::from(RoshiError::InvalidBps));
        }
        Ok(())
    }
}

impl Default for VaultControls {
    fn default() -> (r: Self)
        ensures
            r.max_unlock_duration_secs == 0,
            r.max_report_age_secs == 0,
            r.min_report_interval_secs == 0,
            r.cancel_grace_slots == 0,
            r.max_nav_gain_bps == 0,
            r.atomic_redeem_fee_bps == 0,
            r.max_swap_slippage_bps == 0,
            r._padding@ == zeros(2),
    {
        VaultControls::new(0, 0, 0, 0, 0, 0, 0)
    }
}

/// The vault account: accounting, configuration, roles and flags.
///
/// The `*_flag` fields hold the raw stored flag bytes; read them through the
/// typed accessors, which reject anything but `0` and `1`.
#[derive(Clone, Copy, Debug, PartialEq, Eq)]
pub struct Vault {
    pub base_oracle: OracleConfig,
    pub total_assets: u64,
    pub external_assets: u64,
    pub pending_withdrawal_assets: u64,
    pub fees_payable: u64,
    pub high_watermark: u64,
    pub report_epoch: u64,
    pub requested_withdrawal_shares: u64,
    pub last_update_ts: i64,
    /// Reported profit still locked from past gain reports; drips out
    /// linearly between the unlock timestamps. Always at most `total_assets`.
    pub locked_profit: u64,
    pub profit_unlock_start_ts: i64,
    pub profit_unlock_end_ts: i64,
    pub tag: [u8; 32],
    pub admin: [u8; 32],
    pub strategist: [u8; 32],
    pub nav_authority: [u8; 32],
    pub withdrawal_authority: [u8; 32],
    pub base_mint: [u8; 32],
    pub share_mint: [u8; 32],
    pub treasury: [u8; 32],
    pub last_report_hash: [u8; 32],
    pub access_merkle_root: [u8; 32],
    pub controls: VaultControls,
    pub performance_fee_bps: u16,
    pub withdrawal_buffer_bps: u16,
    pub tag_len: u8,
    pub base_decimals: u8,
    pub deposit_sub_account: u8,
    pub withdraw_sub_account: u8,
    pub deposits_paused_flag: u8,
    pub withdrawals_paused_flag: u8,
    pub manage_paused_flag: u8,
    pub private_flag: u8,
    pub external_enabled_flag: u8,
    pub bump: u8,
    pub _padding: [u8; 2],
}

pub const VAULT_MAX_TAG_LEN: usize = 32;

/// Outcome of [`Vault::validate_config`].
pub open spec fn spec_validate_config(base_mint: [u8; 32], share_mint: [u8; 32], base_decimals: u8, performance_fee_bps: u16, withdrawal_buffer_bps: u16) -> Result<(), ProgramError> {
    if performance_fee_bps > BPS_DENOMINATOR || withdrawal_buffer_bps > BPS_DENOMINATOR {
        Err(program_error(RoshiError::InvalidBps))
    } else if base_mint == share_mint {
        Err(ProgramError::InvalidArgument)
    } else if base_decimals > SHARE_DECIMALS {
        Err(program_error(RoshiError::InvalidDecimals))
    } else {
        Ok(())
    }
}

/// Whether a flag byte is a stored boolean.
pub open spec fn flag_valid(flag: u8) -> bool {
    flag == FALSE || flag == TRUE
}

/// Outcome of [`Vault::validate_state`]: the first failing check, in order.
pub open spec fn spec_validate_state(v: Vault) -> Result<(), ProgramError> {
    if v.tag_len == 0 || v.tag_len > VAULT_MAX_TAG_LEN {
        Err(program_error(RoshiError::InvalidVaultTag))
    } else if spec_validate_config(v.base_mint, v.share_mint, v.base_decimals, v.performance_fee_bps, v.withdrawal_buffer_bps) is Err {
        spec_validate_config(v.base_mint, v.share_mint, v.base_decimals, v.performance_fee_bps, v.withdrawal_buffer_bps)
    } else if !oracle_config_valid(v.base_oracle) {
        Err(program_error(RoshiError::InvalidVaultState))
    } else if !controls_valid(v.controls) {
        Err(program_error(RoshiError::InvalidBps))
    } else if v.locked_profit > v.total_assets || v.profit_unlock_start_ts > v.profit_unlock_end_ts {
        Err(program_error(RoshiError::InvalidVaultState))
    } else if !(flag_valid(v.deposits_paused_flag) && flag_valid(v.withdrawals_paused_flag) && flag_valid(v.manage_paused_flag)
        && flag_valid(v.private_flag) && flag_valid(v.external_enabled_flag)) {
        Err(program_error(RoshiError::InvalidVaultState))
    } else {
        Ok(())
    }
}

/// Whether a vault passes [`Vault::validate_state`].
pub open spec fn vault_state_valid(v: Vault) -> bool {
    spec_validate_state(v) is Ok
}

/// The outcome of requiring strategy execution to be unpaused: a paused
/// vault refuses it, and an unreadable flag is invalid state.
pub open spec fn manage_enabled_check(vault: Vault) -> Result<(), ProgramError> {
    match spec_flag_to_bool(vault.manage_paused_flag, RoshiError::InvalidVaultState) {
        Ok(true) => Err(program_error(RoshiError::VaultPaused)),
        Ok(false) => Ok(()),
        Err(error) => Err(error),
    }
}

/// The outcome of requiring `vault_key` to be the vault's derived address,
/// stored with its derived bump: a tag of 0 or more than 32 bytes is
/// invalid, and seeds that yield no address are refused.
pub open spec fn vault_address_check(vault: Vault, vault_key: [u8; 32]) -> Result<(), ProgramError> {
    if !(1 <= vault.tag_len <= VAULT_MAX_TAG_LEN) {
        Err(program_error(RoshiError::InvalidVaultTag))
    } else {
        match program_address(
            seq![vault_seed(), vault.tag@.subrange(0, vault.tag_len as int), vault.base_mint@],
            ID@,
        ) {
            Some((key, bump)) => if key != vault_key@ || bump != vault.bump {
                Err(ProgramError::InvalidSeeds)
            } else {
                Ok(())
            },
            None => Err(ProgramError::InvalidSeeds),
        }
    }
}

/// `a - b` clamped to the `i64` range.
pub open spec fn saturating_diff(a: i64, b: i64) -> int {
    if a - b > i64::MAX {
        i64::MAX as int
    } else if a - b < i64::MIN {
        i64::MIN as int
    } else {
        a - b
    }
}

/// Outcome of [`Vault::remaining_locked_profit`]: the full locked profit
/// until the window starts, decaying linearly to zero at the window end.
pub open spec fn spec_remaining_locked_profit(v: Vault, now: i64) -> Result<u64, ProgramError> {
    let start = v.profit_unlock_start_ts as int;
    let end = v.profit_unlock_end_ts as int;
    if now >= end {
        Ok(0)
    } else if now <= start {
        Ok(v.locked_profit)
    } else if end - start > i64::MAX {
        Err(program_error(RoshiError::Overflow))
    } else {
        Ok((v.locked_profit * (end - now) / (end - start)) as u64)
    }
}

/// Outcome of [`Vault::effective_total_assets`]: total assets minus the
/// profit still dripping.
pub open spec fn spec_effective_total_assets(v: Vault, now: i64) -> Result<u64, ProgramError> {
    match spec_remaining_locked_profit(v, now) {
        Ok(remaining) => if remaining > v.total_assets {
            Err(program_error(RoshiError::InvalidVaultState))
        } else {
            Ok((v.total_assets - remaining) as u64)
        },
        Err(error) => Err(error),
    }
}

/// Outcome of [`Vault::debit_assets_at_effective`]: the debited vault,
/// re-anchored at `now` with the still-locked remainder.
pub open spec fn spec_debit_assets_at_effective(v: Vault, amount: u64, now: i64) -> Result<Vault, ProgramError> {
    match spec_remaining_locked_profit(v, now) {
        Err(error) => Err(error),
        Ok(remaining) => if remaining > v.total_assets || amount > v.total_assets - remaining {
            Err(program_error(RoshiError::InvalidVaultState))
        } else {
            Ok(Vault {
                total_assets: (v.total_assets - amount) as u64,
                locked_profit: remaining,
                profit_unlock_start_ts: if remaining > 0 {
                    now
                } else {
                    v.profit_unlock_start_ts
                },
                ..v
            })
        },
    }
}

/// Outcome of [`Vault::apply_reported_nav`]: the vault after the call and the
/// result. A gain re-locks over the span it was earned in (clamped by the
/// unlock control); a loss is recognized instantly. When the unlock end
/// overflows, the locked amount and start are already written.
pub open spec fn spec_apply_reported_nav(v: Vault, net_total_assets: u64, now: i64) -> (Vault, Result<(), ProgramError>) {
    match spec_effective_total_assets(v, now) {
        Err(error) => (v, Err(error)),
        Ok(prior) => if net_total_assets > prior {
            let gain = (net_total_assets - prior) as u64;
            let elapsed = if saturating_diff(now, v.last_update_ts) > 0 {
                saturating_diff(now, v.last_update_ts)
            } else {
                0
            };
            let window = if elapsed < v.controls.max_unlock_duration_secs {
                elapsed
            } else {
                v.controls.max_unlock_duration_secs as int
            };
            let locked = if window == 0 {
                0u64
            } else {
                gain
            };
            if now + window > i64::MAX {
                (Vault { locked_profit: locked, profit_unlock_start_ts: now, ..v }, Err(program_error(RoshiError::Overflow)))
            } else {
                (
                    Vault {
                        locked_profit: locked,
                        profit_unlock_start_ts: now,
                        profit_unlock_end_ts: (now + window) as i64,
                        total_assets: net_total_assets,
                        ..v
                    },
                    Ok(()),
                )
            }
        } else {
            (
                Vault {
                    locked_profit: 0,
                    profit_unlock_start_ts: now,
                    profit_unlock_end_ts: now,
                    total_assets: net_total_assets,
                    ..v
                },
                Ok(()),
            )
        },
    }
}

/// Outcome of [`Vault::verify_nav_gain_bound`].
pub open spec fn spec_verify_nav_gain_bound(v: Vault, net_total_assets: u64, economic_share_supply: u64) -> Result<(), ProgramError> {
    if v.controls.max_nav_gain_bps == 0 || economic_share_supply == 0 {
        Ok(())
    } else {
        match spec_share_price_from_assets(v.total_assets, economic_share_supply) {
            Err(error) => Err(program_error(error)),
            Ok(pre_price) => if pre_price == 0 {
                Ok(())
            } else {
                match spec_share_price_from_assets(net_total_assets, economic_share_supply) {
                    Err(error) => Err(program_error(error)),
                    Ok(new_price) => {
                        let max_price = pre_price * (BPS_DENOMINATOR + v.controls.max_nav_gain_bps) / (BPS_DENOMINATOR as int);
                        if max_price > u64::MAX {
                            Err(program_error(RoshiError::ResultDoesNotFit))
                        } else if new_price > max_price {
                            Err(program_error(RoshiError::NavGainExceedsBound))
                        } else {
                            Ok(())
                        }
                    },
                }
            },
        }
    }
}

/// The signing key a role must match.
pub open spec fn role_authority(v: Vault, role: Role) -> [u8; 32] {
    match role {
        Role::Admin => v.admin,
        Role::Strategist => v.strategist,
        Role::NavAuthority => v.nav_authority,
        Role::WithdrawalAuthority => v.withdrawal_authority,
    }
}

/// Whether `depositor` may deposit: anyone into a public vault, holders of a
/// valid access proof into a private one, nobody when the flag is corrupt.
pub open spec fn spec_allows_depositor(v: Vault, depositor: Seq<u8>, proof: Seq<[u8; 32]>) -> bool {
    if v.private_flag == FALSE {
        true
    } else if v.private_flag == TRUE {
        proof_verifies(depositor, v.access_merkle_root@, proof)
    } else {
        false
    }
}

fn flag(value: bool) -> (r: u8)
    ensures
        r == flag_byte(value),
{
    bool_to_flag(value)
}

fn bool_flag(flag: u8) -> (r: Result<bool, ProgramError>)
    ensures
        r == spec_flag_to_bool(flag, RoshiError::InvalidVaultState),
{
    flag_to_bool(flag, RoshiError::InvalidVaultState)
}

/// `a - b` clamped to the `i64` range.
fn saturating_sub_i64(a: i64, b: i64) -> (r: i64)
    ensures
        r == saturating_diff(a, b),
{
    match a.checked_sub(b) {
        Some(difference) => difference,
        None => if b < 0 {
            i64::MAX
        } else {
            i64::MIN
        },
    }
}

/// Whether a tag length is acceptable.
fn validate_tag(tag: &[u8]) -> (r: Result<(), ProgramError>)
    ensures
        r is Ok <==> 1 <= tag@.len() <= VAULT_MAX_TAG_LEN,
        r is Err ==> r == Err::<(), ProgramError>(program_error(RoshiError::InvalidVaultTag)),
{
    if tag.len() == 0 || tag.len() > VAULT_MAX_TAG_LEN {
        return Err(ProgramError::from(RoshiError::InvalidVaultTag));
    }
    Ok(())
}

impl Vault {
    /// A freshly initialized vault with zeroed accounting and flags.
    pub fn new(
        tag: &[u8],
        admin: [u8; 32],
        strategist: [u8; 32],
        nav_authority: [u8; 32],
        withdrawal_authority: [u8; 32],
        base_mint: [u8; 32],
        share_mint: [u8; 32],
        base_decimals: u8,
        base_oracle: OracleConfig,
        deposit_sub_account: u8,
        withdraw_sub_account: u8,
        treasury: [u8; 32],
        performance_fee_bps: u16,
        withdrawal_buffer_bps: u16,
        controls: VaultControls,
        private: bool,
        access_merkle_root: [u8; 32],
        bump: u8,
    ) -> (r: Result<Self, ProgramError>)
        ensures
            spec_validate_config(base_mint, share_mint, base_decimals, performance_fee_bps, withdrawal_buffer_bps) is Err
                ==> r == Err::<Vault, ProgramError>(spec_validate_config(base_mint, share_mint, base_decimals, performance_fee_bps, withdrawal_buffer_bps)->Err_0),
            spec_validate_config(base_mint, share_mint, base_decimals, performance_fee_bps, withdrawal_buffer_bps) is Ok && !controls_valid(controls)
                ==> r == Err::<Vault, ProgramError>(program_error(RoshiError::InvalidBps)),
            spec_validate_config(base_mint, share_mint, base_decimals, performance_fee_bps, withdrawal_buffer_bps) is Ok && controls_valid(controls)
                && !oracle_config_valid(base_oracle) ==> r == Err::<Vault, ProgramError>(program_error(RoshiError::InvalidVaultState)),
            spec_validate_config(base_mint, share_mint, base_decimals, performance_fee_bps, withdrawal_buffer_bps) is Ok && controls_valid(controls)
                && oracle_config_valid(base_oracle) && !(1 <= tag@.len() <= VAULT_MAX_TAG_LEN)
                ==> r == Err::<Vault, ProgramError>(program_error(RoshiError::InvalidVaultTag)),
            spec_validate_config(base_mint, share_mint, base_decimals, performance_fee_bps, withdrawal_buffer_bps) is Ok && controls_valid(controls)
                && oracle_config_valid(base_oracle) && 1 <= tag@.len() <= VAULT_MAX_TAG_LEN ==> r is Ok,
            r matches Ok(v) ==> {
                &&& spec_validate_config(base_mint, share_mint, base_decimals, performance_fee_bps, withdrawal_buffer_bps) is Ok
                &&& controls_valid(controls) && oracle_config_valid(base_oracle)
                &&& 1 <= tag@.len() <= VAULT_MAX_TAG_LEN
                &&& v.tag_len == tag@.len() && v.tag@ == tag@ + zeros((32 - tag@.len()) as nat)
                &&& v.admin == admin && v.strategist == strategist && v.nav_authority == nav_authority
                &&& v.withdrawal_authority == withdrawal_authority && v.base_mint == base_mint && v.share_mint == share_mint
                &&& v.base_decimals == base_decimals && v.base_oracle == base_oracle
                &&& v.deposit_sub_account == deposit_sub_account && v.withdraw_sub_account == withdraw_sub_account
                &&& v.treasury == treasury && v.performance_fee_bps == performance_fee_bps
                &&& v.withdrawal_buffer_bps == withdrawal_buffer_bps && v.controls == controls
                &&& v.access_merkle_root == access_merkle_root && v.bump == bump
                &&& v.total_assets == 0 && v.external_assets == 0 && v.pending_withdrawal_assets == 0
                &&& v.fees_payable == 0 && v.high_watermark == 0 && v.report_epoch == 0
                &&& v.requested_withdrawal_shares == 0 && v.last_update_ts == 0 && v.locked_profit == 0
                &&& v.profit_unlock_start_ts == 0 && v.profit_unlock_end_ts == 0
                &&& v.last_report_hash@ == zeros(32) && v._padding@ == zeros(2)
                &&& v.deposits_paused_flag == FALSE && v.withdrawals_paused_flag == FALSE
                &&& v.manage_paused_flag == FALSE && v.private_flag == flag_byte(private)
                &&& v.external_enabled_flag == FALSE
                &&& vault_state_valid(v)
            },
    {
        match Self::validate_config(base_mint, share_mint, base_decimals, performance_fee_bps, withdrawal_buffer_bps) {
            Ok(()) => {},
            Err(error) => {
                return Err(error);
            },
        }
        match controls.validate() {
            Ok(()) => {},
            Err(error) => {
                return Err(error);
            },
        }
        if base_oracle.validate().is_err() {
            return Err(ProgramError::from(RoshiError::InvalidVaultState));
        }
        let (tag, tag_len) = match Self::pack_tag(tag) {
            Ok(packed) => packed,
            Err(error) => {
                return Err(error);
            },
        };
        let v = Vault {
            base_oracle,
            total_assets: 0,
            external_assets: 0,
            pending_withdrawal_assets: 0,
            fees_payable: 0,
            high_watermark: 0,
            report_epoch: 0,
            requested_withdrawal_shares: 0,
            last_update_ts: 0,
            locked_profit: 0,
            profit_unlock_start_ts: 0,
            profit_unlock_end_ts: 0,
            tag,
            admin,
            strategist,
            nav_authority,
            withdrawal_authority,
            base_mint,
            share_mint,
            treasury,
            last_report_hash: [0u8; 32],
            access_merkle_root,
            controls,
            performance_fee_bps,
            withdrawal_buffer_bps,
            tag_len,
            base_decimals,
            deposit_sub_account,
            withdraw_sub_account,
            deposits_paused_flag: flag(false),
            withdrawals_paused_flag: flag(false),
            manage_paused_flag: flag(false),
            private_flag: flag(private),
            external_enabled_flag: flag(false),
            bump,
            _padding: [0u8; 2],
        };
        assert(v.last_report_hash@ =~= zeros(32));
        assert(v._padding@ =~= zeros(2));
        Ok(v)
    }

    /// Check the static configuration: percentage fees, distinct base and
    /// share mints, and base decimals no larger than the share decimals.
    pub fn validate_config(base_mint: [u8; 32], share_mint: [u8; 32], base_decimals: u8, performance_fee_bps: u16, withdrawal_buffer_bps: u16) -> (r: Result<(), ProgramError>)
        ensures
            r == spec_validate_config(base_mint, share_mint, base_decimals, performance_fee_bps, withdrawal_buffer_bps),
    {
        if performance_fee_bps > BPS_DENOMINATOR || withdrawal_buffer_bps > BPS_DENOMINATOR {
            return Err(ProgramError::from(RoshiError::InvalidBps));
        }
        if bytes32_eq(&base_mint, &share_mint) {
            return Err(ProgramError::InvalidArgument);
        }
        if base_decimals > SHARE_DECIMALS {
            return Err(ProgramError::from(RoshiError::InvalidDecimals));
        }
        Ok(())
    }

    /// Pack a 1..=32 byte tag into the fixed tag field, zero padded.
    pub fn pack_tag(tag: &[u8]) -> (r: Result<([u8; 32], u8), ProgramError>)
        ensures
            r is Ok <==> 1 <= tag@.len() <= VAULT_MAX_TAG_LEN,
            r is Err ==> r == Err::<([u8; 32], u8), ProgramError>(program_error(RoshiError::InvalidVaultTag)),
            r matches Ok((packed, len)) ==> len == tag@.len() && packed@ == tag@ + zeros((32 - tag@.len()) as nat),
    {
        match validate_tag(tag) {
            Ok(()) => {},
            Err(error) => {
                return Err(error);
            },
        }
        let mut packed = [0u8; 32];
        let mut index: usize = 0;
        while index < tag.len()
            invariant
                tag@.len() <= 32,
                index <= tag@.len(),
                packed@.len() == 32,
                forall|i: int| 0 <= i < index ==> packed@[i] == tag@[i],
                forall|i: int| index <= i < 32 ==> packed@[i] == 0,
            decreases tag@.len() - index,
        {
            packed[index] = tag[index];
            index = index + 1;
        }
        assert(packed@ =~= tag@ + zeros((32 - tag@.len()) as nat));
        Ok((packed, tag.len() as u8))
    }

    /// The first `tag_len` bytes of a packed tag.
    pub fn unpack_tag(tag: &[u8; 32], tag_len: u8) -> (r: Result<&[u8], ProgramError>)
        ensures
            r is Ok <==> 1 <= tag_len <= VAULT_MAX_TAG_LEN,
            r is Err ==> r == Err::<&[u8], ProgramError>(program_error(RoshiError::InvalidVaultTag)),
            r matches Ok(seed) ==> seed@ == tag@.subrange(0, tag_len as int),
    {
        if tag_len as usize > VAULT_MAX_TAG_LEN {
            return Err(ProgramError::from(RoshiError::InvalidVaultTag));
        }
        let seed = vstd::slice::slice_subrange(tag.as_slice(), 0, tag_len as usize);
        match validate_tag(seed) {
            Ok(()) => Ok(seed),
            Err(error) => Err(error),
        }
    }

    /// This vault's tag as a PDA seed.
    pub fn tag_seed(&self) -> (r: Result<&[u8], ProgramError>)
        ensures
            r is Ok <==> 1 <= self.tag_len <= VAULT_MAX_TAG_LEN,
            r is Err ==> r == Err::<&[u8], ProgramError>(program_error(RoshiError::InvalidVaultTag)),
            r matches Ok(seed) ==> seed@ == self.tag@.subrange(0, self.tag_len as int),
    {
        Self::unpack_tag(&self.tag, self.tag_len)
    }

    /// The key that holds `role`.
    pub fn authority_for_role(&self, role: Role) -> (r: [u8; 32])
        ensures
            r == role_authority(*self, role),
    {
        match role {
            Role::Admin => self.admin,
            Role::Strategist => self.strategist,
            Role::NavAuthority => self.nav_authority,
            Role::WithdrawalAuthority => self.withdrawal_authority,
        }
    }

    /// Whether `signer` holds `role`.
    pub fn has_role(&self, role: Role, signer: &[u8; 32]) -> (r: bool)
        ensures
            r == (role_authority(*self, role) == *signer),
    {
        let authority = self.authority_for_role(role);
        bytes32_eq(&authority, signer)
    }

    /// The economic share supply: circulating shares plus the shares already
    /// burned for in-flight withdrawals.
    pub fn economic_share_supply(&self, active_share_supply: u64) -> (r: Result<u64, ProgramError>)
        ensures
            r == (if active_share_supply + self.requested_withdrawal_shares > u64::MAX {
                Err(program_error(RoshiError::Overflow))
            } else {
                Ok::<u64, ProgramError>((active_share_supply + self.requested_withdrawal_shares) as u64)
            }),
    {
        match active_share_supply.checked_add(self.requested_withdrawal_shares) {
            Some(supply) => Ok(supply),
            None => Err(ProgramError::from(RoshiError::Overflow)),
        }
    }

    /// Reported profit still locked at `now`: the full `locked_profit` until
    /// the window starts, decaying linearly to zero at the window end.
    pub fn remaining_locked_profit(&self, now: i64) -> (r: Result<u64, ProgramError>)
        ensures
            r == spec_remaining_locked_profit(*self, now),
            r matches Ok(remaining) ==> remaining <= self.locked_profit,
    {
        if now >= self.profit_unlock_end_ts {
            return Ok(0);
        }
        if now <= self.profit_unlock_start_ts {
            return Ok(self.locked_profit);
        }
        let window = match self.profit_unlock_end_ts.checked_sub(self.profit_unlock_start_ts) {
            Some(span) => span as u128,
            None => {
                return Err(ProgramError::from(RoshiError::Overflow));
            },
        };
        let left = (self.profit_unlock_end_ts - now) as u128;
        proof {
            lemma_scaled_remainder(self.locked_profit as int, left as int, window as int);
        }
        match mul_div_floor(self.locked_profit as u128, left, window) {
            Ok(remaining) => match checked_u64(remaining) {
                Ok(remaining) => Ok(remaining),
                Err(error) => Err(ProgramError::from(error)),
            },
            Err(error) => Err(ProgramError::from(error)),
        }
    }

    /// Share-pricing NAV at `now`: `total_assets` minus the profit still
    /// dripping.
    pub fn effective_total_assets(&self, now: i64) -> (r: Result<u64, ProgramError>)
        ensures
            r == spec_effective_total_assets(*self, now),
    {
        let remaining = match self.remaining_locked_profit(now) {
            Ok(remaining) => remaining,
            Err(error) => {
                return Err(error);
            },
        };
        match self.total_assets.checked_sub(remaining) {
            Some(effective) => Ok(effective),
            None => Err(ProgramError::from(RoshiError::InvalidVaultState)),
        }
    }

    /// Pay `amount` (priced at the effective NAV) out of the vault at `now`,
    /// re-anchoring the unlock window at `now` with the still-locked
    /// remainder. On error the vault is unchanged.
    pub fn debit_assets_at_effective(&mut self, amount: u64, now: i64) -> (r: Result<(), ProgramError>)
        ensures
            match spec_debit_assets_at_effective(*old(self), amount, now) {
                Ok(debited) => r is Ok && *final(self) == debited,
                Err(error) => r == Err::<(), ProgramError>(error) && *final(self) == *old(self),
            },
    {
        let remaining = match self.remaining_locked_profit(now) {
            Ok(remaining) => remaining,
            Err(error) => {
                return Err(error);
            },
        };
        let effective = match self.total_assets.checked_sub(remaining) {
            Some(effective) => effective,
            None => {
                return Err(ProgramError::from(RoshiError::InvalidVaultState));
            },
        };
        if amount > effective {
            return Err(ProgramError::from(RoshiError::InvalidVaultState));
        }
        self.total_assets = self.total_assets - amount;
        self.locked_profit = remaining;
        if remaining > 0 {
            self.profit_unlock_start_ts = now;
        }
        Ok(())
    }

    /// Recognize a report's post-fee NAV at `now`. A gain re-locks in full,
    /// rolling any unfinished drip forward, over the span it was earned in,
    /// clamped to `controls.max_unlock_duration_secs`. A loss recognizes
    /// instantly.
    pub fn apply_reported_nav(&mut self, net_total_assets: u64, now: i64) -> (r: Result<(), ProgramError>)
        ensures
            (*final(self), r) == spec_apply_reported_nav(*old(self), net_total_assets, now),
    {
        let prior_effective = match self.effective_total_assets(now) {
            Ok(prior) => prior,
            Err(error) => {
                return Err(error);
            },
        };
        if net_total_assets > prior_effective {
            let gain = net_total_assets - prior_effective;
            let since = saturating_sub_i64(now, self.last_update_ts);
            let elapsed = if since > 0 {
                since
            } else {
                0
            };
            let clamp = self.controls.max_unlock_duration_secs as i64;
            let window = if elapsed < clamp {
                elapsed
            } else {
                clamp
            };
            if window == 0 {
                self.locked_profit = 0;
            } else {
                self.locked_profit = gain;
            }
            self.profit_unlock_start_ts = now;
            self.profit_unlock_end_ts = match now.checked_add(window) {
                Some(end) => end,
                None => {
                    return Err(ProgramError::from(RoshiError::Overflow));
                },
            };
        } else {
            self.locked_profit = 0;
            self.profit_unlock_start_ts = now;
            self.profit_unlock_end_ts = now;
        }
        self.total_assets = net_total_assets;
        Ok(())
    }

    /// Staleness gate for atomic redeems: reject when the last report is
    /// older than `controls.max_report_age_secs`. Pre-first-report vaults and
    /// a disabled control are exempt.
    pub fn verify_report_fresh(&self, now: i64) -> (r: Result<(), ProgramError>)
        ensures
            r == (if self.report_epoch == 0 || self.controls.max_report_age_secs == 0 {
                Ok(())
            } else if saturating_diff(now, self.last_update_ts) > self.controls.max_report_age_secs {
                Err(program_error(RoshiError::StaleNavReport))
            } else {
                Ok::<(), ProgramError>(())
            }),
    {
        let max_age = self.controls.max_report_age_secs as i64;
        if self.report_epoch == 0 || max_age == 0 {
            return Ok(());
        }
        if saturating_sub_i64(now, self.last_update_ts) > max_age {
            return Err(ProgramError::from(RoshiError::StaleNavReport));
        }
        Ok(())
    }

    /// Report rate limit: reject reports arriving sooner than
    /// `controls.min_report_interval_secs` after the previous one. The first
    /// report and a disabled control are exempt.
    pub fn verify_report_interval(&self, now: i64) -> (r: Result<(), ProgramError>)
        ensures
            r == (if self.report_epoch == 0 || self.controls.min_report_interval_secs == 0 {
                Ok(())
            } else if saturating_diff(now, self.last_update_ts) < self.controls.min_report_interval_secs {
                Err(program_error(RoshiError::ReportTooFrequent))
            } else {
                Ok::<(), ProgramError>(())
            }),
    {
        let interval = self.controls.min_report_interval_secs as i64;
        if self.report_epoch == 0 || interval == 0 {
            return Ok(());
        }
        if saturating_sub_i64(now, self.last_update_ts) < interval {
            return Err(ProgramError::from(RoshiError::ReportTooFrequent));
        }
        Ok(())
    }

    /// NAV gain bound: a report may not raise the net share price by more
    /// than `controls.max_nav_gain_bps` vs. the stored pre-report price. No
    /// downward bound. Skipped when the control is off, the supply is zero or
    /// the stored price is zero.
    pub fn verify_nav_gain_bound(&self, net_total_assets: u64, economic_share_supply: u64) -> (r: Result<(), ProgramError>)
        ensures
            r == spec_verify_nav_gain_bound(*self, net_total_assets, economic_share_supply),
    {
        if self.controls.max_nav_gain_bps == 0 || economic_share_supply == 0 {
            return Ok(());
        }
        let pre_price = match share_price_from_assets(self.total_assets, economic_share_supply) {
            Ok(price) => price,
            Err(error) => {
                return Err(ProgramError::from(error));
            },
        };
        if pre_price == 0 {
            return Ok(());
        }
        let new_price = match share_price_from_assets(net_total_assets, economic_share_supply) {
            Ok(price) => price,
            Err(error) => {
                return Err(ProgramError::from(error));
            },
        };
        proof {
            assert(pre_price * (BPS_DENOMINATOR + self.controls.max_nav_gain_bps) <= u64::MAX * 80_000) by (nonlinear_arith)
                requires
                    pre_price <= u64::MAX,
                    self.controls.max_nav_gain_bps <= u16::MAX,
            ;
        }
        let scaled = match mul_div_floor(
            pre_price as u128,
            BPS_DENOMINATOR as u128 + self.controls.max_nav_gain_bps as u128,
            BPS_DENOMINATOR as u128,
        ) {
            Ok(scaled) => scaled,
            Err(error) => {
                return Err(ProgramError::from(error));
            },
        };
        let max_price = match checked_u64(scaled) {
            Ok(max_price) => max_price,
            Err(error) => {
                return Err(ProgramError::from(error));
            },
        };
        if new_price > max_price {
            return Err(ProgramError::from(RoshiError::NavGainExceedsBound));
        }
        Ok(())
    }

    /// The seeds of the vault for `tag` and `base_mint`.
    fn address_seeds(tag: &[u8], base_mint: &[u8; 32]) -> (r: Vec<Vec<u8>>)
        ensures
            seeds_view(r@) == seq![vault_seed(), tag@, base_mint@],
    {
        let mut seeds: Vec<Vec<u8>> = Vec::new();
        seeds.push(vault_seed_bytes());
        seeds.push(seed_from(tag));
        seeds.push(seed_from(base_mint));
        assert(seeds_view(seeds@) =~= seq![vault_seed(), tag@, base_mint@]);
        seeds
    }

    /// The vault address for `tag` and `base_mint`, derived from
    /// `["vault", tag, base_mint]`; the tag must be 1 to 32 bytes, and the
    /// seeds of an acceptable tag must yield an address.
    pub fn find_address(tag: &[u8], base_mint: &[u8; 32]) -> (r: Result<([u8; 32], u8), ProgramError>)
        requires
            1 <= tag@.len() <= VAULT_MAX_TAG_LEN ==> program_address(seq![vault_seed(), tag@, base_mint@], ID@) is Some,
        ensures
            !(1 <= tag@.len() <= VAULT_MAX_TAG_LEN) ==> r == Err::<([u8; 32], u8), ProgramError>(
                program_error(RoshiError::InvalidVaultTag),
            ),
            1 <= tag@.len() <= VAULT_MAX_TAG_LEN ==> (r matches Ok((key, bump))
                && program_address(seq![vault_seed(), tag@, base_mint@], ID@) == Some((key@, bump))),
    {
        match validate_tag(tag) {
            Ok(()) => {},
            Err(error) => {
                return Err(error);
            },
        }
        match find_program_address(&Self::address_seeds(tag, base_mint)) {
            Some(found) => Ok(found),
            None => {
                assert(false);
                Err(ProgramError::InvalidSeeds)
            },
        }
    }

    /// The vault address for `tag` and `base_mint`, as [`Vault::find_address`],
    /// except that seeds which yield no address are refused as invalid seeds.
    pub fn try_find_address(tag: &[u8], base_mint: &[u8; 32]) -> (r: Result<([u8; 32], u8), ProgramError>)
        ensures
            !(1 <= tag@.len() <= VAULT_MAX_TAG_LEN) ==> r == Err::<([u8; 32], u8), ProgramError>(
                program_error(RoshiError::InvalidVaultTag),
            ),
            1 <= tag@.len() <= VAULT_MAX_TAG_LEN ==> match program_address(seq![vault_seed(), tag@, base_mint@], ID@) {
                Some((key, bump)) => r matches Ok((k, b)) && k@ == key && b == bump,
                None => r == Err::<([u8; 32], u8), ProgramError>(ProgramError::InvalidSeeds),
            },
    {
        match validate_tag(tag) {
            Ok(()) => {},
            Err(error) => {
                return Err(error);
            },
        }
        match find_program_address(&Self::address_seeds(tag, base_mint)) {
            Some(_) => Self::find_address(tag, base_mint),
            None => Err(ProgramError::InvalidSeeds),
        }
    }

    /// `vault_key` must be this vault's derived address, stored with its
    /// derived bump. The seeds of an acceptable tag must yield an address.
    pub fn verify_address(&self, vault_key: &[u8; 32]) -> (r: Result<(), ProgramError>)
        requires
            1 <= self.tag_len <= VAULT_MAX_TAG_LEN ==> program_address(
                seq![vault_seed(), self.tag@.subrange(0, self.tag_len as int), self.base_mint@],
                ID@,
            ) is Some,
        ensures
            !(1 <= self.tag_len <= VAULT_MAX_TAG_LEN) ==> r == Err::<(), ProgramError>(
                program_error(RoshiError::InvalidVaultTag),
            ),
            1 <= self.tag_len <= VAULT_MAX_TAG_LEN ==> match program_address(
                seq![vault_seed(), self.tag@.subrange(0, self.tag_len as int), self.base_mint@],
                ID@,
            ) {
                Some((key, bump)) => r == (if key != vault_key@ || bump != self.bump {
                    Err::<(), ProgramError>(ProgramError::InvalidSeeds)
                } else {
                    Ok(())
                }),
                None => r is Err,
            },
    {
        let seed = match self.tag_seed() {
            Ok(seed) => seed,
            Err(error) => {
                return Err(error);
            },
        };
        let (expected, expected_bump) = match Vault::find_address(seed, &self.base_mint) {
            Ok(found) => found,
            Err(error) => {
                return Err(error);
            },
        };
        if !bytes32_eq(vault_key, &expected) || self.bump != expected_bump {
            return Err(ProgramError::InvalidSeeds);
        }
        Ok(())
    }

    /// As [`Vault::verify_address`], except that seeds which yield no address
    /// are refused as invalid seeds.
    pub fn try_verify_address(&self, vault_key: &[u8; 32]) -> (r: Result<(), ProgramError>)
        ensures
            r == vault_address_check(*self, *vault_key),
            !(1 <= self.tag_len <= VAULT_MAX_TAG_LEN) ==> r == Err::<(), ProgramError>(
                program_error(RoshiError::InvalidVaultTag),
            ),
            1 <= self.tag_len <= VAULT_MAX_TAG_LEN ==> match program_address(
                seq![vault_seed(), self.tag@.subrange(0, self.tag_len as int), self.base_mint@],
                ID@,
            ) {
                Some((key, bump)) => r == (if key != vault_key@ || bump != self.bump {
                    Err::<(), ProgramError>(ProgramError::InvalidSeeds)
                } else {
                    Ok(())
                }),
                None => r == Err::<(), ProgramError>(ProgramError::InvalidSeeds),
            },
    {
        let seed = match self.tag_seed() {
            Ok(seed) => seed,
            Err(error) => {
                return Err(error);
            },
        };
        match Vault::try_find_address(seed, &self.base_mint) {
            Ok(_) => self.verify_address(vault_key),
            Err(error) => Err(error),
        }
    }

    /// Base custody only moves through the vault's current deposit and
    /// withdraw sub-accounts.
    pub fn verify_idle_sub_account(&self, sub_account: u8) -> (r: Result<(), ProgramError>)
        ensures
            r == (if sub_account == self.deposit_sub_account || sub_account == self.withdraw_sub_account {
                Ok(())
            } else {
                Err::<(), ProgramError>(program_error(RoshiError::InvalidSubAccount))
            }),
    {
        if sub_account == self.deposit_sub_account || sub_account == self.withdraw_sub_account {
            return Ok(());
        }
        Err(ProgramError::from(RoshiError::InvalidSubAccount))
    }

    /// Reject strategy execution while manage is paused.
    pub fn verify_manage_enabled(&self) -> (r: Result<(), ProgramError>)
        ensures
            r == manage_enabled_check(*self),
    {
        match self.manage_paused() {
            Ok(true) => Err(ProgramError::from(RoshiError::VaultPaused)),
            Ok(false) => Ok(()),
            Err(error) => Err(error),
        }
    }

    /// Whether `depositor` may deposit into this vault with `proof`.
    pub fn allows_depositor(&self, depositor: &[u8; 32], proof: &[[u8; 32]]) -> (r: bool)
        ensures
            r == spec_allows_depositor(*self, depositor@, proof@),
    {
        match self.private() {
            Ok(false) => true,
            Ok(true) => verify_access_merkle_proof(depositor, &self.access_merkle_root, proof),
            Err(_) => false,
        }
    }

    pub fn deposits_paused(&self) -> (r: Result<bool, ProgramError>)
        ensures
            r == spec_flag_to_bool(self.deposits_paused_flag, RoshiError::InvalidVaultState),
    {
        bool_flag(self.deposits_paused_flag)
    }

    pub fn withdrawals_paused(&self) -> (r: Result<bool, ProgramError>)
        ensures
            r == spec_flag_to_bool(self.withdrawals_paused_flag, RoshiError::InvalidVaultState),
    {
        bool_flag(self.withdrawals_paused_flag)
    }

    pub fn manage_paused(&self) -> (r: Result<bool, ProgramError>)
        ensures
            r == spec_flag_to_bool(self.manage_paused_flag, RoshiError::InvalidVaultState),
    {
        bool_flag(self.manage_paused_flag)
    }

    pub fn private(&self) -> (r: Result<bool, ProgramError>)
        ensures
            r == spec_flag_to_bool(self.private_flag, RoshiError::InvalidVaultState),
    {
        bool_flag(self.private_flag)
    }

    pub fn external_enabled(&self) -> (r: Result<bool, ProgramError>)
        ensures
            r == spec_flag_to_bool(self.external_enabled_flag, RoshiError::InvalidVaultState),
    {
        bool_flag(self.external_enabled_flag)
    }

    pub fn set_deposits_paused(&mut self, deposits_paused: bool)
        ensures
            *final(self) == (Vault { deposits_paused_flag: flag_byte(deposits_paused), ..*old(self) }),
    {
        self.deposits_paused_flag = flag(deposits_paused);
    }

    pub fn set_withdrawals_paused(&mut self, withdrawals_paused: bool)
        ensures
            *final(self) == (Vault { withdrawals_paused_flag: flag_byte(withdrawals_paused), ..*old(self) }),
    {
        self.withdrawals_paused_flag = flag(withdrawals_paused);
    }

    pub fn set_manage_paused(&mut self, manage_paused: bool)
        ensures
            *final(self) == (Vault { manage_paused_flag: flag_byte(manage_paused), ..*old(self) }),
    {
        self.manage_paused_flag = flag(manage_paused);
    }

    pub fn set_private(&mut self, private: bool)
        ensures
            *final(self) == (Vault { private_flag: flag_byte(private), ..*old(self) }),
    {
        self.private_flag = flag(private);
    }

    pub fn set_external_enabled(&mut self, external_enabled: bool)
        ensures
            *final(self) == (Vault { external_enabled_flag: flag_byte(external_enabled), ..*old(self) }),
    {
        self.external_enabled_flag = flag(external_enabled);
    }

    /// Check every stored invariant of the vault account.
    pub fn validate_state(&self) -> (r: Result<(), ProgramError>)
        ensures
            r == spec_validate_state(*self),
    {
        match Self::unpack_tag(&self.tag, self.tag_len) {
            Ok(_) => {},
            Err(error) => {
                return Err(error);
            },
        }
        match Self::validate_config(self.base_mint, self.share_mint, self.base_decimals, self.performance_fee_bps, self.withdrawal_buffer_bps) {
            Ok(()) => {},
            Err(error) => {
                return Err(error);
            },
        }
        if self.base_oracle.validate().is_err() {
            return Err(ProgramError::from(RoshiError::InvalidVaultState));
        }
        match self.controls.validate() {
            Ok(()) => {},
            Err(error) => {
                return Err(error);
            },
        }
        if self.locked_profit > self.total_assets {
            return Err(ProgramError::from(RoshiError::InvalidVaultState));
        }
        if self.profit_unlock_start_ts > self.profit_unlock_end_ts {
            return Err(ProgramError::from(RoshiError::InvalidVaultState));
        }
        if self.deposits_paused().is_err() || self.withdrawals_paused().is_err() || self.manage_paused().is_err()
            || self.private().is_err() || self.external_enabled().is_err() {
            return Err(ProgramError::from(RoshiError::InvalidVaultState));
        }
        Ok(())
    }
}

// ---------------------------------------------------------------------------
// Laws of the vault accounting.
// ---------------------------------------------------------------------------

proof fn lemma_div_le_mono(a: int, b: int, d: int)
    requires
        0 <= a <= b,
        d > 0,
    ensures
        a / d <= b / d,
        0 <= a / d,
{
    assert(a / d <= b / d && 0 <= a / d) by (nonlinear_arith)
        requires
            0 <= a <= b,
            d > 0,
    ;
}

/// Locked profit never increases with time and never exceeds the locked
/// amount.
pub proof fn law_remaining_locked_profit_is_monotone_and_bounded(v: Vault, early: i64, late: i64)
    requires
        early <= late,
    ensures
        spec_remaining_locked_profit(v, early) matches Ok(earlier) ==> {
            &&& earlier <= v.locked_profit
            &&& spec_remaining_locked_profit(v, late) matches Ok(later) ==> later <= earlier
        },
{
    let s = v.profit_unlock_start_ts as int;
    let e = v.profit_unlock_end_ts as int;
    let l = v.locked_profit as int;
    if s < early < e && e - s <= i64::MAX {
        lemma_scaled_remainder(l, e - early, e - s);
    }
    if s < late < e && e - s <= i64::MAX {
        lemma_scaled_remainder(l, e - late, e - s);
        if early > s {
            assert(l * (e - late) <= l * (e - early)) by (nonlinear_arith)
                requires
                    l >= 0,
                    e - late <= e - early,
            ;
            assert(l * (e - late) >= 0) by (nonlinear_arith)
                requires
                    l >= 0,
                    e - late >= 0,
            ;
            lemma_div_le_mono(l * (e - late), l * (e - early), e - s);
        }
    }
}

/// Paying out at effective NAV (at or after the unlock start) re-anchors the
/// drip without moving the unlock line by more than one atom of floor
/// rounding, debits exactly the amount, and keeps the stored invariants.
pub proof fn law_debit_preserves_unlock_line_within_one_atom(v: Vault, amount: u64, now: i64, t: i64)
    requires
        vault_state_valid(v),
        v.profit_unlock_start_ts <= now <= t,
    ensures
        spec_debit_assets_at_effective(v, amount, now) matches Ok(w) ==> {
            &&& w.total_assets == v.total_assets - amount
            &&& vault_state_valid(w)
            &&& spec_remaining_locked_profit(v, t) matches Ok(before) ==> {
                &&& spec_remaining_locked_profit(w, t) matches Ok(after)
                &&& after <= before
                &&& before <= after + 1
            }
        },
{
    let s = v.profit_unlock_start_ts as int;
    let e = v.profit_unlock_end_ts as int;
    let l = v.locked_profit as int;
    if let Ok(w) = spec_debit_assets_at_effective(v, amount, now) {
        let r = w.locked_profit as int;
        assert(spec_validate_state(w) == spec_validate_state(v));
        if s < now < e {
            lemma_scaled_remainder(l, e - now, e - s);
            if now < t < e && r > 0 {
                let d1 = e - s;
                let d2 = e - now;
                let x = e - t;
                assert(r == l * d2 / d1);
                assert(r * d1 <= l * d2 < (r + 1) * d1) by (nonlinear_arith)
                    requires
                        r == l * d2 / d1,
                        d1 > 0,
                        l * d2 >= 0,
                ;
                lemma_scaled_remainder(l, x, d1);
                lemma_scaled_remainder(r, x, d2);
                let before = l * x / d1;
                let after = r * x / d2;
                assert(after <= before) by (nonlinear_arith)
                    requires
                        r * d1 <= l * d2,
                        after == r * x / d2,
                        before == l * x / d1,
                        0 < x < d2 < d1,
                        r >= 0,
                        l >= 0,
                {
                    assert(after * d2 <= r * x);
                    assert(after * d2 * d1 <= r * x * d1);
                    assert(r * x * d1 <= l * d2 * x);
                    assert(after * d1 * d2 <= l * x * d2);
                    assert(after * d1 <= l * x);
                }
                assert(before <= after + 1) by (nonlinear_arith)
                    requires
                        l * d2 < (r + 1) * d1,
                        after == r * x / d2,
                        before == l * x / d1,
                        0 < x < d2 < d1,
                        r >= 0,
                        l >= 0,
                {
                    assert(before * d1 <= l * x);
                    assert(r * x < (after + 1) * d2);
                    assert(l * x * d2 < (r + 1) * d1 * x);
                    assert((r + 1) * d1 * x == r * x * d1 + x * d1);
                    assert(r * x * d1 < (after + 1) * d2 * d1);
                    assert(x * d1 < d2 * d1);
                    assert(before * d1 * d2 <= l * x * d2);
                    assert(before * d1 * d2 < (after + 2) * d1 * d2);
                }
            }
            if now < t < e && r == 0 {
                lemma_scaled_remainder(l, e - t, e - s);
                assert(l * (e - t) <= l * (e - now)) by (nonlinear_arith)
                    requires
                        l >= 0,
                        e - t <= e - now,
                ;
                assert(l * (e - t) >= 0) by (nonlinear_arith)
                    requires
                        l >= 0,
                        e - t >= 0,
                ;
                lemma_div_le_mono(l * (e - t), l * (e - now), e - s);
                assert(0 * (e - t) == 0);
            }
        }
    }
}

/// Applying a report keeps effective NAV continuous: afterwards the
/// effective NAV at `now` is the reported NAV minus the newly locked profit,
/// the locked profit is either the whole gain over the prior effective NAV
/// or nothing, a loss (no gain) locks nothing, and the stored invariants
/// hold.
pub proof fn law_apply_reported_nav_keeps_effective_nav_continuous(v: Vault, net_total_assets: u64, now: i64)
    requires
        vault_state_valid(v),
    ensures
        spec_apply_reported_nav(v, net_total_assets, now) matches (w, Ok(())) ==> {
            &&& w.total_assets == net_total_assets
            &&& w.locked_profit <= net_total_assets
            &&& spec_effective_total_assets(w, now) == Ok::<u64, ProgramError>((net_total_assets - w.locked_profit) as u64)
            &&& spec_effective_total_assets(v, now) matches Ok(prior) && {
                &&& net_total_assets <= prior ==> w.locked_profit == 0
                &&& net_total_assets > prior ==> (w.locked_profit == 0 || w.locked_profit == net_total_assets - prior)
            }
            &&& vault_state_valid(w)
        },
{
}

/// `floor(locked * left / window)` is at most `locked` and its product fits
/// `u128`, for `left <= window`.
proof fn lemma_scaled_remainder(locked: int, left: int, window: int)
    requires
        0 <= locked <= u64::MAX,
        0 < left <= window <= u64::MAX,
    ensures
        locked * left <= u128::MAX,
        locked * left / window <= locked,
{
    assert(locked * left <= u64::MAX * u64::MAX) by (nonlinear_arith)
        requires
            0 <= locked <= u64::MAX,
            0 < left <= u64::MAX,
    ;
    assert(locked * left / window <= locked) by (nonlinear_arith)
        requires
            0 <= locked,
            0 < left <= window,
    {
        assert(locked * left <= locked * window);
    }
}


/// A vault that passes its state check keeps its fee and buffer rates, and
/// every control rate, within the bps denominator, and its locked profit
/// within its assets.
pub proof fn law_valid_vault_rates_are_bounded(v: Vault)
    requires
        vault_state_valid(v),
    ensures
        v.performance_fee_bps <= BPS_DENOMINATOR,
        v.withdrawal_buffer_bps <= BPS_DENOMINATOR,
        v.controls.atomic_redeem_fee_bps <= BPS_DENOMINATOR,
        v.controls.max_swap_slippage_bps <= BPS_DENOMINATOR,
        v.locked_profit <= v.total_assets,
        v.profit_unlock_start_ts <= v.profit_unlock_end_ts,
{
}

} // verus!
