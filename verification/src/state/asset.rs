//! `Asset` account state: a vault's per-asset oracle registration for a
//! non-base deposit asset.

use vstd::prelude::*;

use crate::addresses::{asset_seed, asset_seed_bytes, find_program_address, program_address, seed_from, seeds_view, ID};
use crate::bytes::zeros;
use crate::error::{program_error, ProgramError, RoshiError};
use crate::oracle::{oracle_config_valid, OracleConfig};
use crate::state::flags::{flag_byte, spec_flag_to_bool, FALSE, TRUE};

verus! {

/// A registered non-base deposit asset.
///
/// `enabled_flag` and `routed_flag` hold the raw stored flag bytes; read them
/// through the typed accessors, which reject anything but `0` and `1`.
#[derive(Clone, Copy, Debug, PartialEq, Eq)]
pub struct Asset {
    /// Vault this non-base asset belongs to.
    pub vault: [u8; 32],
    /// Mint of the supported non-base deposit asset.
    pub asset_mint: [u8; 32],
    /// Oracle pricing one whole asset token: in whole base tokens (direct) or
    /// in the quote currency shared with the vault's base oracle (routed).
    pub oracle: OracleConfig,
    /// Inventory cap in asset atoms. `u64::MAX` = uncapped; zero blocks all
    /// deposits of this asset.
    pub deposit_cap_atoms: u64,
    /// Asset mint decimals.
    pub asset_decimals: u8,
    /// Whether deposits for this asset are enabled.
    pub enabled_flag: u8,
    /// Whether deposit pricing routes through the vault's base oracle.
    pub routed_flag: u8,
    pub bump: u8,
    pub _padding: [u8; 4],
}

/// Whether an asset passes [`Asset::validate_state`].
pub open spec fn asset_state_valid(asset: Asset) -> bool {
    &&& oracle_config_valid(asset.oracle)
    &&& asset.enabled_flag == FALSE || asset.enabled_flag == TRUE
    &&& asset.routed_flag == FALSE || asset.routed_flag == TRUE
}

fn flag(value: bool) -> (r: u8)
    ensures
        r == flag_byte(value),
{
    if value {
        TRUE
    } else {
        FALSE
    }
}

fn bool_flag(flag: u8) -> (r: Result<bool, ProgramError>)
    ensures
        r == spec_flag_to_bool(flag, RoshiError::InvalidAssetAccount),
{
    match flag {
        FALSE => Ok(false),
        TRUE => Ok(true),
        _ => Err(ProgramError::from(RoshiError::InvalidAssetAccount)),
    }
}

impl Asset {
    /// A registration for `asset_mint` under `vault`; the oracle must be a
    /// valid active configuration.
    pub fn new(
        vault: [u8; 32],
        asset_mint: [u8; 32],
        oracle: OracleConfig,
        asset_decimals: u8,
        enabled: bool,
        routed: bool,
        deposit_cap_atoms: u64,
        bump: u8,
    ) -> (r: Result<Self, ProgramError>)
        ensures
            r is Ok <==> oracle_config_valid(oracle),
            r is Err ==> r == Err::<Asset, ProgramError>(program_error(RoshiError::InvalidAssetAccount)),
            r matches Ok(asset) ==> {
                &&& asset.vault == vault && asset.asset_mint == asset_mint && asset.oracle == oracle
                &&& asset.deposit_cap_atoms == deposit_cap_atoms && asset.asset_decimals == asset_decimals
                &&& asset.enabled_flag == flag_byte(enabled) && asset.routed_flag == flag_byte(routed)
                &&& asset.bump == bump && asset._padding@ == zeros(4)
                &&& asset_state_valid(asset)
            },
    {
        if oracle.validate().is_err() {
            return Err(ProgramError::from(RoshiError::InvalidAssetAccount));
        }
        let asset = Asset {
            vault,
            asset_mint,
            oracle,
            deposit_cap_atoms,
            asset_decimals,
            enabled_flag: flag(enabled),
            routed_flag: flag(routed),
            bump,
            _padding: [0u8; 4],
        };
        assert(asset._padding@ =~= zeros(4));
        Ok(asset)
    }

    /// The seeds of the registration of `asset_mint` under `vault`.
    fn address_seeds(vault: &[u8; 32], asset_mint: &[u8; 32]) -> (r: Vec<Vec<u8>>)
        ensures
            seeds_view(r@) == seq![asset_seed(), vault@, asset_mint@],
    {
        let mut seeds: Vec<Vec<u8>> = Vec::new();
        seeds.push(asset_seed_bytes());
        seeds.push(seed_from(vault));
        seeds.push(seed_from(asset_mint));
        assert(seeds_view(seeds@) =~= seq![asset_seed(), vault@, asset_mint@]);
        seeds
    }

    /// The registration address of `asset_mint` under `vault`, derived from
    /// `["asset", vault, asset_mint]`. The seeds must yield an address.
    pub fn find_address(vault: &[u8; 32], asset_mint: &[u8; 32]) -> (r: ([u8; 32], u8))
        requires
            program_address(seq![asset_seed(), vault@, asset_mint@], ID@) is Some,
        ensures
            program_address(seq![asset_seed(), vault@, asset_mint@], ID@) == Some((r.0@, r.1)),
    {
        match find_program_address(&Self::address_seeds(vault, asset_mint)) {
            Some(found) => found,
            None => {
                assert(false);
                ([0u8; 32], 0)
            },
        }
    }

    /// The registration address of `asset_mint` under `vault`, or `None`
    /// where its seeds yield no address.
    pub fn try_find_address(vault: &[u8; 32], asset_mint: &[u8; 32]) -> (r: Option<([u8; 32], u8)>)
        ensures
            match r {
                Some((key, bump)) => program_address(seq![asset_seed(), vault@, asset_mint@], ID@) == Some((key@, bump)),
                None => program_address(seq![asset_seed(), vault@, asset_mint@], ID@) is None,
            },
    {
        match find_program_address(&Self::address_seeds(vault, asset_mint)) {
            Some(_) => Some(Self::find_address(vault, asset_mint)),
            None => None,
        }
    }

    pub fn enabled(&self) -> (r: Result<bool, ProgramError>)
        ensures
            r == spec_flag_to_bool(self.enabled_flag, RoshiError::InvalidAssetAccount),
    {
        bool_flag(self.enabled_flag)
    }

    pub fn set_enabled(&mut self, enabled: bool)
        ensures
            *final(self) == (Asset { enabled_flag: flag_byte(enabled), ..*old(self) }),
    {
        self.enabled_flag = flag(enabled);
    }

    pub fn routed(&self) -> (r: Result<bool, ProgramError>)
        ensures
            r == spec_flag_to_bool(self.routed_flag, RoshiError::InvalidAssetAccount),
    {
        bool_flag(self.routed_flag)
    }

    pub fn set_routed(&mut self, routed: bool)
        ensures
            *final(self) == (Asset { routed_flag: flag_byte(routed), ..*old(self) }),
    {
        self.routed_flag = flag(routed);
    }

    /// Check the stored invariants: a valid oracle and boolean flags.
    pub fn validate_state(&self) -> (r: Result<(), ProgramError>)
        ensures
            r is Ok <==> asset_state_valid(*self),
            r is Err ==> r == Err::<(), ProgramError>(program_error(RoshiError::InvalidAssetAccount)),
    {
        if self.oracle.validate().is_err() {
            return Err(ProgramError::from(RoshiError::InvalidAssetAccount));
        }
        match bool_flag(self.enabled_flag) {
            Ok(_) => {},
            Err(error) => {
                return Err(error);
            },
        }
        match bool_flag(self.routed_flag) {
            Ok(_) => {},
            Err(error) => {
                return Err(error);
            },
        }
        Ok(())
    }
}

} // verus!
