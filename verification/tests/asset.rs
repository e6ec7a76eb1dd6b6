use roshi::error::{ProgramError, RoshiError};
use roshi::oracle::OracleConfig;
use roshi::state::asset::Asset;

fn test_asset(enabled: bool, routed: bool) -> Asset {
    Asset::new(
        [1; 32],
        [2; 32],
        OracleConfig::default(),
        6,
        enabled,
        routed,
        u64::MAX,
        7,
    )
    .unwrap()
}

#[test]
fn enabled_and_routed_flags_use_typed_accessors() {
    let mut asset = test_asset(false, false);
    assert_eq!(asset.enabled(), Ok(false));
    asset.set_enabled(true);
    assert_eq!(asset.enabled(), Ok(true));
    assert_eq!(asset.routed(), Ok(false));
    asset.set_routed(true);
    assert_eq!(asset.routed(), Ok(true));
}

#[test]
fn new_keeps_fields_and_zeroes_padding() {
    let asset = test_asset(true, false);
    assert_eq!(asset.vault, [1; 32]);
    assert_eq!(asset.asset_mint, [2; 32]);
    assert_eq!(asset.asset_decimals, 6);
    assert_eq!(asset.deposit_cap_atoms, u64::MAX);
    assert_eq!(asset.bump, 7);
    assert_eq!(asset.enabled_flag, 1);
    assert_eq!(asset.routed_flag, 0);
    assert_eq!(asset._padding, [0; 4]);
    assert_eq!(asset.validate_state(), Ok(()));
}

#[test]
fn validate_state_rejects_non_boolean_flags() {
    let mut asset = test_asset(true, false);
    asset.routed_flag = 255;
    assert_eq!(asset.routed(), Err(ProgramError::from(RoshiError::InvalidAssetAccount)));
    assert_eq!(
        asset.validate_state(),
        Err(ProgramError::from(RoshiError::InvalidAssetAccount))
    );
    let mut asset = test_asset(true, false);
    asset.enabled_flag = 2;
    assert_eq!(
        asset.validate_state(),
        Err(ProgramError::from(RoshiError::InvalidAssetAccount))
    );
}
