use roshi::oracle::{
    write_leg, InvalidOracleConfig, OracleConfig, OracleKind, PythOracleConfig, ScopeOracleConfig,
    SwitchboardOracleConfig, PYTH_LEG_OFFSET, SCOPE_MAX_ENTRIES, SWITCHBOARD_LEG_OFFSET,
};

fn scope_config() -> ScopeOracleConfig {
    ScopeOracleConfig::new([6; 32], [7; 32], 26, 445, 300)
}

fn legacy_pyth_config(
    switchboard: SwitchboardOracleConfig,
    pyth: PythOracleConfig,
) -> OracleConfig {
    let legs = write_leg([0; 192], SWITCHBOARD_LEG_OFFSET, switchboard.to_leg_bytes());
    OracleConfig::from_raw_parts(
        write_leg(legs, PYTH_LEG_OFFSET, pyth.to_leg_bytes()),
        OracleKind::Pyth.as_u8(),
        [0; 7],
    )
}

#[test]
fn legacy_inline_layout_keeps_inactive_config_available() {
    let switchboard_config = SwitchboardOracleConfig::new([1; 32], [2; 32], [3; 32], 6, 100);
    let pyth_config = PythOracleConfig::new([4; 32], 8, 30, 250);

    let config = legacy_pyth_config(switchboard_config, pyth_config);

    assert_eq!(config.kind(), Ok(OracleKind::Pyth));
    assert_eq!(config.switchboard_config(), switchboard_config);
    assert_eq!(config.pyth_config(), pyth_config);
}

#[test]
fn scope_config_round_trips_through_leg_region() {
    let config = OracleConfig::scope(scope_config());

    assert_eq!(config.kind(), Ok(OracleKind::Scope));
    assert_eq!(config.scope_config(), scope_config());
    assert_eq!(config.validate(), Ok(()));

    let mut expected = scope_config().to_leg_bytes().to_vec();
    expected.extend_from_slice(&[0; 112]);
    assert_eq!(config.legs().to_vec(), expected);
    assert_eq!(config.raw_kind(), OracleKind::Scope.as_u8());
}

#[test]
fn oracle_config_size_is_fixed_across_implementations() {
    let switchboard = OracleConfig::switchboard(SwitchboardOracleConfig::new(
        [1; 32], [2; 32], [3; 32], 6, 100,
    ));
    let pyth = OracleConfig::pyth(PythOracleConfig::new([4; 32], 8, 30, 250));
    let scope = OracleConfig::scope(scope_config());

    assert_eq!(switchboard.legs().len(), pyth.legs().len());
    assert_eq!(pyth.legs().len(), scope.legs().len());
    assert_eq!(switchboard.kind(), Ok(OracleKind::Switchboard));
    assert_eq!(pyth.kind(), Ok(OracleKind::Pyth));
    assert_eq!(scope.kind(), Ok(OracleKind::Scope));
}

#[test]
fn oracle_config_layout_matches_legacy_leg_fields() {
    let switchboard_config =
        SwitchboardOracleConfig::new([1; 32], [2; 32], [3; 32], 6, 0x0102_0304_0506_0708);
    let pyth_config = PythOracleConfig::new([4; 32], 8, 0x1112_1314_1516_1718, 250)
        .pin_price_update_account([9; 32]);

    let config = legacy_pyth_config(switchboard_config, pyth_config);
    let legs = config.legs();

    assert_eq!(&legs[0..32], &[1; 32]);
    assert_eq!(&legs[96..104], &0x0102_0304_0506_0708u64.to_le_bytes());
    assert_eq!(legs[104], 6);
    assert_eq!(&legs[112..144], &[4; 32]);
    assert_eq!(&legs[144..176], &[9; 32]);
    assert_eq!(&legs[176..184], &0x1112_1314_1516_1718u64.to_le_bytes());
    assert_eq!(&legs[184..186], &250u16.to_le_bytes());
    assert_eq!(legs[186], 8);
    assert_eq!(config.raw_kind(), 1);
}

#[test]
fn pyth_price_update_pin_defaults_off_and_round_trips() {
    let unpinned = PythOracleConfig::new([4; 32], 8, 30, 250);
    assert_eq!(unpinned.pinned_price_update_account(), None);

    let pinned = unpinned.pin_price_update_account([5; 32]);
    assert_eq!(pinned.pinned_price_update_account(), Some([5; 32]));
}

#[test]
fn validate_requires_confidence_bound_on_active_pyth_leg() {
    let unbounded = OracleConfig::pyth(PythOracleConfig::new([4; 32], 8, 30, 0));
    assert_eq!(unbounded.validate(), Err(InvalidOracleConfig));

    let bounded = OracleConfig::pyth(PythOracleConfig::new([4; 32], 8, 30, 250));
    assert_eq!(bounded.validate(), Ok(()));

    let switchboard = OracleConfig::switchboard(SwitchboardOracleConfig::new(
        [1; 32], [2; 32], [3; 32], 6, 100,
    ));
    assert_eq!(switchboard.pyth_config().max_confidence_bps, 0);
    assert_eq!(switchboard.validate(), Ok(()));
}

#[test]
fn validate_requires_in_range_scope_index() {
    let out_of_range = OracleConfig::scope(ScopeOracleConfig::new(
        [6; 32],
        [7; 32],
        26,
        SCOPE_MAX_ENTRIES,
        300,
    ));
    assert_eq!(out_of_range.validate(), Err(InvalidOracleConfig));

    let last_entry = OracleConfig::scope(ScopeOracleConfig::new(
        [6; 32],
        [7; 32],
        26,
        SCOPE_MAX_ENTRIES - 1,
        300,
    ));
    assert_eq!(last_entry.validate(), Ok(()));

    let frozen_type = OracleConfig::scope(ScopeOracleConfig::new(
        [6; 32],
        [7; 32],
        0x80,
        SCOPE_MAX_ENTRIES - 1,
        300,
    ));
    assert_eq!(frozen_type.validate(), Err(InvalidOracleConfig));
}

#[test]
fn oracle_config_rejects_invalid_kind() {
    let default = OracleConfig::default();
    let config = OracleConfig::from_raw_parts(default.legs(), 255, default.padding());

    assert_eq!(config.kind(), Err(InvalidOracleConfig));
    assert_eq!(config.validate(), Err(InvalidOracleConfig));
}

#[test]
fn oracle_kind_bytes_round_trip() {
    for kind in [OracleKind::Switchboard, OracleKind::Pyth, OracleKind::Scope] {
        assert_eq!(OracleKind::from_u8(kind.as_u8()), Some(kind));
    }
    assert_eq!(OracleKind::from_u8(3), None);
}

#[test]
fn switchboard_and_pyth_legs_round_trip_through_their_constructors() {
    let switchboard = SwitchboardOracleConfig::new([8; 32], [9; 32], [10; 32], 12, u64::MAX - 3);
    assert_eq!(
        OracleConfig::switchboard(switchboard).switchboard_config(),
        switchboard
    );
    let pyth = PythOracleConfig::new([11; 32], 5, 77, 65_535).pin_price_update_account([12; 32]);
    assert_eq!(OracleConfig::pyth(pyth).pyth_config(), pyth);
    assert_eq!(
        SwitchboardOracleConfig::from_leg_bytes(switchboard.to_leg_bytes()),
        switchboard
    );
}
