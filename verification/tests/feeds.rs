use roshi::error::ProgramError;
use roshi::oracle::configs::{
    PythOracleConfig, ScopeOracleConfig, ScopeOracleMapping, SwitchboardOracleConfig,
};
use roshi::oracle::feeds::{
    feed_key, feeds_match, leg_account_count, same_account_keys, split_leg_accounts, ActiveOracleConfig,
    OracleFeedKey, OracleReadSession,
};
use roshi::oracle::OraclePrice;

fn scope_mapping() -> ScopeOracleMapping {
    ScopeOracleMapping::new([3; 32], 26, 9, 3, 17, [4; 20])
}

fn scope_config(
    mapping: ScopeOracleMapping,
    price_index: u16,
    max_age_seconds: u64,
) -> ActiveOracleConfig {
    ActiveOracleConfig::Scope(ScopeOracleConfig::new(
        [2; 32],
        mapping,
        price_index,
        max_age_seconds,
    ))
}

#[test]
fn same_feed_rejects_mismatched_validation_policy() {
    let mapping = scope_mapping();
    let base = scope_config(mapping, 445, 30);

    let mut different_mappings = Vec::new();
    let mut changed = mapping;
    changed.price_info_account = [8; 32];
    different_mappings.push(changed);
    changed = mapping;
    changed.price_type += 1;
    different_mappings.push(changed);
    changed = mapping;
    changed.twap_source_or_ref_price_tolerance_bps += 1;
    different_mappings.push(changed);
    changed = mapping;
    changed.twap_enabled_bitmask += 1;
    different_mappings.push(changed);
    changed = mapping;
    changed.ref_price += 1;
    different_mappings.push(changed);
    changed = mapping;
    changed.generic[0] ^= 1;
    different_mappings.push(changed);

    let mut different_policies = vec![scope_config(mapping, 445, 31)];
    different_policies.extend(
        different_mappings
            .into_iter()
            .map(|mapping| scope_config(mapping, 445, 30)),
    );
    for config in different_policies {
        assert_eq!(
            feeds_match(base, config),
            Err(ProgramError::InvalidAccountData)
        );
    }

    assert_eq!(feeds_match(base, scope_config(mapping, 446, 30)), Ok(false));
    assert_eq!(
        feeds_match(
            base,
            ActiveOracleConfig::Scope(ScopeOracleConfig::new([9; 32], mapping, 445, 30))
        ),
        Ok(false)
    );
    assert_eq!(feeds_match(base, base), Ok(true));
}

#[test]
fn pyth_same_feed_rejects_mismatched_validation_policy() {
    let base = ActiveOracleConfig::Pyth(PythOracleConfig::new([9; 32], 8, 30, 250));
    let different_policy = ActiveOracleConfig::Pyth(PythOracleConfig::new([9; 32], 8, 31, 250));

    assert_eq!(
        feeds_match(base, different_policy),
        Err(ProgramError::InvalidAccountData)
    );
}

#[test]
fn switchboard_same_feed_rejects_mismatched_validation_policy() {
    let base = ActiveOracleConfig::Switchboard(SwitchboardOracleConfig::new(
        [1; 32], [2; 32], [9; 32], 8, 30,
    ));
    let different_policy = ActiveOracleConfig::Switchboard(SwitchboardOracleConfig::new(
        [1; 32], [2; 32], [9; 32], 8, 31,
    ));

    assert_eq!(
        feeds_match(base, different_policy),
        Err(ProgramError::InvalidAccountData)
    );
}

#[test]
fn different_providers_never_share_a_feed() {
    let pyth = ActiveOracleConfig::Pyth(PythOracleConfig::new([9; 32], 8, 30, 250));
    let switchboard = ActiveOracleConfig::Switchboard(SwitchboardOracleConfig::new(
        [1; 32], [2; 32], [9; 32], 8, 30,
    ));
    assert_eq!(feed_key(pyth), OracleFeedKey::Pyth([9; 32]));
    assert_eq!(feed_key(switchboard), OracleFeedKey::Switchboard([9; 32]));
    assert_eq!(feeds_match(pyth, switchboard), Ok(false));
    assert_eq!(leg_account_count(&pyth), 1);
    assert_eq!(leg_account_count(&switchboard), 4);
    assert_eq!(
        leg_account_count(&scope_config(scope_mapping(), 1, 1)),
        2
    );
}

#[test]
fn pinned_pyth_update_account_is_policy() {
    let unpinned = PythOracleConfig::new([9; 32], 8, 30, 250);
    assert_eq!(unpinned.pinned_price_update_account(), None);
    let pinned = unpinned.pin_price_update_account([5; 32]);
    assert_eq!(pinned.pinned_price_update_account(), Some([5; 32]));
    assert_eq!(
        feeds_match(
            ActiveOracleConfig::Pyth(unpinned),
            ActiveOracleConfig::Pyth(pinned)
        ),
        Err(ProgramError::InvalidAccountData)
    );
}

#[test]
fn read_session_reuses_a_verified_leg_only_through_the_same_accounts() {
    let config = ActiveOracleConfig::Pyth(PythOracleConfig::new([9; 32], 8, 30, 250));
    let other = ActiveOracleConfig::Pyth(PythOracleConfig::new([7; 32], 8, 30, 250));
    let price = OraclePrice {
        value: 123,
        decimals: 2,
    };
    let mut session = OracleReadSession::new();
    assert_eq!(session.reusable_price(&config, &[[1; 32]]), Ok(None));
    session.record(config, vec![[1; 32]], price);
    assert_eq!(session.len(), 1);
    assert_eq!(session.reusable_price(&config, &[[1; 32]]), Ok(Some(price)));
    assert_eq!(
        session.reusable_price(&config, &[[2; 32]]),
        Err(ProgramError::InvalidAccountData)
    );
    assert_eq!(session.reusable_price(&other, &[[2; 32]]), Ok(None));
    let stricter = ActiveOracleConfig::Pyth(PythOracleConfig::new([9; 32], 8, 29, 250));
    assert_eq!(
        session.reusable_price(&stricter, &[[1; 32]]),
        Err(ProgramError::InvalidAccountData)
    );
    assert!(same_account_keys(&[[1; 32], [2; 32]], &[[1; 32], [2; 32]]));
    assert!(!same_account_keys(&[[1; 32]], &[[1; 32], [2; 32]]));
}

#[test]
fn scope_configs_default_to_zero_and_canonical_padding() {
    let config = ScopeOracleConfig::default();
    assert_eq!(config.prices_account, [0; 32]);
    assert_eq!(config.mapping, ScopeOracleMapping::default());
    assert_eq!(config._padding, [0; 6]);
    assert_eq!(ScopeOracleConfig::MAX_ENTRIES, 512);
    assert_eq!(ScopeOracleConfig::MAX_PRICE_TYPE, 0x7f);
    let mapping = scope_mapping();
    assert_eq!(mapping.price_type, 26);
    assert_eq!(mapping.twap_source_or_ref_price_tolerance_bps, 9);
    assert_eq!(mapping.twap_enabled_bitmask, 3);
    assert_eq!(mapping.ref_price, 17);
    assert_eq!(mapping.generic, [4; 20]);
    assert_eq!(SwitchboardOracleConfig::default().max_age_slots, 0);
    assert_eq!(PythOracleConfig::default().max_confidence_bps, 0);
}

#[test]
fn feed_matching_is_symmetric() {
    let base = scope_config(scope_mapping(), 445, 30);
    let stricter = scope_config(scope_mapping(), 445, 29);
    let other = scope_config(scope_mapping(), 446, 30);
    assert_eq!(feeds_match(base, stricter), feeds_match(stricter, base));
    assert_eq!(feeds_match(base, other), feeds_match(other, base));
    assert_eq!(feeds_match(other, other), Ok(true));
}

#[test]
fn legs_take_their_accounts_from_the_front() {
    let switchboard = ActiveOracleConfig::Switchboard(SwitchboardOracleConfig::new(
        [1; 32], [2; 32], [9; 32], 8, 30,
    ));
    let accounts = [1u8, 2, 3, 4, 5];
    let (leg, rest) = split_leg_accounts(&switchboard, &accounts).unwrap();
    assert_eq!(leg, &[1, 2, 3, 4]);
    assert_eq!(rest, &[5]);
    assert_eq!(
        split_leg_accounts(&switchboard, &accounts[..3]),
        Err(ProgramError::NotEnoughAccountKeys)
    );
}
