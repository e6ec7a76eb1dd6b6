use roshi::error::RoshiError;
use roshi::math::{
    assets_for_redeem, assets_for_shares, base_atoms_from_asset_atoms, bps_ceil, bps_floor,
    checked_u64, mul_div_ceil, mul_div_ceil_u64, mul_div_floor, mul_div_floor_u64,
    performance_fee_for_nav, pow10, share_price_from_assets, shares_for_deposit,
    validate_percentage_bps, virtual_share_offset, BPS_DENOMINATOR,
};

#[test]
fn pow10_rejects_unsupported_decimals() {
    assert!(pow10(38).is_ok());
    assert_eq!(pow10(39), Err(RoshiError::InvalidDecimals));
}

#[test]
fn mul_div_floor_and_ceil_handle_boundaries() {
    assert_eq!(mul_div_floor_u64(10, 2, 4), Ok(5));
    assert_eq!(mul_div_floor_u64(10, 2, 6), Ok(3));
    assert_eq!(mul_div_ceil_u64(10, 2, 4), Ok(5));
    assert_eq!(mul_div_ceil_u64(10, 2, 6), Ok(4));
    assert_eq!(mul_div_floor_u64(1, 1, 0), Err(RoshiError::DivisionByZero));
    assert_eq!(mul_div_ceil_u64(1, 1, 0), Err(RoshiError::DivisionByZero));
}

#[test]
fn mul_div_rejects_overflow_and_downcast() {
    assert_eq!(mul_div_floor(u128::MAX, 2, 1), Err(RoshiError::Overflow));
    assert_eq!(
        mul_div_floor_u64(u64::MAX, u64::MAX, 1),
        Err(RoshiError::ResultDoesNotFit)
    );
}

#[test]
fn bps_helpers_use_standard_denominator() {
    assert_eq!(bps_floor(101, 100), Ok(1));
    assert_eq!(bps_ceil(101, 100), Ok(2));
    assert_eq!(bps_floor(42, 10_001), Ok(42));
    assert_eq!(bps_ceil(42, 10_001), Ok(43));
}

#[test]
fn percentage_bps_validation_caps_at_full_percentage() {
    assert_eq!(validate_percentage_bps(0), Ok(()));
    assert_eq!(validate_percentage_bps(10_000), Ok(()));
    assert_eq!(validate_percentage_bps(10_001), Err(RoshiError::InvalidBps));
}

#[test]
fn normalizes_oracle_values_into_base_atoms() {
    assert_eq!(
        base_atoms_from_asset_atoms(1_000_000, 2_500_000_000, 9),
        Ok(2_500_000)
    );
    assert_eq!(
        base_atoms_from_asset_atoms(u64::MAX, u128::from(u64::MAX), 0),
        Err(RoshiError::ResultDoesNotFit)
    );
}

#[test]
fn normalization_can_round_to_zero_without_failing() {
    assert_eq!(base_atoms_from_asset_atoms(0, 1_000_000_000, 9), Ok(0));
    assert_eq!(base_atoms_from_asset_atoms(1, 1, 9), Ok(0));
}

#[test]
fn normalization_rejects_invalid_price_decimals() {
    assert_eq!(
        base_atoms_from_asset_atoms(1, 1, 39),
        Err(RoshiError::InvalidDecimals)
    );
}

#[test]
fn virtual_share_offset_matches_empty_vault_mint_ratio() {
    assert_eq!(virtual_share_offset(6), Ok(1_000));
    assert_eq!(virtual_share_offset(9), Ok(1));
    assert_eq!(virtual_share_offset(10), Err(RoshiError::InvalidDecimals));
}

#[test]
fn first_deposit_scales_base_atoms_to_share_decimals() {
    assert_eq!(shares_for_deposit(1_000_000, 0, 0, 6), Ok(1_000_000_000));
    assert_eq!(
        shares_for_deposit(1_000_000_000, 0, 0, 9),
        Ok(1_000_000_000)
    );
    assert_eq!(shares_for_deposit(0, 0, 0, 6), Err(RoshiError::ZeroOutput));
}

#[test]
fn first_deposit_rejects_unsupported_decimals_and_downcast_overflow() {
    assert_eq!(
        shares_for_deposit(1, 0, 0, 10),
        Err(RoshiError::InvalidDecimals)
    );
    assert_eq!(
        shares_for_deposit(u64::MAX, 0, 0, 0),
        Err(RoshiError::ResultDoesNotFit)
    );
}

#[test]
fn deposit_shares_are_exact_at_par_and_floor_otherwise() {
    assert_eq!(shares_for_deposit(100, 1_000, 1_000_000, 6), Ok(100_000));
    assert_eq!(shares_for_deposit(101, 1_000, 1_000_000, 6), Ok(101_000));
    assert_eq!(shares_for_deposit(100, 2_000, 1_000_000, 6), Ok(50_024));
    assert_eq!(
        shares_for_deposit(1, 1_000, 100, 9),
        Err(RoshiError::ZeroOutput)
    );
}

#[test]
fn donation_inflation_costs_the_attacker_the_offset_multiple() {
    let attacker_shares = shares_for_deposit(1, 0, 0, 6).unwrap();
    assert_eq!(attacker_shares, 1_000);

    let donated_assets = 1 + 1_000_000_000;
    let victim_shares =
        shares_for_deposit(1_000_000, donated_assets, attacker_shares, 6).unwrap();
    assert_eq!(victim_shares, 1);

    let total_assets = donated_assets + 1_000_000;
    let total_shares = attacker_shares + victim_shares;
    let attacker_claim =
        assets_for_redeem(attacker_shares, total_assets, total_shares, 6).unwrap();
    let victim_claim = assets_for_redeem(victim_shares, total_assets, total_shares, 6).unwrap();
    let attacker_cost = donated_assets - attacker_claim;
    let victim_loss = 1_000_000 - victim_claim;
    assert!(victim_loss < 500_000);
    assert!(attacker_cost >= 999 * victim_loss);
}

#[test]
fn assets_for_shares_prices_dust_to_zero_without_error() {
    assert_eq!(assets_for_shares(1, 100, 1_000, 9), Ok(0));
    assert_eq!(
        assets_for_redeem(1, 100, 1_000, 9),
        Err(RoshiError::ZeroOutput)
    );
    assert_eq!(assets_for_shares(100_000, 1_000, 1_000_000, 6), Ok(100));
    assert_eq!(
        assets_for_shares(101, 100, 100, 9),
        Err(RoshiError::InvalidVaultState)
    );
}

#[test]
fn redeem_assets_are_floor_rounded_and_cannot_overpay() {
    assert_eq!(assets_for_redeem(100_000, 1_000, 1_000_000, 6), Ok(100));
    assert_eq!(
        assets_for_redeem(1, 100, 1_000, 9),
        Err(RoshiError::ZeroOutput)
    );
    assert_eq!(
        assets_for_redeem(101, 100, 100, 9),
        Err(RoshiError::InvalidVaultState)
    );
}

#[test]
fn full_redeem_returns_all_assets_up_to_virtual_dust() {
    assert_eq!(
        assets_for_redeem(1_000_000_000, 1_000_000, 1_000_000_000, 6),
        Ok(1_000_000)
    );
    assert_eq!(assets_for_redeem(u64::MAX, 123, u64::MAX, 9), Ok(123));
    assert_eq!(assets_for_redeem(10, 1_000, 10, 9), Ok(910));
}

#[test]
fn deposit_redeem_round_trip_does_not_overpay() {
    let shares = shares_for_deposit(1, 3, 10, 9).unwrap();
    assert_eq!(shares, 2);
    assert_eq!(
        assets_for_redeem(shares, 3, 10, 9),
        Err(RoshiError::ZeroOutput)
    );

    let shares = shares_for_deposit(100, 333, 1_000, 9).unwrap();
    let assets = assets_for_redeem(shares, 333, 1_000, 9).unwrap();
    assert!(assets <= 100);
}

#[test]
fn share_price_uses_fixed_share_scale() {
    assert_eq!(
        share_price_from_assets(1_000_000, 1_000_000_000),
        Ok(1_000_000)
    );
    assert_eq!(
        share_price_from_assets(1_100_000, 1_000_000_000),
        Ok(1_100_000)
    );
    assert_eq!(
        share_price_from_assets(1_000_000, 0),
        Err(RoshiError::InvalidVaultState)
    );
}

#[test]
fn performance_fee_for_nav_accrues_on_high_watermark_gains() {
    assert_eq!(
        performance_fee_for_nav(1_100_000, 1_000_000_000, 1_000_000, 1_000),
        Ok((10_000, 1_090_000, 1_090_000))
    );
}

#[test]
fn performance_fee_for_nav_sets_initial_high_watermark_without_fee() {
    assert_eq!(
        performance_fee_for_nav(1_000_000, 1_000_000_000, 0, 1_000),
        Ok((0, 1_000_000, 1_000_000))
    );
}

#[test]
fn performance_fee_for_nav_keeps_high_watermark_on_drawdown() {
    assert_eq!(
        performance_fee_for_nav(900_000, 1_000_000_000, 1_000_000, 1_000),
        Ok((0, 900_000, 1_000_000))
    );
}

#[test]
fn performance_fee_for_nav_ceil_rounds_high_watermark_assets() {
    assert_eq!(
        performance_fee_for_nav(2, 3, 333_333_334, 10_000),
        Ok((0, 2, 666_666_666))
    );
}

#[test]
fn performance_fee_for_nav_floors_indivisible_accrual() {
    assert_eq!(
        performance_fee_for_nav(1_000_011, 1_000_000_000, 1_000_000, 1_000),
        Ok((1, 1_000_010, 1_000_010))
    );
}

#[test]
fn bps_ceil_never_exceeds_amount_exhaustive_over_bps() {
    let amounts = [
        0u64,
        1,
        2,
        3,
        7,
        9_999,
        10_000,
        10_001,
        u64::MAX / 2,
        u64::MAX - 1,
        u64::MAX,
    ];
    for &amount in &amounts {
        for bps in 0..=BPS_DENOMINATOR {
            let ceil = bps_ceil(amount, bps).unwrap();
            assert!(ceil <= amount, "ceil {ceil} > amount {amount} at bps {bps}");
        }
    }
}

#[test]
fn withdrawal_buffer_targets_can_round_up() {
    assert_eq!(bps_ceil(1_001, 100), Ok(11));
    assert_eq!(bps_floor(1_001, 100), Ok(10));
}

#[test]
fn mul_div_ceil_rounds_up_only_with_a_remainder() {
    assert_eq!(mul_div_ceil(7, 3, 7), Ok(3));
    assert_eq!(mul_div_ceil(7, 3, 4), Ok(6));
    assert_eq!(mul_div_floor(7, 3, 4), Ok(5));
    assert_eq!(mul_div_ceil(u128::MAX, 1, 1), Ok(u128::MAX));
    assert_eq!(mul_div_ceil(u128::MAX, 2, 3), Err(RoshiError::Overflow));
}

#[test]
fn checked_u64_narrows_only_values_that_fit() {
    assert_eq!(checked_u64(u128::from(u64::MAX)), Ok(u64::MAX));
    assert_eq!(
        checked_u64(u128::from(u64::MAX) + 1),
        Err(RoshiError::ResultDoesNotFit)
    );
}

#[test]
fn performance_fee_rejects_invalid_bps_and_oversized_price() {
    assert_eq!(
        performance_fee_for_nav(1, 1, 0, 10_001),
        Err(RoshiError::InvalidBps)
    );
    assert_eq!(
        performance_fee_for_nav(u64::MAX, 1, 0, 100),
        Err(RoshiError::ResultDoesNotFit)
    );
    assert_eq!(performance_fee_for_nav(500, 0, 7, 100), Ok((0, 500, 7)));
}

#[test]
fn performance_fee_conserves_and_ratchets_on_samples() {
    let cases = [
        (1_000_000_000u64, 1_000_000_000u64, 0u64, 2_000u16),
        (1_000_000_000, 999, 500_000, 10_000),
        (123_456, 1_000_000_000, 100, 0),
        (5, 1_000_000_000, 1, 10_000),
    ];
    for (gross, shares, hwm, bps) in cases {
        let (fee, net, new_hwm) = performance_fee_for_nav(gross, shares, hwm, bps).unwrap();
        assert!(fee <= gross);
        assert_eq!(net, gross - fee);
        assert!(new_hwm >= hwm);
    }
}

#[test]
fn performance_fee_is_monotonic_in_bps_on_samples() {
    let mut previous = 0;
    for bps in [0u16, 1, 100, 2_500, 9_999, 10_000] {
        let (fee, _, _) = performance_fee_for_nav(2_000_000, 1_000_000_000, 1_000_000, bps).unwrap();
        assert!(fee >= previous);
        previous = fee;
    }
}

#[test]
fn par_vault_pricing_is_exact_on_samples() {
    assert_eq!(shares_for_deposit(7, 5_000, 5_000_000, 6), Ok(7_000));
    assert_eq!(assets_for_redeem(12_345, 5_000, 5_000_000, 6), Ok(12));
    assert_eq!(
        assets_for_redeem(999, 5_000, 5_000_000, 6),
        Err(RoshiError::ZeroOutput)
    );
}

#[test]
fn full_redeem_at_or_below_par_returns_total_assets_on_sample() {
    assert_eq!(assets_for_redeem(2_500_123, 2_500, 2_500_123, 6), Ok(2_500));
}

#[test]
fn deposit_then_redeem_never_overpays_on_samples() {
    for (base, assets, shares, decimals) in [(77u64, 1_234u64, 9_876u64, 9u8), (1, 0, 0, 6), (5_000, 3, 1_000_000, 3)] {
        if let Ok(minted) = shares_for_deposit(base, assets, shares, decimals) {
            if let Ok(paid) = assets_for_redeem(minted, assets + base, shares + minted, decimals) {
                assert!(paid <= base);
            }
        }
    }
}
