//! Integer accounting math for vault shares, prices and fees.
//!
//! Every function returns the exact mathematical result of its formula, or the
//! error that names the first way the computation cannot be carried out in
//! fixed-width integers.

use vstd::prelude::*;

use vstd::arithmetic::div_mod::{
    lemma_fundamental_div_mod, lemma_fundamental_div_mod_converse, lemma_mod_bound,
};

use crate::error::RoshiError;

verus! {

pub const SHARE_DECIMALS: u8 = 9;

pub const BPS_DENOMINATOR: u16 = 10_000;

/// `10^SHARE_DECIMALS`: the fixed-point scale of a share price.
pub open spec fn share_scale() -> int {
    1_000_000_000
}

/// `10^n` over the naturals.
pub open spec fn ten_pow(n: nat) -> nat
    decreases n,
{
    if n == 0 {
        1
    } else {
        10 * ten_pow((n - 1) as nat)
    }
}

/// Ceiling of `numerator / denominator` for a positive denominator.
pub open spec fn ceil_div(numerator: int, denominator: int) -> int {
    (numerator + denominator - 1) / denominator
}

/// `max` over the integers.
pub open spec fn max_int(a: int, b: int) -> int {
    if a >= b {
        a
    } else {
        b
    }
}

/// Outcome of [`pow10`].
pub open spec fn spec_pow10(decimals: u8) -> Result<u128, RoshiError> {
    if ten_pow(decimals as nat) <= u128::MAX {
        Ok(ten_pow(decimals as nat) as u128)
    } else {
        Err(RoshiError::InvalidDecimals)
    }
}

/// Outcome of [`mul_div_floor`].
pub open spec fn spec_mul_div_floor(lhs: int, rhs: int, denominator: int) -> Result<u128, RoshiError> {
    if denominator == 0 {
        Err(RoshiError::DivisionByZero)
    } else if lhs * rhs > u128::MAX {
        Err(RoshiError::Overflow)
    } else {
        Ok((lhs * rhs / denominator) as u128)
    }
}

/// Outcome of [`mul_div_ceil`].
pub open spec fn spec_mul_div_ceil(lhs: int, rhs: int, denominator: int) -> Result<u128, RoshiError> {
    if denominator == 0 {
        Err(RoshiError::DivisionByZero)
    } else if lhs * rhs > u128::MAX {
        Err(RoshiError::Overflow)
    } else {
        Ok(ceil_div(lhs * rhs, denominator) as u128)
    }
}

/// Outcome of narrowing an integer to `u64`.
pub open spec fn spec_checked_u64(value: int) -> Result<u64, RoshiError> {
    if value <= u64::MAX {
        Ok(value as u64)
    } else {
        Err(RoshiError::ResultDoesNotFit)
    }
}

/// Outcome of [`mul_div_floor_u64`]: the product of two `u64` always fits in
/// `u128`, so only a zero denominator or an oversized quotient fail.
pub open spec fn spec_mul_div_floor_u64(lhs: u64, rhs: u64, denominator: u64) -> Result<u64, RoshiError> {
    if denominator == 0 {
        Err(RoshiError::DivisionByZero)
    } else {
        spec_checked_u64(lhs * rhs / (denominator as int))
    }
}

/// Outcome of [`mul_div_ceil_u64`].
pub open spec fn spec_mul_div_ceil_u64(lhs: u64, rhs: u64, denominator: u64) -> Result<u64, RoshiError> {
    if denominator == 0 {
        Err(RoshiError::DivisionByZero)
    } else {
        spec_checked_u64(ceil_div(lhs * rhs, denominator as int))
    }
}

/// `floor(amount * bps / 10_000)`, which fits in `u64` whenever `bps <= 10_000`.
pub open spec fn spec_bps_floor(amount: u64, bps: u16) -> Result<u64, RoshiError> {
    spec_checked_u64(amount * bps / 10_000)
}

/// `ceil(amount * bps / 10_000)`.
pub open spec fn spec_bps_ceil(amount: u64, bps: u16) -> Result<u64, RoshiError> {
    spec_checked_u64(ceil_div(amount * bps, 10_000))
}

/// Outcome of [`base_atoms_from_asset_atoms`]: `floor(asset_atoms * price /
/// 10^price_decimals)`.
pub open spec fn spec_base_atoms_from_asset_atoms(asset_atoms: u64, price_value: u128, price_decimals: u8) -> Result<u64, RoshiError> {
    if ten_pow(price_decimals as nat) > u128::MAX {
        Err(RoshiError::InvalidDecimals)
    } else if asset_atoms * price_value > u128::MAX {
        Err(RoshiError::Overflow)
    } else {
        spec_checked_u64(asset_atoms * price_value / (ten_pow(price_decimals as nat) as int))
    }
}

/// The virtual share supply backing one virtual base atom,
/// `10^(SHARE_DECIMALS - base_decimals)`.
pub open spec fn virtual_offset(base_decimals: u8) -> int {
    ten_pow((9 - base_decimals) as nat) as int
}

/// Outcome of [`virtual_share_offset`].
pub open spec fn spec_virtual_share_offset(base_decimals: u8) -> Result<u128, RoshiError> {
    if base_decimals > SHARE_DECIMALS {
        Err(RoshiError::InvalidDecimals)
    } else {
        Ok(virtual_offset(base_decimals) as u128)
    }
}

/// Outcome of [`shares_for_deposit`]: shares minted for `base_atoms` against
/// the virtual pair `(total_shares + offset, total_assets + 1)`, rounded down.
pub open spec fn spec_shares_for_deposit(base_atoms: u64, total_assets: u64, total_shares: u64, base_decimals: u8) -> Result<u64, RoshiError> {
    if base_decimals > SHARE_DECIMALS {
        Err(RoshiError::InvalidDecimals)
    } else if base_atoms * (total_shares + virtual_offset(base_decimals)) > u128::MAX {
        Err(RoshiError::Overflow)
    } else {
        let shares = base_atoms * (total_shares + virtual_offset(base_decimals)) / (total_assets + 1);
        if shares > u64::MAX {
            Err(RoshiError::ResultDoesNotFit)
        } else if shares == 0 {
            Err(RoshiError::ZeroOutput)
        } else {
            Ok(shares as u64)
        }
    }
}

/// Floor-rounded base value of `shares` against the virtual pair.
pub open spec fn share_value(shares: int, total_assets: int, total_shares: int, base_decimals: u8) -> int {
    shares * (total_assets + 1) / (total_shares + virtual_offset(base_decimals))
}

/// Outcome of [`assets_for_shares`].
pub open spec fn spec_assets_for_shares(shares: u64, total_assets: u64, total_shares: u64, base_decimals: u8) -> Result<u64, RoshiError> {
    if shares > total_shares {
        Err(RoshiError::InvalidVaultState)
    } else if base_decimals > SHARE_DECIMALS {
        Err(RoshiError::InvalidDecimals)
    } else {
        Ok(share_value(shares as int, total_assets as int, total_shares as int, base_decimals) as u64)
    }
}

/// Outcome of [`assets_for_redeem`]: as [`assets_for_shares`], but a zero
/// payout is an error.
pub open spec fn spec_assets_for_redeem(shares: u64, total_assets: u64, total_shares: u64, base_decimals: u8) -> Result<u64, RoshiError> {
    match spec_assets_for_shares(shares, total_assets, total_shares, base_decimals) {
        Ok(assets) => if assets == 0 {
            Err(RoshiError::ZeroOutput)
        } else {
            Ok(assets)
        },
        Err(error) => Err(error),
    }
}

/// `floor(assets * 10^9 / shares)`: the share price in base atoms per whole share.
pub open spec fn share_price(assets: int, shares: int) -> int {
    assets * share_scale() / shares
}

/// Outcome of [`share_price_from_assets`].
pub open spec fn spec_share_price_from_assets(total_assets: u64, total_shares: u64) -> Result<u64, RoshiError> {
    if total_shares == 0 {
        Err(RoshiError::InvalidVaultState)
    } else {
        spec_checked_u64(share_price(total_assets as int, total_shares as int))
    }
}

/// Outcome of [`performance_fee_for_nav`]: `(fee, net_total_assets,
/// new_high_watermark)`. A fee of `bps` is charged on the profit above the
/// high watermark, measured in assets rounded in the depositors' favour.
pub open spec fn spec_performance_fee_for_nav(gross: u64, total_shares: u64, high_watermark: u64, bps: u16) -> Result<(u64, u64, u64), RoshiError> {
    if bps > BPS_DENOMINATOR {
        Err(RoshiError::InvalidBps)
    } else if total_shares == 0 {
        Ok((0, gross, high_watermark))
    } else if share_price(gross as int, total_shares as int) > u64::MAX {
        Err(RoshiError::ResultDoesNotFit)
    } else {
        let gross_price = share_price(gross as int, total_shares as int);
        if high_watermark == 0 || gross_price <= high_watermark || bps == 0 {
            Ok((0, gross, max_int(high_watermark as int, gross_price) as u64))
        } else {
            let high_watermark_assets = ceil_div(high_watermark * total_shares, share_scale());
            let fee = (gross - high_watermark_assets) * bps / 10_000;
            let net = gross - fee;
            Ok((fee as u64, net as u64, max_int(high_watermark as int, share_price(net, total_shares as int)) as u64))
        }
    }
}

proof fn lemma_ten_pow_monotone(a: nat, b: nat)
    requires
        a <= b,
    ensures
        ten_pow(a) <= ten_pow(b),
        ten_pow(a) >= 1,
    decreases b,
{
    if b > 0 {
        if a < b {
            lemma_ten_pow_monotone(a, (b - 1) as nat);
        } else {
            lemma_ten_pow_monotone((a - 1) as nat, (b - 1) as nat);
        }
    }
}

proof fn lemma_ten_pow_values()
    ensures
        ten_pow(9) == 1_000_000_000,
        ten_pow(38) <= u128::MAX,
        ten_pow(39) > u128::MAX,
        ten_pow(0) == 1,
{
    reveal_with_fuel(ten_pow, 40);
}

/// `10^decimals` as a `u128`; decimals above 38 do not fit.
pub fn pow10(decimals: u8) -> (r: Result<u128, RoshiError>)
    ensures
        r == spec_pow10(decimals),
        r is Ok <==> decimals <= 38,
{
    proof {
        lemma_ten_pow_values();
        if decimals <= 38 {
            lemma_ten_pow_monotone(decimals as nat, 38);
        } else {
            lemma_ten_pow_monotone(39, decimals as nat);
        }
    }
    let mut value: u128 = 1;
    let mut index: u8 = 0;
    while index < decimals
        invariant
            index <= decimals,
            value == ten_pow(index as nat),
            decimals <= 38 ==> ten_pow(decimals as nat) <= u128::MAX,
        decreases decimals - index,
    {
        match value.checked_mul(10) {
            Some(next) => {
                value = next;
                index = index + 1;
            },
            None => {
                proof {
                    assert(ten_pow((index + 1) as nat) == 10 * ten_pow(index as nat));
                    lemma_ten_pow_monotone((index + 1) as nat, decimals as nat);
                }
                return Err(RoshiError::InvalidDecimals);
            },
        }
    }
    Ok(value)
}

proof fn lemma_mul_bounds(a: int, b: int, c: int, d: int)
    requires
        0 <= a <= c,
        0 <= b <= d,
    ensures
        a * b <= c * d,
        0 <= a * b,
{
    assert(a * b <= c * d) by (nonlinear_arith)
        requires
            0 <= a <= c,
            0 <= b <= d,
    ;
    assert(0 <= a * b) by (nonlinear_arith)
        requires
            0 <= a,
            0 <= b,
    ;
}

proof fn lemma_div_bounds(x: int, d: int)
    requires
        0 <= x,
        0 < d,
    ensures
        0 <= x / d <= x,
        (x / d) * d <= x < (x / d + 1) * d,
{
    assert((x / d) * d <= x < (x / d + 1) * d) by (nonlinear_arith)
        requires
            0 <= x,
            0 < d,
    ;
    assert(0 <= x / d <= x) by (nonlinear_arith)
        requires
            0 <= x,
            0 < d,
    ;
}

proof fn lemma_div_monotone(x: int, y: int, d: int)
    requires
        0 <= x <= y,
        0 < d,
    ensures
        x / d <= y / d,
{
    assert(x / d <= y / d) by (nonlinear_arith)
        requires
            0 <= x <= y,
            0 < d,
    ;
}

proof fn lemma_ceil_div_bounds(x: int, d: int)
    requires
        0 <= x,
        0 < d,
    ensures
        x / d <= ceil_div(x, d) <= x / d + 1,
        ceil_div(x, d) * d >= x,
        (x % d == 0) ==> ceil_div(x, d) == x / d,
        (x % d != 0) ==> ceil_div(x, d) == x / d + 1,
        ceil_div(x, d) <= x || x == 0,
        d == 1 ==> ceil_div(x, d) == x,
{
    lemma_fundamental_div_mod(x, d);
    lemma_mod_bound(x, d);
    assert(x / d <= ceil_div(x, d) <= x / d + 1 && ceil_div(x, d) * d >= x
        && ((x % d == 0) ==> ceil_div(x, d) == x / d)
        && ((x % d != 0) ==> ceil_div(x, d) == x / d + 1)) by (nonlinear_arith)
        requires
            0 <= x,
            0 < d,
            x == d * (x / d) + x % d,
            0 <= x % d < d,
    {
        assert((x + d - 1) == (x / d) * d + (x % d + d - 1));
    }
    if d == 1 {
        assert(ceil_div(x, d) == x);
    }
    if x > 0 {
        assert(ceil_div(x, d) <= x) by (nonlinear_arith)
            requires
                0 < x,
                0 < d,
                ceil_div(x, d) <= x / d + 1,
                (x % d == 0) ==> ceil_div(x, d) == x / d,
                x == d * (x / d) + x % d,
                0 <= x % d < d,
        ;
    }
}

/// `floor(lhs * rhs / denominator)`.
pub fn mul_div_floor(lhs: u128, rhs: u128, denominator: u128) -> (r: Result<u128, RoshiError>)
    ensures
        r == spec_mul_div_floor(lhs as int, rhs as int, denominator as int),
        r matches Ok(v) ==> v == lhs * rhs / (denominator as int),
{
    if denominator == 0 {
        return Err(RoshiError::DivisionByZero);
    }
    match lhs.checked_mul(rhs) {
        Some(product) => {
            proof {
                lemma_div_bounds(product as int, denominator as int);
            }
            Ok(product / denominator)
        },
        None => Err(RoshiError::Overflow),
    }
}

/// `ceil(lhs * rhs / denominator)`.
pub fn mul_div_ceil(lhs: u128, rhs: u128, denominator: u128) -> (r: Result<u128, RoshiError>)
    ensures
        r == spec_mul_div_ceil(lhs as int, rhs as int, denominator as int),
        r matches Ok(v) ==> v == ceil_div(lhs * rhs, denominator as int),
{
    if denominator == 0 {
        return Err(RoshiError::DivisionByZero);
    }
    let product = match lhs.checked_mul(rhs) {
        Some(product) => product,
        None => {
            return Err(RoshiError::Overflow);
        },
    };
    let quotient = product / denominator;
    proof {
        lemma_ceil_div_bounds(product as int, denominator as int);
        lemma_div_bounds(product as int, denominator as int);
    }
    if product % denominator == 0 {
        Ok(quotient)
    } else {
        match quotient.checked_add(1) {
            Some(ceil) => Ok(ceil),
            None => {
                // A nonzero remainder needs a denominator of at least 2, which
                // keeps the quotient at most half of `u128::MAX`.
                proof {
                    assert(denominator >= 2);
                    assert(quotient * 2 <= quotient * denominator) by (nonlinear_arith)
                        requires
                            denominator >= 2,
                            quotient >= 0,
                    ;
                }
                Err(RoshiError::Overflow)
            },
        }
    }
}

/// Narrow `value` to `u64`.
pub fn checked_u64(value: u128) -> (r: Result<u64, RoshiError>)
    ensures
        r == spec_checked_u64(value as int),
{
    if value <= u64::MAX as u128 {
        Ok(value as u64)
    } else {
        Err(RoshiError::ResultDoesNotFit)
    }
}

/// `floor(lhs * rhs / denominator)` narrowed to `u64`.
pub fn mul_div_floor_u64(lhs: u64, rhs: u64, denominator: u64) -> (r: Result<u64, RoshiError>)
    ensures
        r == spec_mul_div_floor_u64(lhs, rhs, denominator),
{
    proof {
        lemma_mul_bounds(lhs as int, rhs as int, u64::MAX as int, u64::MAX as int);
    }
    let value = mul_div_floor(lhs as u128, rhs as u128, denominator as u128)?;
    checked_u64(value)
}

/// `ceil(lhs * rhs / denominator)` narrowed to `u64`.
pub fn mul_div_ceil_u64(lhs: u64, rhs: u64, denominator: u64) -> (r: Result<u64, RoshiError>)
    ensures
        r == spec_mul_div_ceil_u64(lhs, rhs, denominator),
{
    proof {
        lemma_mul_bounds(lhs as int, rhs as int, u64::MAX as int, u64::MAX as int);
    }
    let value = mul_div_ceil(lhs as u128, rhs as u128, denominator as u128)?;
    checked_u64(value)
}

/// `floor(amount * bps / 10_000)`.
pub fn bps_floor(amount: u64, bps: u16) -> (r: Result<u64, RoshiError>)
    ensures
        r == spec_bps_floor(amount, bps),
{
    mul_div_floor_u64(amount, bps as u64, BPS_DENOMINATOR as u64)
}

/// `ceil(amount * bps / 10_000)`.
pub fn bps_ceil(amount: u64, bps: u16) -> (r: Result<u64, RoshiError>)
    ensures
        r == spec_bps_ceil(amount, bps),
{
    mul_div_ceil_u64(amount, bps as u64, BPS_DENOMINATOR as u64)
}

/// Accept a basis-point percentage of at most 100%.
pub fn validate_percentage_bps(bps: u16) -> (r: Result<(), RoshiError>)
    ensures
        r is Ok <==> bps <= BPS_DENOMINATOR,
        r is Err ==> r == Err::<(), RoshiError>(RoshiError::InvalidBps),
{
    if bps > BPS_DENOMINATOR {
        return Err(RoshiError::InvalidBps);
    }
    Ok(())
}

/// Value `asset_atoms` at `price_value / 10^price_decimals` base atoms each.
pub fn base_atoms_from_asset_atoms(asset_atoms: u64, price_value: u128, price_decimals: u8) -> (r: Result<u64, RoshiError>)
    ensures
        r == spec_base_atoms_from_asset_atoms(asset_atoms, price_value, price_decimals),
{
    let scale = pow10(price_decimals)?;
    proof {
        lemma_ten_pow_monotone(0, price_decimals as nat);
    }
    let value = mul_div_floor(asset_atoms as u128, price_value, scale)?;
    checked_u64(value)
}

/// The virtual share supply backing one virtual base atom:
/// `10^(SHARE_DECIMALS - base_decimals)`, the empty-vault mint ratio.
///
/// Deposits and redeems price against `(total_shares + offset, total_assets + 1)`
/// instead of the raw pair, so donated value is absorbed by the virtual
/// position and the first deposit needs no special case. Requires
/// `base_decimals <= SHARE_DECIMALS`.
pub fn virtual_share_offset(base_decimals: u8) -> (r: Result<u128, RoshiError>)
    ensures
        r == spec_virtual_share_offset(base_decimals),
        r matches Ok(offset) ==> 1 <= offset <= 1_000_000_000,
        base_decimals <= SHARE_DECIMALS ==> 1 <= virtual_offset(base_decimals) <= 1_000_000_000,
{
    if base_decimals > SHARE_DECIMALS {
        return Err(RoshiError::InvalidDecimals);
    }
    let delta = SHARE_DECIMALS - base_decimals;
    assert(delta as nat == (9 - base_decimals) as nat);
    proof {
        lemma_ten_pow_values();
        lemma_ten_pow_monotone(delta as nat, 9);
        lemma_ten_pow_monotone(0, delta as nat);
    }
    pow10(delta)
}

/// Shares minted for a deposit worth `base_atoms`.
pub fn shares_for_deposit(base_atoms: u64, total_assets: u64, total_shares: u64, base_decimals: u8) -> (r: Result<u64, RoshiError>)
    ensures
        r == spec_shares_for_deposit(base_atoms, total_assets, total_shares, base_decimals),
{
    let virtual_shares = virtual_share_offset(base_decimals)?;
    let shares = mul_div_floor(
        base_atoms as u128,
        total_shares as u128 + virtual_shares,
        total_assets as u128 + 1,
    )?;
    checked_nonzero_u64(shares)
}

/// Floor-rounded base value of `shares`. Zero is a valid result: a dust
/// position can be worth less than one base atom.
pub fn assets_for_shares(shares: u64, total_assets: u64, total_shares: u64, base_decimals: u8) -> (r: Result<u64, RoshiError>)
    ensures
        r == spec_assets_for_shares(shares, total_assets, total_shares, base_decimals),
        r matches Ok(assets) ==> assets <= total_assets,
{
    if shares > total_shares {
        return Err(RoshiError::InvalidVaultState);
    }
    let virtual_shares = virtual_share_offset(base_decimals)?;
    proof {
        lemma_mul_bounds(shares as int, total_assets + 1, u64::MAX as int, u64::MAX + 1);
        lemma_share_value_bounded(shares as int, total_assets as int, total_shares as int, virtual_shares as int);
    }
    let assets = mul_div_floor(
        shares as u128,
        total_assets as u128 + 1,
        total_shares as u128 + virtual_shares,
    )?;
    checked_u64(assets)
}

/// Base atoms paid for redeeming `shares`; a zero payout is rejected.
pub fn assets_for_redeem(shares: u64, total_assets: u64, total_shares: u64, base_decimals: u8) -> (r: Result<u64, RoshiError>)
    ensures
        r == spec_assets_for_redeem(shares, total_assets, total_shares, base_decimals),
{
    let assets = assets_for_shares(shares, total_assets, total_shares, base_decimals)?;
    if assets == 0 {
        return Err(RoshiError::ZeroOutput);
    }
    Ok(assets)
}

/// Share price in base atoms per whole share (`10^9` share atoms).
pub fn share_price_from_assets(total_assets: u64, total_shares: u64) -> (r: Result<u64, RoshiError>)
    ensures
        r == spec_share_price_from_assets(total_assets, total_shares),
{
    if total_shares == 0 {
        return Err(RoshiError::InvalidVaultState);
    }
    let share_scale = pow10(SHARE_DECIMALS)?;
    proof {
        lemma_ten_pow_values();
        lemma_mul_bounds(total_assets as int, 1_000_000_000, u64::MAX as int, 1_000_000_000);
    }
    let share_price = mul_div_floor(total_assets as u128, share_scale, total_shares as u128)?;
    checked_u64(share_price)
}

proof fn lemma_share_value_bounded(shares: int, total_assets: int, total_shares: int, offset: int)
    requires
        0 <= shares <= total_shares,
        0 <= total_assets,
        offset >= 1,
    ensures
        shares * (total_assets + 1) / (total_shares + offset) <= total_assets,
        0 <= shares * (total_assets + 1) / (total_shares + offset),
{
    let d = total_shares + offset;
    let p = shares * (total_assets + 1);
    assert(p < (total_assets + 1) * d) by (nonlinear_arith)
        requires
            0 <= shares <= total_shares,
            0 <= total_assets,
            d == total_shares + offset,
            offset >= 1,
            p == shares * (total_assets + 1),
    ;
    assert(p / d < total_assets + 1) by (nonlinear_arith)
        requires
            0 <= p < (total_assets + 1) * d,
            d > 0,
    ;
    lemma_div_bounds(p, d);
    lemma_mul_bounds(shares, total_assets + 1, shares, total_assets + 1);
}

/// When the gross share price exceeds the high watermark, the watermark's
/// asset equivalent (rounded up) is covered by the gross assets.
proof fn lemma_high_watermark_assets_covered(gross: int, shares: int, high_watermark: int)
    requires
        shares > 0,
        gross >= 0,
        high_watermark >= 0,
        share_price(gross, shares) > high_watermark,
    ensures
        ceil_div(high_watermark * shares, share_scale()) <= gross,
        0 <= ceil_div(high_watermark * shares, share_scale()),
{
    let s = share_scale();
    let gp = share_price(gross, shares);
    lemma_div_bounds(gross * s, shares);
    assert(gross * s >= gp * shares);
    assert(gp * shares >= (high_watermark + 1) * shares) by (nonlinear_arith)
        requires
            gp >= high_watermark + 1,
            shares > 0,
    ;
    assert(gross * s >= high_watermark * shares + 1) by (nonlinear_arith)
        requires
            gross * s >= (high_watermark + 1) * shares,
            shares > 0,
    ;
    let x = high_watermark * shares;
    lemma_mul_bounds(high_watermark, shares, high_watermark, shares);
    assert((x + s - 1) / s <= gross) by (nonlinear_arith)
        requires
            gross * s >= x + 1,
            x >= 0,
            s == 1_000_000_000,
    {
        assert(x + s - 1 < (gross + 1) * s);
    }
    lemma_div_bounds(x + s - 1, s);
}

proof fn lemma_share_price_monotone(a: int, b: int, shares: int)
    requires
        0 <= a <= b,
        shares > 0,
    ensures
        0 <= share_price(a, shares) <= share_price(b, shares),
{
    lemma_mul_bounds(a, share_scale(), b, share_scale());
    lemma_div_monotone(a * share_scale(), b * share_scale(), shares);
    lemma_div_bounds(a * share_scale(), shares);
}

/// Accrue the performance fee for a NAV report.
///
/// Returns `(fee, net_total_assets, new_high_watermark)`.
pub fn performance_fee_for_nav(gross_total_assets: u64, total_shares: u64, high_watermark: u64, performance_fee_bps: u16) -> (r: Result<(u64, u64, u64), RoshiError>)
    ensures
        r == spec_performance_fee_for_nav(gross_total_assets, total_shares, high_watermark, performance_fee_bps),
{
    validate_percentage_bps(performance_fee_bps)?;

    if total_shares == 0 {
        return Ok((0, gross_total_assets, high_watermark));
    }

    let gross_share_price = share_price_from_assets(gross_total_assets, total_shares)?;
    if high_watermark == 0 || gross_share_price <= high_watermark || performance_fee_bps == 0 {
        let new_high_watermark = if high_watermark >= gross_share_price {
            high_watermark
        } else {
            gross_share_price
        };
        return Ok((0, gross_total_assets, new_high_watermark));
    }

    let share_scale = pow10(SHARE_DECIMALS)?;
    proof {
        lemma_ten_pow_values();
        lemma_mul_bounds(high_watermark as int, total_shares as int, u64::MAX as int, u64::MAX as int);
        lemma_high_watermark_assets_covered(gross_total_assets as int, total_shares as int, high_watermark as int);
    }
    let high_watermark_assets = checked_u64(
        mul_div_ceil(high_watermark as u128, total_shares as u128, share_scale)?,
    )?;
    let profit_assets = match gross_total_assets.checked_sub(high_watermark_assets) {
        Some(profit) => profit,
        None => {
            return Err(RoshiError::Overflow);
        },
    };
    proof {
        lemma_mul_bounds(profit_assets as int, performance_fee_bps as int, profit_assets as int, 10_000);
        lemma_div_bounds(profit_assets * performance_fee_bps, 10_000);
        assert(profit_assets * performance_fee_bps / 10_000 <= profit_assets) by (nonlinear_arith)
            requires
                profit_assets * performance_fee_bps <= profit_assets * 10_000,
                profit_assets >= 0,
        ;
    }
    let fee_assets = bps_floor(profit_assets, performance_fee_bps)?;
    let net_total_assets = match gross_total_assets.checked_sub(fee_assets) {
        Some(net) => net,
        None => {
            return Err(RoshiError::Overflow);
        },
    };
    proof {
        lemma_share_price_monotone(net_total_assets as int, gross_total_assets as int, total_shares as int);
    }
    let net_share_price = share_price_from_assets(net_total_assets, total_shares)?;
    let new_high_watermark = if high_watermark >= net_share_price {
        high_watermark
    } else {
        net_share_price
    };
    Ok((fee_assets, net_total_assets, new_high_watermark))
}

/// Narrow to `u64`, rejecting zero.
fn checked_nonzero_u64(value: u128) -> (r: Result<u64, RoshiError>)
    ensures
        r == (if value > u64::MAX {
            Err(RoshiError::ResultDoesNotFit)
        } else if value == 0 {
            Err(RoshiError::ZeroOutput)
        } else {
            Ok::<u64, RoshiError>(value as u64)
        }),
{
    let value = checked_u64(value)?;
    if value == 0 {
        return Err(RoshiError::ZeroOutput);
    }
    Ok(value)
}

// ---------------------------------------------------------------------------
// Laws of the accounting math.
// ---------------------------------------------------------------------------

/// Floor and ceiling division bracket the exact quotient: for a nonzero
/// denominator and a product that fits, `floor <= ceil <= floor + 1`,
/// `floor * d <= lhs * rhs < (floor + 1) * d` and `ceil * d >= lhs * rhs`.
pub proof fn law_floor_and_ceil_bound_exact_value(lhs: u128, rhs: u128, denominator: u128)
    requires
        denominator > 0,
        lhs * rhs <= u128::MAX,
    ensures
        spec_mul_div_floor(lhs as int, rhs as int, denominator as int) matches Ok(floor)
            && spec_mul_div_ceil(lhs as int, rhs as int, denominator as int) matches Ok(ceil)
            && floor <= ceil && ceil <= floor + 1
            && floor * denominator <= lhs * rhs
            && lhs * rhs < (floor + 1) * denominator
            && ceil * denominator >= lhs * rhs,
{
    lemma_mul_bounds(lhs as int, rhs as int, lhs as int, rhs as int);
    lemma_div_bounds(lhs * rhs, denominator as int);
    lemma_ceil_div_bounds(lhs * rhs, denominator as int);
}

/// For a percentage of at most 100%, both basis-point roundings succeed,
/// differ by at most one atom, and never exceed the amount.
pub proof fn law_bps_floor_and_ceil_are_ordered(amount: u64, bps: u16)
    requires
        bps <= BPS_DENOMINATOR,
    ensures
        spec_bps_floor(amount, bps) matches Ok(floor)
            && spec_bps_ceil(amount, bps) matches Ok(ceil)
            && floor <= ceil && ceil <= floor + 1
            && ceil <= amount,
{
    let product = amount * bps;
    lemma_mul_bounds(amount as int, bps as int, amount as int, 10_000);
    lemma_div_bounds(product, 10_000);
    lemma_ceil_div_bounds(product, 10_000);
    assert(ceil_div(product, 10_000) <= amount) by (nonlinear_arith)
        requires
            0 <= product <= amount * 10_000,
            ceil_div(product, 10_000) == (product + 9_999) / 10_000,
    ;
}

/// Depositing more base atoms never mints fewer shares.
pub proof fn law_deposit_shares_are_monotonic(smaller_base_atoms: u64, larger_base_atoms: u64, total_assets: u64, total_shares: u64, base_decimals: u8)
    requires
        smaller_base_atoms <= larger_base_atoms,
    ensures
        spec_shares_for_deposit(smaller_base_atoms, total_assets, total_shares, base_decimals) matches Ok(smaller)
            ==> (spec_shares_for_deposit(larger_base_atoms, total_assets, total_shares, base_decimals) matches Ok(larger)
            ==> smaller <= larger),
{
    if base_decimals <= SHARE_DECIMALS {
        let supply = total_shares + virtual_offset(base_decimals);
        lemma_ten_pow_monotone(0, (9 - base_decimals) as nat);
        lemma_mul_bounds(smaller_base_atoms as int, supply, larger_base_atoms as int, supply);
        lemma_div_monotone(smaller_base_atoms * supply, larger_base_atoms * supply, total_assets + 1);
    }
}

/// Redeeming more shares never pays fewer assets.
pub proof fn law_redeem_assets_are_monotonic(smaller_shares: u64, larger_shares: u64, total_assets: u64, total_shares: u64, base_decimals: u8)
    requires
        smaller_shares <= larger_shares,
    ensures
        spec_assets_for_redeem(smaller_shares, total_assets, total_shares, base_decimals) matches Ok(smaller)
            ==> (spec_assets_for_redeem(larger_shares, total_assets, total_shares, base_decimals) matches Ok(larger)
            ==> smaller <= larger),
{
    if base_decimals <= SHARE_DECIMALS && larger_shares <= total_shares {
        lemma_ten_pow_monotone(0, (9 - base_decimals) as nat);
        let supply = total_shares + virtual_offset(base_decimals);
        lemma_mul_bounds(smaller_shares as int, total_assets + 1, larger_shares as int, total_assets + 1);
        lemma_div_monotone(smaller_shares * (total_assets + 1), larger_shares * (total_assets + 1), supply);
        lemma_share_value_bounded(smaller_shares as int, total_assets as int, total_shares as int, virtual_offset(base_decimals));
        lemma_share_value_bounded(larger_shares as int, total_assets as int, total_shares as int, virtual_offset(base_decimals));
    }
}

/// A deposit followed by a redeem of the minted shares, against the
/// post-deposit state, never returns more than was deposited.
pub proof fn law_deposit_then_redeem_never_overpays(base_atoms: u64, total_assets: u64, total_shares: u64, base_decimals: u8)
    ensures
        spec_shares_for_deposit(base_atoms, total_assets, total_shares, base_decimals) matches Ok(shares)
            ==> (total_assets + base_atoms <= u64::MAX && total_shares + shares <= u64::MAX
            ==> (spec_assets_for_redeem(shares, (total_assets + base_atoms) as u64, (total_shares + shares) as u64, base_decimals) matches Ok(assets)
            ==> assets <= base_atoms)),
{
    if base_decimals <= SHARE_DECIMALS {
        lemma_ten_pow_monotone(0, (9 - base_decimals) as nat);
        let o = virtual_offset(base_decimals);
        let b = base_atoms as int;
        let ta = total_assets as int;
        let ts = total_shares as int;
        let supply = ts + o;
        lemma_mul_bounds(b, supply, b, supply);
        let shares = b * supply / (ta + 1);
        lemma_div_bounds(b * supply, ta + 1);
        assert(shares * (ta + 1) <= b * supply);
        let numerator = shares * (ta + b + 1);
        let denominator = ts + shares + o;
        assert(numerator <= b * denominator) by (nonlinear_arith)
            requires
                shares * (ta + 1) <= b * supply,
                supply == ts + o,
                numerator == shares * (ta + b + 1),
                denominator == ts + shares + o,
                shares >= 0,
                b >= 0,
        ;
        lemma_mul_bounds(shares, ta + b + 1, shares, ta + b + 1);
        assert(numerator / denominator <= b) by (nonlinear_arith)
            requires
                0 <= numerator <= b * denominator,
                denominator > 0,
                b >= 0,
        ;
    }
}

/// Redeeming between one share and the whole supply never pays more than the
/// vault's total assets, and the only possible failure is a zero payout.
pub proof fn law_redeem_never_pays_more_than_total_assets(shares: u64, total_assets: u64, total_shares: u64, base_decimals: u8)
    requires
        1 <= shares <= total_shares,
        base_decimals <= SHARE_DECIMALS,
    ensures
        match spec_assets_for_redeem(shares, total_assets, total_shares, base_decimals) {
            Ok(assets) => assets <= total_assets,
            Err(error) => error == RoshiError::ZeroOutput,
        },
{
    lemma_ten_pow_monotone(0, (9 - base_decimals) as nat);
    lemma_share_value_bounded(shares as int, total_assets as int, total_shares as int, virtual_offset(base_decimals));
}

/// At par (supply equals assets times the virtual ratio) the offset cancels:
/// deposits mint exactly `base_atoms * ratio` and redeems pay exactly
/// `floor(shares / ratio)`.
pub proof fn law_par_vault_pricing_is_exact(pot: u64, base_atoms: u64, shares: u64, base_decimals: u8)
    requires
        base_decimals <= SHARE_DECIMALS,
        1 <= base_atoms,
        pot * virtual_offset(base_decimals) <= u64::MAX,
        base_atoms * virtual_offset(base_decimals) <= u64::MAX,
        1 <= shares <= pot * virtual_offset(base_decimals),
    ensures
        spec_shares_for_deposit(base_atoms, pot, (pot * virtual_offset(base_decimals)) as u64, base_decimals)
            == Ok::<u64, RoshiError>((base_atoms * virtual_offset(base_decimals)) as u64),
        spec_assets_for_redeem(shares, pot, (pot * virtual_offset(base_decimals)) as u64, base_decimals)
            == (if (shares as int) / virtual_offset(base_decimals) == 0 {
                Err(RoshiError::ZeroOutput)
            } else {
                Ok::<u64, RoshiError>(((shares as int) / virtual_offset(base_decimals)) as u64)
            }),
{
    lemma_ten_pow_monotone(0, (9 - base_decimals) as nat);
    let o = virtual_offset(base_decimals);
    let p = pot as int;
    let b = base_atoms as int;
    let s = shares as int;
    let supply = p * o;
    lemma_mul_bounds(p, o, p, o);
    lemma_mul_bounds(b, o, b, o);
    // Deposit: b * (p*o + o) == (b*o) * (p + 1).
    assert(b * (supply + o) == (b * o) * (p + 1)) by (nonlinear_arith)
        requires
            supply == p * o,
    ;
    lemma_fundamental_div_mod_converse(b * (supply + o), p + 1, b * o, 0);
    assert(b * o >= 1) by (nonlinear_arith)
        requires
            b >= 1,
            o >= 1,
    ;
    lemma_mul_bounds(b * o, p + 1, u64::MAX as int, u64::MAX + 1);
    // Redeem: s * (p + 1) == (s / o) * (o * (p + 1)) + (s % o) * (p + 1).
    lemma_fundamental_div_mod(s, o);
    lemma_mod_bound(s, o);
    let q = s / o;
    let r = s % o;
    assert(s * (p + 1) == q * (supply + o) + r * (p + 1)) by (nonlinear_arith)
        requires
            s == o * q + r,
            supply == p * o,
    ;
    assert(0 <= r * (p + 1) < supply + o) by (nonlinear_arith)
        requires
            0 <= r < o,
            p >= 0,
            supply == p * o,
    ;
    lemma_fundamental_div_mod_converse(s * (p + 1), supply + o, q, r * (p + 1));
    lemma_div_bounds(s, o);
    lemma_mul_bounds(s, p + 1, u64::MAX as int, u64::MAX + 1);
}

/// At or below par, redeeming the whole supply returns every asset.
pub proof fn law_full_redeem_at_or_below_par_returns_total_assets(total_assets: u64, total_shares: u64, base_decimals: u8)
    requires
        base_decimals <= SHARE_DECIMALS,
        total_assets >= 1,
        total_shares >= total_assets * virtual_offset(base_decimals),
    ensures
        spec_assets_for_redeem(total_shares, total_assets, total_shares, base_decimals)
            == Ok::<u64, RoshiError>(total_assets),
{
    lemma_ten_pow_monotone(0, (9 - base_decimals) as nat);
    let o = virtual_offset(base_decimals);
    let ta = total_assets as int;
    let ts = total_shares as int;
    let rem = ts - ta * o;
    assert(ts * (ta + 1) == ta * (ts + o) + rem) by (nonlinear_arith)
        requires
            rem == ts - ta * o,
    ;
    assert(0 <= rem < ts + o) by (nonlinear_arith)
        requires
            rem == ts - ta * o,
            ts >= ta * o,
            ta >= 1,
            o >= 1,
    ;
    lemma_fundamental_div_mod_converse(ts * (ta + 1), ts + o, ta, rem);
}

/// A fee report conserves value and ratchets the high watermark: whenever the
/// fee rate is a valid percentage and the gross share price fits, the report
/// succeeds, the fee is carved out of gross (`net == gross - fee`), the new
/// high watermark is at least the old one, and no fee is charged at a zero
/// rate or against zero shares.
pub proof fn law_performance_fee_conserves_and_ratchets(gross: u64, total_shares: u64, high_watermark: u64, bps: u16)
    requires
        bps <= BPS_DENOMINATOR,
        total_shares == 0 || share_price(gross as int, total_shares as int) <= u64::MAX,
    ensures
        spec_performance_fee_for_nav(gross, total_shares, high_watermark, bps) matches Ok((fee, net, new_high_watermark))
            && fee <= gross
            && net == gross - fee
            && new_high_watermark >= high_watermark
            && ((bps == 0 || total_shares == 0) ==> fee == 0),
{
    if total_shares > 0 {
        let gp = share_price(gross as int, total_shares as int);
        lemma_share_price_monotone(0, gross as int, total_shares as int);
        if !(high_watermark == 0 || gp <= high_watermark || bps == 0) {
            lemma_high_watermark_assets_covered(gross as int, total_shares as int, high_watermark as int);
            let ha = ceil_div(high_watermark * total_shares, share_scale());
            let profit = gross - ha;
            lemma_mul_bounds(profit, bps as int, profit, 10_000);
            lemma_div_bounds(profit * bps, 10_000);
            assert(profit * bps / 10_000 <= profit) by (nonlinear_arith)
                requires
                    0 <= profit * bps <= profit * 10_000,
                    profit >= 0,
            ;
            let fee = profit * bps / 10_000;
            lemma_share_price_monotone(gross - fee, gross as int, total_shares as int);
        }
    }
}

/// A report that charges no fee still ratchets the high watermark up to the
/// gross share price `floor(gross * 10^9 / total_shares)`: profit reported
/// while no fee was due is never charged for later. A zero fee rate charges
/// nothing and leaves the assets whole.
pub proof fn law_fee_free_reports_ratchet_the_watermark(gross: u64, total_shares: u64, high_watermark: u64, bps: u16)
    requires
        bps <= 10_000,
        total_shares > 0,
        (gross as int) * 1_000_000_000 / (total_shares as int) <= u64::MAX,
    ensures
        spec_performance_fee_for_nav(gross, total_shares, high_watermark, bps) is Ok,
        ({
            let (fee, net, new_high_watermark) = spec_performance_fee_for_nav(gross, total_shares, high_watermark, bps)->Ok_0;
            let gross_price = (gross as int) * 1_000_000_000 / (total_shares as int);
            &&& fee == 0 ==> net == gross
            &&& fee == 0 ==> new_high_watermark == (if high_watermark as int >= gross_price {
                high_watermark as int
            } else {
                gross_price
            })
            &&& bps == 0 ==> fee == 0
        }),
{
    law_performance_fee_conserves_and_ratchets(gross, total_shares, high_watermark, bps);
    let gp = share_price(gross as int, total_shares as int);
    assert(gp == (gross as int) * 1_000_000_000 / (total_shares as int));
    if !(high_watermark == 0 || gp <= high_watermark || bps == 0) {
        lemma_share_price_monotone(0, gross as int, total_shares as int);
        lemma_high_watermark_assets_covered(gross as int, total_shares as int, high_watermark as int);
        let ha = ceil_div(high_watermark * total_shares, share_scale());
        let profit = gross - ha;
        lemma_mul_bounds(profit, bps as int, profit, 10_000);
        lemma_div_bounds(profit * bps, 10_000);
        assert(profit * bps / 10_000 <= profit) by (nonlinear_arith)
            requires
                0 <= profit * bps <= profit * 10_000,
                profit >= 0,
        ;
        let fee = profit * bps / 10_000;
        assert(0 <= fee <= gross);
        if fee as u64 == 0 {
            assert(fee == 0);
            assert(gross - fee == gross as int);
        }
    }
}

/// Inputs of at most `10^9` (atoms, shares and watermark) always keep the
/// gross share price within `u64`.
pub proof fn law_bounded_inputs_keep_share_price_in_range(gross: u64, total_shares: u64)
    requires
        gross <= 1_000_000_000,
        1 <= total_shares,
    ensures
        share_price(gross as int, total_shares as int) <= u64::MAX,
{
    lemma_mul_bounds(gross as int, share_scale(), 1_000_000_000, share_scale());
    lemma_div_bounds(gross * share_scale(), total_shares as int);
}

/// A higher fee rate never charges less on the same report.
pub proof fn law_performance_fee_is_monotonic_in_bps(gross: u64, total_shares: u64, high_watermark: u64, lower_bps: u16, higher_bps: u16)
    requires
        lower_bps <= higher_bps,
    ensures
        spec_performance_fee_for_nav(gross, total_shares, high_watermark, lower_bps) matches Ok((lower_fee, _, _))
            ==> (spec_performance_fee_for_nav(gross, total_shares, high_watermark, higher_bps) matches Ok((higher_fee, _, _))
            ==> lower_fee <= higher_fee),
{
    if total_shares > 0 && higher_bps <= BPS_DENOMINATOR {
        let gp = share_price(gross as int, total_shares as int);
        if gp <= u64::MAX && high_watermark != 0 && gp > high_watermark && lower_bps != 0 {
            lemma_high_watermark_assets_covered(gross as int, total_shares as int, high_watermark as int);
            let ha = ceil_div(high_watermark * total_shares, share_scale());
            let profit = gross - ha;
            lemma_mul_bounds(profit, lower_bps as int, profit, higher_bps as int);
            lemma_div_monotone(profit * lower_bps, profit * higher_bps, 10_000);
            lemma_mul_bounds(profit, higher_bps as int, profit, 10_000);
            lemma_div_bounds(profit * higher_bps, 10_000);
            assert(profit * higher_bps / 10_000 <= profit) by (nonlinear_arith)
                requires
                    0 <= profit * higher_bps <= profit * 10_000,
                    profit >= 0,
            ;
            lemma_div_bounds(profit * lower_bps, 10_000);
        }
    }
}

} // verus!
