//! Oracle configuration stored by vault and asset accounts.
//!
//! An [`OracleConfig`] is a fixed 192-byte leg region tagged by `kind`. Each
//! kind's configuration occupies a fixed sub-range of the region:
//! Switchboard at `0..112`, Pyth at `112..192` and Scope at `0..80`. Bytes
//! outside the active kind's sub-range are dead; constructors zero them.

pub mod configs;
pub mod feeds;

use vstd::prelude::*;

use crate::bytes::{
    get_bytes, get_u16_le, get_u64_le, lemma_array_eq, lemma_u16_le_injective,
    lemma_u64_le_injective, put_bytes, put_u16_le, put_u64_le, put_u8, read_u16_le, u16_le,
    u64_le, zeros,
};



verus! {

broadcast use vstd::array::group_array_axioms;

/// A fixed-point oracle price: `value / 10^decimals` quote units per one
/// whole token of the priced asset.
#[derive(Clone, Copy, Debug, PartialEq, Eq, Structural)]
pub struct OraclePrice {
    pub value: u128,
    pub decimals: u8,
}

impl OraclePrice {
    /// The exact price of the base asset in itself.
    pub fn unit() -> (r: OraclePrice)
        ensures
            r == (OraclePrice { value: 1, decimals: 0 }),
    {
        OraclePrice { value: 1, decimals: 0 }
    }
}

/// Discriminator for oracle implementations.
#[derive(Clone, Copy, Debug, PartialEq, Eq, Structural)]
pub enum OracleKind {
    Switchboard,
    Pyth,
    Scope,
}

/// The wire byte of each oracle kind.
pub open spec fn kind_byte(kind: OracleKind) -> u8 {
    match kind {
        OracleKind::Switchboard => 0,
        OracleKind::Pyth => 1,
        OracleKind::Scope => 2,
    }
}

/// The oracle kind a wire byte names, if any.
pub open spec fn kind_of_byte(kind: u8) -> Option<OracleKind> {
    if kind == 0 {
        Some(OracleKind::Switchboard)
    } else if kind == 1 {
        Some(OracleKind::Pyth)
    } else if kind == 2 {
        Some(OracleKind::Scope)
    } else {
        None
    }
}

impl OracleKind {
    pub fn as_u8(self) -> (r: u8)
        ensures
            r == kind_byte(self),
    {
        match self {
            OracleKind::Switchboard => 0,
            OracleKind::Pyth => 1,
            OracleKind::Scope => 2,
        }
    }

    pub fn from_u8(kind: u8) -> (r: Option<OracleKind>)
        ensures
            r == kind_of_byte(kind),
    {
        match kind {
            0 => Some(OracleKind::Switchboard),
            1 => Some(OracleKind::Pyth),
            2 => Some(OracleKind::Scope),
            _ => None,
        }
    }
}

/// The byte round trip of an oracle kind.
pub proof fn law_oracle_kind_round_trips(kind: OracleKind)
    ensures
        kind_of_byte(kind_byte(kind)) == Some(kind),
{
}

#[derive(Clone, Copy, Debug, PartialEq, Eq, Structural)]
pub struct InvalidOracleConfig;

/// Switchboard On-Demand oracle configuration stored with the asset it prices.
///
/// `price_decimals` is the scale of the raw oracle price. A price of `123`
/// with `price_decimals = 2` represents `1.23`.
#[derive(Clone, Copy, Debug, PartialEq, Eq)]
pub struct SwitchboardOracleConfig {
    pub quote_account: [u8; 32],
    pub queue_account: [u8; 32],
    pub feed_id: [u8; 32],
    pub max_age_slots: u64,
    pub price_decimals: u8,
    pub _padding: [u8; 7],
}

/// Pyth pull-oracle configuration stored with the asset it prices.
///
/// `max_confidence_bps` must be nonzero for an active Pyth leg.
/// `price_update_account` optionally pins the price update account by
/// address; all-zeros accepts any verified update account carrying `feed_id`.
#[derive(Clone, Copy, Debug, PartialEq, Eq)]
pub struct PythOracleConfig {
    pub feed_id: [u8; 32],
    pub price_update_account: [u8; 32],
    pub max_age_seconds: u64,
    pub max_confidence_bps: u16,
    pub price_decimals: u8,
    pub _padding: [u8; 5],
}

/// Kamino Scope oracle configuration stored with the asset it prices.
///
/// `prices_account` pins the `OraclePrices` account and `price_index` selects
/// the entry; `price_type` and `price_info_account` pin the entry's source.
#[derive(Clone, Copy, Debug, PartialEq, Eq)]
pub struct ScopeOracleConfig {
    pub prices_account: [u8; 32],
    pub price_info_account: [u8; 32],
    pub max_age_seconds: u64,
    pub price_index: u16,
    pub price_type: u8,
    pub _padding: [u8; 5],
}

/// Entries in a Scope `OraclePrices` account; `price_index` must be below this.
pub const SCOPE_MAX_ENTRIES: u16 = 512;

/// Scope reserves the high bit of a price type as its frozen flag.
pub const SCOPE_MAX_PRICE_TYPE: u8 = 0x7f;

/// Size of the leg region shared by all implementations.
pub const LEGS_SIZE: usize = 192;

pub const SWITCHBOARD_LEG_OFFSET: usize = 0;

pub const PYTH_LEG_OFFSET: usize = 112;

pub const SCOPE_LEG_OFFSET: usize = 0;

/// The 112-byte layout of a Switchboard leg.
pub closed spec fn switchboard_bytes(config: SwitchboardOracleConfig) -> Seq<u8> {
    config.quote_account@ + config.queue_account@ + config.feed_id@ + u64_le(config.max_age_slots)
        + seq![config.price_decimals] + config._padding@
}

/// The 80-byte layout of a Pyth leg.
pub closed spec fn pyth_bytes(config: PythOracleConfig) -> Seq<u8> {
    config.feed_id@ + config.price_update_account@ + u64_le(config.max_age_seconds) + u16_le(
        config.max_confidence_bps,
    ) + seq![config.price_decimals] + config._padding@
}

/// The 80-byte layout of a Scope leg.
pub closed spec fn scope_bytes(config: ScopeOracleConfig) -> Seq<u8> {
    config.prices_account@ + config.price_info_account@ + u64_le(config.max_age_seconds) + u16_le(
        config.price_index,
    ) + seq![config.price_type] + config._padding@
}

/// Whether a Switchboard configuration carries zeroed padding.
pub closed spec fn switchboard_padding_is_zero(config: SwitchboardOracleConfig) -> bool {
    config._padding@ == zeros(7)
}

/// Whether a Pyth configuration carries zeroed padding.
pub closed spec fn pyth_padding_is_zero(config: PythOracleConfig) -> bool {
    config._padding@ == zeros(5)
}

/// Whether a Scope configuration carries zeroed padding.
pub closed spec fn scope_padding_is_zero(config: ScopeOracleConfig) -> bool {
    config._padding@ == zeros(5)
}

impl SwitchboardOracleConfig {
    pub fn new(quote_account: [u8; 32], queue_account: [u8; 32], feed_id: [u8; 32], price_decimals: u8, max_age_slots: u64) -> (r: Self)
        ensures
            r.quote_account == quote_account,
            r.queue_account == queue_account,
            r.feed_id == feed_id,
            r.price_decimals == price_decimals,
            r.max_age_slots == max_age_slots,
            switchboard_padding_is_zero(r),
    {
        let r = SwitchboardOracleConfig {
            quote_account,
            queue_account,
            feed_id,
            max_age_slots,
            price_decimals,
            _padding: [0u8; 7],
        };
        assert(r._padding@ =~= zeros(7));
        r
    }

    pub fn to_leg_bytes(self) -> (out: [u8; 112])
        ensures
            out@ == switchboard_bytes(self),
    {
        let mut out = [0u8; 112];
        put_bytes(&mut out, 0, &self.quote_account);
        put_bytes(&mut out, 32, &self.queue_account);
        put_bytes(&mut out, 64, &self.feed_id);
        put_u64_le(&mut out, 96, self.max_age_slots);
        put_u8(&mut out, 104, self.price_decimals);
        put_bytes(&mut out, 105, &self._padding);
        assert(out@ =~= switchboard_bytes(self));
        out
    }

    pub fn from_leg_bytes(bytes: [u8; 112]) -> (r: Self)
        ensures
            switchboard_bytes(r) == bytes@,
    {
        let r = SwitchboardOracleConfig {
            quote_account: get_bytes(&bytes, 0),
            queue_account: get_bytes(&bytes, 32),
            feed_id: get_bytes(&bytes, 64),
            max_age_slots: get_u64_le(&bytes, 96),
            price_decimals: bytes[104],
            _padding: get_bytes(&bytes, 105),
        };
        assert(switchboard_bytes(r) =~= bytes@);
        r
    }
}

impl Default for SwitchboardOracleConfig {
    fn default() -> (r: Self)
        ensures
            r.quote_account@ == zeros(32),
            r.queue_account@ == zeros(32),
            r.feed_id@ == zeros(32),
            r.max_age_slots == 0,
            r.price_decimals == 0,
            switchboard_padding_is_zero(r),
    {
        let r = SwitchboardOracleConfig::new([0u8; 32], [0u8; 32], [0u8; 32], 0, 0);
        assert(r.quote_account@ =~= zeros(32));
        assert(r.queue_account@ =~= zeros(32));
        assert(r.feed_id@ =~= zeros(32));
        r
    }
}

impl PythOracleConfig {
    pub fn new(feed_id: [u8; 32], price_decimals: u8, max_age_seconds: u64, max_confidence_bps: u16) -> (r: Self)
        ensures
            r.feed_id == feed_id,
            r.price_update_account@ == zeros(32),
            r.max_age_seconds == max_age_seconds,
            r.max_confidence_bps == max_confidence_bps,
            r.price_decimals == price_decimals,
            pyth_padding_is_zero(r),
    {
        let r = PythOracleConfig {
            feed_id,
            price_update_account: [0u8; 32],
            max_age_seconds,
            max_confidence_bps,
            price_decimals,
            _padding: [0u8; 5],
        };
        assert(r._padding@ =~= zeros(5));
        assert(r.price_update_account@ =~= zeros(32));
        r
    }

    /// Pin pricing to one specific price update account.
    pub fn pin_price_update_account(self, price_update_account: [u8; 32]) -> (r: Self)
        ensures
            r == (PythOracleConfig { price_update_account, ..self }),
    {
        let mut config = self;
        config.price_update_account = price_update_account;
        config
    }

    /// The pinned price update account, or `None` when any verified update
    /// for `feed_id` is accepted (`price_update_account` all-zeros).
    pub fn pinned_price_update_account(&self) -> (r: Option<[u8; 32]>)
        ensures
            r == (if self.price_update_account@ == zeros(32) {
                None
            } else {
                Some(self.price_update_account)
            }),
    {
        if crate::bytes::bytes_are_zero(&self.price_update_account) {
            assert(self.price_update_account@ =~= zeros(32));
            return None;
        }
        Some(self.price_update_account)
    }

    pub fn to_leg_bytes(self) -> (out: [u8; 80])
        ensures
            out@ == pyth_bytes(self),
    {
        let mut out = [0u8; 80];
        put_bytes(&mut out, 0, &self.feed_id);
        put_bytes(&mut out, 32, &self.price_update_account);
        put_u64_le(&mut out, 64, self.max_age_seconds);
        put_u16_le(&mut out, 72, self.max_confidence_bps);
        put_u8(&mut out, 74, self.price_decimals);
        put_bytes(&mut out, 75, &self._padding);
        assert(out@ =~= pyth_bytes(self));
        out
    }

    pub fn from_leg_bytes(bytes: [u8; 80]) -> (r: Self)
        ensures
            pyth_bytes(r) == bytes@,
    {
        let r = PythOracleConfig {
            feed_id: get_bytes(&bytes, 0),
            price_update_account: get_bytes(&bytes, 32),
            max_age_seconds: get_u64_le(&bytes, 64),
            max_confidence_bps: get_u16_le(&bytes, 72),
            price_decimals: bytes[74],
            _padding: get_bytes(&bytes, 75),
        };
        assert(pyth_bytes(r) =~= bytes@);
        r
    }
}

impl Default for PythOracleConfig {
    fn default() -> (r: Self)
        ensures
            r.feed_id@ == zeros(32),
            r.price_update_account@ == zeros(32),
            r.max_age_seconds == 0,
            r.max_confidence_bps == 0,
            r.price_decimals == 0,
            pyth_padding_is_zero(r),
    {
        let r = PythOracleConfig::new([0u8; 32], 0, 0, 0);
        assert(r.feed_id@ =~= zeros(32));
        r
    }
}

impl ScopeOracleConfig {
    pub fn new(prices_account: [u8; 32], price_info_account: [u8; 32], price_type: u8, price_index: u16, max_age_seconds: u64) -> (r: Self)
        ensures
            r.prices_account == prices_account,
            r.price_info_account == price_info_account,
            r.max_age_seconds == max_age_seconds,
            r.price_index == price_index,
            r.price_type == price_type,
            scope_padding_is_zero(r),
    {
        let r = ScopeOracleConfig {
            prices_account,
            price_info_account,
            max_age_seconds,
            price_index,
            price_type,
            _padding: [0u8; 5],
        };
        assert(r._padding@ =~= zeros(5));
        r
    }

    pub fn to_leg_bytes(self) -> (out: [u8; 80])
        ensures
            out@ == scope_bytes(self),
    {
        let mut out = [0u8; 80];
        put_bytes(&mut out, 0, &self.prices_account);
        put_bytes(&mut out, 32, &self.price_info_account);
        put_u64_le(&mut out, 64, self.max_age_seconds);
        put_u16_le(&mut out, 72, self.price_index);
        put_u8(&mut out, 74, self.price_type);
        put_bytes(&mut out, 75, &self._padding);
        assert(out@ =~= scope_bytes(self));
        out
    }

    pub fn from_leg_bytes(bytes: [u8; 80]) -> (r: Self)
        ensures
            scope_bytes(r) == bytes@,
    {
        let r = ScopeOracleConfig {
            prices_account: get_bytes(&bytes, 0),
            price_info_account: get_bytes(&bytes, 32),
            max_age_seconds: get_u64_le(&bytes, 64),
            price_index: get_u16_le(&bytes, 72),
            price_type: bytes[74],
            _padding: get_bytes(&bytes, 75),
        };
        assert(scope_bytes(r) =~= bytes@);
        r
    }
}

impl Default for ScopeOracleConfig {
    fn default() -> (r: Self)
        ensures
            r.prices_account@ == zeros(32),
            r.price_info_account@ == zeros(32),
            r.max_age_seconds == 0,
            r.price_index == 0,
            r.price_type == 0,
            scope_padding_is_zero(r),
    {
        let r = ScopeOracleConfig::new([0u8; 32], [0u8; 32], 0, 0, 0);
        assert(r.prices_account@ =~= zeros(32));
        assert(r.price_info_account@ =~= zeros(32));
        r
    }
}

/// Copy `bytes` into the leg region at `offset`.
pub fn write_leg<const N: usize>(legs: [u8; 192], offset: usize, bytes: [u8; N]) -> (r: [u8; 192])
    requires
        offset + N <= LEGS_SIZE,
    ensures
        r@ == legs@.subrange(0, offset as int) + bytes@ + legs@.subrange(offset + N, 192),
{
    let mut legs = legs;
    put_bytes(&mut legs, offset, &bytes);
    legs
}

/// Copy a leg's bytes out of the region at `offset`.
pub fn read_leg<const N: usize>(legs: &[u8; 192], offset: usize) -> (r: [u8; N])
    requires
        offset + N <= LEGS_SIZE,
    ensures
        r@ == legs@.subrange(offset as int, offset + N),
{
    get_bytes(legs, offset)
}

/// Oracle configuration stored by vault and asset accounts: a fixed-size leg
/// region tagged by `kind`.
#[derive(Clone, Copy, Debug, PartialEq, Eq)]
pub struct OracleConfig {
    legs: [u8; 192],
    kind: u8,
    _padding: [u8; 7],
}

/// The raw kind byte of a configuration.
pub closed spec fn config_kind(config: OracleConfig) -> u8 {
    config.kind
}

/// The leg region of a configuration.
pub closed spec fn config_legs(config: OracleConfig) -> Seq<u8> {
    config.legs@
}

/// The trailing padding of a configuration.
pub closed spec fn config_padding(config: OracleConfig) -> Seq<u8> {
    config._padding@
}

/// Whether a configuration is acceptable for an active oracle: a known kind,
/// a nonzero confidence bound on an active Pyth leg, and an in-range entry
/// and underlying price type on an active Scope leg.
pub open spec fn oracle_config_valid(config: OracleConfig) -> bool {
    match kind_of_byte(config_kind(config)) {
        Some(OracleKind::Switchboard) => true,
        Some(OracleKind::Pyth) => read_u16_le(config_legs(config), PYTH_LEG_OFFSET + 72) != 0,
        Some(OracleKind::Scope) => read_u16_le(config_legs(config), SCOPE_LEG_OFFSET + 72) < SCOPE_MAX_ENTRIES
            && config_legs(config)[SCOPE_LEG_OFFSET + 74] <= SCOPE_MAX_PRICE_TYPE,
        None => false,
    }
}

impl OracleConfig {
    /// Reassemble a configuration from its stored parts.
    pub fn from_raw_parts(legs: [u8; 192], kind: u8, padding: [u8; 7]) -> (r: Self)
        ensures
            config_legs(r) == legs@,
            config_kind(r) == kind,
            config_padding(r) == padding@,
    {
        OracleConfig { legs, kind, _padding: padding }
    }

    /// The leg region bytes.
    pub fn legs(&self) -> (r: [u8; 192])
        ensures
            r@ == config_legs(*self),
    {
        self.legs
    }

    /// The trailing padding bytes.
    pub fn padding(&self) -> (r: [u8; 7])
        ensures
            r@ == config_padding(*self),
    {
        self._padding
    }

    pub fn raw_kind(&self) -> (r: u8)
        ensures
            r == config_kind(*self),
    {
        self.kind
    }

    pub fn kind(&self) -> (r: Result<OracleKind, InvalidOracleConfig>)
        ensures
            r == (match kind_of_byte(config_kind(*self)) {
                Some(kind) => Ok(kind),
                None => Err(InvalidOracleConfig),
            }),
    {
        match OracleKind::from_u8(self.kind) {
            Some(kind) => Ok(kind),
            None => Err(InvalidOracleConfig),
        }
    }

    pub fn validate(&self) -> (r: Result<(), InvalidOracleConfig>)
        ensures
            r is Ok <==> oracle_config_valid(*self),
    {
        match self.kind() {
            Ok(OracleKind::Pyth) => {
                if self.pyth_config().max_confidence_bps == 0 {
                    return Err(InvalidOracleConfig);
                }
                Ok(())
            },
            Ok(OracleKind::Switchboard) => Ok(()),
            Ok(OracleKind::Scope) => {
                let config = self.scope_config();
                if config.price_index >= SCOPE_MAX_ENTRIES || config.price_type > SCOPE_MAX_PRICE_TYPE {
                    return Err(InvalidOracleConfig);
                }
                Ok(())
            },
            Err(error) => Err(error),
        }
    }

    /// The Switchboard view of the leg region.
    pub fn switchboard_config(&self) -> (r: SwitchboardOracleConfig)
        ensures
            switchboard_bytes(r) == config_legs(*self).subrange(0, 112),
    {
        SwitchboardOracleConfig::from_leg_bytes(read_leg(&self.legs, SWITCHBOARD_LEG_OFFSET))
    }

    /// The Pyth view of the leg region.
    pub fn pyth_config(&self) -> (r: PythOracleConfig)
        ensures
            pyth_bytes(r) == config_legs(*self).subrange(112, 192),
            r.max_confidence_bps == read_u16_le(config_legs(*self), PYTH_LEG_OFFSET + 72),
    {
        let r = PythOracleConfig::from_leg_bytes(read_leg(&self.legs, PYTH_LEG_OFFSET));
        proof {
            let b = pyth_bytes(r);
            assert(b.subrange(72, 74) == u16_le(r.max_confidence_bps));
            assert(u16_le(r.max_confidence_bps) =~= self.legs@.subrange(184, 186));
            crate::bytes::lemma_u16_le_round_trip(r.max_confidence_bps);
            assert(read_u16_le(u16_le(r.max_confidence_bps), 0) == read_u16_le(self.legs@, 184));
        }
        r
    }

    /// The Scope view of the leg region.
    pub fn scope_config(&self) -> (r: ScopeOracleConfig)
        ensures
            scope_bytes(r) == config_legs(*self).subrange(0, 80),
            r.price_index == read_u16_le(config_legs(*self), SCOPE_LEG_OFFSET + 72),
            r.price_type == config_legs(*self)[SCOPE_LEG_OFFSET + 74],
    {
        let r = ScopeOracleConfig::from_leg_bytes(read_leg(&self.legs, SCOPE_LEG_OFFSET));
        proof {
            let b = scope_bytes(r);
            assert(b.subrange(72, 74) == u16_le(r.price_index));
            assert(u16_le(r.price_index) =~= self.legs@.subrange(72, 74));
            crate::bytes::lemma_u16_le_round_trip(r.price_index);
            assert(read_u16_le(u16_le(r.price_index), 0) == read_u16_le(self.legs@, 72));
            assert(b[74] == r.price_type);
        }
        r
    }

    pub fn switchboard(config: SwitchboardOracleConfig) -> (r: Self)
        ensures
            config_legs(r) == switchboard_bytes(config) + zeros(80),
            config_kind(r) == kind_byte(OracleKind::Switchboard),
            config_padding(r) == zeros(7),
            oracle_config_valid(r),
    {
        let r = OracleConfig {
            legs: write_leg([0u8; 192], SWITCHBOARD_LEG_OFFSET, config.to_leg_bytes()),
            kind: OracleKind::Switchboard.as_u8(),
            _padding: [0u8; 7],
        };
        assert(r.legs@ =~= switchboard_bytes(config) + zeros(80));
        assert(r._padding@ =~= zeros(7));
        r
    }

    pub fn pyth(config: PythOracleConfig) -> (r: Self)
        ensures
            config_legs(r) == zeros(112) + pyth_bytes(config),
            config_kind(r) == kind_byte(OracleKind::Pyth),
            config_padding(r) == zeros(7),
            oracle_config_valid(r) <==> config.max_confidence_bps != 0,
    {
        let r = OracleConfig {
            legs: write_leg([0u8; 192], PYTH_LEG_OFFSET, config.to_leg_bytes()),
            kind: OracleKind::Pyth.as_u8(),
            _padding: [0u8; 7],
        };
        assert(r.legs@ =~= zeros(112) + pyth_bytes(config));
        assert(r._padding@ =~= zeros(7));
        proof {
            crate::bytes::lemma_u16_le_round_trip(config.max_confidence_bps);
            assert(r.legs@.subrange(184, 186) =~= u16_le(config.max_confidence_bps));
            assert(read_u16_le(u16_le(config.max_confidence_bps), 0) == read_u16_le(r.legs@, 184));
        }
        r
    }

    pub fn scope(config: ScopeOracleConfig) -> (r: Self)
        ensures
            config_legs(r) == scope_bytes(config) + zeros(112),
            config_kind(r) == kind_byte(OracleKind::Scope),
            config_padding(r) == zeros(7),
            oracle_config_valid(r) <==> config.price_index < SCOPE_MAX_ENTRIES && config.price_type <= SCOPE_MAX_PRICE_TYPE,
    {
        let r = OracleConfig {
            legs: write_leg([0u8; 192], SCOPE_LEG_OFFSET, config.to_leg_bytes()),
            kind: OracleKind::Scope.as_u8(),
            _padding: [0u8; 7],
        };
        assert(r.legs@ =~= scope_bytes(config) + zeros(112));
        assert(r._padding@ =~= zeros(7));
        proof {
            crate::bytes::lemma_u16_le_round_trip(config.price_index);
            assert(r.legs@.subrange(72, 74) =~= u16_le(config.price_index));
            assert(read_u16_le(u16_le(config.price_index), 0) == read_u16_le(r.legs@, 72));
            assert(r.legs@[74] == config.price_type);
        }
        r
    }
}

impl Default for OracleConfig {
    fn default() -> (r: Self)
        ensures
            config_kind(r) == kind_byte(OracleKind::Switchboard),
            config_legs(r) == zeros(192),
    {
        let leg = SwitchboardOracleConfig::default();
        let r = OracleConfig::switchboard(leg);
        proof {
            assert(0u64 as u8 == 0 && (0u64 >> 8u64) as u8 == 0 && (0u64 >> 16u64) as u8 == 0
                && (0u64 >> 24u64) as u8 == 0 && (0u64 >> 32u64) as u8 == 0 && (0u64 >> 40u64) as u8 == 0
                && (0u64 >> 48u64) as u8 == 0 && (0u64 >> 56u64) as u8 == 0) by (bit_vector);
            assert(u64_le(0) =~= zeros(8));
            assert(switchboard_bytes(leg) =~= zeros(112));
            assert(config_legs(r) =~= zeros(192));
        }
        r
    }
}

// ---------------------------------------------------------------------------
// Laws of the leg region.
// ---------------------------------------------------------------------------

/// A Switchboard leg is determined by its bytes: writing a configuration into
/// the region and reading the Switchboard view back returns it unchanged.
pub proof fn law_switchboard_leg_round_trips(written: SwitchboardOracleConfig, read: SwitchboardOracleConfig)
    requires
        switchboard_bytes(read) == switchboard_bytes(written),
    ensures
        read == written,
{
    let a = switchboard_bytes(read);
    let b = switchboard_bytes(written);
    assert(read.quote_account@ =~= a.subrange(0, 32));
    assert(written.quote_account@ =~= b.subrange(0, 32));
    assert(read.queue_account@ =~= a.subrange(32, 64));
    assert(written.queue_account@ =~= b.subrange(32, 64));
    assert(read.feed_id@ =~= a.subrange(64, 96));
    assert(written.feed_id@ =~= b.subrange(64, 96));
    assert(u64_le(read.max_age_slots) =~= a.subrange(96, 104));
    assert(u64_le(written.max_age_slots) =~= b.subrange(96, 104));
    assert(a[104] == read.price_decimals && b[104] == written.price_decimals);
    assert(read._padding@ =~= a.subrange(105, 112));
    assert(written._padding@ =~= b.subrange(105, 112));
    lemma_array_eq(read.quote_account, written.quote_account);
    lemma_array_eq(read.queue_account, written.queue_account);
    lemma_array_eq(read.feed_id, written.feed_id);
    lemma_array_eq(read._padding, written._padding);
    lemma_u64_le_injective(read.max_age_slots, written.max_age_slots);
}

/// A Pyth leg is determined by its bytes.
pub proof fn law_pyth_leg_round_trips(written: PythOracleConfig, read: PythOracleConfig)
    requires
        pyth_bytes(read) == pyth_bytes(written),
    ensures
        read == written,
{
    let a = pyth_bytes(read);
    let b = pyth_bytes(written);
    assert(read.feed_id@ =~= a.subrange(0, 32));
    assert(written.feed_id@ =~= b.subrange(0, 32));
    assert(read.price_update_account@ =~= a.subrange(32, 64));
    assert(written.price_update_account@ =~= b.subrange(32, 64));
    assert(u64_le(read.max_age_seconds) =~= a.subrange(64, 72));
    assert(u64_le(written.max_age_seconds) =~= b.subrange(64, 72));
    assert(u16_le(read.max_confidence_bps) =~= a.subrange(72, 74));
    assert(u16_le(written.max_confidence_bps) =~= b.subrange(72, 74));
    assert(a[74] == read.price_decimals && b[74] == written.price_decimals);
    assert(read._padding@ =~= a.subrange(75, 80));
    assert(written._padding@ =~= b.subrange(75, 80));
    lemma_array_eq(read.feed_id, written.feed_id);
    lemma_array_eq(read.price_update_account, written.price_update_account);
    lemma_array_eq(read._padding, written._padding);
    lemma_u64_le_injective(read.max_age_seconds, written.max_age_seconds);
    lemma_u16_le_injective(read.max_confidence_bps, written.max_confidence_bps);
}

/// A Scope leg is determined by its bytes.
pub proof fn law_scope_leg_round_trips(written: ScopeOracleConfig, read: ScopeOracleConfig)
    requires
        scope_bytes(read) == scope_bytes(written),
    ensures
        read == written,
{
    let a = scope_bytes(read);
    let b = scope_bytes(written);
    assert(read.prices_account@ =~= a.subrange(0, 32));
    assert(written.prices_account@ =~= b.subrange(0, 32));
    assert(read.price_info_account@ =~= a.subrange(32, 64));
    assert(written.price_info_account@ =~= b.subrange(32, 64));
    assert(u64_le(read.max_age_seconds) =~= a.subrange(64, 72));
    assert(u64_le(written.max_age_seconds) =~= b.subrange(64, 72));
    assert(u16_le(read.price_index) =~= a.subrange(72, 74));
    assert(u16_le(written.price_index) =~= b.subrange(72, 74));
    assert(a[74] == read.price_type && b[74] == written.price_type);
    assert(read._padding@ =~= a.subrange(75, 80));
    assert(written._padding@ =~= b.subrange(75, 80));
    lemma_array_eq(read.prices_account, written.prices_account);
    lemma_array_eq(read.price_info_account, written.price_info_account);
    lemma_array_eq(read._padding, written._padding);
    lemma_u64_le_injective(read.max_age_seconds, written.max_age_seconds);
    lemma_u16_le_injective(read.price_index, written.price_index);
}

/// Every leg layout has the size of its region slot, so a configuration's
/// serialized size never depends on its kind.
pub proof fn law_leg_sizes_are_fixed(s: SwitchboardOracleConfig, p: PythOracleConfig, c: ScopeOracleConfig)
    ensures
        switchboard_bytes(s).len() == 112,
        pyth_bytes(p).len() == 80,
        scope_bytes(c).len() == 80,
{
}

} // verus!
