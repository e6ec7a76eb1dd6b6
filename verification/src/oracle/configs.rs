//! Oracle configurations with a full Scope source-mapping commitment.

use vstd::prelude::*;

use crate::bytes::{bytes_are_zero, zeros};

verus! {

/// Switchboard On-Demand oracle configuration stored with the asset it prices.
///
/// `price_decimals` is the scale of the raw oracle price. A price of `123`
/// with `price_decimals = 2` represents `1.23`.
#[derive(Clone, Copy, Debug, PartialEq, Eq)]
pub struct SwitchboardOracleConfig {
    pub quote_account: [u8; 32],
    pub queue_account: [u8; 32],
    pub feed_id: [u8; 32],
    pub max_age_slots: u64,
    pub price_decimals: u8,
    pub _padding: [u8; 7],
}

/// Pyth pull-oracle configuration stored with the asset it prices.
///
/// `max_confidence_bps` must be nonzero for an active Pyth leg.
/// `price_update_account` optionally pins the price update account by
/// address; all-zeros (the default) accepts any Pyth-verified update account
/// carrying `feed_id`.
#[derive(Clone, Copy, Debug, PartialEq, Eq)]
pub struct PythOracleConfig {
    pub feed_id: [u8; 32],
    pub price_update_account: [u8; 32],
    pub max_age_seconds: u64,
    pub max_confidence_bps: u16,
    pub price_decimals: u8,
    pub _padding: [u8; 5],
}

/// The complete source mapping committed for one Kamino Scope price index:
/// a canonical commitment to the values Scope's `OracleMappings` account
/// holds at that index. `price_type` excludes Scope's high frozen bit.
#[derive(Clone, Copy, Debug, PartialEq, Eq)]
pub struct ScopeOracleMapping {
    pub price_info_account: [u8; 32],
    pub twap_source_or_ref_price_tolerance_bps: u16,
    pub ref_price: u16,
    pub generic: [u8; 20],
    pub price_type: u8,
    pub twap_enabled_bitmask: u8,
    pub _padding: [u8; 6],
}

/// Kamino Scope oracle configuration stored with the asset it prices.
///
/// `prices_account` pins Scope's `OraclePrices` account, `price_index`
/// selects the entry and `mapping` pins the entry's source configuration.
/// The reader takes Scope's exponent from the entry on every read.
#[derive(Clone, Copy, Debug, PartialEq, Eq)]
pub struct ScopeOracleConfig {
    pub prices_account: [u8; 32],
    pub mapping: ScopeOracleMapping,
    pub max_age_seconds: u64,
    pub price_index: u16,
    pub _padding: [u8; 6],
}

impl SwitchboardOracleConfig {
    pub fn new(
        quote_account: [u8; 32],
        queue_account: [u8; 32],
        feed_id: [u8; 32],
        price_decimals: u8,
        max_age_slots: u64,
    ) -> (r: Self)
        ensures
            r.quote_account == quote_account,
            r.queue_account == queue_account,
            r.feed_id == feed_id,
            r.price_decimals == price_decimals,
            r.max_age_slots == max_age_slots,
            r._padding@ == zeros(7),
    {
        let r = SwitchboardOracleConfig {
            quote_account,
            queue_account,
            feed_id,
            max_age_slots,
            price_decimals,
            _padding: [0u8; 7],
        };
        assert(r._padding@ =~= zeros(7));
        r
    }
}

impl Default for SwitchboardOracleConfig {
    fn default() -> (r: Self)
        ensures
            r.quote_account@ == zeros(32),
            r.queue_account@ == zeros(32),
            r.feed_id@ == zeros(32),
            r.max_age_slots == 0,
            r.price_decimals == 0,
            r._padding@ == zeros(7),
    {
        let r = SwitchboardOracleConfig::new([0u8; 32], [0u8; 32], [0u8; 32], 0, 0);
        assert(r.quote_account@ =~= zeros(32));
        assert(r.queue_account@ =~= zeros(32));
        assert(r.feed_id@ =~= zeros(32));
        r
    }
}

impl PythOracleConfig {
    /// A configuration accepting any verified update for `feed_id`.
    pub fn new(feed_id: [u8; 32], price_decimals: u8, max_age_seconds: u64, max_confidence_bps: u16) -> (r: Self)
        ensures
            r.feed_id == feed_id,
            r.price_update_account@ == zeros(32),
            r.max_age_seconds == max_age_seconds,
            r.max_confidence_bps == max_confidence_bps,
            r.price_decimals == price_decimals,
            r._padding@ == zeros(5),
    {
        let r = PythOracleConfig {
            feed_id,
            price_update_account: [0u8; 32],
            max_age_seconds,
            max_confidence_bps,
            price_decimals,
            _padding: [0u8; 5],
        };
        assert(r.price_update_account@ =~= zeros(32));
        assert(r._padding@ =~= zeros(5));
        r
    }

    /// Pin pricing to one specific price update account.
    pub fn pin_price_update_account(self, price_update_account: [u8; 32]) -> (r: Self)
        ensures
            r == (PythOracleConfig { price_update_account, ..self }),
    {
        let mut r = self;
        r.price_update_account = price_update_account;
        r
    }

    /// The pinned price update account, or `None` when any verified update
    /// for `feed_id` is accepted (all-zero account).
    pub fn pinned_price_update_account(&self) -> (r: Option<[u8; 32]>)
        ensures
            r == (if self.price_update_account@ == zeros(32) {
                None
            } else {
                Some(self.price_update_account)
            }),
    {
        if bytes_are_zero(&self.price_update_account) {
            proof {
                assert(self.price_update_account@ =~= zeros(32));
            }
            return None;
        }
        proof {
            if self.price_update_account@ == zeros(32) {
                assert(self.price_update_account@ =~= self.price_update_account@.subrange(0, 32));
            }
        }
        Some(self.price_update_account)
    }
}

impl Default for PythOracleConfig {
    fn default() -> (r: Self)
        ensures
            r.feed_id@ == zeros(32),
            r.price_update_account@ == zeros(32),
            r.max_age_seconds == 0,
            r.max_confidence_bps == 0,
            r.price_decimals == 0,
            r._padding@ == zeros(5),
    {
        let r = PythOracleConfig::new([0u8; 32], 0, 0, 0);
        assert(r.feed_id@ =~= zeros(32));
        r
    }
}

/// Whether a mapping's padding is zero.
pub open spec fn mapping_padding_is_zero(mapping: ScopeOracleMapping) -> bool {
    mapping._padding@ == zeros(6)
}

/// Whether a Scope configuration's padding, and its mapping's, is zero.
pub open spec fn scope_padding_is_zero(config: ScopeOracleConfig) -> bool {
    config._padding@ == zeros(6) && mapping_padding_is_zero(config.mapping)
}

impl ScopeOracleMapping {
    pub fn new(
        price_info_account: [u8; 32],
        price_type: u8,
        twap_source_or_ref_price_tolerance_bps: u16,
        twap_enabled_bitmask: u8,
        ref_price: u16,
        generic: [u8; 20],
    ) -> (r: Self)
        ensures
            r.price_info_account == price_info_account,
            r.price_type == price_type,
            r.twap_source_or_ref_price_tolerance_bps == twap_source_or_ref_price_tolerance_bps,
            r.twap_enabled_bitmask == twap_enabled_bitmask,
            r.ref_price == ref_price,
            r.generic == generic,
            mapping_padding_is_zero(r),
    {
        let r = ScopeOracleMapping {
            price_info_account,
            twap_source_or_ref_price_tolerance_bps,
            ref_price,
            generic,
            price_type,
            twap_enabled_bitmask,
            _padding: [0u8; 6],
        };
        assert(r._padding@ =~= zeros(6));
        r
    }

    pub(crate) fn has_canonical_padding(&self) -> (r: bool)
        ensures
            r == mapping_padding_is_zero(*self),
    {
        let r = bytes_are_zero(&self._padding);
        proof {
            assert(self._padding@ =~= self._padding@.subrange(0, 6));
            if r {
                assert(self._padding@ =~= zeros(6));
            }
        }
        r
    }
}

impl Default for ScopeOracleMapping {
    fn default() -> (r: Self)
        ensures
            r.price_info_account@ == zeros(32),
            r.price_type == 0,
            r.twap_source_or_ref_price_tolerance_bps == 0,
            r.twap_enabled_bitmask == 0,
            r.ref_price == 0,
            r.generic@ == zeros(20),
            mapping_padding_is_zero(r),
    {
        let r = ScopeOracleMapping::new([0u8; 32], 0, 0, 0, 0, [0u8; 20]);
        assert(r.price_info_account@ =~= zeros(32));
        assert(r.generic@ =~= zeros(20));
        r
    }
}

impl ScopeOracleConfig {
    /// Entries in a Scope `OraclePrices` account.
    pub const MAX_ENTRIES: u16 = 512;
    /// Scope reserves the high bit of a mapping's price type as its frozen flag.
    pub const MAX_PRICE_TYPE: u8 = 0x7f;

    pub fn new(prices_account: [u8; 32], mapping: ScopeOracleMapping, price_index: u16, max_age_seconds: u64) -> (r: Self)
        ensures
            r.prices_account == prices_account,
            r.mapping == mapping,
            r.price_index == price_index,
            r.max_age_seconds == max_age_seconds,
            r._padding@ == zeros(6),
    {
        let r = ScopeOracleConfig { prices_account, mapping, max_age_seconds, price_index, _padding: [0u8; 6] };
        assert(r._padding@ =~= zeros(6));
        r
    }

    pub(crate) fn has_canonical_padding(&self) -> (r: bool)
        ensures
            r == scope_padding_is_zero(*self),
    {
        let own = bytes_are_zero(&self._padding);
        proof {
            assert(self._padding@ =~= self._padding@.subrange(0, 6));
            if own {
                assert(self._padding@ =~= zeros(6));
            }
        }
        own && self.mapping.has_canonical_padding()
    }
}

impl Default for ScopeOracleConfig {
    fn default() -> (r: Self)
        ensures
            r.prices_account@ == zeros(32),
            r.mapping.price_info_account@ == zeros(32),
            r.mapping.generic@ == zeros(20),
            r.max_age_seconds == 0,
            r.price_index == 0,
            scope_padding_is_zero(r),
    {
        let r = ScopeOracleConfig::new([0u8; 32], ScopeOracleMapping::default(), 0, 0);
        assert(r.prices_account@ =~= zeros(32));
        r
    }
}

} // verus!
