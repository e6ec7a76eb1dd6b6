//! Feed identity of oracle legs, and the rule by which one valuation reuses a
//! price it has already verified.

use vstd::prelude::*;

use crate::bytes::array_eq;
use crate::error::ProgramError;
use crate::oracle::configs::{PythOracleConfig, ScopeOracleConfig, ScopeOracleMapping, SwitchboardOracleConfig};
use crate::oracle::{config_kind, kind_of_byte, OracleConfig, OracleKind, OraclePrice};

verus! {

/// The active configuration of one oracle leg.
#[derive(Clone, Copy, Debug, PartialEq, Eq)]
pub enum ActiveOracleConfig {
    Switchboard(SwitchboardOracleConfig),
    Pyth(PythOracleConfig),
    Scope(ScopeOracleConfig),
}

/// Provider-specific identity of the underlying feed, independent of the
/// validation and interpretation policy applied to it. Scope's feed is the
/// pinned `OraclePrices` account plus the entry index; its source mapping is
/// validation policy on the entry.
#[derive(Clone, Copy, Debug, PartialEq, Eq)]
pub enum OracleFeedKey {
    Switchboard([u8; 32]),
    Pyth([u8; 32]),
    Scope { prices_account: [u8; 32], price_index: u16 },
}

/// The feed a configuration reads.
pub open spec fn feed_key_of(config: ActiveOracleConfig) -> OracleFeedKey {
    match config {
        ActiveOracleConfig::Switchboard(config) => OracleFeedKey::Switchboard(config.feed_id),
        ActiveOracleConfig::Pyth(config) => OracleFeedKey::Pyth(config.feed_id),
        ActiveOracleConfig::Scope(config) => OracleFeedKey::Scope {
            prices_account: config.prices_account,
            price_index: config.price_index,
        },
    }
}

/// Whether two legs read the same feed: a different feed is no match, the
/// same feed under a different policy is invalid, and only an identical
/// configuration matches.
pub open spec fn feeds_match_spec(left: ActiveOracleConfig, right: ActiveOracleConfig) -> Result<bool, ProgramError> {
    if feed_key_of(left) != feed_key_of(right) {
        Ok(false)
    } else if left != right {
        Err(ProgramError::InvalidAccountData)
    } else {
        Ok(true)
    }
}

/// The feed a configuration reads.
pub fn feed_key(config: ActiveOracleConfig) -> (r: OracleFeedKey)
    ensures
        r == feed_key_of(config),
{
    match config {
        ActiveOracleConfig::Switchboard(config) => OracleFeedKey::Switchboard(config.feed_id),
        ActiveOracleConfig::Pyth(config) => OracleFeedKey::Pyth(config.feed_id),
        ActiveOracleConfig::Scope(config) => OracleFeedKey::Scope {
            prices_account: config.prices_account,
            price_index: config.price_index,
        },
    }
}

fn same_feed_key(left: &OracleFeedKey, right: &OracleFeedKey) -> (r: bool)
    ensures
        r == (*left == *right),
{
    match (left, right) {
        (OracleFeedKey::Switchboard(a), OracleFeedKey::Switchboard(b)) => array_eq(a, b),
        (OracleFeedKey::Pyth(a), OracleFeedKey::Pyth(b)) => array_eq(a, b),
        (
            OracleFeedKey::Scope { prices_account: a, price_index: i },
            OracleFeedKey::Scope { prices_account: b, price_index: j },
        ) => *i == *j && array_eq(a, b),
        _ => false,
    }
}

fn same_switchboard(a: &SwitchboardOracleConfig, b: &SwitchboardOracleConfig) -> (r: bool)
    ensures
        r == (*a == *b),
{
    array_eq(&a.quote_account, &b.quote_account) && array_eq(&a.queue_account, &b.queue_account)
        && array_eq(&a.feed_id, &b.feed_id) && a.max_age_slots == b.max_age_slots && a.price_decimals
        == b.price_decimals && array_eq(&a._padding, &b._padding)
}

fn same_pyth(a: &PythOracleConfig, b: &PythOracleConfig) -> (r: bool)
    ensures
        r == (*a == *b),
{
    array_eq(&a.feed_id, &b.feed_id) && array_eq(&a.price_update_account, &b.price_update_account)
        && a.max_age_seconds == b.max_age_seconds && a.max_confidence_bps == b.max_confidence_bps
        && a.price_decimals == b.price_decimals && array_eq(&a._padding, &b._padding)
}

fn same_mapping(a: &ScopeOracleMapping, b: &ScopeOracleMapping) -> (r: bool)
    ensures
        r == (*a == *b),
{
    array_eq(&a.price_info_account, &b.price_info_account) && a.twap_source_or_ref_price_tolerance_bps
        == b.twap_source_or_ref_price_tolerance_bps && a.ref_price == b.ref_price && array_eq(
        &a.generic,
        &b.generic,
    ) && a.price_type == b.price_type && a.twap_enabled_bitmask == b.twap_enabled_bitmask && array_eq(
        &a._padding,
        &b._padding,
    )
}

fn same_scope(a: &ScopeOracleConfig, b: &ScopeOracleConfig) -> (r: bool)
    ensures
        r == (*a == *b),
{
    array_eq(&a.prices_account, &b.prices_account) && same_mapping(&a.mapping, &b.mapping)
        && a.max_age_seconds == b.max_age_seconds && a.price_index == b.price_index && array_eq(
        &a._padding,
        &b._padding,
    )
}

fn same_config(left: &ActiveOracleConfig, right: &ActiveOracleConfig) -> (r: bool)
    ensures
        r == (*left == *right),
{
    match (left, right) {
        (ActiveOracleConfig::Switchboard(a), ActiveOracleConfig::Switchboard(b)) => same_switchboard(a, b),
        (ActiveOracleConfig::Pyth(a), ActiveOracleConfig::Pyth(b)) => same_pyth(a, b),
        (ActiveOracleConfig::Scope(a), ActiveOracleConfig::Scope(b)) => same_scope(a, b),
        _ => false,
    }
}

/// Whether two legs read the same feed under the same policy; see
/// [`feeds_match_spec`].
pub fn feeds_match(left: ActiveOracleConfig, right: ActiveOracleConfig) -> (r: Result<bool, ProgramError>)
    ensures
        r == feeds_match_spec(left, right),
{
    if !same_feed_key(&feed_key(left), &feed_key(right)) {
        return Ok(false);
    }
    if !same_config(&left, &right) {
        return Err(ProgramError::InvalidAccountData);
    }
    Ok(true)
}

/// Feed matching is symmetric, and two legs match exactly when their
/// configurations are identical.
pub proof fn law_feeds_match_is_symmetric_and_exact(left: ActiveOracleConfig, right: ActiveOracleConfig)
    ensures
        feeds_match_spec(left, right) == feeds_match_spec(right, left),
        feeds_match_spec(left, right) == Ok::<bool, ProgramError>(true) <==> left == right,
{
}

/// Accounts one leg of each kind reads: Pyth's price update; Switchboard's
/// quote, queue, slot hashes and instructions sysvar; Scope's prices and
/// mappings.
pub open spec fn leg_account_count_of(config: ActiveOracleConfig) -> nat {
    match config {
        ActiveOracleConfig::Pyth(_) => 1,
        ActiveOracleConfig::Switchboard(_) => 4,
        ActiveOracleConfig::Scope(_) => 2,
    }
}

/// How many accounts a leg of this configuration reads.
pub fn leg_account_count(config: &ActiveOracleConfig) -> (r: usize)
    ensures
        r == leg_account_count_of(*config),
{
    match config {
        ActiveOracleConfig::Pyth(_) => 1,
        ActiveOracleConfig::Switchboard(_) => 4,
        ActiveOracleConfig::Scope(_) => 2,
    }
}

/// One leg's accounts split from the front of `accounts`: as many as the
/// leg's kind reads, then the rest; too few accounts is an error.
pub fn split_leg_accounts<'a, T>(config: &ActiveOracleConfig, accounts: &'a [T]) -> (r: Result<(&'a [T], &'a [T]), ProgramError>)
    ensures
        match r {
            Ok((leg, rest)) => accounts@.len() >= leg_account_count_of(*config) && leg@ == accounts@.subrange(
                0,
                leg_account_count_of(*config) as int,
            ) && rest@ == accounts@.subrange(leg_account_count_of(*config) as int, accounts@.len() as int),
            Err(e) => accounts@.len() < leg_account_count_of(*config) && e == ProgramError::NotEnoughAccountKeys,
        },
{
    let count = leg_account_count(config);
    if accounts.len() < count {
        return Err(ProgramError::NotEnoughAccountKeys);
    }
    Ok((vstd::slice::slice_subrange(accounts, 0, count), vstd::slice::slice_subrange(accounts, count, accounts.len())))
}

/// How many accounts the active leg of `oracle` reads; a configuration of
/// unknown kind is invalid account data.
pub open spec fn oracle_leg_count_of(oracle: OracleConfig) -> Result<nat, ProgramError> {
    match kind_of_byte(config_kind(oracle)) {
        Some(OracleKind::Pyth) => Ok(1),
        Some(OracleKind::Switchboard) => Ok(4),
        Some(OracleKind::Scope) => Ok(2),
        None => Err(ProgramError::InvalidAccountData),
    }
}

/// How many accounts the active leg of `oracle` reads.
pub fn oracle_leg_count(oracle: &OracleConfig) -> (r: Result<usize, ProgramError>)
    ensures
        match r {
            Ok(count) => oracle_leg_count_of(*oracle) == Ok::<nat, ProgramError>(count as nat),
            Err(error) => oracle_leg_count_of(*oracle) == Err::<nat, ProgramError>(error),
        },
{
    match oracle.kind() {
        Ok(OracleKind::Pyth) => Ok(1),
        Ok(OracleKind::Switchboard) => Ok(4),
        Ok(OracleKind::Scope) => Ok(2),
        Err(_) => Err(ProgramError::InvalidAccountData),
    }
}

/// Whether two legs were given the same account keys, in order.
pub fn same_account_keys(left: &[[u8; 32]], right: &[[u8; 32]]) -> (r: bool)
    ensures
        r == (left@ == right@),
{
    if left.len() != right.len() {
        return false;
    }
    let mut index: usize = 0;
    while index < left.len()
        invariant
            left@.len() == right@.len(),
            index <= left@.len(),
            forall|i: int| 0 <= i < index ==> left@[i] == right@[i],
        decreases left@.len() - index,
    {
        if !array_eq(&left[index], &right[index]) {
            return false;
        }
        index = index + 1;
    }
    assert(left@ =~= right@);
    true
}

/// One leg already read and verified in a valuation.
#[derive(Clone, Debug)]
pub struct VerifiedOracleLeg {
    pub config: ActiveOracleConfig,
    pub accounts: Vec<[u8; 32]>,
    pub price: OraclePrice,
}

/// The price a leg may reuse from the legs verified before it: every earlier
/// leg on the same feed must carry the identical configuration and account
/// keys, and the last of them lends its price; `None` means the leg must be
/// read.
pub open spec fn reused_price(
    verified: Seq<VerifiedOracleLeg>,
    n: nat,
    config: ActiveOracleConfig,
    accounts: Seq<[u8; 32]>,
) -> Result<Option<OraclePrice>, ProgramError>
    decreases n,
{
    if n == 0 {
        Ok(None)
    } else {
        match reused_price(verified, (n - 1) as nat, config, accounts) {
            Err(e) => Err(e),
            Ok(earlier) => {
                let leg = verified[n - 1];
                match feeds_match_spec(config, leg.config) {
                    Err(e) => Err(e),
                    Ok(false) => Ok(earlier),
                    Ok(true) => if accounts == leg.accounts@ {
                        Ok(Some(leg.price))
                    } else {
                        Err(ProgramError::InvalidAccountData)
                    },
                }
            },
        }
    }
}

/// The legs read so far in one valuation path, at most three.
pub struct OracleReadSession {
    verified: Vec<VerifiedOracleLeg>,
}

/// Legs one valuation path reads at most.
pub const MAX_SESSION_LEGS: usize = 3;

impl OracleReadSession {
    /// The legs verified so far, in order.
    pub closed spec fn legs(self) -> Seq<VerifiedOracleLeg> {
        self.verified@
    }

    /// A session that has read nothing.
    pub fn new() -> (r: Self)
        ensures
            r.legs() == Seq::<VerifiedOracleLeg>::empty(),
    {
        OracleReadSession { verified: Vec::new() }
    }

    /// Number of legs verified so far.
    pub fn len(&self) -> (r: usize)
        ensures
            r == self.legs().len(),
    {
        self.verified.len()
    }

    /// The price a leg with `config` and `accounts` reuses, `None` when it
    /// must be read, or the error when it reads a verified feed under
    /// another policy or through other accounts.
    pub fn reusable_price(&self, config: &ActiveOracleConfig, accounts: &[[u8; 32]]) -> (r: Result<
        Option<OraclePrice>,
        ProgramError,
    >)
        ensures
            r == reused_price(self.legs(), self.legs().len(), *config, accounts@),
    {
        let mut reused: Option<OraclePrice> = None;
        let mut index: usize = 0;
        while index < self.verified.len()
            invariant
                index <= self.verified@.len(),
                reused_price(self.verified@, index as nat, *config, accounts@) == Ok::<
                    Option<OraclePrice>,
                    ProgramError,
                >(reused),
            decreases self.verified@.len() - index,
        {
            let leg = &self.verified[index];
            match feeds_match(*config, leg.config) {
                Err(e) => {
                    proof {
                        lemma_reuse_error_persists(self.verified@, (index + 1) as nat, self.verified@.len(), *config, accounts@);
                    }
                    return Err(e);
                },
                Ok(false) => {},
                Ok(true) => {
                    if !same_account_keys(accounts, leg.accounts.as_slice()) {
                        proof {
                            lemma_reuse_error_persists(self.verified@, (index + 1) as nat, self.verified@.len(), *config, accounts@);
                        }
                        return Err(ProgramError::InvalidAccountData);
                    }
                    reused = Some(leg.price);
                },
            }
            index = index + 1;
        }
        Ok(reused)
    }

    /// Record a leg verified at `price`; a session holds at most
    /// [`MAX_SESSION_LEGS`] legs.
    pub fn record(&mut self, config: ActiveOracleConfig, accounts: Vec<[u8; 32]>, price: OraclePrice)
        requires
            old(self).legs().len() < MAX_SESSION_LEGS,
        ensures
            final(self).legs() == old(self).legs().push(VerifiedOracleLeg { config, accounts, price }),
    {
        self.verified.push(VerifiedOracleLeg { config, accounts, price });
    }
}

proof fn lemma_reuse_error_persists(
    verified: Seq<VerifiedOracleLeg>,
    k: nat,
    n: nat,
    config: ActiveOracleConfig,
    accounts: Seq<[u8; 32]>,
)
    requires
        k <= n,
        reused_price(verified, k, config, accounts) is Err,
    ensures
        reused_price(verified, n, config, accounts) == reused_price(verified, k, config, accounts),
    decreases n - k,
{
    if k < n {
        lemma_reuse_error_persists(verified, k, (n - 1) as nat, config, accounts);
    }
}

/// Once a leg is recorded, a later leg with the identical configuration and
/// accounts reuses its price rather than reading again.
pub proof fn law_recorded_leg_is_reused(
    verified: Seq<VerifiedOracleLeg>,
    config: ActiveOracleConfig,
    accounts: Vec<[u8; 32]>,
    price: OraclePrice,
)
    requires
        reused_price(verified, verified.len(), config, accounts@) is Ok,
    ensures
        ({
            let after = verified.push(VerifiedOracleLeg { config, accounts, price });
            reused_price(after, after.len(), config, accounts@) == Ok::<Option<OraclePrice>, ProgramError>(
                Some(price),
            )
        }),
{
    let after = verified.push(VerifiedOracleLeg { config, accounts, price });
    lemma_reuse_prefix(verified, after, verified.len(), config, accounts@);
}

proof fn lemma_reuse_prefix(
    verified: Seq<VerifiedOracleLeg>,
    after: Seq<VerifiedOracleLeg>,
    n: nat,
    config: ActiveOracleConfig,
    accounts: Seq<[u8; 32]>,
)
    requires
        n <= verified.len(),
        verified.len() < after.len(),
        forall|i: int| 0 <= i < verified.len() ==> after[i] == verified[i],
    ensures
        reused_price(after, n, config, accounts) == reused_price(verified, n, config, accounts),
    decreases n,
{
    if n > 0 {
        lemma_reuse_prefix(verified, after, (n - 1) as nat, config, accounts);
    }
}

} // verus!
