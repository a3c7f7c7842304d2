//! Cached-input classification: the neutral result that a classifier gives for a request, and the
//! classifier that gives nothing.
use vstd::prelude::*;

verus! {

/// Seconds that a response waits for a classification before it is taken to be all zero.
pub const DEFAULT_CLASSIFY_DEADLINE_SECS: u64 = 5;

/// What a classifier is told about a request.
pub struct ClassifyInput {
    /// The model that the client asked for, before any rewrite.
    pub virtual_model: String,
    /// The request path.
    pub path: String,
    /// The body as the client sent it, with its cache markers.
    pub body: Vec<u8>,
    /// The bearer token of the request, if it had one.
    pub api_key: Option<String>,
}

/// How the input tokens of a request divide into tokens read from the cache and tokens written to
/// it, the latter by how long they are kept.
#[derive(Debug, Clone, Copy, PartialEq, Eq, Structural)]
pub struct CacheStats {
    pub read: u64,
    pub creation_5m: u64,
    pub creation_1h: u64,
    pub creation_24h: u64,
}

impl Default for CacheStats {
    fn default() -> (stats: CacheStats)
        ensures
            stats == (CacheStats { read: 0, creation_5m: 0, creation_1h: 0, creation_24h: 0 }),
    {
        CacheStats { read: 0, creation_5m: 0, creation_1h: 0, creation_24h: 0 }
    }
}

impl CacheStats {
    /// The tokens written to the cache, whatever their tier, up to `u64::MAX`.
    pub open spec fn total_written(self) -> u64 {
        let sum = self.creation_5m + self.creation_1h + self.creation_24h;
        if sum <= u64::MAX {
            sum as u64
        } else {
            u64::MAX
        }
    }

    /// The tokens written to the cache, whatever their tier, up to `u64::MAX`.
    pub fn creation_total(&self) -> (total: u64)
        ensures
            total == self.total_written(),
    {
        self.creation_5m.saturating_add(self.creation_1h).saturating_add(self.creation_24h)
    }

    /// Whether every count is zero.
    pub fn is_zero(&self) -> (zero: bool)
        ensures
            zero == (self.read == 0 && self.creation_5m == 0 && self.creation_1h == 0
                && self.creation_24h == 0),
    {
        *self == CacheStats::default()
    }
}

/// Tells how the input tokens of a request divide. A classifier does not fail: one that cannot
/// tell gives zero counts.
pub trait CacheClassifier: Send + Sync {
    /// How the input tokens of a request divide.
    fn classify(&self, req: &ClassifyInput) -> CacheStats;
}

/// The classifier that finds nothing cached in any request.
#[derive(Debug, Clone, Copy)]
pub struct NoopCacheClassifier;

impl CacheClassifier for NoopCacheClassifier {
    /// All counts are zero, whatever the request.
    fn classify(&self, _req: &ClassifyInput) -> (stats: CacheStats)
        ensures
            stats == (CacheStats { read: 0, creation_5m: 0, creation_1h: 0, creation_24h: 0 }),
    {
        CacheStats::default()
    }
}

/// A split writes no token to the cache exactly when no tier has one.
pub proof fn law_total_zero_iff_tiers_zero(stats: CacheStats)
    ensures
        stats.total_written() == 0 <==> stats.creation_5m == 0 && stats.creation_1h == 0
            && stats.creation_24h == 0,
{
}

/// What was written in all is the sum of what was written in each tier, as far as it can be counted.
pub proof fn law_tiers_add_up(stats: CacheStats)
    ensures
        stats.creation_5m + stats.creation_1h + stats.creation_24h <= u64::MAX ==> stats.total_written()
            == stats.creation_5m + stats.creation_1h + stats.creation_24h,
        stats.creation_5m + stats.creation_1h + stats.creation_24h > u64::MAX ==> stats.total_written()
            == u64::MAX,
{
}

} // verus!
