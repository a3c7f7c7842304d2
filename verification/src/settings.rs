//! What the gateway does where nothing else is configured.
use vstd::prelude::*;

verus! {

/// The longest request body that is taken, in bytes.
pub const DEFAULT_BODY_LIMIT: usize = 33_554_432;

/// How connections to upstreams are kept.
#[derive(Debug, Clone, Copy, PartialEq, Eq, Structural)]
pub struct HttpPoolConfig {
    /// The number of idle connections that are kept for one host.
    pub max_idle_per_host: usize,
    /// Seconds that an idle connection is kept.
    pub idle_timeout_secs: u64,
}

impl Default for HttpPoolConfig {
    fn default() -> (config: HttpPoolConfig)
        ensures
            config == (HttpPoolConfig { max_idle_per_host: 100, idle_timeout_secs: 90 }),
    {
        HttpPoolConfig { max_idle_per_host: 100, idle_timeout_secs: 90 }
    }
}

/// How connections to upstreams are kept.
pub fn pool_settings(configured: Option<HttpPoolConfig>) -> (settings: HttpPoolConfig)
    ensures
        settings == match configured {
            Some(config) => config,
            None => (HttpPoolConfig { max_idle_per_host: 100, idle_timeout_secs: 90 }),
        },
{
    match configured {
        Some(config) => config,
        None => HttpPoolConfig::default(),
    }
}

} // verus!
