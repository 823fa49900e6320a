//! Settings of the store's connection pool.
use vstd::prelude::*;

verus! {

/// How long to wait for a pooled connection where the settings say nothing.
pub const DEFAULT_ACQUIRE_TIMEOUT_SECS: u64 = 5;

/// The connection pool that the record API shares among its handlers.
pub struct Database;

/// The settings a connection pool is built from; timeouts in seconds.
#[derive(Clone, Debug, PartialEq, Eq)]
pub struct PoolConfig {
    pub url: String,
    pub min_connections: Option<u32>,
    pub max_connections: u32,
    pub acquire_timeout: u64,
    pub idle_timeout: Option<u64>,
}

/// How much the server logs.
#[derive(Clone, Copy, Debug, PartialEq, Eq, Structural)]
pub enum LogLevel {
    Critical,
    Normal,
    Debug,
    Off,
}

impl Database {
    /// The pool size for a server with `workers` workers: four connections
    /// each.
    pub fn pool_size(workers: usize) -> (r: usize)
        requires
            workers * 4 <= usize::MAX,
        ensures
            r == workers * 4,
    {
        workers * 4
    }

    /// Whether the pool logs its statements at this level: all levels but
    /// Normal and Off do.
    pub fn logs_statements(level: LogLevel) -> (r: bool)
        ensures
            r == !(level == LogLevel::Normal || level == LogLevel::Off),
    {
        !matches!(level, LogLevel::Normal | LogLevel::Off)
    }
}

impl PoolConfig {
    /// Settings for `url` where only the pool size is given.
    pub fn new(url: String, max_connections: u32) -> (r: PoolConfig)
        ensures
            r.url == url,
            r.min_connections.is_none(),
            r.max_connections == max_connections,
            r.acquire_timeout == DEFAULT_ACQUIRE_TIMEOUT_SECS,
            r.idle_timeout.is_none(),
    {
        PoolConfig {
            url,
            min_connections: None,
            max_connections,
            acquire_timeout: DEFAULT_ACQUIRE_TIMEOUT_SECS,
            idle_timeout: None,
        }
    }

    /// The least number of connections to keep; none where unset.
    pub fn min_connections_or_default(&self) -> (r: u32)
        ensures
            r == match self.min_connections {
                Some(m) => m,
                None => 0,
            },
    {
        match self.min_connections {
            Some(m) => m,
            None => 0,
        }
    }
}

} // verus!
