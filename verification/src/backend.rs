//! The backend connection coordinates: the exact URLs the two pooled
//! connection managers dial, built from a plain host and port. Opening
//! the connections themselves is network work that lives with the
//! driver, outside this library.

use vstd::prelude::*;

use crate::strfmt::{redis_url, spec_redis_url, spec_storage_url, storage_url};

verus! {

/// The coordinates of the pooled redis backend.
#[derive(Clone, Debug, PartialEq)]
pub struct RedisConnectionManager {
    pub url: String,
}

impl RedisConnectionManager {
    /// The manager for a redis server at a plain host and port.
    pub fn from_host_port(host: &str, port: u16) -> (r: RedisConnectionManager)
        ensures
            r.url@ == spec_redis_url(host@, port),
    {
        RedisConnectionManager { url: redis_url(host, port) }
    }
}

/// The coordinates of the pooled graph-storage backend.
#[derive(Clone, Debug, PartialEq)]
pub struct StorageConnectionManager {
    pub url: String,
}

impl StorageConnectionManager {
    /// The manager for a graph-storage server at a plain host and port.
    pub fn from_host_port(host: &str, port: u16) -> (r: StorageConnectionManager)
        ensures
            r.url@ == spec_storage_url(host@, port),
    {
        StorageConnectionManager { url: storage_url(host, port) }
    }
}

/// The stateless dispatcher behind the worker's four operations; each
/// call is served from the shared context, so the router itself carries
/// nothing.
#[derive(Clone, Copy, Debug, PartialEq, Eq, Structural)]
pub struct Router {}

impl Router {
    /// A fresh router.
    pub fn new() -> (r: Router)
        ensures
            r == (Router {  }),
    {
        Router {  }
    }
}

} // verus!
