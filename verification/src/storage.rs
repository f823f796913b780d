//! Options and pinning policies of content storage.
use vstd::prelude::*;

verus! {

/// How content is stored.
#[derive(Debug, Clone, Copy)]
pub struct StorageOpts {
    pub pin: bool,
    pub ttl: Option<std::time::Duration>,
}

/// How long stored content is kept.
#[derive(Debug, Clone, Copy)]
pub enum PinPolicy {
    Permanent,
    TTL(std::time::Duration),
    /// Not pinned.
    Unpinned,
}

} // verus!
