//! The build cache's idle mode. While a build runs the cache must not idle,
//! so that lookups see the work in flight; between builds it idles.

use vstd::prelude::*;

verus! {

/// Coordinates the pausing and resuming of cache idling around a build.
#[derive(Debug)]
pub struct Cache {
    pub(crate) idle: bool,
    pub(crate) pauses: u64,
}

impl Cache {
    /// Whether the cache idles.
    pub open(crate) spec fn idle_spec(&self) -> bool {
        self.idle
    }

    /// How often idling has been paused, up to the largest count that can be kept.
    pub open(crate) spec fn pauses_spec(&self) -> u64 {
        self.pauses
    }

    /// A cache that idles and has never been paused.
    pub fn new() -> (cache: Self)
        ensures
            cache.idle_spec(),
            cache.pauses_spec() == 0,
    {
        Cache { idle: true, pauses: 0 }
    }

    /// Whether the cache idles.
    pub fn is_idle(&self) -> (idle: bool)
        ensures
            idle == self.idle_spec(),
    {
        self.idle
    }

    /// How often idling has been paused.
    pub fn pauses(&self) -> (n: u64)
        ensures
            n == self.pauses_spec(),
    {
        self.pauses
    }

    /// Pauses idling for the time of a build. Pausing a cache that is
    /// paused already changes nothing.
    pub fn end_idle(&mut self)
        ensures
            !final(self).idle_spec(),
            final(self).pauses_spec() == if old(self).idle_spec() && old(self).pauses_spec()
                < u64::MAX {
                (old(self).pauses_spec() + 1) as u64
            } else {
                old(self).pauses_spec()
            },
    {
        if self.idle {
            self.idle = false;
            self.pauses = self.pauses.saturating_add(1);
        }
    }

    /// Resumes idling after a build. Resuming a cache that idles changes nothing.
    pub fn begin_idle(&mut self)
        ensures
            final(self).idle_spec(),
            final(self).pauses_spec() == old(self).pauses_spec(),
    {
        self.idle = true;
    }
}

} // verus!
