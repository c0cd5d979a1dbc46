use vstd::prelude::*;
use crate::session::ServiceReceiveError;
use crate::tag_map::{build_tags_map, tag_map_of, ServiceInfo, TagMap};

verus! {

/// Whole seconds from `at` to `now` (both in milliseconds), rounded toward zero.
pub open spec fn elapsed_seconds(now: i64, at: i64) -> int {
    let d = now - at;
    if d >= 0 {
        d / 1000
    } else {
        -((-d) / 1000)
    }
}

/// Whether a tag map refreshed at `at` has outlived a time-to-live of `ttl_seconds` at `now`.
pub open spec fn refresh_due(now: i64, at: i64, ttl_seconds: u32) -> bool {
    elapsed_seconds(now, at) > ttl_seconds
}

/// The current tag map together with the time (milliseconds since the epoch) of
/// the refresh that produced it. Both change together or not at all.
#[derive(Clone, Debug)]
pub struct TagCache {
    tags_map: TagMap,
    update_at: i64,
}

impl TagCache {
    pub closed spec fn wf(&self) -> bool {
        self.tags_map.wf()
    }

    /// The tag map being served.
    pub closed spec fn map_view(&self) -> Map<Seq<char>, Seq<Seq<char>>> {
        self.tags_map@
    }

    /// When the tag map being served was refreshed.
    pub closed spec fn refreshed_at(&self) -> i64 {
        self.update_at
    }

    /// A cache holding the map built from a first, successful fetch.
    pub fn new(services: Vec<ServiceInfo>, fetched_at: i64) -> (r: TagCache)
        ensures
            r.wf(),
            r.map_view() == tag_map_of(services@),
            r.refreshed_at() == fetched_at,
    {
        TagCache { tags_map: build_tags_map(services), update_at: fetched_at }
    }

    /// The tag map being served.
    pub fn tags_map(&self) -> (r: &TagMap)
        requires
            self.wf(),
        ensures
            r.wf(),
            r@ == self.map_view(),
    {
        &self.tags_map
    }

    /// When the tag map being served was refreshed.
    pub fn update_at(&self) -> (r: i64)
        ensures
            r == self.refreshed_at(),
    {
        self.update_at
    }

    /// Whether a request arriving at `now` must first try to refresh the map.
    pub fn needs_refresh(&self, now: i64, ttl_seconds: u32) -> (r: bool)
        ensures
            r == refresh_due(now, self.refreshed_at(), ttl_seconds),
    {
        let d: i128 = now as i128 - self.update_at as i128;
        d >= 0 && d / 1000 > ttl_seconds as i128
    }

    /// Takes in the outcome of a refresh attempt that completed at `completed_at`.
    /// A success replaces the map and its time together; a failure leaves the
    /// cache exactly as it was, so the previous map goes on being served.
    pub fn apply_refresh(
        &mut self,
        outcome: Result<Vec<ServiceInfo>, ServiceReceiveError>,
        completed_at: i64,
    )
        requires
            old(self).wf(),
        ensures
            final(self).wf(),
            match outcome {
                Ok(services) => final(self).map_view() == tag_map_of(services@)
                    && final(self).refreshed_at() == completed_at,
                Err(_) => *final(self) == *old(self),
            },
    {
        match outcome {
            Ok(services) => {
                *self = TagCache { tags_map: build_tags_map(services), update_at: completed_at };
            },
            Err(_) => {},
        }
    }
}

/// A map refreshed at `at` is not due for another refresh at that same moment,
/// whatever the time-to-live.
pub proof fn lemma_fresh_after_refresh(at: i64, ttl_seconds: u32)
    ensures
        !refresh_due(at, at, ttl_seconds),
{
}

} // verus!
