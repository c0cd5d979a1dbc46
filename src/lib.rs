use vstd::prelude::*;

pub mod cache;
pub mod config;
pub mod filter;
pub mod session;
pub mod tag_map;
pub mod text;

verus! {

// A relay for an uptime backend's metrics that can narrow them to the monitors of
// one tag:
// - `tag_map` groups monitor names by tag name;
// - `filter` keeps the metric lines of a tag's monitors;
// - `cache` decides when the tag map is refreshed and keeps it on failure;
// - `session` steps one fetch of the monitor list over the realtime channel;
// - `config` derives the HTTP and connection settings;
// - `text` holds the character-level helpers.

} // verus!
