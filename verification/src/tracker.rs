//! The tracker list updater: decides when the stored BitTorrent tracker
//! list is stale and parses a fetched list.  The fetch itself is network
//! I/O and lives with the caller; times arrive as epoch seconds.

use vstd::prelude::*;
use crate::text::{split_trim_nonempty, split_trim_nonempty_string};

verus! {

/// Seconds in the freshness window: a list older than a day is refreshed.
pub const REFRESH_WINDOW_S: i64 = 86400;

/// The tracker URLs of a fetched plain-text list: one per line, trimmed,
/// blank lines dropped.
pub open spec fn tracker_lines(text: Seq<char>) -> Seq<Seq<char>> {
    split_trim_nonempty(text, '\n')
}

/// Parse a fetched tracker list.
pub fn parse_tracker_list(text: &str) -> (r: Vec<String>)
    ensures
        r@.map_values(|t: String| t@) == tracker_lines(text@),
{
    split_trim_nonempty_string(text, '\n')
}

/// Whether a refresh is due at time `now_s` given when the list was last
/// replaced: always when it never was, otherwise once a full day has passed.
pub fn update_due(now_s: i64, last_update: Option<i64>) -> (r: bool)
    ensures
        r == (match last_update {
            Some(last) => now_s - last >= REFRESH_WINDOW_S,
            None => true,
        }),
{
    match last_update {
        None => true,
        Some(last) => {
            if last >= 0 && now_s < last {
                false
            } else if last < 0 && now_s >= last + REFRESH_WINDOW_S {
                true
            } else if last >= 0 {
                now_s - last >= REFRESH_WINDOW_S
            } else {
                false
            }
        },
    }
}

/// Holds the most recently fetched tracker list and when it was fetched.
pub struct TrackerUpdater {
    last_update: Option<i64>,
    trackers: Vec<String>,
}

impl TrackerUpdater {
    pub closed spec fn last_update(self) -> Option<int> {
        match self.last_update {
            Some(t) => Some(t as int),
            None => None,
        }
    }

    pub closed spec fn tracker_list(self) -> Seq<Seq<char>> {
        self.trackers@.map_values(|t: String| t@)
    }

    pub fn new() -> (r: TrackerUpdater)
        ensures
            r.last_update() is None,
            r.tracker_list() =~= Seq::<Seq<char>>::empty(),
    {
        TrackerUpdater { last_update: None, trackers: Vec::new() }
    }

    /// Whether a refresh is due at time `now_s`: always when nothing was
    /// ever fetched, otherwise once a full day has passed.
    pub fn needs_update(&self, now_s: i64) -> (r: bool)
        ensures
            r == (match self.last_update() {
                Some(last) => now_s - last >= REFRESH_WINDOW_S,
                None => true,
            }),
    {
        update_due(now_s, self.last_update)
    }

    /// Record a fetched list and the time it arrived.
    pub fn set_trackers(&mut self, trackers: Vec<String>, now_s: i64)
        ensures
            final(self).tracker_list() == trackers@.map_values(|t: String| t@),
            final(self).last_update() == Some(now_s as int),
    {
        self.trackers = trackers;
        self.last_update = Some(now_s);
    }

    /// The most recently fetched list.
    pub fn get_trackers(&self) -> (r: &Vec<String>)
        ensures
            r@.map_values(|t: String| t@) == self.tracker_list(),
    {
        &self.trackers
    }
}

} // verus!
