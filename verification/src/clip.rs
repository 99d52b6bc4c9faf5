//! The clips that are recorded.

use vstd::prelude::*;

verus! {

/// A part of a demo that is recorded as one video.
#[derive(Debug)]
pub struct Clip {
    /// The demo, without its extension.
    pub demo_name: String,
    /// The tick at which the recording starts.
    pub start_tick: i64,
    /// The tick at which the recording stops.
    pub end_tick: i64,
    /// Whether a killstreak is part of the clip.
    pub has_killstreak: bool,
    /// The kills of the killstreak.
    pub ks_value: i64,
    /// Whether a bookmark is part of the clip.
    pub has_bookmark: bool,
    /// The text of the bookmarks.
    pub bm_value: String,
    /// 0 where the view stays, 1 for the first person view of another player, and anything else
    /// for the third person view.
    pub spec_type: i64,
    /// The player to watch.
    pub spec_player: String,
}

} // verus!
