//! The musical character detected in the audio feed, and the rule that
//! announces each change of it once.

use vstd::prelude::*;

verus! {

/// Detected musical character, used to drive how the visuals "move" with the
/// music so the look blends and jumps differently per genre.
#[derive(Clone, Copy, PartialEq, Eq, Debug, Structural)]
pub enum Genre {
    /// No signal analysed yet.
    Inactive,
    /// Sparse / slow / wide: slow drifting visuals.
    Ambient,
    /// Strong low end, steady pulse: pumping zoom and bass-driven warp.
    Bass,
    /// Fast rhythmic / percussive: beat-locked jumps and dissolves.
    Rhythmic,
    /// Mid-forward melodic: flowing warp, gentle palette drift.
    Melodic,
}

impl Default for Genre {
    /// Nothing detected yet.
    fn default() -> (g: Self)
        ensures
            g == Genre::Inactive,
    {
        Genre::Inactive
    }
}

/// The tag under which a genre was last announced (0: none yet).
pub open spec fn genre_tag(g: Genre) -> u8 {
    match g {
        Genre::Ambient => 1,
        Genre::Bass => 2,
        Genre::Rhythmic => 3,
        Genre::Melodic => 4,
        Genre::Inactive => 5,
    }
}

/// One step of the genre announcer: given the previous and current genre
/// and the tag last announced, the tag to remember and whether to announce.
pub open spec fn genre_log_step(prev: Genre, cur: Genre, last: u8) -> (u8, bool) {
    if prev != cur {
        (genre_tag(cur), last != genre_tag(cur))
    } else {
        (last, false)
    }
}

/// Decide whether a genre change is to be logged: only when the genre
/// changed between two frames and differs from the genre last announced
/// (`last`, 0 before any announcement). Returns the tag to remember and
/// whether to log.
pub fn log_genre_change(prev: Genre, cur: Genre, last: u8) -> (r: (u8, bool))
    ensures
        r == genre_log_step(prev, cur, last),
        prev == cur ==> r == (last, false),
        prev != cur ==> r.0 == genre_tag(cur) && r.1 == (last != genre_tag(cur)),
{
    if prev != cur {
        let tag: u8 = match cur {
            Genre::Ambient => 1,
            Genre::Bass => 2,
            Genre::Rhythmic => 3,
            Genre::Melodic => 4,
            Genre::Inactive => 5,
        };
        (tag, last != tag)
    } else {
        (last, false)
    }
}

/// Minimum time between two peak reports, in milliseconds.
pub const PEAK_LOG_INTERVAL_MS: u64 = 3000;

/// Whether a blended-block peak is reported at time `now_ms`, the last
/// report having been at `last_ms`: at most one report per interval (a
/// clock that went back counts as no time elapsed).
pub fn peak_log_due(now_ms: u64, last_ms: u64) -> (due: bool)
    ensures
        due == (now_ms >= last_ms && now_ms - last_ms >= PEAK_LOG_INTERVAL_MS),
{
    now_ms.saturating_sub(last_ms) >= PEAK_LOG_INTERVAL_MS
}

/// The announcer reacts to changes only: when the genre did not change,
/// nothing is announced and the remembered tag is kept; when it changed,
/// the new genre's tag is remembered, and it is announced exactly when it is
/// not the tag announced last.
pub proof fn lemma_genre_log_only_on_change(prev: Genre, cur: Genre, last: u8)
    ensures
        prev == cur ==> genre_log_step(prev, cur, last) == (last, false),
        prev != cur ==> genre_log_step(prev, cur, last).0 == genre_tag(cur),
        prev != cur ==> (genre_log_step(prev, cur, last).1 <==> last != genre_tag(cur)),
{
}

/// Each genre is announced once: distinct genres have distinct tags, none of
/// them the initial 0 (so the first change is always announced), and right
/// after a change to a genre, another change to the same genre is not
/// announced again.
pub proof fn lemma_genre_logged_once(prev: Genre, cur: Genre, last: u8, prev2: Genre)
    ensures
        genre_tag(cur) != 0,
        forall|a: Genre, b: Genre| a != b ==> genre_tag(a) != genre_tag(b),
        prev != cur && last == 0 ==> genre_log_step(prev, cur, last).1,
        prev != cur ==> !genre_log_step(prev2, cur, genre_log_step(prev, cur, last).0).1,
{
}

} // verus!
