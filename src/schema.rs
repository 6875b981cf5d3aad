//! Schema versions of the score database and the row each one takes.
use vstd::prelude::*;
use crate::score::{Gauge, KsmScore};
use crate::text::copy_chars;

verus! {

/// The insertion routine that a schema version selects.
#[derive(Clone, Copy, Debug, PartialEq, Eq, Structural)]
pub enum InsertRoutine {
    Version19,
}

pub open spec fn routine_spec(version: u32) -> Option<InsertRoutine> {
    if version == 19 {
        Some(InsertRoutine::Version19)
    } else {
        None
    }
}

impl InsertRoutine {
    /// The routine for a schema version; `None` where the version is not supported.
    pub fn for_version(version: u32) -> (r: Option<InsertRoutine>)
        ensures
            r == routine_spec(version),
    {
        if version == 19 {
            Some(InsertRoutine::Version19)
        } else {
            None
        }
    }
}

} // verus!

verus! {

/// Timing windows written with every imported score, in milliseconds.
pub const WINDOW_PERFECT: u32 = 46;
pub const WINDOW_GOOD: u32 = 92;
pub const WINDOW_HOLD: u32 = 138;
pub const WINDOW_MISS: u32 = 250;
pub const WINDOW_SLAM: u32 = 84;

/// One row of the `Scores` table, column by column.
pub struct ScoreRow {
    pub score: u32,
    pub crit: u32,
    pub near: u32,
    pub miss: u32,
    pub gauge: Gauge,
    pub auto_flags: u32,
    pub replay: String,
    pub timestamp: i64,
    pub chart_hash: String,
    pub user_name: String,
    pub user_id: u32,
    pub local_score: bool,
    pub window_perfect: u32,
    pub window_good: u32,
    pub window_hold: u32,
    pub window_miss: u32,
    pub window_slam: u32,
    pub gauge_type: u32,
    pub gauge_opt: u32,
    pub mirror: bool,
    pub random: bool,
}

/// The row that schema version 19 takes for `score`, whose score file was
/// last modified at `timestamp` (seconds since the epoch) and whose chart
/// has digest `chart_hash`.
pub open spec fn version_19_row(r: ScoreRow, score: KsmScore, timestamp: i64, chart_hash: Seq<char>) -> bool {
    &&& r.score == score.score
    &&& r.crit == score.crit
    &&& r.near == score.near
    &&& r.miss == score.miss
    &&& r.gauge.percent@ == score.gauge.percent@
    &&& r.auto_flags == 0
    &&& r.replay@ == Seq::<char>::empty()
    &&& r.timestamp == timestamp
    &&& r.chart_hash@ == chart_hash
    &&& r.user_name@ == Seq::<char>::empty()
    &&& r.user_id == 0
    &&& r.local_score
    &&& r.window_perfect == WINDOW_PERFECT
    &&& r.window_good == WINDOW_GOOD
    &&& r.window_hold == WINDOW_HOLD
    &&& r.window_miss == WINDOW_MISS
    &&& r.window_slam == WINDOW_SLAM
    &&& r.gauge_type == (if score.hard { 1u32 } else { 0u32 })
    &&& r.gauge_opt == 0
    &&& !r.mirror
    &&& !r.random
}

/// Builds the version-19 row of one score.
pub fn version_19(score: &KsmScore, timestamp: i64, chart_hash: String) -> (r: ScoreRow)
    ensures
        version_19_row(r, *score, timestamp, chart_hash@),
{
    ScoreRow {
        score: score.score,
        crit: score.crit,
        near: score.near,
        miss: score.miss,
        gauge: Gauge { percent: copy_chars(&score.gauge.percent) },
        auto_flags: 0,
        replay: String::new(),
        timestamp,
        chart_hash,
        user_name: String::new(),
        user_id: 0,
        local_score: true,
        window_perfect: WINDOW_PERFECT,
        window_good: WINDOW_GOOD,
        window_hold: WINDOW_HOLD,
        window_miss: WINDOW_MISS,
        window_slam: WINDOW_SLAM,
        gauge_type: if score.hard { 1 } else { 0 },
        gauge_opt: 0,
        mirror: false,
        random: false,
    }
}

impl InsertRoutine {
    /// The row that this routine inserts for one score.
    pub fn row(&self, score: &KsmScore, timestamp: i64, chart_hash: String) -> (r: ScoreRow)
        ensures
            *self == InsertRoutine::Version19 ==> version_19_row(r, *score, timestamp, chart_hash@),
    {
        match self {
            InsertRoutine::Version19 => version_19(score, timestamp, chart_hash),
        }
    }
}

} // verus!
