//! Playback-session accounting: the transitions of the active listening
//! session on playback events, and what counts as a meaningful play.
//!
//! Times are in milliseconds: `now_ms` values come from a monotonic clock,
//! listened time accumulates only while the track is actually playing.
use vstd::prelude::*;
use crate::text;

verus! {

/// The session of the track currently being listened to.
#[derive(Debug)]
pub struct ActiveSession {
    pub id: String,
    pub stat_date: String,
    pub user_id: String,
    pub track_id: String,
    pub started_at: i64,
    pub duration_ms: u64,
    /// Playing time accumulated so far, pauses excluded.
    pub listened_ms: u64,
    /// When the track last started or resumed playing, while it is playing.
    pub playing_since_ms: Option<u64>,
    pub source: String,
    /// `listened_ms` (plus the running interval) at the last journal checkpoint.
    pub last_journal_ms: u64,
}

/// A playback event, as far as session accounting reads it.
#[derive(Debug)]
pub enum PlaybackEvent {
    Started {
        session_id: String,
        track_id: String,
        duration_ms: u64,
        source: String,
        user_id: String,
        stat_date: String,
        started_at: i64,
    },
    PositionChanged { session_id: String },
    Paused { session_id: String },
    Buffering { session_id: String, track_id: String },
    Resumed { session_id: String, track_id: String },
    Finished { session_id: String, listened_ms: u64, completed: bool },
    Stopped { session_id: String },
    Other,
}

/// Work that the session accounting asks for.
#[derive(Debug)]
pub enum HistoryAction {
    /// Record the session as a finished play.
    Finalize { session: ActiveSession, listened_ms: u64, completed: bool, skipped_hint: bool },
    /// Write the crash-recovery journal entry of the session.
    Journal { session: ActiveSession },
}

/// `a + b`, capped at `u64::MAX`.
pub open spec fn sat_add(a: u64, b: u64) -> u64 {
    if a + b > u64::MAX {
        u64::MAX
    } else {
        (a + b) as u64
    }
}

/// The time elapsed from `since` to `now`, or 0 if the clock reads earlier.
pub open spec fn elapsed(since: u64, now: u64) -> u64 {
    if now >= since {
        (now - since) as u64
    } else {
        0
    }
}

/// The playing time of `s` at `now`, including the running interval.
pub open spec fn total_listened(s: ActiveSession, now: u64) -> u64 {
    match s.playing_since_ms {
        Some(t) => sat_add(s.listened_ms, elapsed(t, now)),
        None => s.listened_ms,
    }
}

/// `s` with its running interval added to its playing time, and not playing.
pub open spec fn settled(s: ActiveSession, now: u64) -> ActiveSession {
    ActiveSession { listened_ms: total_listened(s, now), playing_since_ms: None, ..s }
}

/// Whether an event addressed by session ID, or by track ID when the session
/// ID is empty, concerns `s`.
pub open spec fn addressed(s: ActiveSession, session_id: Seq<char>, track_id: Seq<char>) -> bool {
    (session_id.len() == 0 && s.track_id@ == track_id) || s.id@ == session_id
}

pub open spec fn max3(a: u64, b: u64, c: u64) -> u64 {
    let ab = if a >= b {
        a
    } else {
        b
    };
    if ab >= c {
        ab
    } else {
        c
    }
}

/// The next session and the work asked for, on `ev` at time `now`.
pub open spec fn transition(cur: Option<ActiveSession>, ev: PlaybackEvent, now: u64) -> (Option<ActiveSession>, Seq<HistoryAction>) {
    match ev {
        PlaybackEvent::Started { session_id, track_id, duration_ms, source, user_id, stat_date, started_at } => {
            let fresh = ActiveSession {
                id: session_id,
                stat_date,
                user_id,
                track_id,
                started_at,
                duration_ms,
                listened_ms: 0,
                playing_since_ms: Some(now),
                source,
                last_journal_ms: 0,
            };
            match cur {
                Some(prev) => {
                    let p = settled(prev, now);
                    (Some(fresh), seq![
                        HistoryAction::Finalize { session: p, listened_ms: p.listened_ms, completed: false, skipped_hint: true },
                        HistoryAction::Journal { session: fresh },
                    ])
                },
                None => (Some(fresh), seq![HistoryAction::Journal { session: fresh }]),
            }
        },
        PlaybackEvent::PositionChanged { session_id } => match cur {
            Some(s) => if s.id@ == session_id@ && total_listened(s, now) >= s.last_journal_ms + 30000 {
                let t = total_listened(s, now);
                let kept = ActiveSession { last_journal_ms: t, ..s };
                (Some(kept), seq![HistoryAction::Journal { session: ActiveSession { listened_ms: t, ..kept } }])
            } else {
                (cur, seq![])
            },
            None => (cur, seq![]),
        },
        PlaybackEvent::Paused { session_id } => match cur {
            Some(s) => if s.id@ == session_id@ {
                let p = settled(s, now);
                (Some(p), seq![HistoryAction::Journal { session: p }])
            } else {
                (cur, seq![])
            },
            None => (cur, seq![]),
        },
        PlaybackEvent::Buffering { session_id, track_id } => match cur {
            Some(s) => if addressed(s, session_id@, track_id@) {
                (Some(settled(s, now)), seq![])
            } else {
                (cur, seq![])
            },
            None => (cur, seq![]),
        },
        PlaybackEvent::Resumed { session_id, track_id } => match cur {
            Some(s) => if addressed(s, session_id@, track_id@) && s.playing_since_ms is None {
                (Some(ActiveSession { playing_since_ms: Some(now), ..s }), seq![])
            } else {
                (cur, seq![])
            },
            None => (cur, seq![]),
        },
        PlaybackEvent::Finished { session_id, listened_ms, completed } => match cur {
            Some(s) => if s.id@ == session_id@ {
                let p = settled(s, now);
                let l = if completed {
                    max3(p.duration_ms, p.listened_ms, listened_ms)
                } else {
                    max3(p.listened_ms, listened_ms, 0)
                };
                (None, seq![HistoryAction::Finalize { session: p, listened_ms: l, completed, skipped_hint: false }])
            } else {
                (cur, seq![])
            },
            None => (cur, seq![]),
        },
        PlaybackEvent::Stopped { session_id } => match cur {
            Some(s) => if s.id@ == session_id@ || session_id@.len() == 0 {
                let p = settled(s, now);
                (None, seq![HistoryAction::Finalize { session: p, listened_ms: p.listened_ms, completed: false, skipped_hint: true }])
            } else {
                (cur, seq![])
            },
            None => (cur, seq![]),
        },
        PlaybackEvent::Other => (cur, seq![]),
    }
}

fn same_str(a: &String, b: &String) -> (r: bool)
    ensures
        r == (a@ == b@),
{
    let av = text::chars_of(a.as_str());
    let bv = text::chars_of(b.as_str());
    text::chars_eq(&av, &bv)
}

fn total_listened_exec(s: &ActiveSession, now: u64) -> (t: u64)
    ensures
        t == total_listened(*s, now),
{
    match s.playing_since_ms {
        Some(since) => s.listened_ms.saturating_add(now.saturating_sub(since)),
        None => s.listened_ms,
    }
}

fn settle(s: ActiveSession, now: u64) -> (r: ActiveSession)
    ensures
        r == settled(s, now),
{
    let t = total_listened_exec(&s, now);
    ActiveSession { listened_ms: t, playing_since_ms: None, ..s }
}

/// A copy of a session.
pub fn copy_session(s: &ActiveSession) -> (c: ActiveSession)
    ensures
        c == *s,
{
    ActiveSession {
        id: s.id.clone(),
        stat_date: s.stat_date.clone(),
        user_id: s.user_id.clone(),
        track_id: s.track_id.clone(),
        started_at: s.started_at,
        duration_ms: s.duration_ms,
        listened_ms: s.listened_ms,
        playing_since_ms: s.playing_since_ms,
        source: s.source.clone(),
        last_journal_ms: s.last_journal_ms,
    }
}

fn is_addressed(s: &ActiveSession, session_id: &String, track_id: &String) -> (b: bool)
    ensures
        b == addressed(*s, session_id@, track_id@),
{
    (session_id.as_str().is_empty() && same_str(&s.track_id, track_id)) || same_str(&s.id, session_id)
}

/// The next session and the work asked for, on a playback event at `now_ms`.
pub fn on_playback_event(cur: Option<ActiveSession>, ev: PlaybackEvent, now_ms: u64) -> (r: (Option<ActiveSession>, Vec<HistoryAction>))
    ensures
        (r.0, r.1@) == transition(cur, ev, now_ms),
{
    match ev {
        PlaybackEvent::Started { session_id, track_id, duration_ms, source, user_id, stat_date, started_at } => {
            let fresh = ActiveSession {
                id: session_id,
                stat_date,
                user_id,
                track_id,
                started_at,
                duration_ms,
                listened_ms: 0,
                playing_since_ms: Some(now_ms),
                source,
                last_journal_ms: 0,
            };
            let journal = copy_session(&fresh);
            let mut actions: Vec<HistoryAction> = Vec::new();
            match cur {
                Some(prev) => {
                    let p = settle(prev, now_ms);
                    let l = p.listened_ms;
                    actions.push(HistoryAction::Finalize { session: p, listened_ms: l, completed: false, skipped_hint: true });
                },
                None => {},
            }
            actions.push(HistoryAction::Journal { session: journal });
            (Some(fresh), actions)
        },
        PlaybackEvent::PositionChanged { session_id } => match cur {
            Some(s) => {
                let t = total_listened_exec(&s, now_ms);
                if same_str(&s.id, &session_id) && t as u128 >= s.last_journal_ms as u128 + 30000 {
                    let kept = ActiveSession { last_journal_ms: t, ..s };
                    let mut snap = copy_session(&kept);
                    snap.listened_ms = t;
                    let mut actions: Vec<HistoryAction> = Vec::new();
                    actions.push(HistoryAction::Journal { session: snap });
                    (Some(kept), actions)
                } else {
                    (Some(s), Vec::new())
                }
            },
            None => (None, Vec::new()),
        },
        PlaybackEvent::Paused { session_id } => match cur {
            Some(s) => if same_str(&s.id, &session_id) {
                let p = settle(s, now_ms);
                let snap = copy_session(&p);
                let mut actions: Vec<HistoryAction> = Vec::new();
                actions.push(HistoryAction::Journal { session: snap });
                (Some(p), actions)
            } else {
                (Some(s), Vec::new())
            },
            None => (None, Vec::new()),
        },
        PlaybackEvent::Buffering { session_id, track_id } => match cur {
            Some(s) => if is_addressed(&s, &session_id, &track_id) {
                (Some(settle(s, now_ms)), Vec::new())
            } else {
                (Some(s), Vec::new())
            },
            None => (None, Vec::new()),
        },
        PlaybackEvent::Resumed { session_id, track_id } => match cur {
            Some(s) => if is_addressed(&s, &session_id, &track_id) && s.playing_since_ms.is_none() {
                (Some(ActiveSession { playing_since_ms: Some(now_ms), ..s }), Vec::new())
            } else {
                (Some(s), Vec::new())
            },
            None => (None, Vec::new()),
        },
        PlaybackEvent::Finished { session_id, listened_ms, completed } => match cur {
            Some(s) => if same_str(&s.id, &session_id) {
                let p = settle(s, now_ms);
                let l = if completed {
                    let ab = if p.duration_ms >= p.listened_ms {
                        p.duration_ms
                    } else {
                        p.listened_ms
                    };
                    if ab >= listened_ms {
                        ab
                    } else {
                        listened_ms
                    }
                } else {
                    if p.listened_ms >= listened_ms {
                        p.listened_ms
                    } else {
                        listened_ms
                    }
                };
                let mut actions: Vec<HistoryAction> = Vec::new();
                actions.push(HistoryAction::Finalize { session: p, listened_ms: l, completed, skipped_hint: false });
                (None, actions)
            } else {
                (Some(s), Vec::new())
            },
            None => (None, Vec::new()),
        },
        PlaybackEvent::Stopped { session_id } => match cur {
            Some(s) => if same_str(&s.id, &session_id) || session_id.as_str().is_empty() {
                let p = settle(s, now_ms);
                let l = p.listened_ms;
                let mut actions: Vec<HistoryAction> = Vec::new();
                actions.push(HistoryAction::Finalize { session: p, listened_ms: l, completed: false, skipped_hint: true });
                (None, actions)
            } else {
                (Some(s), Vec::new())
            },
            None => (None, Vec::new()),
        },
        PlaybackEvent::Other => (cur, Vec::new()),
    }
}

// ---------------------------------------------------------------- meaningful plays

/// What counts as a meaningful play: at least `min_meaningful_ms` of
/// listening, or at least `min_meaningful_permille` thousandths of the track.
#[derive(Clone, Copy, Debug)]
pub struct HistoryConfig {
    pub min_meaningful_ms: u64,
    pub min_meaningful_permille: u64,
}

impl HistoryConfig {
    /// 30 seconds, or half of the track.
    pub fn default_config() -> (c: HistoryConfig)
        ensures
            c.min_meaningful_ms == 30000,
            c.min_meaningful_permille == 500,
    {
        HistoryConfig { min_meaningful_ms: 30000, min_meaningful_permille: 500 }
    }
}

/// Whether the listened share of a track (capped at the whole track) reaches
/// `p` thousandths; a track of unknown length has share 0.
pub open spec fn share_reached(listened: u64, duration: u64, p: u64) -> bool {
    if duration > 0 {
        p <= 1000 && listened * 1000 >= p * duration
    } else {
        p == 0
    }
}

/// Whether a play is meaningful under `cfg`.
pub open spec fn meaningful(listened: u64, duration: u64, completed: bool, cfg: HistoryConfig) -> bool {
    listened >= cfg.min_meaningful_ms || share_reached(listened, duration, cfg.min_meaningful_permille)
        || completed
}

/// The listened share in thousandths, rounded down and capped at 1000.
pub open spec fn share_permille(listened: u64, duration: u64) -> u64 {
    if duration == 0 {
        0
    } else if listened >= duration {
        1000
    } else {
        ((listened as int) * 1000 / (duration as int)) as u64
    }
}

/// How a finished play is recorded.
#[derive(Clone, Copy, Debug)]
pub struct PlayOutcome {
    pub meaningful: bool,
    pub skipped: bool,
    pub share_permille: u64,
}

fn share_reached_exec(listened: u64, duration: u64, p: u64) -> (b: bool)
    ensures
        b == share_reached(listened, duration, p),
{
    if duration > 0 {
        if p <= 1000 {
            assert((p as int) * (duration as int) <= 1000 * (u64::MAX as int)) by (nonlinear_arith)
                requires
                    p <= 1000,
            ;
            (listened as u128) * 1000 >= (p as u128) * (duration as u128)
        } else {
            false
        }
    } else {
        p == 0
    }
}

/// The outcome of a finished play: meaningful as `cfg` says (a completed play
/// always is), skipped when not meaningful and ended by a skip.
pub fn play_outcome(listened_ms: u64, duration_ms: u64, completed: bool, skipped_hint: bool, cfg: HistoryConfig) -> (o: PlayOutcome)
    ensures
        o.meaningful == meaningful(listened_ms, duration_ms, completed, cfg),
        o.skipped == (!o.meaningful && skipped_hint),
        o.share_permille == share_permille(listened_ms, duration_ms),
{
    let m = listened_ms >= cfg.min_meaningful_ms || share_reached_exec(listened_ms, duration_ms, cfg.min_meaningful_permille)
        || completed;
    let share: u64 = if duration_ms == 0 {
        0
    } else if listened_ms >= duration_ms {
        1000
    } else {
        assert((listened_ms as int) * 1000 / (duration_ms as int) <= 1000) by (nonlinear_arith)
            requires
                listened_ms < duration_ms,
                duration_ms > 0,
        {
            assert((listened_ms as int) * 1000 < (duration_ms as int) * 1000);
        }
        ((listened_ms as u128) * 1000 / (duration_ms as u128)) as u64
    };
    PlayOutcome { meaningful: m, skipped: !m && skipped_hint, share_permille: share }
}

/// Whether a play recovered from the crash journal is meaningful: at least
/// 30 seconds, or at least 80% of the track.
pub fn recovered_play_meaningful(listened_ms: u64, duration_ms: u64) -> (b: bool)
    ensures
        b == (listened_ms >= 30000 || share_reached(listened_ms, duration_ms, 800)),
{
    listened_ms >= 30000 || share_reached_exec(listened_ms, duration_ms, 800)
}

// ---------------------------------------------------------------- laws

/// Listening more never turns a meaningful play into a meaningless one.
pub proof fn law_meaningful_monotone(l1: u64, l2: u64, duration: u64, completed: bool, cfg: HistoryConfig)
    requires
        l1 <= l2,
        meaningful(l1, duration, completed, cfg),
    ensures
        meaningful(l2, duration, completed, cfg),
{
    if duration > 0 && share_reached(l1, duration, cfg.min_meaningful_permille) {
        assert(l2 * 1000 >= l1 * 1000) by (nonlinear_arith)
            requires
                l1 <= l2,
        ;
    }
}

/// A completed play is meaningful and never counted as skipped.
pub proof fn law_completed_play_counts(listened: u64, duration: u64, skipped_hint: bool, cfg: HistoryConfig)
    ensures
        meaningful(listened, duration, true, cfg),
        !(!meaningful(listened, duration, true, cfg) && skipped_hint),
{
}

/// The accumulated listening time of a session never decreases while it stays
/// active: no event other than the start of a new session lowers it.
pub proof fn law_listened_never_decreases(s: ActiveSession, ev: PlaybackEvent, now: u64)
    requires
        !(ev is Started),
    ensures
        match transition(Some(s), ev, now).0 {
            Some(s2) => s2.listened_ms >= s.listened_ms,
            None => true,
        },
{
}

/// Time spent paused is not counted: while a session is not playing, no event
/// other than a new start changes its accumulated listening time.
pub proof fn law_paused_time_not_counted(s: ActiveSession, ev: PlaybackEvent, now: u64)
    requires
        s.playing_since_ms is None,
        !(ev is Started),
    ensures
        match transition(Some(s), ev, now).0 {
            Some(s2) => s2.listened_ms == s.listened_ms,
            None => true,
        },
{
}

/// A finish report for another session is ignored: the active session stays
/// as it is and nothing is recorded.
pub proof fn law_stale_finish_ignored(s: ActiveSession, sid: String, listened: u64, completed: bool, now: u64)
    requires
        s.id@ != sid@,
    ensures
        transition(
            Some(s),
            PlaybackEvent::Finished { session_id: sid, listened_ms: listened, completed },
            now,
        ) == (Some(s), Seq::<HistoryAction>::empty()),
{
}

/// A play that ends by finishing or stopping records at least the time
/// accumulated in the session, the running interval included.
pub proof fn law_finalized_time_covers_session(s: ActiveSession, ev: PlaybackEvent, now: u64)
    requires
        ev is Finished || ev is Stopped,
        transition(Some(s), ev, now).1.len() > 0,
    ensures
        transition(Some(s), ev, now).1[0] matches HistoryAction::Finalize { listened_ms, .. } && listened_ms
            >= total_listened(s, now),
{
}

} // verus!
