//! Playback session state: transport state, the current play session with
//! its time accounting, and the queue.
//!
//! Times are milliseconds on the engine's monotonic clock (milliseconds
//! since the engine was created).

use std::time::Instant;

use ulid::Ulid;

use vstd::prelude::*;

use crate::queue::{PlaybackQueue, PreviousAction, QueueItem, QueueModel};
use crate::types::{PlaybackState, TrackInfo};

verus! {

#[verifier::external_type_specification]
#[verifier::external_body]
pub struct ExInstant(Instant);

#[verifier::external_type_specification]
#[verifier::external_body]
pub struct ExUlid(Ulid);

/// `Instant::now`: the current instant of the monotonic clock. Nothing is
/// claimed of the value.
#[verifier::external_body]
fn instant_now() -> Instant {
    Instant::now()
}

/// `Instant::elapsed` in whole milliseconds, saturated to `u64`. The value
/// depends on the clock, so nothing is claimed of it.
#[verifier::external_body]
fn elapsed_ms(clock: &Instant) -> u64 {
    u64::try_from(clock.elapsed().as_millis()).unwrap_or(u64::MAX)
}

/// `Ulid::generate`: a fresh identifier from the time and a random source.
/// Nothing is claimed of the value.
#[verifier::external_body]
fn generate_ulid() -> Ulid {
    Ulid::generate()
}

/// One play of one track.
#[derive(Debug)]
pub struct PlaySession {
    pub play_id: Ulid,
    pub track_id: i64,
    pub track: TrackInfo,
    /// Milliseconds actually played (excluding pauses and seeks).
    pub played_ms: u64,
    /// Playback position in the track.
    pub position_ms: u64,
    /// Clock time when the session started.
    pub started_at: u64,
    /// Clock time when playback last (re)started; `None` while paused.
    pub last_play_start: Option<u64>,
}

/// The time-keeping part of a session.
pub struct SessionModel {
    pub track_id: i64,
    pub played_ms: int,
    pub position_ms: int,
    pub started_at: int,
    pub last_play_start: Option<int>,
}

/// `a + b` saturated at `u64::MAX`.
pub open spec fn sat_add(a: int, b: int) -> int {
    if a + b > u64::MAX {
        u64::MAX as int
    } else {
        a + b
    }
}

/// `a - b` saturated at zero.
pub open spec fn sat_sub(a: int, b: int) -> int {
    if a < b {
        0
    } else {
        a - b
    }
}

impl SessionModel {
    /// A session that starts playing `track_id` at `now`.
    pub open spec fn fresh(track_id: i64, now: int) -> SessionModel {
        SessionModel {
            track_id,
            played_ms: 0,
            position_ms: 0,
            started_at: now,
            last_play_start: Some(now),
        }
    }

    /// Account for the time since the last (re)start, up to `now`.
    pub open spec fn tick(self, now: int) -> SessionModel {
        match self.last_play_start {
            None => self,
            Some(last) => {
                let elapsed = sat_sub(now, last);
                SessionModel {
                    played_ms: sat_add(self.played_ms, elapsed),
                    position_ms: sat_add(self.position_ms, elapsed),
                    last_play_start: Some(now),
                    ..self
                }
            },
        }
    }
}

impl Clone for PlaySession {
    fn clone(&self) -> (r: Self)
        ensures
            r == *self,
    {
        PlaySession {
            play_id: self.play_id,
            track_id: self.track_id,
            track: self.track.clone(),
            played_ms: self.played_ms,
            position_ms: self.position_ms,
            started_at: self.started_at,
            last_play_start: self.last_play_start,
        }
    }
}

impl PlaySession {
    pub open spec fn model(&self) -> SessionModel {
        SessionModel {
            track_id: self.track_id,
            played_ms: self.played_ms as int,
            position_ms: self.position_ms as int,
            started_at: self.started_at as int,
            last_play_start: match self.last_play_start {
                Some(t) => Some(t as int),
                None => None,
            },
        }
    }

    /// A new session for `track` starting at clock time `started_at`.
    pub fn new(track: TrackInfo, started_at: u64) -> (s: Self)
        ensures
            s.model() == SessionModel::fresh(track.id, started_at as int),
            s.track == track,
    {
        let play_id = generate_ulid();
        let track_id = track.id;
        PlaySession {
            play_id,
            track_id,
            track,
            played_ms: 0,
            position_ms: 0,
            started_at,
            last_play_start: Some(started_at),
        }
    }

    /// True while the session is accumulating play time.
    pub fn is_playing(&self) -> (b: bool)
        ensures
            b == self.last_play_start is Some,
    {
        self.last_play_start.is_some()
    }
}

/// Both sides hold the same play (the same play id and track), or neither
/// holds one.
pub open spec fn same_play(a: Option<PlaySession>, b: Option<PlaySession>) -> bool {
    match (a, b) {
        (Some(x), Some(y)) => x.play_id == y.play_id && x.track == y.track,
        (None, None) => true,
        _ => false,
    }
}

/// A session, if any, plays the queue's current entry.
pub open spec fn plays_current(session: Option<PlaySession>, queue: QueueModel) -> bool {
    session matches Some(s) ==> queue.current_item() matches Some(item) && s.track == item.track
}

/// Abstract state of the engine.
pub struct EngineModel {
    pub state: PlaybackState,
    pub session: Option<SessionModel>,
    pub queue: QueueModel,
}

impl EngineModel {
    /// Time accounting at `now`: only a playing session gains time.
    pub open spec fn update_time_at(self, now: int) -> EngineModel {
        if self.state != PlaybackState::Playing {
            self
        } else {
            match self.session {
                None => self,
                Some(s) => EngineModel { session: Some(s.tick(now)), ..self },
            }
        }
    }

    pub open spec fn start_session(self, track_id: i64, now: int) -> EngineModel {
        EngineModel {
            state: PlaybackState::Playing,
            session: Some(SessionModel::fresh(track_id, now)),
            ..self
        }
    }

    pub open spec fn play_now_at(self, track: TrackInfo, now: int) -> EngineModel {
        EngineModel { queue: self.queue.play_now(track), ..self }.start_session(track.id, now)
    }

    pub open spec fn pause_at(self, now: int) -> EngineModel {
        if self.state != PlaybackState::Playing {
            self
        } else {
            let t = self.update_time_at(now);
            EngineModel {
                state: PlaybackState::Paused,
                session: match t.session {
                    Some(s) => Some(SessionModel { last_play_start: None, ..s }),
                    None => None,
                },
                ..t
            }
        }
    }

    pub open spec fn resume_at(self, now: int) -> EngineModel {
        if self.state != PlaybackState::Paused {
            self
        } else {
            match self.session {
                None => self,
                Some(s) => EngineModel {
                    state: PlaybackState::Playing,
                    session: Some(SessionModel { last_play_start: Some(now), ..s }),
                    ..self
                },
            }
        }
    }

    pub open spec fn stop_at(self, now: int) -> EngineModel {
        let t = self.update_time_at(now);
        EngineModel { state: PlaybackState::Stopped, session: None, ..t }
    }

    pub open spec fn seek_at(self, position_ms: int, now: int) -> EngineModel {
        match self.session {
            None => self,
            Some(_) => {
                let t = self.update_time_at(now);
                EngineModel {
                    session: match t.session {
                        Some(s) => Some(SessionModel { position_ms, ..s }),
                        None => None,
                    },
                    ..t
                }
            },
        }
    }

    pub open spec fn next_at(self, now: int) -> EngineModel {
        let t = self.update_time_at(now);
        let q = t.queue.next();
        let moved = EngineModel { queue: q, ..t };
        match q.current_item() {
            Some(item) => moved.start_session(item.track.id, now),
            None => moved.stop_at(now),
        }
    }

    pub open spec fn previous_at(self, now: int) -> EngineModel {
        match self.session {
            None => self,
            Some(s) => {
                let position_ms = s.position_ms;
                let t = self.update_time_at(now);
                let q = t.queue.previous(position_ms);
                let moved = EngineModel { queue: q, ..t };
                match t.queue.previous_action(position_ms) {
                    PreviousAction::MoveToPrevious(_) => match q.current_item() {
                        Some(item) => moved.start_session(item.track.id, now),
                        None => moved.stop_at(now),
                    },
                    _ => match moved.session {
                        Some(ms) => EngineModel {
                            state: PlaybackState::Playing,
                            session: Some(
                                SessionModel { position_ms: 0, last_play_start: Some(now), ..ms },
                            ),
                            ..moved
                        },
                        None => moved,
                    },
                }
            },
        }
    }
}

/// Transport state, current session and queue of the player.
pub struct EngineState {
    pub state: PlaybackState,
    pub session: Option<PlaySession>,
    pub queue: PlaybackQueue,
    /// The engine clock: times are milliseconds since this instant.
    pub clock: Instant,
}

impl View for EngineState {
    type V = EngineModel;

    open spec fn view(&self) -> EngineModel {
        EngineModel {
            state: self.state,
            session: match self.session {
                Some(s) => Some(s.model()),
                None => None,
            },
            queue: self.queue@,
        }
    }
}

impl EngineState {
    /// Stopped, no session, empty queue; the clock starts now.
    pub fn new() -> (e: Self)
        ensures
            e@.state == PlaybackState::Stopped,
            e@.session is None,
            e@.queue.items.len() == 0,
            e@.queue.current is None,
    {
        EngineState {
            state: PlaybackState::Stopped,
            session: None,
            queue: PlaybackQueue::new(),
            clock: instant_now(),
        }
    }

    /// Milliseconds on the engine clock: the time since the engine was
    /// made, read from the monotonic clock, so nothing is claimed of it.
    pub fn now_ms(&self) -> u64 {
        elapsed_ms(&self.clock)
    }

    fn start_session(&mut self, track: TrackInfo, now: u64)
        ensures
            final(self)@ == old(self)@.start_session(track.id, now as int),
            final(self).session matches Some(s) && s.track == track,
    {
        self.session = Some(PlaySession::new(track, now));
        self.state = PlaybackState::Playing;
    }

    /// Account for play time up to clock time `now`; only while playing.
    pub fn update_time_at(&mut self, now: u64)
        ensures
            final(self)@ == old(self)@.update_time_at(now as int),
            same_play(old(self).session, final(self).session),
    {
        if self.state != PlaybackState::Playing {
            return;
        }
        match &mut self.session {
            None => {},
            Some(session) => {
                match session.last_play_start {
                    None => {},
                    Some(last) => {
                        let elapsed = now.saturating_sub(last);
                        session.played_ms = session.played_ms.saturating_add(elapsed);
                        session.position_ms = session.position_ms.saturating_add(elapsed);
                        session.last_play_start = Some(now);
                    },
                }
            },
        }
    }

    /// Account for play time up to the current clock time.
    pub fn update_time(&mut self)
        ensures
            exists|now: u64| final(self)@ == old(self)@.update_time_at(now as int),
    {
        let now = self.now_ms();
        self.update_time_at(now);
    }

    /// Replace the queue by `track` and start a new session for it at `now`.
    pub fn play_now_at(&mut self, track: TrackInfo, now: u64)
        ensures
            final(self)@ == old(self)@.play_now_at(track, now as int),
            final(self).session matches Some(s) && s.track == track,
    {
        self.queue.play_now(track.clone());
        self.start_session(track, now);
    }

    /// Replace the queue by `track` and start playing it.
    pub fn play_now(&mut self, track: TrackInfo)
        ensures
            exists|now: u64| final(self)@ == old(self)@.play_now_at(track, now as int),
            final(self).session matches Some(s) && s.track == track,
    {
        let now = self.now_ms();
        self.play_now_at(track, now);
    }

    /// Append a track to the queue.
    pub fn add_to_queue(&mut self, track: TrackInfo)
        ensures
            final(self)@ == (EngineModel { queue: old(self)@.queue.add_to_queue(track), ..old(self)@ }),
    {
        self.queue.add_to_queue(track);
    }

    /// Pause at `now`: account for time played, then stop accumulating.
    pub fn pause_at(&mut self, now: u64)
        ensures
            final(self)@ == old(self)@.pause_at(now as int),
            same_play(old(self).session, final(self).session),
    {
        if self.state != PlaybackState::Playing {
            return;
        }
        self.update_time_at(now);
        match &mut self.session {
            Some(session) => {
                session.last_play_start = None;
            },
            None => {},
        }
        self.state = PlaybackState::Paused;
    }

    /// Pause now.
    pub fn pause(&mut self)
        ensures
            exists|now: u64| final(self)@ == old(self)@.pause_at(now as int),
    {
        let now = self.now_ms();
        self.pause_at(now);
    }

    /// Resume a paused session at `now`.
    pub fn resume_at(&mut self, now: u64)
        ensures
            final(self)@ == old(self)@.resume_at(now as int),
            same_play(old(self).session, final(self).session),
    {
        if self.state != PlaybackState::Paused {
            return;
        }
        match &mut self.session {
            Some(session) => {
                session.last_play_start = Some(now);
                self.state = PlaybackState::Playing;
            },
            None => {},
        }
    }

    /// Resume now.
    pub fn resume(&mut self)
        ensures
            exists|now: u64| final(self)@ == old(self)@.resume_at(now as int),
    {
        let now = self.now_ms();
        self.resume_at(now);
    }

    /// Stop at `now`, ending the session.
    pub fn stop_at(&mut self, now: u64)
        ensures
            final(self)@ == old(self)@.stop_at(now as int),
    {
        if self.state == PlaybackState::Playing {
            self.update_time_at(now);
        }
        self.state = PlaybackState::Stopped;
        self.session = None;
    }

    /// Stop now.
    pub fn stop(&mut self)
        ensures
            exists|now: u64| final(self)@ == old(self)@.stop_at(now as int),
    {
        let now = self.now_ms();
        self.stop_at(now);
    }

    /// Move the playback position; the played time is not changed by the jump.
    pub fn seek_at(&mut self, position_ms: u64, now: u64)
        ensures
            final(self)@ == old(self)@.seek_at(position_ms as int, now as int),
            same_play(old(self).session, final(self).session),
    {
        if self.session.is_none() {
            return;
        }
        if self.state == PlaybackState::Playing {
            self.update_time_at(now);
        }
        match &mut self.session {
            Some(session) => {
                session.position_ms = position_ms;
            },
            None => {},
        }
    }

    /// Move the playback position now.
    pub fn seek(&mut self, position_ms: u64)
        ensures
            exists|now: u64| final(self)@ == old(self)@.seek_at(position_ms as int, now as int),
    {
        let now = self.now_ms();
        self.seek_at(position_ms, now);
    }

    /// Advance the queue at `now`: play the next track, or stop at the end.
    pub fn next_at(&mut self, now: u64)
        ensures
            final(self)@ == old(self)@.next_at(now as int),
            plays_current(final(self).session, final(self)@.queue),
    {
        if self.state == PlaybackState::Playing {
            self.update_time_at(now);
        }
        let next_item = match self.queue.next() {
            Some(item) => Some(item.clone()),
            None => None,
        };
        match next_item {
            Some(item) => self.start_session(item.track, now),
            None => self.stop_at(now),
        }
    }

    /// Advance the queue now.
    pub fn next(&mut self)
        ensures
            exists|now: u64| final(self)@ == old(self)@.next_at(now as int),
    {
        let now = self.now_ms();
        self.next_at(now);
    }

    /// "Previous" at `now`: restart the current track (past 3 s, or at the
    /// first entry) or start the previous one.
    pub fn previous_at(&mut self, now: u64)
        ensures
            final(self)@ == old(self)@.previous_at(now as int),
            match old(self).session {
                None => final(self).session is None,
                Some(s) => match old(self)@.queue.previous_action(s.position_ms as int) {
                    PreviousAction::MoveToPrevious(_) => plays_current(
                        final(self).session,
                        final(self)@.queue,
                    ),
                    _ => same_play(old(self).session, final(self).session),
                },
            },
    {
        let position_ms = match &self.session {
            Some(session) => session.position_ms,
            None => {
                return;
            },
        };
        if self.state == PlaybackState::Playing {
            self.update_time_at(now);
        }
        match self.queue.previous(position_ms) {
            PreviousAction::MoveToPrevious(_) => {
                let track = match self.queue.current() {
                    Some(item) => item.track.clone(),
                    None => {
                        self.stop_at(now);
                        return;
                    },
                };
                self.start_session(track, now);
            },
            _ => {
                match &mut self.session {
                    Some(session) => {
                        session.position_ms = 0;
                        session.last_play_start = Some(now);
                        self.state = PlaybackState::Playing;
                    },
                    None => {},
                }
            },
        }
    }

    /// "Previous" now.
    pub fn previous(&mut self)
        ensures
            exists|now: u64| final(self)@ == old(self)@.previous_at(now as int),
    {
        let now = self.now_ms();
        self.previous_at(now);
    }
}

impl Default for EngineState {
    fn default() -> (e: Self)
        ensures
            e@.state == PlaybackState::Stopped,
            e@.session is None,
            e@.queue.items.len() == 0,
            e@.queue.current is None,
    {
        EngineState::new()
    }
}

/// Play time accrues only while playing: outside the playing state, time
/// accounting changes nothing.
pub proof fn lemma_time_accrues_only_while_playing(m: EngineModel, now: int)
    requires
        m.state != PlaybackState::Playing,
    ensures
        m.update_time_at(now) == m,
{
}

/// After a pause, later time accounting leaves the played time unchanged
/// until playback resumes.
pub proof fn lemma_paused_time_is_not_counted(m: EngineModel, t1: int, t2: int)
    ensures
        m.pause_at(t1).update_time_at(t2) == m.pause_at(t1),
{
}

/// Played time and position never decrease through time accounting (up to
/// saturation), and a tick at the same instant changes nothing more.
pub proof fn lemma_played_time_monotone(s: SessionModel, now: int)
    requires
        0 <= s.played_ms <= u64::MAX,
        0 <= s.position_ms <= u64::MAX,
    ensures
        s.tick(now).played_ms >= s.played_ms,
        s.tick(now).position_ms >= s.position_ms,
        s.tick(now).tick(now) == s.tick(now),
{
}

/// Seeking moves the position without adding the jump to the played time.
pub proof fn lemma_seek_keeps_played_time(m: EngineModel, position_ms: int, now: int)
    requires
        m.session is Some,
    ensures
        m.seek_at(position_ms, now).session matches Some(s) && s.position_ms == position_ms
            && s.played_ms == m.update_time_at(now).session->0.played_ms,
{
}

/// "Next" on the last entry of the queue stops playback and ends the session.
pub proof fn lemma_next_at_end_stops(m: EngineModel, now: int)
    requires
        m.queue.current matches Some(i) && i + 1 >= m.queue.items.len(),
    ensures
        m.next_at(now).state == PlaybackState::Stopped,
        m.next_at(now).session is None,
        m.next_at(now).queue.current is None,
{
}

/// "Next" within the queue starts a fresh playing session for the next entry.
pub proof fn lemma_next_plays_next_entry(m: EngineModel, now: int)
    requires
        m.queue.wf(),
        m.queue.current matches Some(i) && i + 1 < m.queue.items.len(),
    ensures
        m.next_at(now).state == PlaybackState::Playing,
        m.next_at(now).session == Some(
            SessionModel::fresh(m.queue.items[m.queue.current->0 + 1].track.id, now),
        ),
{
}

/// Past three seconds, "previous" restarts the current track from zero and
/// plays, keeping its session.
pub proof fn lemma_previous_restarts_after_three_seconds(m: EngineModel, now: int)
    requires
        m.session matches Some(s) && s.position_ms > 3_000,
        m.queue.current is Some,
    ensures
        m.previous_at(now).state == PlaybackState::Playing,
        m.previous_at(now).session matches Some(s) && s.position_ms == 0 && s.track_id
            == m.session->0.track_id && s.last_play_start == Some(now),
        m.previous_at(now).queue == m.queue,
{
}

/// While playing, the time between the last (re)start and now is added
/// to both the played time and the position, as long as it fits.
pub proof fn lemma_tick_adds_elapsed(s: SessionModel, now: int)
    requires
        s.last_play_start matches Some(last) && last <= now,
        s.played_ms + (now - s.last_play_start->0) <= u64::MAX,
        s.position_ms + (now - s.last_play_start->0) <= u64::MAX,
    ensures
        s.tick(now).played_ms == s.played_ms + (now - s.last_play_start->0),
        s.tick(now).position_ms == s.position_ms + (now - s.last_play_start->0),
        s.tick(now).last_play_start == Some(now),
        s.tick(now).track_id == s.track_id,
        s.tick(now).started_at == s.started_at,
{
}

/// "Play now" makes the track the whole queue and starts playing it in a
/// fresh session: nothing played yet, at position zero, started now.
pub proof fn lemma_play_now_starts_fresh_session(m: EngineModel, track: TrackInfo, now: int)
    ensures
        m.play_now_at(track, now).state == PlaybackState::Playing,
        m.play_now_at(track, now).session == Some(SessionModel::fresh(track.id, now)),
        m.play_now_at(track, now).queue.items == seq![QueueItem { track }],
        m.play_now_at(track, now).queue.current == Some(0int),
{
}

/// Pausing and later resuming plays the same track on, from where it was
/// paused, with the time played up to the pause and none of the paused
/// time; the play restarts its clock at the resume.
pub proof fn lemma_pause_then_resume(m: EngineModel, t1: int, t2: int)
    requires
        m.state == PlaybackState::Playing,
        m.session is Some,
    ensures
        m.pause_at(t1).state == PlaybackState::Paused,
        m.pause_at(t1).resume_at(t2).state == PlaybackState::Playing,
        m.pause_at(t1).resume_at(t2).session == Some(
            SessionModel { last_play_start: Some(t2), ..m.session->0.tick(t1) },
        ),
        m.pause_at(t1).resume_at(t2).queue == m.queue,
{
}

/// Stopping ends the play and keeps the queue as it was.
pub proof fn lemma_stop_ends_session(m: EngineModel, now: int)
    ensures
        m.stop_at(now).state == PlaybackState::Stopped,
        m.stop_at(now).session is None,
        m.stop_at(now).queue == m.queue,
{
}

} // verus!
