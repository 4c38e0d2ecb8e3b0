//! The playback engine's state machine.
//!
//! One session exists for the life of the process. It is in one of three
//! states: idle, playing or paused. Every request the engine accepts is a
//! transition of this machine: the session decides what changes and what
//! is announced, and the application carries the decision out on the
//! output sink while it holds the sink's lock.

use vstd::prelude::*;
use crate::monitor::{after_step, step_of, Monitor, MonitorStep, MonitorView, Observation};

verus! {

/// Where playback stands.
#[derive(Debug, Clone, Copy, PartialEq, Eq, Structural)]
pub enum PlaybackState {
    /// Nothing is loaded.
    Idle,
    /// A track is loaded and playing.
    Playing,
    /// A track is loaded and paused.
    Paused,
}

/// A length of time: whole seconds and the nanoseconds beyond them.
#[derive(Debug, Clone, Copy, PartialEq, Eq, Structural)]
pub struct TimeSpan {
    pub secs: u64,
    pub subsec_nanos: u32,
}

/// A snapshot of playback, announced at every change of state.
#[derive(Debug, Clone, Copy, PartialEq, Eq, Structural)]
pub struct PlaybackStatus {
    pub position: TimeSpan,
    pub duration: TimeSpan,
    pub is_playing: bool,
}

/// How an attempt to open and decode a file went.
#[derive(Debug, Clone, Copy, PartialEq, Eq, Structural)]
pub enum Decoded {
    /// The file could not be opened or decoded.
    Failed,
    /// The file was decoded; `total` is the length of the stream where the
    /// decoder knows it.
    Ready { total: Option<TimeSpan> },
}

/// The mathematical value of a [`PlaybackSession`].
pub struct SessionView {
    pub state: PlaybackState,
    /// The token of the latest successful load.
    pub generation: u64,
}

/// No time at all.
pub open spec fn zero_span() -> TimeSpan {
    TimeSpan { secs: 0, subsec_nanos: 0 }
}

/// The token that follows `generation`. Tokens wrap around at the end of
/// their range; a token never follows itself.
pub open spec fn next_generation(generation: u64) -> u64 {
    if generation == u64::MAX {
        0
    } else {
        (generation + 1) as u64
    }
}

/// The status announced when a decoded track starts to play.
pub open spec fn started_status(total: Option<TimeSpan>) -> PlaybackStatus {
    PlaybackStatus {
        position: zero_span(),
        duration: match total {
            Some(span) => span,
            None => zero_span(),
        },
        is_playing: true,
    }
}

/// The status announced when playback is paused or resumed.
pub open spec fn toggled_status(is_playing: bool) -> PlaybackStatus {
    PlaybackStatus { position: zero_span(), duration: zero_span(), is_playing }
}

/// The session after a load. Whatever was loaded is dropped first. A
/// decoded file then plays under a new token; a failed load leaves the
/// session idle under the token it had.
pub open spec fn after_load(session: SessionView, decoded: Decoded) -> SessionView {
    match decoded {
        Decoded::Ready { .. } => SessionView {
            state: PlaybackState::Playing,
            generation: next_generation(session.generation),
        },
        Decoded::Failed => SessionView {
            state: PlaybackState::Idle,
            generation: session.generation,
        },
    }
}

/// The session after a pause: a playing session becomes paused, any other
/// stays as it is.
pub open spec fn after_pause(session: SessionView) -> SessionView {
    if session.state == PlaybackState::Playing {
        SessionView { state: PlaybackState::Paused, generation: session.generation }
    } else {
        session
    }
}

/// The session after a resume: a paused session becomes playing, any other
/// stays as it is.
pub open spec fn after_resume(session: SessionView) -> SessionView {
    if session.state == PlaybackState::Paused {
        SessionView { state: PlaybackState::Playing, generation: session.generation }
    } else {
        session
    }
}

/// The session after one poll of a monitor: it becomes idle when the
/// monitor announces the end of the track, and stays as it is otherwise.
pub open spec fn after_poll(session: SessionView, step: MonitorStep) -> SessionView {
    if step == MonitorStep::NotifyEnded {
        SessionView { state: PlaybackState::Idle, generation: session.generation }
    } else {
        session
    }
}

/// What the application does to the sink for a load, in this order: clear
/// the sink if asked to; then, if a track was started, append the decoded
/// stream and play it, announce `status`, and start polling with `monitor`.
pub struct LoadPlan {
    /// Whether the sink holds a track that must be stopped and cleared.
    pub clear_first: bool,
    /// The announcement and the watcher of the track that starts, or `None`
    /// when the load failed and nothing starts.
    pub started: Option<Started>,
}

/// The announcement and the watcher that go with a track that starts.
pub struct Started {
    pub status: PlaybackStatus,
    pub monitor: Monitor,
}

/// The engine's record of the one playback session.
pub struct PlaybackSession {
    state: PlaybackState,
    generation: u64,
}

impl View for PlaybackSession {
    type V = SessionView;

    closed spec fn view(&self) -> SessionView {
        SessionView { state: self.state, generation: self.generation }
    }
}

impl PlaybackSession {
    /// A session with nothing loaded.
    pub fn new() -> (session: PlaybackSession)
        ensures
            session@ == (SessionView { state: PlaybackState::Idle, generation: 0 }),
    {
        PlaybackSession { state: PlaybackState::Idle, generation: 0 }
    }

    /// Where playback stands.
    pub fn state(&self) -> (state: PlaybackState)
        ensures
            state == self@.state,
    {
        self.state
    }

    /// The token of the latest successful load.
    pub fn generation(&self) -> (generation: u64)
        ensures
            generation == self@.generation,
    {
        self.generation
    }

    /// Whether a track is loaded and playing.
    pub fn is_playing(&self) -> (playing: bool)
        ensures
            playing == (self@.state == PlaybackState::Playing),
    {
        self.state == PlaybackState::Playing
    }

    /// Whether a track is loaded, playing or paused.
    pub fn has_content(&self) -> (loaded: bool)
        ensures
            loaded == (self@.state != PlaybackState::Idle),
    {
        self.state != PlaybackState::Idle
    }

    /// Loads a track and plays it, from any state.
    ///
    /// `decoded` says how opening and decoding the file went. A track that
    /// is loaded already is always dropped. If the file was decoded, the
    /// session plays it under a new token, and the plan carries the status
    /// to announce (position zero, the stream's total length or zero where
    /// it is unknown, playing) and a fresh monitor for that token. If it
    /// was not, nothing starts and nothing is announced.
    pub fn load_and_play(&mut self, decoded: Decoded) -> (plan: LoadPlan)
        ensures
            final(self)@ == after_load(old(self)@, decoded),
            plan.clear_first == (old(self)@.state != PlaybackState::Idle),
            decoded is Failed ==> plan.started is None,
            decoded matches Decoded::Ready { total } ==> plan.started matches Some(started)
                && started.status == started_status(total) && started.monitor@ == (MonitorView {
                token: final(self)@.generation,
                finished: false,
            }),
    {
        let clear_first = self.state != PlaybackState::Idle;
        match decoded {
            Decoded::Failed => {
                self.state = PlaybackState::Idle;
                LoadPlan { clear_first, started: None }
            },
            Decoded::Ready { total } => {
                let token = if self.generation == u64::MAX {
                    0
                } else {
                    self.generation + 1
                };
                self.generation = token;
                self.state = PlaybackState::Playing;
                let zero = TimeSpan { secs: 0, subsec_nanos: 0 };
                let duration = match total {
                    Some(span) => span,
                    None => zero,
                };
                let status = PlaybackStatus { position: zero, duration, is_playing: true };
                LoadPlan {
                    clear_first,
                    started: Some(Started { status, monitor: Monitor::watch(token) }),
                }
            },
        }
    }

    /// Pauses playback.
    ///
    /// A playing session becomes paused and the status to announce is
    /// returned. In any other state nothing changes and nothing is
    /// announced.
    pub fn pause(&mut self) -> (announce: Option<PlaybackStatus>)
        ensures
            final(self)@ == after_pause(old(self)@),
            old(self)@.state == PlaybackState::Playing ==> announce == Some(toggled_status(false)),
            old(self)@.state != PlaybackState::Playing ==> announce is None && final(self)@ == old(
                self,
            )@,
    {
        if self.state == PlaybackState::Playing {
            self.state = PlaybackState::Paused;
            let zero = TimeSpan { secs: 0, subsec_nanos: 0 };
            Some(PlaybackStatus { position: zero, duration: zero, is_playing: false })
        } else {
            None
        }
    }

    /// Resumes playback.
    ///
    /// A paused session becomes playing and the status to announce is
    /// returned. In any other state nothing changes and nothing is
    /// announced.
    pub fn resume(&mut self) -> (announce: Option<PlaybackStatus>)
        ensures
            final(self)@ == after_resume(old(self)@),
            old(self)@.state == PlaybackState::Paused ==> announce == Some(toggled_status(true)),
            old(self)@.state != PlaybackState::Paused ==> announce is None && final(self)@ == old(
                self,
            )@,
    {
        if self.state == PlaybackState::Paused {
            self.state = PlaybackState::Playing;
            let zero = TimeSpan { secs: 0, subsec_nanos: 0 };
            Some(PlaybackStatus { position: zero, duration: zero, is_playing: true })
        } else {
            None
        }
    }

    /// Hands one observation of the sink to a monitor.
    ///
    /// The monitor is told the token of the load that owns the sink now.
    /// When it announces the end of its track, the session becomes idle.
    pub fn poll(&mut self, monitor: &mut Monitor, sink_empty: bool) -> (next: MonitorStep)
        ensures
            next == step_of(
                old(monitor)@,
                Observation { current: old(self)@.generation, sink_empty },
            ),
            final(monitor)@ == after_step(
                old(monitor)@,
                Observation { current: old(self)@.generation, sink_empty },
            ),
            final(self)@ == after_poll(old(self)@, next),
    {
        let next = monitor.step(self.generation, sink_empty);
        if next == MonitorStep::NotifyEnded {
            self.state = PlaybackState::Idle;
        }
        next
    }
}

/// Pausing a session that is idle or paused already changes nothing, and
/// resuming one that is not paused changes nothing; in particular neither
/// changes whether the session is playing.
pub proof fn lemma_pause_and_resume_out_of_turn(session: SessionView)
    ensures
        session.state != PlaybackState::Playing ==> after_pause(session) == session,
        session.state != PlaybackState::Paused ==> after_resume(session) == session,
        after_pause(after_pause(session)) == after_pause(session),
        after_resume(after_resume(session)) == after_resume(session),
{
}

/// Pausing a playing session and resuming it brings it back to where it
/// was, and so does resuming a paused session and pausing it.
pub proof fn lemma_pause_resume_round_trip(session: SessionView)
    ensures
        session.state == PlaybackState::Playing ==> after_resume(after_pause(session)) == session,
        session.state == PlaybackState::Paused ==> after_pause(after_resume(session)) == session,
{
}

/// Neither pausing nor resuming touches the token of the current load, and
/// neither loads or unloads a track.
pub proof fn lemma_pause_and_resume_keep_the_load(session: SessionView)
    ensures
        after_pause(session).generation == session.generation,
        after_resume(session).generation == session.generation,
        (after_pause(session).state == PlaybackState::Idle) == (session.state
            == PlaybackState::Idle),
        (after_resume(session).state == PlaybackState::Idle) == (session.state
            == PlaybackState::Idle),
{
}

/// A successful load retires every monitor of the load before it: at its
/// next poll such a monitor stops without announcing anything, whether or
/// not the sink is empty at that moment.
pub proof fn lemma_load_supersedes_monitor(
    session: SessionView,
    total: Option<TimeSpan>,
    sink_empty: bool,
)
    ensures
        step_of(
            MonitorView { token: session.generation, finished: false },
            Observation {
                current: after_load(session, Decoded::Ready { total }).generation,
                sink_empty,
            },
        ) == MonitorStep::Retire,
{
}

/// A failed load leaves the token as it was, so the monitor of the track
/// that the load dropped still announces that its playback is over.
pub proof fn lemma_failed_load_keeps_monitor(session: SessionView)
    ensures
        after_load(session, Decoded::Failed).generation == session.generation,
        step_of(
            MonitorView { token: session.generation, finished: false },
            Observation {
                current: after_load(session, Decoded::Failed).generation,
                sink_empty: true,
            },
        ) == MonitorStep::NotifyEnded,
{
}

} // verus!
