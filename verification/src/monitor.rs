//! The end-of-track monitor: a watcher that belongs to one load of one
//! track and reports the natural end of its playback exactly once.
//!
//! The application polls the output sink at a fixed interval and hands
//! each observation to the monitor, which answers with what to do next.

use vstd::prelude::*;

verus! {

/// The time between two polls of the sink, in milliseconds.
pub const POLL_INTERVAL_MILLIS: u64 = 500;

/// What the watcher does after one observation of the sink.
#[derive(Debug, Clone, Copy, PartialEq, Eq, Structural)]
pub enum MonitorStep {
    /// The track is still playing: sleep for one interval and poll again.
    Wait,
    /// The track has played to its end: announce it and stop watching.
    NotifyEnded,
    /// Stop watching without a word.
    Retire,
}

/// One observation made by the watcher while it holds the sink's lock.
pub struct Observation {
    /// The token of the load that currently owns the sink.
    pub current: u64,
    /// Whether the sink has nothing left to play.
    pub sink_empty: bool,
}

/// The mathematical value of a [`Monitor`].
pub struct MonitorView {
    /// The token of the load this monitor belongs to.
    pub token: u64,
    /// Whether the monitor has stopped watching.
    pub finished: bool,
}

/// The answer of a monitor to one observation.
///
/// A finished monitor stays silent. A monitor whose load has been
/// superseded retires without announcing anything, even when the sink is
/// empty at that moment. Otherwise an empty sink means the track has ended.
pub open spec fn step_of(monitor: MonitorView, seen: Observation) -> MonitorStep {
    if monitor.finished || seen.current != monitor.token {
        MonitorStep::Retire
    } else if seen.sink_empty {
        MonitorStep::NotifyEnded
    } else {
        MonitorStep::Wait
    }
}

/// The monitor after one observation: it is finished unless it waits.
pub open spec fn after_step(monitor: MonitorView, seen: Observation) -> MonitorView {
    MonitorView {
        token: monitor.token,
        finished: step_of(monitor, seen) != MonitorStep::Wait,
    }
}

/// The monitor after a run of observations.
pub open spec fn after_run(monitor: MonitorView, run: Seq<Observation>) -> MonitorView
    decreases run.len(),
{
    if run.len() == 0 {
        monitor
    } else {
        after_step(after_run(monitor, run.drop_last()), run.last())
    }
}

/// How often the monitor announces the end of its track over a run of
/// observations.
pub open spec fn notifications(monitor: MonitorView, run: Seq<Observation>) -> nat
    decreases run.len(),
{
    if run.len() == 0 {
        0
    } else {
        let earlier = run.drop_last();
        let last = step_of(after_run(monitor, earlier), run.last());
        notifications(monitor, earlier) + if last == MonitorStep::NotifyEnded {
            1nat
        } else {
            0nat
        }
    }
}

/// The watcher of one load.
pub struct Monitor {
    token: u64,
    finished: bool,
}

impl View for Monitor {
    type V = MonitorView;

    closed spec fn view(&self) -> MonitorView {
        MonitorView { token: self.token, finished: self.finished }
    }
}

impl Monitor {
    /// A monitor for the load with the given token, not yet finished.
    pub fn watch(token: u64) -> (monitor: Monitor)
        ensures
            monitor@ == (MonitorView { token, finished: false }),
    {
        Monitor { token, finished: false }
    }

    /// The token of the load this monitor belongs to.
    pub fn token(&self) -> (token: u64)
        ensures
            token == self@.token,
    {
        self.token
    }

    /// Whether the monitor has stopped watching.
    pub fn is_finished(&self) -> (finished: bool)
        ensures
            finished == self@.finished,
    {
        self.finished
    }

    /// Takes one observation and says what the watcher does next.
    ///
    /// `current` is the token of the load that owns the sink now, and
    /// `sink_empty` says whether the sink has nothing left to play.
    pub fn step(&mut self, current: u64, sink_empty: bool) -> (next: MonitorStep)
        ensures
            next == step_of(old(self)@, Observation { current, sink_empty }),
            final(self)@ == after_step(old(self)@, Observation { current, sink_empty }),
    {
        if self.finished || current != self.token {
            self.finished = true;
            MonitorStep::Retire
        } else if sink_empty {
            self.finished = true;
            MonitorStep::NotifyEnded
        } else {
            MonitorStep::Wait
        }
    }
}

/// The token stays what it was over any run of observations.
pub proof fn lemma_run_keeps_token(monitor: MonitorView, run: Seq<Observation>)
    ensures
        after_run(monitor, run).token == monitor.token,
    decreases run.len(),
{
    if run.len() > 0 {
        lemma_run_keeps_token(monitor, run.drop_last());
    }
}

/// A monitor that has finished never announces anything and never resumes.
pub proof fn lemma_finished_stays_silent(monitor: MonitorView, run: Seq<Observation>)
    requires
        monitor.finished,
    ensures
        notifications(monitor, run) == 0,
        after_run(monitor, run).finished,
    decreases run.len(),
{
    if run.len() > 0 {
        lemma_finished_stays_silent(monitor, run.drop_last());
    }
}

/// Whatever the monitor observes, it announces the end of its track at
/// most once, and once it has announced it the monitor is finished.
pub proof fn lemma_notifies_at_most_once(monitor: MonitorView, run: Seq<Observation>)
    ensures
        notifications(monitor, run) <= 1,
        notifications(monitor, run) == 1 ==> after_run(monitor, run).finished,
    decreases run.len(),
{
    if run.len() > 0 {
        lemma_notifies_at_most_once(monitor, run.drop_last());
    }
}

/// While the sink still plays the track of the monitor's own load, the
/// monitor keeps waiting and announces nothing.
pub proof fn lemma_waits_while_playing(token: u64, run: Seq<Observation>)
    requires
        forall|i: int|
            0 <= i < run.len() ==> (#[trigger] run[i]).current == token && !run[i].sink_empty,
    ensures
        notifications(MonitorView { token, finished: false }, run) == 0,
        !after_run(MonitorView { token, finished: false }, run).finished,
    decreases run.len(),
{
    if run.len() > 0 {
        let earlier = run.drop_last();
        assert forall|i: int| 0 <= i < earlier.len() implies (#[trigger] earlier[i]).current
            == token && !earlier[i].sink_empty by {
            assert(earlier[i] == run[i]);
        }
        lemma_waits_while_playing(token, earlier);
        lemma_run_keeps_token(MonitorView { token, finished: false }, earlier);
    }
}

/// A track that plays to its end is announced exactly once: if no other
/// load takes the sink over and the sink is seen empty at some poll, the
/// monitor announces the end once, however long polling goes on.
pub proof fn lemma_natural_end_is_announced_once(token: u64, run: Seq<Observation>, k: int)
    requires
        0 <= k < run.len(),
        run[k].sink_empty,
        forall|i: int| 0 <= i < run.len() ==> (#[trigger] run[i]).current == token,
    ensures
        notifications(MonitorView { token, finished: false }, run) == 1,
        after_run(MonitorView { token, finished: false }, run).finished,
    decreases run.len(),
{
    let fresh = MonitorView { token, finished: false };
    let earlier = run.drop_last();
    lemma_notifies_at_most_once(fresh, run);
    lemma_run_keeps_token(fresh, earlier);
    assert forall|i: int| 0 <= i < earlier.len() implies (#[trigger] earlier[i]).current
        == token by {
        assert(earlier[i] == run[i]);
    }
    if k < run.len() - 1 {
        lemma_natural_end_is_announced_once(token, earlier, k);
    } else {
        lemma_notifies_at_most_once(fresh, earlier);
        if !after_run(fresh, earlier).finished {
            assert(step_of(after_run(fresh, earlier), run.last()) == MonitorStep::NotifyEnded);
        }
        if notifications(fresh, earlier) == 0 && after_run(fresh, earlier).finished {
            lemma_finished_without_notice_was_superseded(token, earlier);
        }
    }
}

/// A monitor that finished without announcing anything saw the token of
/// another load.
pub proof fn lemma_finished_without_notice_was_superseded(token: u64, run: Seq<Observation>)
    requires
        after_run(MonitorView { token, finished: false }, run).finished,
        notifications(MonitorView { token, finished: false }, run) == 0,
    ensures
        exists|i: int| 0 <= i < run.len() && (#[trigger] run[i]).current != token,
    decreases run.len(),
{
    let fresh = MonitorView { token, finished: false };
    if run.len() > 0 {
        let earlier = run.drop_last();
        lemma_run_keeps_token(fresh, earlier);
        if after_run(fresh, earlier).finished {
            lemma_finished_without_notice_was_superseded(token, earlier);
            let i = choose|i: int| 0 <= i < earlier.len() && (#[trigger] earlier[i]).current != token;
            assert(run[i] == earlier[i]);
        } else {
            assert(run[run.len() - 1] == run.last());
        }
    }
}

/// A monitor whose load is superseded before the sink is ever seen empty
/// never announces anything: the stray end of a replaced track is
/// suppressed.
pub proof fn lemma_superseded_stays_silent(token: u64, run: Seq<Observation>, k: int)
    requires
        0 <= k < run.len(),
        run[k].current != token,
        forall|i: int| 0 <= i < k ==> !(#[trigger] run[i]).sink_empty,
    ensures
        notifications(MonitorView { token, finished: false }, run) == 0,
        after_run(MonitorView { token, finished: false }, run).finished,
    decreases run.len(),
{
    let fresh = MonitorView { token, finished: false };
    let earlier = run.drop_last();
    lemma_run_keeps_token(fresh, earlier);
    if k < run.len() - 1 {
        assert forall|i: int| 0 <= i < k implies !(#[trigger] earlier[i]).sink_empty by {
            assert(earlier[i] == run[i]);
        }
        lemma_superseded_stays_silent(token, earlier, k);
    } else {
        lemma_silent_before_empty(token, earlier);
    }
}

/// As long as the sink has not been seen empty, nothing is announced.
pub proof fn lemma_silent_before_empty(token: u64, run: Seq<Observation>)
    requires
        forall|i: int| 0 <= i < run.len() ==> !(#[trigger] run[i]).sink_empty,
    ensures
        notifications(MonitorView { token, finished: false }, run) == 0,
    decreases run.len(),
{
    if run.len() > 0 {
        let earlier = run.drop_last();
        assert forall|i: int| 0 <= i < earlier.len() implies !(#[trigger] earlier[i]).sink_empty by {
            assert(earlier[i] == run[i]);
        }
        lemma_silent_before_empty(token, earlier);
    }
}

} // verus!
