//! The lifecycle of one monitored run, as a state machine: the caller launches the
//! child, polls it, samples its memory and reads the clock, hands each outcome in as
//! an `Event`, and performs the `Action` that comes back.
use vstd::prelude::*;

use crate::report::{status_of, PerformanceReport, RunStatus};

verus! {

#[derive(Clone, Copy, Debug, PartialEq, Eq, Structural)]
pub enum Phase {
    NotStarted,
    Running,
    Exited,
    Finalized,
    /// The child could not be launched: the run ends without a report.
    Aborted,
}

/// What the caller observed since the last action.
#[derive(Clone, Copy, Debug, PartialEq, Eq, Structural)]
pub enum Event {
    /// The child was started; the clock read `at_ms` just before.
    Launched { at_ms: u128 },
    /// The child could not be started.
    LaunchFailed,
    /// A poll found the child running, and a memory sample gave `sample_kb` (0 if unreadable).
    StillRunning { sample_kb: u64 },
    /// A poll found the child gone, with its exit code (`None` for an abnormal end);
    /// the clock read `at_ms` just after.
    ChildExited { exit_code: Option<i32>, at_ms: u128 },
    /// The sample taken after the exit gave `sample_kb` (0 if unreadable).
    FinalSample { sample_kb: u64 },
}

/// What the caller does next.
#[derive(Clone, Copy, Debug, PartialEq, Eq, Structural)]
pub enum Action {
    /// Ask whether the child still runs.
    Poll,
    /// Wait one polling interval, then ask whether the child still runs.
    SleepThenPoll,
    /// Reap the child and take the last memory sample.
    TakeFinalSample,
    /// The run is over: emit this report.
    Emit(PerformanceReport),
    /// The run is over with a launch error: emit nothing.
    Abort,
}

/// The largest of the samples; 0 for none.
pub open spec fn seq_max(s: Seq<u64>) -> u64
    decreases s.len(),
{
    if s.len() == 0 {
        0
    } else {
        let m = seq_max(s.drop_last());
        if s.last() > m {
            s.last()
        } else {
            m
        }
    }
}

pub struct MonitorView {
    pub phase: Phase,
    /// Clock reading taken just before the launch.
    pub start_ms: u128,
    pub exit_code: Option<i32>,
    /// Elapsed time, fixed when the exit is seen.
    pub total_ms: u128,
    /// Every memory sample taken so far, in order.
    pub samples: Seq<u64>,
}

/// Which events each phase takes: the launch outcome before the start, polls while the
/// child runs (an exit no earlier on the clock than the launch), the last sample after the exit.
pub open spec fn accepts(v: MonitorView, e: Event) -> bool {
    match e {
        Event::Launched { .. } => v.phase == Phase::NotStarted,
        Event::LaunchFailed => v.phase == Phase::NotStarted,
        Event::StillRunning { .. } => v.phase == Phase::Running,
        Event::ChildExited { at_ms, .. } => v.phase == Phase::Running && at_ms >= v.start_ms,
        Event::FinalSample { .. } => v.phase == Phase::Exited,
    }
}

/// One transition: the next state and the action to take.
pub open spec fn step_spec(v: MonitorView, e: Event) -> (MonitorView, Action) {
    match e {
        Event::Launched { at_ms } => (MonitorView { phase: Phase::Running, start_ms: at_ms, ..v }, Action::Poll),
        Event::LaunchFailed => (MonitorView { phase: Phase::Aborted, ..v }, Action::Abort),
        Event::StillRunning { sample_kb } => (
            MonitorView { samples: v.samples.push(sample_kb), ..v },
            Action::SleepThenPoll,
        ),
        Event::ChildExited { exit_code, at_ms } => (
            MonitorView {
                phase: Phase::Exited,
                exit_code: exit_code,
                total_ms: (at_ms - v.start_ms) as u128,
                ..v
            },
            Action::TakeFinalSample,
        ),
        Event::FinalSample { sample_kb } => {
            let s = v.samples.push(sample_kb);
            (
                MonitorView { phase: Phase::Finalized, samples: s, ..v },
                Action::Emit(
                    PerformanceReport {
                        total_time_ms: v.total_ms,
                        peak_memory_kb: seq_max(s),
                        status: status_of(v.exit_code),
                    },
                ),
            )
        },
    }
}

proof fn lemma_seq_max_push(s: Seq<u64>, x: u64)
    ensures
        seq_max(s.push(x)) == if x > seq_max(s) { x } else { seq_max(s) },
{
    assert(s.push(x).drop_last() =~= s);
}

/// The peak is the largest sample: no sample exceeds it, and where any sample was
/// taken, one equals it.
pub proof fn lemma_seq_max_is_maximum(s: Seq<u64>)
    ensures
        forall|i: int| 0 <= i < s.len() ==> s[i] <= seq_max(s),
        s.len() > 0 ==> exists|i: int| 0 <= i < s.len() && s[i] == seq_max(s),
    decreases s.len(),
{
    if s.len() > 0 {
        let d = s.drop_last();
        lemma_seq_max_is_maximum(d);
        assert forall|i: int| 0 <= i < s.len() implies s[i] <= seq_max(s) by {
            if i < d.len() {
                assert(s[i] == d[i]);
            }
        }
        if s.last() <= seq_max(d) && d.len() > 0 {
            let j = choose|j: int| 0 <= j < d.len() && d[j] == seq_max(d);
            assert(s[j] == d[j]);
        } else {
            assert(s[s.len() - 1] == seq_max(s));
        }
    }
}

/// The peak never goes down within a run: each step keeps every sample taken so far,
/// and the largest of them can only grow.
pub proof fn lemma_peak_never_decreases(v: MonitorView, e: Event)
    requires
        accepts(v, e),
    ensures
        step_spec(v, e).0.samples.len() >= v.samples.len(),
        forall|i: int| 0 <= i < v.samples.len() ==> step_spec(v, e).0.samples[i] == v.samples[i],
        seq_max(v.samples) <= seq_max(step_spec(v, e).0.samples),
{
    match e {
        Event::StillRunning { sample_kb } => lemma_seq_max_push(v.samples, sample_kb),
        Event::FinalSample { sample_kb } => lemma_seq_max_push(v.samples, sample_kb),
        _ => {},
    }
}

/// The report's peak is the largest of all the run's samples, the one taken after the
/// exit included: none exceeds it, and one equals it.
pub proof fn lemma_report_peak_is_max_of_samples(v: MonitorView, sample_kb: u64)
    requires
        v.phase == Phase::Exited,
    ensures
        (step_spec(v, Event::FinalSample { sample_kb }).1 matches Action::Emit(r) && {
            let all = v.samples.push(sample_kb);
            &&& forall|i: int| 0 <= i < all.len() ==> all[i] <= r.peak_memory_kb
            &&& exists|i: int| 0 <= i < all.len() && all[i] == r.peak_memory_kb
        }),
{
    lemma_seq_max_is_maximum(v.samples.push(sample_kb));
}

/// Where memory could not be read at any point of the run (every sample read as 0), the
/// report is still emitted, with a peak of 0 and the status that the exit code gives.
pub proof fn lemma_unreadable_memory_gives_zero_peak(v: MonitorView)
    requires
        v.phase == Phase::Exited,
        forall|i: int| 0 <= i < v.samples.len() ==> v.samples[i] == 0,
    ensures
        (step_spec(v, Event::FinalSample { sample_kb: 0 }).1 == Action::Emit(
            PerformanceReport {
                total_time_ms: v.total_ms,
                peak_memory_kb: 0,
                status: status_of(v.exit_code),
            },
        )),
{
    let all = v.samples.push(0u64);
    lemma_seq_max_is_maximum(all);
    assert forall|i: int| 0 <= i < all.len() implies all[i] == 0 by {
        if i < v.samples.len() {
            assert(all[i] == v.samples[i]);
        }
    }
}

/// The reported time is the span on the caller's clock from the reading just before the
/// launch to the reading just after the exit was seen.
pub proof fn lemma_total_time_spans_launch_to_exit(
    v: MonitorView,
    exit_code: Option<i32>,
    at_ms: u128,
    sample_kb: u64,
)
    requires
        (accepts(v, Event::ChildExited { exit_code, at_ms })),
    ensures
        ({
            let w = step_spec(v, Event::ChildExited { exit_code, at_ms }).0;
            &&& accepts(w, Event::FinalSample { sample_kb })
            &&& step_spec(w, Event::FinalSample { sample_kb }).1 matches Action::Emit(r)
                && r.total_time_ms == at_ms - v.start_ms
        }),
{
}

/// The report says success exactly when the child exited with code 0; any other code,
/// or an end without one, gives failure.
pub proof fn lemma_status_follows_exit_code(
    v: MonitorView,
    exit_code: Option<i32>,
    at_ms: u128,
    sample_kb: u64,
)
    requires
        (accepts(v, Event::ChildExited { exit_code, at_ms })),
    ensures
        ({
            let w = step_spec(v, Event::ChildExited { exit_code, at_ms }).0;
            &&& accepts(w, Event::FinalSample { sample_kb })
            &&& step_spec(w, Event::FinalSample { sample_kb }).1 matches Action::Emit(r)
                && (r.status == RunStatus::Success <==> exit_code == Some(0i32))
        }),
{
}

/// A failed launch ends the run: the action is to abort, and no later event is taken,
/// so no report is ever emitted.
pub proof fn lemma_launch_failure_emits_nothing(v: MonitorView)
    requires
        v.phase == Phase::NotStarted,
    ensures
        step_spec(v, Event::LaunchFailed).1 == Action::Abort,
        forall|e: Event| !accepts(step_spec(v, Event::LaunchFailed).0, e),
{
}

/// The state of a monitor that has taken no event yet.
pub open spec fn initial_view() -> MonitorView {
    MonitorView {
        phase: Phase::NotStarted,
        start_ms: 0,
        exit_code: None,
        total_ms: 0,
        samples: Seq::empty(),
    }
}

/// Each event of the sequence is taken, in turn, by the state that the ones before it left.
pub open spec fn runs(v: MonitorView, events: Seq<Event>) -> bool
    decreases events.len(),
{
    events.len() == 0 || (accepts(v, events[0]) && runs(step_spec(v, events[0]).0, events.drop_first()))
}

/// The state after a sequence of events, and the action returned for each.
pub open spec fn run(v: MonitorView, events: Seq<Event>) -> (MonitorView, Seq<Action>)
    decreases events.len(),
{
    if events.len() == 0 {
        (v, Seq::empty())
    } else {
        let (w, a) = step_spec(v, events[0]);
        let (x, acts) = run(w, events.drop_first());
        (x, seq![a] + acts)
    }
}

/// The memory samples that a sequence of events carries, in order.
pub open spec fn samples_of(events: Seq<Event>) -> Seq<u64>
    decreases events.len(),
{
    if events.len() == 0 {
        Seq::empty()
    } else {
        let here = match events[0] {
            Event::StillRunning { sample_kb } => seq![sample_kb],
            Event::FinalSample { sample_kb } => seq![sample_kb],
            _ => Seq::empty(),
        };
        here + samples_of(events.drop_first())
    }
}

/// What a sequence of events does to the samples and which action can be a report: the
/// samples grow by those the events carry; a report comes only as the last action, and
/// exactly when the run ends in the finalized phase, with the peak of all samples.
pub proof fn lemma_run_shape(v: MonitorView, events: Seq<Event>)
    requires
        runs(v, events),
        v.phase != Phase::Finalized,
    ensures
        run(v, events).0.samples == v.samples + samples_of(events),
        run(v, events).1.len() == events.len(),
        forall|i: int| 0 <= i < events.len() - 1 ==> !(#[trigger] run(v, events).1[i] is Emit),
        run(v, events).0.phase == Phase::Finalized ==> events.len() > 0 && run(v, events).1.last()
            == Action::Emit(
            PerformanceReport {
                total_time_ms: run(v, events).0.total_ms,
                peak_memory_kb: seq_max(run(v, events).0.samples),
                status: status_of(run(v, events).0.exit_code),
            },
        ),
        events.len() > 0 && run(v, events).1.last() is Emit ==> run(v, events).0.phase
            == Phase::Finalized,
    decreases events.len(),
{
    if events.len() == 0 {
        assert(v.samples + samples_of(events) =~= v.samples);
    } else {
        let e = events[0];
        let rest = events.drop_first();
        let (w, a) = step_spec(v, e);
        let acts = run(w, rest).1;
        if rest.len() > 0 {
            assert(accepts(w, rest[0])) by {
                reveal_with_fuel(runs, 2);
            }
            assert(w.phase != Phase::Finalized);
            lemma_run_shape(w, rest);
            assert((seq![a] + acts).last() == acts.last());
            assert forall|i: int| 0 <= i < events.len() - 1 implies !(#[trigger] run(
                v,
                events,
            ).1[i] is Emit) by {
                if i > 0 {
                    assert((seq![a] + acts)[i] == acts[i - 1]);
                } else {
                    assert(a !is Emit);
                }
            }
        } else {
            assert(rest =~= Seq::<Event>::empty());
        }
        assert(v.samples + samples_of(events) =~= w.samples + samples_of(rest));
    }
}

/// Over a whole run from a fresh monitor, the report's peak is the largest of all the
/// samples taken, the one after the exit included: none exceeds it, and one equals it
/// (0 where no sample was taken).
pub proof fn lemma_run_report_peak_is_max_of_samples(events: Seq<Event>)
    requires
        runs(initial_view(), events),
        run(initial_view(), events).0.phase == Phase::Finalized,
    ensures
        (run(initial_view(), events).1.last() matches Action::Emit(r) && {
            let all = samples_of(events);
            &&& r.peak_memory_kb == seq_max(all)
            &&& forall|i: int| 0 <= i < all.len() ==> all[i] <= r.peak_memory_kb
            &&& all.len() > 0 ==> exists|i: int| 0 <= i < all.len() && all[i] == r.peak_memory_kb
        }),
{
    lemma_run_shape(initial_view(), events);
    assert(Seq::<u64>::empty() + samples_of(events) =~= samples_of(events));
    lemma_seq_max_is_maximum(samples_of(events));
}

/// Over a whole run from a fresh monitor in which memory could never be read (every
/// sample is 0), the run still ends with a report, with a peak of 0.
pub proof fn lemma_run_unreadable_memory_gives_zero_peak(events: Seq<Event>)
    requires
        runs(initial_view(), events),
        run(initial_view(), events).0.phase == Phase::Finalized,
        forall|i: int| 0 <= i < samples_of(events).len() ==> samples_of(events)[i] == 0,
    ensures
        (run(initial_view(), events).1.last() matches Action::Emit(r) && r.peak_memory_kb == 0),
{
    lemma_run_report_peak_is_max_of_samples(events);
    let all = samples_of(events);
    if all.len() > 0 {
        let j = choose|j: int| 0 <= j < all.len() && all[j] == seq_max(all);
        assert(all[j] == 0);
    }
}

/// A run from a fresh monitor whose launch fails takes no event after that, and its one
/// action is to abort: no report is emitted.
pub proof fn lemma_run_launch_failure_emits_nothing(events: Seq<Event>)
    requires
        runs(initial_view(), events),
        events.len() > 0,
        events[0] == Event::LaunchFailed,
    ensures
        events.len() == 1,
        run(initial_view(), events).1 == seq![Action::Abort],
{
    let w = step_spec(initial_view(), Event::LaunchFailed).0;
    let rest = events.drop_first();
    reveal_with_fuel(runs, 2);
    reveal_with_fuel(run, 2);
    if rest.len() > 0 {
        assert(!accepts(w, rest[0]));
    }
    assert(rest =~= Seq::<Event>::empty());
    assert(seq![Action::Abort] + Seq::<Action>::empty() =~= seq![Action::Abort]);
}

/// The monitor of one run. It keeps the running maximum of the memory samples, and
/// the samples themselves as ghost state.
pub struct Monitor {
    phase: Phase,
    start_ms: u128,
    exit_code: Option<i32>,
    total_ms: u128,
    peak_kb: u64,
    samples: Ghost<Seq<u64>>,
}

impl View for Monitor {
    type V = MonitorView;

    closed spec fn view(&self) -> MonitorView {
        MonitorView {
            phase: self.phase,
            start_ms: self.start_ms,
            exit_code: self.exit_code,
            total_ms: self.total_ms,
            samples: self.samples@,
        }
    }
}

impl Monitor {
    /// The running maximum agrees with the samples.
    pub closed spec fn wf(&self) -> bool {
        self.peak_kb == seq_max(self.samples@)
    }

    pub fn new() -> (r: Monitor)
        ensures
            r.wf(),
            r@.phase == Phase::NotStarted,
            r@.start_ms == 0,
            r@.exit_code == None::<i32>,
            r@.total_ms == 0,
            r@.samples == Seq::<u64>::empty(),
    {
        Monitor {
            phase: Phase::NotStarted,
            start_ms: 0,
            exit_code: None,
            total_ms: 0,
            peak_kb: 0,
            samples: Ghost(Seq::empty()),
        }
    }

    pub fn phase(&self) -> (r: Phase)
        ensures
            r == self@.phase,
    {
        self.phase
    }

    /// The largest memory sample so far, in kB.
    pub fn peak_kb(&self) -> (r: u64)
        requires
            self.wf(),
        ensures
            r == seq_max(self@.samples),
    {
        self.peak_kb
    }

    /// Whether `step` takes this event in the current phase.
    pub fn can_accept(&self, event: &Event) -> (r: bool)
        ensures
            r == accepts(self@, *event),
    {
        match event {
            Event::Launched { .. } => self.phase == Phase::NotStarted,
            Event::LaunchFailed => self.phase == Phase::NotStarted,
            Event::StillRunning { .. } => self.phase == Phase::Running,
            Event::ChildExited { at_ms, .. } => self.phase == Phase::Running && *at_ms >= self.start_ms,
            Event::FinalSample { .. } => self.phase == Phase::Exited,
        }
    }

    /// Takes in one event and returns the next action.
    pub fn step(&mut self, event: Event) -> (action: Action)
        requires
            old(self).wf(),
            accepts(old(self)@, event),
        ensures
            final(self).wf(),
            (final(self)@, action) == step_spec(old(self)@, event),
    {
        match event {
            Event::Launched { at_ms } => {
                self.phase = Phase::Running;
                self.start_ms = at_ms;
                Action::Poll
            },
            Event::LaunchFailed => {
                self.phase = Phase::Aborted;
                Action::Abort
            },
            Event::StillRunning { sample_kb } => {
                self.record(sample_kb);
                Action::SleepThenPoll
            },
            Event::ChildExited { exit_code, at_ms } => {
                self.phase = Phase::Exited;
                self.exit_code = exit_code;
                self.total_ms = at_ms - self.start_ms;
                Action::TakeFinalSample
            },
            Event::FinalSample { sample_kb } => {
                self.record(sample_kb);
                self.phase = Phase::Finalized;
                Action::Emit(
                    PerformanceReport {
                        total_time_ms: self.total_ms,
                        peak_memory_kb: self.peak_kb,
                        status: RunStatus::from_exit_code(self.exit_code),
                    },
                )
            },
        }
    }

    fn record(&mut self, sample_kb: u64)
        requires
            old(self).wf(),
        ensures
            final(self).wf(),
            final(self)@ == (MonitorView { samples: old(self)@.samples.push(sample_kb), ..old(self)@ }),
    {
        proof {
            lemma_seq_max_push(self.samples@, sample_kb);
        }
        if sample_kb > self.peak_kb {
            self.peak_kb = sample_kb;
        }
        self.samples = Ghost(self.samples@.push(sample_kb));
    }
}

} // verus!
