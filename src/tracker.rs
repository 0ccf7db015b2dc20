//! What one instrumented call records: a call counter, a latency histogram
//! and, on request, a gauge of concurrent calls.
//!
//! [`Tracker::start`] and [`Tracker::finish`] decide the observations; the
//! metrics backend that records them lies outside this crate.
use vstd::prelude::*;

verus! {

/// A label: key and value.
pub type Label = (&'static str, &'static str);

/// Key of the label that names the function.
pub const FUNCTION_KEY: &'static str = "function";

/// Key of the label that names the module.
pub const MODULE_KEY: &'static str = "module";

/// The three metrics.
#[derive(Clone, Copy, Debug, PartialEq, Eq, Structural)]
pub enum Instrument {
    /// Counts completed calls, labelled by outcome.
    CallCounter,
    /// Records each call's duration in seconds, labelled by function and module.
    LatencyHistogram,
    /// Counts calls in progress, labelled by function and module.
    ConcurrencyGauge,
}

impl Instrument {
    /// The metric's name.
    pub fn name(&self) -> (r: &'static str)
        ensures
            r@ == match self {
                Instrument::CallCounter => "function.calls.count"@,
                Instrument::LatencyHistogram => "function.calls.duration"@,
                Instrument::ConcurrencyGauge => "function.calls.concurrent"@,
            },
    {
        match self {
            Instrument::CallCounter => "function.calls.count",
            Instrument::LatencyHistogram => "function.calls.duration",
            Instrument::ConcurrencyGauge => "function.calls.concurrent",
        }
    }

    /// The metric's description.
    pub fn description(&self) -> (r: &'static str)
        ensures
            r@ == match self {
                Instrument::CallCounter => "Autometrics counter for tracking function calls"@,
                Instrument::LatencyHistogram =>
                    "Autometrics histogram for tracking function call duration"@,
                Instrument::ConcurrencyGauge =>
                    "Autometrics gauge for tracking concurrent function calls"@,
            },
    {
        match self {
            Instrument::CallCounter => "Autometrics counter for tracking function calls",
            Instrument::LatencyHistogram => "Autometrics histogram for tracking function call duration",
            Instrument::ConcurrencyGauge => "Autometrics gauge for tracking concurrent function calls",
        }
    }
}

/// One observation to hand to the metrics backend.
#[derive(Debug, PartialEq, Eq)]
pub enum Observation {
    /// Add one to the call counter.
    Call { labels: Vec<Label> },
    /// Record the call's elapsed seconds in the latency histogram.
    Duration { labels: Vec<Label> },
    /// Add `delta` to the gauge of concurrent calls.
    Concurrency { delta: i64, labels: Vec<Label> },
}

/// What an `Observation` holds.
pub enum Event {
    Call(Seq<Label>),
    Duration(Seq<Label>),
    Concurrency(int, Seq<Label>),
}

impl View for Observation {
    type V = Event;

    open spec fn view(&self) -> Event {
        match self {
            Observation::Call { labels } => Event::Call(labels@),
            Observation::Duration { labels } => Event::Duration(labels@),
            Observation::Concurrency { delta, labels } => Event::Concurrency(*delta as int, labels@),
        }
    }
}

/// The events that a list of observations stands for.
pub open spec fn events(obs: Seq<Observation>) -> Seq<Event> {
    obs.map_values(|o: Observation| o@)
}

/// The labels that identify the call site.
pub open spec fn site_labels(function: &'static str, module: &'static str) -> Seq<Label> {
    seq![(FUNCTION_KEY, function), (MODULE_KEY, module)]
}

/// One call in progress. `finish` consumes it, so each call is finished once.
#[derive(Debug)]
pub struct Tracker {
    function: &'static str,
    module: &'static str,
    track_concurrency: bool,
}

/// The events of starting a call.
pub open spec fn start_events(
    function: &'static str,
    module: &'static str,
    track_concurrency: bool,
) -> Seq<Event> {
    if track_concurrency {
        seq![Event::Concurrency(1, site_labels(function, module))]
    } else {
        Seq::empty()
    }
}

/// The events of finishing a call with the given outcome labels.
pub open spec fn finish_events(t: Tracker, outcome_labels: Seq<Label>) -> Seq<Event> {
    let done = seq![
        Event::Call(outcome_labels),
        Event::Duration(site_labels(t.spec_function(), t.spec_module())),
    ];
    if t.spec_track_concurrency() {
        done.push(Event::Concurrency(-1, site_labels(t.spec_function(), t.spec_module())))
    } else {
        done
    }
}

impl Tracker {
    pub closed spec fn spec_function(self) -> &'static str {
        self.function
    }

    pub closed spec fn spec_module(self) -> &'static str {
        self.module
    }

    pub closed spec fn spec_track_concurrency(self) -> bool {
        self.track_concurrency
    }

    /// Starts tracking a call of `function` in `module`. Returns the tracker
    /// and what to record now: one increment of the gauge of concurrent
    /// calls where `track_concurrency` is set, nothing otherwise.
    pub fn start(function: &'static str, module: &'static str, track_concurrency: bool) -> (r: (
        Tracker,
        Vec<Observation>,
    ))
        ensures
            r.0.spec_function() == function,
            r.0.spec_module() == module,
            r.0.spec_track_concurrency() == track_concurrency,
            events(r.1@) == start_events(function, module, track_concurrency),
    {
        let t = Tracker { function, module, track_concurrency };
        let mut obs: Vec<Observation> = Vec::new();
        if track_concurrency {
            obs.push(Observation::Concurrency { delta: 1, labels: t.labels() });
        }
        proof {
            assert(events(obs@) =~= start_events(function, module, track_concurrency));
        }
        (t, obs)
    }

    /// Finishes the call. Returns what to record: one call counted under
    /// `outcome_labels`, its duration under the function and module labels
    /// alone, and, where the gauge was incremented at the start, its
    /// decrement under the same labels.
    pub fn finish(self, outcome_labels: &Vec<Label>) -> (r: Vec<Observation>)
        ensures
            events(r@) == finish_events(self, outcome_labels@),
    {
        let mut counted: Vec<Label> = Vec::new();
        let mut i: usize = 0;
        while i < outcome_labels.len()
            invariant
                i <= outcome_labels@.len(),
                counted@ == outcome_labels@.subrange(0, i as int),
            decreases outcome_labels@.len() - i,
        {
            counted.push(outcome_labels[i]);
            proof {
                assert(counted@ =~= outcome_labels@.subrange(0, i as int + 1));
            }
            i = i + 1;
        }
        proof {
            assert(counted@ =~= outcome_labels@);
        }
        let mut obs: Vec<Observation> = Vec::new();
        obs.push(Observation::Call { labels: counted });
        obs.push(Observation::Duration { labels: self.labels() });
        if self.track_concurrency {
            obs.push(Observation::Concurrency { delta: -1, labels: self.labels() });
        }
        proof {
            assert(events(obs@) =~= finish_events(self, outcome_labels@));
        }
        obs
    }

    /// The labels that identify the call site: function and module.
    pub fn labels(&self) -> (r: Vec<Label>)
        ensures
            r@ == site_labels(self.spec_function(), self.spec_module()),
    {
        let r = vec![(FUNCTION_KEY, self.function), (MODULE_KEY, self.module)];
        proof {
            assert(r@ =~= site_labels(self.function, self.module));
        }
        r
    }

    /// The tracked function's name.
    pub fn function(&self) -> (r: &'static str)
        ensures
            r == self.spec_function(),
    {
        self.function
    }

    /// The tracked function's module.
    pub fn module(&self) -> (r: &'static str)
        ensures
            r == self.spec_module(),
    {
        self.module
    }

    /// Whether the call is counted among concurrent calls.
    pub fn track_concurrency(&self) -> (r: bool)
        ensures
            r == self.spec_track_concurrency(),
    {
        self.track_concurrency
    }
}

/// The metric an event goes to.
pub open spec fn instrument_of(e: Event) -> Instrument {
    match e {
        Event::Call(_) => Instrument::CallCounter,
        Event::Duration(_) => Instrument::LatencyHistogram,
        Event::Concurrency(_, _) => Instrument::ConcurrencyGauge,
    }
}

/// How many of the events go to `metric`.
pub open spec fn count_of(evs: Seq<Event>, metric: Instrument) -> nat
    decreases evs.len(),
{
    if evs.len() == 0 {
        0
    } else {
        count_of(evs.drop_last(), metric) + if instrument_of(evs.last()) == metric {
            1nat
        } else {
            0nat
        }
    }
}

/// The net change that the events make to the gauge of concurrent calls.
pub open spec fn gauge_change(evs: Seq<Event>) -> int
    decreases evs.len(),
{
    if evs.len() == 0 {
        0
    } else {
        gauge_change(evs.drop_last()) + match evs.last() {
            Event::Concurrency(d, _) => d,
            _ => 0,
        }
    }
}

/// All the events of one call, from its start to its finish.
pub open spec fn call_events(t: Tracker, outcome_labels: Seq<Label>) -> Seq<Event> {
    start_events(t.spec_function(), t.spec_module(), t.spec_track_concurrency()) + finish_events(
        t,
        outcome_labels,
    )
}

/// A call tracked without concurrency touches the gauge neither at its start
/// nor at its finish, and records one call and one duration.
pub proof fn lemma_untracked_call_skips_gauge(t: Tracker, outcome_labels: Seq<Label>)
    requires
        !t.spec_track_concurrency(),
    ensures
        start_events(t.spec_function(), t.spec_module(), false).len() == 0,
        count_of(call_events(t, outcome_labels), Instrument::ConcurrencyGauge) == 0,
        count_of(call_events(t, outcome_labels), Instrument::CallCounter) == 1,
        count_of(call_events(t, outcome_labels), Instrument::LatencyHistogram) == 1,
{
    let evs = call_events(t, outcome_labels);
    reveal_with_fuel(count_of, 3);
    assert(evs.drop_last().drop_last() =~= Seq::<Event>::empty());
    assert(evs.drop_last() =~= seq![Event::Call(outcome_labels)]);
}

/// A call tracked with concurrency raises the gauge by one at its start and
/// lowers it by one at its finish, a net change of zero, and records one
/// call and one duration.
pub proof fn lemma_tracked_call_balances_gauge(t: Tracker, outcome_labels: Seq<Label>)
    requires
        t.spec_track_concurrency(),
    ensures
        gauge_change(start_events(t.spec_function(), t.spec_module(), true)) == 1,
        gauge_change(call_events(t, outcome_labels)) == 0,
        count_of(call_events(t, outcome_labels), Instrument::ConcurrencyGauge) == 2,
        count_of(call_events(t, outcome_labels), Instrument::CallCounter) == 1,
        count_of(call_events(t, outcome_labels), Instrument::LatencyHistogram) == 1,
{
    let site = site_labels(t.spec_function(), t.spec_module());
    let evs = call_events(t, outcome_labels);
    let s = start_events(t.spec_function(), t.spec_module(), true);
    reveal_with_fuel(count_of, 5);
    reveal_with_fuel(gauge_change, 5);
    assert(s.drop_last() =~= Seq::<Event>::empty());
    assert(evs.drop_last().drop_last().drop_last().drop_last() =~= Seq::<Event>::empty());
    assert(evs.drop_last().drop_last().drop_last() =~= seq![Event::Concurrency(1, site)]);
    assert(evs.drop_last().drop_last() =~= seq![
        Event::Concurrency(1, site),
        Event::Call(outcome_labels),
    ]);
    assert(evs.drop_last() =~= seq![
        Event::Concurrency(1, site),
        Event::Call(outcome_labels),
        Event::Duration(site),
    ]);
}

/// Durations are labelled by function and module alone, never by outcome;
/// calls are always labelled by the outcome labels; the gauge by function
/// and module.
pub proof fn lemma_labels_by_metric(t: Tracker, outcome_labels: Seq<Label>)
    ensures
        forall|k: int|
            0 <= k < call_events(t, outcome_labels).len() ==> match #[trigger] call_events(
                t,
                outcome_labels,
            )[k] {
                Event::Call(labels) => labels == outcome_labels,
                Event::Duration(labels) => labels == site_labels(
                    t.spec_function(),
                    t.spec_module(),
                ),
                Event::Concurrency(_, labels) => labels == site_labels(
                    t.spec_function(),
                    t.spec_module(),
                ),
            },
{
}

} // verus!
