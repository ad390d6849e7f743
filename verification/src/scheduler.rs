//! The polling scheduler, as a state machine.
//!
//! The driver performs each action it is handed — a fetch, a store, a
//! sleep — and reports the outcome back as an event; every decision of
//! the unbounded loop is taken here.  The contracts pin the decisive
//! properties: metadata failures are fatal, an observation failure
//! never aborts the pass over the remaining stations, and every pass
//! ends in a sleep that starts the next tick.

use vstd::prelude::*;

verus! {

/// Where the pipeline stands.
#[derive(Clone, Copy, PartialEq, Eq, Structural, Debug)]
pub enum Phase {
    Bootstrapping,
    MetadataPass,
    SteadyPolling,
}

/// What the driver reports back after performing an action.
#[derive(Clone, Copy, PartialEq, Eq, Structural, Debug)]
pub enum Event {
    Start,
    TablesCreated,
    TablesFailed,
    MetadataReady,
    MetadataFailed,
    StationStored,
    StationStoreFailed,
    ObservationReady,
    ObservationFailed,
    ObservationStored,
    ObservationStoreFailed,
    SleepFinished,
}

/// What the driver is to perform next.
#[derive(Clone, Copy, PartialEq, Eq, Structural, Debug)]
pub enum Action {
    CreateTables,
    FetchMetadata(usize),
    UpsertStation(usize),
    FetchObservation(usize),
    InsertObservation(usize),
    Sleep(u64),
    Fatal,
    Ignore,
}

/// The scheduler's whole state: phase, the station being visited, the
/// station count and the fixed interval between ticks.
#[derive(Clone, Copy, PartialEq, Eq, Structural, Debug)]
pub struct Scheduler {
    pub phase: Phase,
    pub idx: usize,
    pub n_stations: usize,
    pub interval_secs: u64,
}

impl Scheduler {
    /// The index stays inside the station list in every phase.
    pub open spec fn wf(self) -> bool {
        &&& (self.phase == Phase::Bootstrapping ==> self.idx == 0)
        &&& (self.phase == Phase::MetadataPass ==> self.idx < self.n_stations)
        &&& (self.phase == Phase::SteadyPolling ==> self.idx < self.n_stations || (self.n_stations
            == 0 && self.idx == 0))
    }

    /// A scheduler about to bootstrap.
    pub fn new(n_stations: usize, interval_secs: u64) -> (r: Scheduler)
        ensures
            r.wf(),
            r.phase == Phase::Bootstrapping,
            r.idx == 0,
            r.n_stations == n_stations,
            r.interval_secs == interval_secs,
    {
        Scheduler { phase: Phase::Bootstrapping, idx: 0, n_stations, interval_secs }
    }

    /// One decision of the loop.
    pub fn step(&mut self, ev: Event) -> (a: Action)
        requires
            old(self).wf(),
        ensures
            (*final(self), a) == spec_step(*old(self), ev),
            final(self).wf(),
    {
        proof {
            lemma_step_wf(*old(self), ev);
        }
        match self.phase {
            Phase::Bootstrapping => match ev {
                Event::Start => Action::CreateTables,
                Event::TablesCreated => {
                    if self.n_stations == 0 {
                        self.phase = Phase::SteadyPolling;
                        Action::Sleep(self.interval_secs)
                    } else {
                        self.phase = Phase::MetadataPass;
                        Action::FetchMetadata(0)
                    }
                },
                Event::TablesFailed => Action::Fatal,
                _ => Action::Ignore,
            },
            Phase::MetadataPass => match ev {
                Event::MetadataReady => Action::UpsertStation(self.idx),
                Event::MetadataFailed => Action::Fatal,
                Event::StationStored => {
                    if self.idx + 1 < self.n_stations {
                        self.idx = self.idx + 1;
                        Action::FetchMetadata(self.idx)
                    } else {
                        self.phase = Phase::SteadyPolling;
                        self.idx = 0;
                        Action::FetchObservation(0)
                    }
                },
                Event::StationStoreFailed => Action::Fatal,
                _ => Action::Ignore,
            },
            Phase::SteadyPolling => match ev {
                Event::ObservationReady => Action::InsertObservation(self.idx),
                Event::ObservationFailed => self.advance(),
                Event::ObservationStored => self.advance(),
                Event::ObservationStoreFailed => self.advance(),
                Event::SleepFinished => {
                    if self.n_stations == 0 {
                        Action::Sleep(self.interval_secs)
                    } else {
                        self.idx = 0;
                        Action::FetchObservation(0)
                    }
                },
                _ => Action::Ignore,
            },
        }
    }

    /// Moves to the next station of the pass, or to the sleep that
    /// ends it.
    fn advance(&mut self) -> (a: Action)
        requires
            old(self).wf(),
            old(self).phase == Phase::SteadyPolling,
        ensures
            (*final(self), a) == spec_advance(*old(self)),
    {
        if self.idx + 1 < self.n_stations {
            self.idx = self.idx + 1;
            Action::FetchObservation(self.idx)
        } else {
            Action::Sleep(self.interval_secs)
        }
    }
}

/// Moving past the current station: the next fetch, or the sleep that
/// ends the pass.
pub open spec fn spec_advance(s: Scheduler) -> (Scheduler, Action) {
    if s.idx + 1 < s.n_stations {
        (
            Scheduler {
                phase: s.phase,
                idx: (s.idx + 1) as usize,
                n_stations: s.n_stations,
                interval_secs: s.interval_secs,
            },
            Action::FetchObservation((s.idx + 1) as usize),
        )
    } else {
        (s, Action::Sleep(s.interval_secs))
    }
}

/// The whole decision table of the scheduler.
pub open spec fn spec_step(s: Scheduler, ev: Event) -> (Scheduler, Action) {
    match s.phase {
        Phase::Bootstrapping => match ev {
            Event::Start => (s, Action::CreateTables),
            Event::TablesCreated => if s.n_stations == 0 {
                (
                    Scheduler {
                        phase: Phase::SteadyPolling,
                        idx: 0,
                        n_stations: s.n_stations,
                        interval_secs: s.interval_secs,
                    },
                    Action::Sleep(s.interval_secs),
                )
            } else {
                (
                    Scheduler {
                        phase: Phase::MetadataPass,
                        idx: 0,
                        n_stations: s.n_stations,
                        interval_secs: s.interval_secs,
                    },
                    Action::FetchMetadata(0),
                )
            },
            Event::TablesFailed => (s, Action::Fatal),
            _ => (s, Action::Ignore),
        },
        Phase::MetadataPass => match ev {
            Event::MetadataReady => (s, Action::UpsertStation(s.idx)),
            Event::MetadataFailed => (s, Action::Fatal),
            Event::StationStored => if s.idx + 1 < s.n_stations {
                (
                    Scheduler {
                        phase: s.phase,
                        idx: (s.idx + 1) as usize,
                        n_stations: s.n_stations,
                        interval_secs: s.interval_secs,
                    },
                    Action::FetchMetadata((s.idx + 1) as usize),
                )
            } else {
                (
                    Scheduler {
                        phase: Phase::SteadyPolling,
                        idx: 0,
                        n_stations: s.n_stations,
                        interval_secs: s.interval_secs,
                    },
                    Action::FetchObservation(0),
                )
            },
            Event::StationStoreFailed => (s, Action::Fatal),
            _ => (s, Action::Ignore),
        },
        Phase::SteadyPolling => match ev {
            Event::ObservationReady => (s, Action::InsertObservation(s.idx)),
            Event::ObservationFailed => spec_advance(s),
            Event::ObservationStored => spec_advance(s),
            Event::ObservationStoreFailed => spec_advance(s),
            Event::SleepFinished => if s.n_stations == 0 {
                (s, Action::Sleep(s.interval_secs))
            } else {
                (
                    Scheduler {
                        phase: s.phase,
                        idx: 0,
                        n_stations: s.n_stations,
                        interval_secs: s.interval_secs,
                    },
                    Action::FetchObservation(0),
                )
            },
            _ => (s, Action::Ignore),
        },
    }
}

/// Every step keeps the scheduler well-formed.
pub proof fn lemma_step_wf(s: Scheduler, ev: Event)
    requires
        s.wf(),
    ensures
        spec_step(s, ev).0.wf(),
{
}

/// One station of a steady pass: the fetched observation is inserted
/// and the store's answer taken, or the failed fetch is skipped.
pub open spec fn poll_next(s: Scheduler, ok: bool) -> (Scheduler, Action) {
    if ok {
        spec_step(spec_step(s, Event::ObservationReady).0, Event::ObservationStored)
    } else {
        spec_step(s, Event::ObservationFailed)
    }
}

/// Law: in the steady phase, one station's failure is isolated — the
/// poll moves to the next station exactly as a success does, and never
/// stops the pipeline.
pub proof fn lemma_poll_failure_isolated(s: Scheduler, ok: bool)
    requires
        s.wf(),
        s.phase == Phase::SteadyPolling,
        s.idx < s.n_stations,
    ensures
        ({
            let (t, a) = poll_next(s, ok);
            &&& t.wf()
            &&& t.phase == Phase::SteadyPolling
            &&& t == poll_next(s, !ok).0
            &&& !(a == Action::Fatal)
            &&& (s.idx + 1 < s.n_stations ==> a == Action::FetchObservation(
                (s.idx + 1) as usize,
            ))
            &&& (s.idx + 1 == s.n_stations ==> a == Action::Sleep(s.interval_secs))
        }),
{
}

/// A whole steady pass from the current station, one outcome per
/// remaining station.
pub open spec fn run_pass(s: Scheduler, outcomes: Seq<bool>) -> (Scheduler, Seq<Action>)
    decreases outcomes.len(),
{
    if outcomes.len() == 0 {
        (s, Seq::empty())
    } else {
        let (s1, a) = poll_next(s, outcomes[0]);
        let (s2, rest) = run_pass(s1, outcomes.drop_first());
        (s2, seq![a] + rest)
    }
}

/// Law: whatever each station's outcome, a steady pass completes — it
/// visits every remaining station in order, never stops the pipeline,
/// and ends with the sleep that begins the next tick.
pub proof fn lemma_pass_completes(s: Scheduler, outcomes: Seq<bool>)
    requires
        s.wf(),
        s.phase == Phase::SteadyPolling,
        s.n_stations > 0,
        s.idx < s.n_stations,
        outcomes.len() == s.n_stations - s.idx,
    ensures
        ({
            let (t, acts) = run_pass(s, outcomes);
            &&& t.wf()
            &&& t.phase == Phase::SteadyPolling
            &&& t.idx == s.n_stations - 1
            &&& t.n_stations == s.n_stations
            &&& t.interval_secs == s.interval_secs
            &&& acts.len() == outcomes.len()
            &&& (forall|k: int| 0 <= k < acts.len() ==> !(#[trigger] acts[k] == Action::Fatal))
            &&& acts[acts.len() - 1] == Action::Sleep(s.interval_secs)
            &&& (forall|k: int|
                0 <= k < acts.len() - 1 ==> #[trigger] acts[k] == Action::FetchObservation(
                    (s.idx + 1 + k) as usize,
                ))
        }),
    decreases outcomes.len(),
{
    lemma_poll_failure_isolated(s, outcomes[0]);
    let (s1, a) = poll_next(s, outcomes[0]);
    if outcomes.len() == 1 {
        let (t, acts) = run_pass(s, outcomes);
        assert(run_pass(s1, outcomes.drop_first()).1 =~= Seq::<Action>::empty());
        assert(acts =~= seq![a]);
    } else {
        lemma_pass_completes(s1, outcomes.drop_first());
        let (t, acts) = run_pass(s, outcomes);
        let (t2, rest) = run_pass(s1, outcomes.drop_first());
        assert(acts =~= seq![a] + rest);
        assert forall|k: int| 0 <= k < acts.len() - 1 implies #[trigger] acts[k]
            == Action::FetchObservation((s.idx + 1 + k) as usize) by {
            if k > 0 {
                assert(acts[k] == rest[k - 1]);
            }
        }
    }
}

} // verus!
