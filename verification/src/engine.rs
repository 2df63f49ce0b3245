//! The scan controller: a cancellable run over an enumerated target
//! sequence.  The controller owns the run's state machine
//! (`Idle -> Running -> Completed | Cancelled`), dispatches targets one at
//! a time, converts per-target failures into unreachable outcomes instead
//! of aborting, and pushes every record through the result sink.  The
//! actual probing is outside I/O: the caller asks for the next dispatch,
//! performs the probe, and records what came back.

use vstd::prelude::*;
use crate::config::{ProbeConfig, ProbeKind};
use crate::sink::{ProbeOutcome, ProbeOutcomeView, ResultSink, SinkRecord, SinkRecordView};
use crate::target::{
    clone_target, enumerate, enumerate_spec, render_target, render_target_spec, target_is_invalid,
    Target, TargetSpec, TargetView,
};
use crate::text::{dec_of, trimmed, u32_to_dec};
use crate::utils::sanitize_line;

verus! {

/// The lifecycle of a run.
#[derive(Clone, Copy, Debug, PartialEq, Eq, Structural)]
pub enum RunState {
    /// No run has started yet.
    Idle,
    /// A run is in progress.
    Running,
    /// The last run exhausted its enumeration.
    Completed,
    /// The last run was stopped by request.
    Cancelled,
}

/// What `start` reports.
#[derive(Clone, Copy, Debug, PartialEq, Eq, Structural)]
pub enum StartOutcome {
    /// The run began; the header record was pushed.
    Started,
    /// A run was already in progress; nothing changed.
    AlreadyRunning,
    /// The specification enumerated to nothing; a single explanatory
    /// notice was pushed and no run began.
    EmptyInput,
}

/// What the controller asks of the probing layer next.
pub enum Dispatch {
    /// Probe this target, then record its outcome.
    Probe(Target),
    /// An invalid target was reported straight to the sink; ask again.
    Reported,
    /// The run is over: enumeration exhausted or cancellation observed.
    Finished,
}

/// The marker detail carried by the outcome of an invalid target.
pub open spec fn invalid_marker() -> Seq<char> {
    "invalid target"@
}

/// The notice pushed when a specification enumerates to nothing.
pub open spec fn empty_input_notice() -> Seq<char> {
    "no targets to scan"@
}

/// The outcome record reported for an invalid target.
pub open spec fn invalid_outcome(t: TargetView) -> ProbeOutcomeView {
    ProbeOutcomeView { target: render_target_spec(t), reachable: false, detail: invalid_marker() }
}

/// The outcome record for a probed target: port targets carry
/// `<port>/tcp` as their detail, all others the detail the probing layer
/// supplied.
pub open spec fn probe_outcome_view(t: TargetView, reachable: bool, detail: Seq<char>)
    -> ProbeOutcomeView {
    ProbeOutcomeView {
        target: render_target_spec(t),
        reachable: reachable,
        detail: match t {
            TargetView::Port(a, p) => dec_of(p as int) + "/tcp"@,
            _ => detail,
        },
    }
}

/// Orchestrates one cancellable run: enumerates a specification, hands
/// out targets in order, and streams outcomes through the sink.
pub struct ScanController {
    state: RunState,
    kind: ProbeKind,
    config: ProbeConfig,
    targets: Vec<Target>,
    next: usize,
    in_flight: bool,
    cancel: bool,
}

impl ScanController {
    /// The run's lifecycle state.
    pub closed spec fn run_state(self) -> RunState {
        self.state
    }

    /// The probe strategy of the current run.
    pub closed spec fn probe_kind(self) -> ProbeKind {
        self.kind
    }

    /// The options of the current run.
    pub closed spec fn config_view(self) -> ProbeConfig {
        self.config
    }

    /// The enumerated targets of the current run.
    pub closed spec fn targets_view(self) -> Seq<TargetView> {
        self.targets@.map_values(|t: Target| t@)
    }

    /// How many targets have been dealt with so far.
    pub closed spec fn next_index(self) -> int {
        self.next as int
    }

    /// Whether a dispatched probe has not reported back yet.
    pub closed spec fn probe_in_flight(self) -> bool {
        self.in_flight
    }

    /// Whether a stop has been requested.
    pub closed spec fn cancel_requested(self) -> bool {
        self.cancel
    }

    /// The controller's invariant: the cursor stays within the target
    /// sequence, and a probe can only be in flight during a run, on an
    /// existing target that is not an invalid marker.
    pub open spec fn wf(self) -> bool {
        &&& 0 <= self.next_index() <= self.targets_view().len()
        &&& (self.probe_in_flight() ==> self.run_state() is Running
            && self.next_index() < self.targets_view().len()
            && !(self.targets_view()[self.next_index()] is Invalid))
    }
}

/// Whether the controller's next dispatch hands out a probe: only during
/// a run, never after a stop request, and only while targets remain.
pub open spec fn dispatch_yields_probe(c: ScanController) -> bool {
    &&& c.run_state() is Running
    &&& !c.cancel_requested()
    &&& (c.probe_in_flight() || (c.next_index() < c.targets_view().len()
        && !(c.targets_view()[c.next_index()] is Invalid)))
}

/// The records the controller's next dispatch itself appends to the sink:
/// one invalid-target outcome when the cursor stands on an invalid
/// marker during a live run, nothing otherwise.
pub open spec fn dispatch_records(c: ScanController) -> Seq<SinkRecordView> {
    if c.run_state() is Running && !c.cancel_requested() && !c.probe_in_flight()
        && c.next_index() < c.targets_view().len()
        && c.targets_view()[c.next_index()] is Invalid {
        seq![SinkRecordView::Outcome(invalid_outcome(c.targets_view()[c.next_index()]))]
    } else {
        Seq::empty()
    }
}

/// Whether the controller accepts a route-trace line right now: a route
/// tracing probe is in flight and no stop has been requested.
pub open spec fn trace_line_accepted(c: ScanController) -> bool {
    &&& c.run_state() is Running
    &&& !c.cancel_requested()
    &&& c.probe_in_flight()
    &&& c.probe_kind() is RouteTrace
}

/// Once a stop has been requested, the controller dispatches no further
/// probe, appends nothing more to the sink on dispatch, and accepts no
/// further route-trace line.
pub proof fn lemma_stop_halts_dispatch(c: ScanController)
    requires
        c.cancel_requested(),
    ensures
        !dispatch_yields_probe(c),
        dispatch_records(c) == Seq::<SinkRecordView>::empty(),
        !trace_line_accepted(c),
{
}

impl ScanController {
    /// A fresh controller: idle, nothing pending, defaults in place.
    pub fn new() -> (c: Self)
        ensures
            c.wf(),
            c.run_state() is Idle,
            !c.cancel_requested(),
            !c.probe_in_flight(),
            c.targets_view().len() == 0,
            c.next_index() == 0,
            c.probe_kind() is Icmp,
            c.config_view() == crate::config::default_config(),
    {
        let c = ScanController {
            state: RunState::Idle,
            kind: ProbeKind::Icmp,
            config: ProbeConfig::default(),
            targets: Vec::new(),
            next: 0,
            in_flight: false,
            cancel: false,
        };
        proof {
            assert(c.targets_view() =~= Seq::<TargetView>::empty());
        }
        c
    }

    /// The run's lifecycle state, as an executable value.
    pub fn current_state(&self) -> (s: RunState)
        ensures
            s == self.run_state(),
    {
        self.state
    }

    /// The probe strategy of the current run, as an executable value.
    pub fn current_kind(&self) -> (k: ProbeKind)
        ensures
            k == self.probe_kind(),
    {
        self.kind
    }

    /// The options of the current run, read fresh by the probing layer
    /// before each probe.
    pub fn current_config(&self) -> (c: ProbeConfig)
        ensures
            c == self.config_view(),
    {
        self.config
    }

    /// Replaces the run's options, supporting live reconfiguration
    /// mid-scan; nothing else changes.
    pub fn set_config(&mut self, config: ProbeConfig)
        requires
            old(self).wf(),
        ensures
            final(self).wf(),
            final(self).config_view() == config,
            final(self).run_state() == old(self).run_state(),
            final(self).probe_kind() == old(self).probe_kind(),
            final(self).targets_view() == old(self).targets_view(),
            final(self).next_index() == old(self).next_index(),
            final(self).probe_in_flight() == old(self).probe_in_flight(),
            final(self).cancel_requested() == old(self).cancel_requested(),
    {
        self.config = config;
    }

    /// Starts a run.  A start while a run is in progress is a reported
    /// no-op.  A specification that enumerates to nothing (for instance a
    /// list that is blank after trimming) pushes exactly one explanatory
    /// notice and starts nothing.  Otherwise the run begins: the header
    /// record is pushed before any outcome, the targets are the
    /// specification's enumeration, and the cancellation flag is cleared.
    pub fn start(
        &mut self,
        what: &TargetSpec,
        kind: ProbeKind,
        config: ProbeConfig,
        sink: &mut ResultSink,
    ) -> (r: StartOutcome)
        requires
            old(self).wf(),
            what.wf(),
        ensures
            final(self).wf(),
            old(self).run_state() is Running ==> r is AlreadyRunning && *final(self) == *old(self)
                && final(sink)@ == old(sink)@,
            !(old(self).run_state() is Running) && enumerate_spec(what@).len() == 0 ==> r
                is EmptyInput && *final(self) == *old(self) && final(sink)@ == old(sink)@.push(
                SinkRecordView::Notice(empty_input_notice()),
            ),
            !(old(self).run_state() is Running) && enumerate_spec(what@).len() > 0 ==> r is Started
                && final(self).run_state() is Running
                && final(self).probe_kind() == kind
                && final(self).config_view() == config
                && final(self).targets_view() == enumerate_spec(what@)
                && final(self).next_index() == 0
                && !final(self).probe_in_flight()
                && !final(self).cancel_requested()
                && final(sink)@ == old(sink)@.push(SinkRecordView::Header),
    {
        match self.state {
            RunState::Running => {
                return StartOutcome::AlreadyRunning;
            },
            _ => {},
        }
        let targets = enumerate(what);
        if targets.len() == 0 {
            sink.push(SinkRecord::Notice(String::from_str("no targets to scan")));
            return StartOutcome::EmptyInput;
        }
        self.state = RunState::Running;
        self.kind = kind;
        self.config = config;
        self.targets = targets;
        self.next = 0;
        self.in_flight = false;
        self.cancel = false;
        sink.push(SinkRecord::Header);
        StartOutcome::Started
    }

    /// Requests cancellation.  Nothing else changes: the in-flight probe,
    /// if any, may still report its outcome, but no further target will
    /// be dispatched.
    pub fn stop(&mut self)
        requires
            old(self).wf(),
        ensures
            final(self).wf(),
            final(self).cancel_requested(),
            final(self).run_state() == old(self).run_state(),
            final(self).probe_kind() == old(self).probe_kind(),
            final(self).config_view() == old(self).config_view(),
            final(self).targets_view() == old(self).targets_view(),
            final(self).next_index() == old(self).next_index(),
            final(self).probe_in_flight() == old(self).probe_in_flight(),
    {
        self.cancel = true;
    }

    /// Asks for the next step of the run.  Outside a run this is
    /// `Finished` and nothing changes.  During a run: an observed stop
    /// request ends the run as `Cancelled`; an exhausted enumeration ends
    /// it as `Completed`; an invalid target is reported straight to the
    /// sink (never probed, never dropped) and the cursor advances; any
    /// other target is handed out for probing.  A probe already in flight
    /// is handed out again unchanged.
    pub fn next_dispatch(&mut self, sink: &mut ResultSink) -> (d: Dispatch)
        requires
            old(self).wf(),
        ensures
            final(self).wf(),
            (d is Probe) == dispatch_yields_probe(*old(self)),
            final(sink)@ == old(sink)@ + dispatch_records(*old(self)),
            match d {
                Dispatch::Probe(t) => t@ == old(self).targets_view()[old(self).next_index()],
                _ => true,
            },
            final(self).probe_kind() == old(self).probe_kind(),
            final(self).config_view() == old(self).config_view(),
            final(self).targets_view() == old(self).targets_view(),
            final(self).cancel_requested() == old(self).cancel_requested(),
            !(old(self).run_state() is Running) ==> *final(self) == *old(self) && d is Finished,
            old(self).run_state() is Running && old(self).cancel_requested() ==> d is Finished
                && final(self).run_state() is Cancelled
                && !final(self).probe_in_flight()
                && final(self).next_index() == old(self).next_index(),
            old(self).run_state() is Running && !old(self).cancel_requested()
                && old(self).probe_in_flight() ==> *final(self) == *old(self) && d is Probe,
            old(self).run_state() is Running && !old(self).cancel_requested()
                && !old(self).probe_in_flight()
                && old(self).next_index() == old(self).targets_view().len() ==> d is Finished
                && final(self).run_state() is Completed
                && !final(self).probe_in_flight()
                && final(self).next_index() == old(self).next_index(),
            old(self).run_state() is Running && !old(self).cancel_requested()
                && !old(self).probe_in_flight()
                && old(self).next_index() < old(self).targets_view().len()
                && old(self).targets_view()[old(self).next_index()] is Invalid ==> d is Reported
                && final(self).run_state() is Running
                && !final(self).probe_in_flight()
                && final(self).next_index() == old(self).next_index() + 1,
            old(self).run_state() is Running && !old(self).cancel_requested()
                && !old(self).probe_in_flight()
                && old(self).next_index() < old(self).targets_view().len()
                && !(old(self).targets_view()[old(self).next_index()] is Invalid) ==> d is Probe
                && final(self).run_state() is Running
                && final(self).probe_in_flight()
                && final(self).next_index() == old(self).next_index(),
    {
        match self.state {
            RunState::Running => {},
            _ => {
                proof {
                    assert(sink@ =~= old(sink)@ + dispatch_records(*old(self)));
                }
                return Dispatch::Finished;
            },
        }
        if self.cancel {
            self.state = RunState::Cancelled;
            self.in_flight = false;
            proof {
                assert(sink@ =~= old(sink)@ + dispatch_records(*old(self)));
            }
            return Dispatch::Finished;
        }
        if self.in_flight {
            proof {
                assert(sink@ =~= old(sink)@ + dispatch_records(*old(self)));
            }
            return Dispatch::Probe(clone_target(&self.targets[self.next]));
        }
        if self.next >= self.targets.len() {
            self.state = RunState::Completed;
            proof {
                assert(sink@ =~= old(sink)@ + dispatch_records(*old(self)));
            }
            return Dispatch::Finished;
        }
        if target_is_invalid(&self.targets[self.next]) {
            let text = render_target(&self.targets[self.next]);
            let rec = ProbeOutcome {
                target: text,
                reachable: false,
                detail: String::from_str("invalid target"),
            };
            sink.push(SinkRecord::Outcome(rec));
            self.next = self.next + 1;
            proof {
                assert(sink@ =~= old(sink)@ + dispatch_records(*old(self)));
            }
            return Dispatch::Reported;
        }
        self.in_flight = true;
        proof {
            assert(sink@ =~= old(sink)@ + dispatch_records(*old(self)));
        }
        Dispatch::Probe(clone_target(&self.targets[self.next]))
    }

    /// Records the outcome of the in-flight probe: pushes one outcome
    /// record for the dispatched target and advances.  For a port target
    /// the detail is `<port>/tcp`; otherwise it is the detail the probing
    /// layer supplied (reverse-lookup info, or the text of a per-target
    /// failure, which is recorded rather than aborting the run).  Without
    /// a probe in flight this is a no-op.
    pub fn record_outcome(&mut self, reachable: bool, detail: &str, sink: &mut ResultSink)
        requires
            old(self).wf(),
        ensures
            final(self).wf(),
            !old(self).probe_in_flight() ==> *final(self) == *old(self) && final(sink)@ == old(sink)@,
            old(self).probe_in_flight() ==> final(sink)@ == old(sink)@.push(
                SinkRecordView::Outcome(
                    probe_outcome_view(
                        old(self).targets_view()[old(self).next_index()],
                        reachable,
                        detail@,
                    ),
                ),
            ) && final(self).next_index() == old(self).next_index() + 1
                && !final(self).probe_in_flight()
                && final(self).run_state() == old(self).run_state()
                && final(self).targets_view() == old(self).targets_view()
                && final(self).probe_kind() == old(self).probe_kind()
                && final(self).config_view() == old(self).config_view()
                && final(self).cancel_requested() == old(self).cancel_requested(),
    {
        if !self.in_flight {
            return;
        }
        let target_text = render_target(&self.targets[self.next]);
        let detail_text = match &self.targets[self.next] {
            Target::Port(_, p) => {
                let mut d = u32_to_dec(*p as u32);
                d.append("/tcp");
                d
            },
            _ => String::from_str(detail),
        };
        sink.push(
            SinkRecord::Outcome(
                ProbeOutcome { target: target_text, reachable, detail: detail_text },
            ),
        );
        self.in_flight = false;
        proof {
            vstd::std_specs::vec::axiom_spec_len(&self.targets);
            assert(old(self).targets_view().len() == old(self).targets@.len());
        }
        self.next = self.next + 1;
    }

    /// Feeds one line of route-trace output.  While the trace is live the
    /// line is trimmed and pushed as an outcome — an all-whitespace line
    /// is suppressed entirely — and the result is `true`.  Once a stop
    /// has been requested (or no trace is in flight) nothing is pushed
    /// and the result is `false`: the caller must kill the external
    /// process.  The controller itself never changes.
    pub fn record_trace_line(&mut self, line: &str, sink: &mut ResultSink) -> (keep_going: bool)
        requires
            old(self).wf(),
        ensures
            *final(self) == *old(self),
            keep_going == trace_line_accepted(*old(self)),
            trace_line_accepted(*old(self)) && trimmed(line@).len() > 0 ==> final(sink)@ == old(sink)@.push(
                SinkRecordView::Outcome(
                    ProbeOutcomeView {
                        target: render_target_spec(
                            old(self).targets_view()[old(self).next_index()],
                        ),
                        reachable: false,
                        detail: trimmed(line@),
                    },
                ),
            ),
            !(trace_line_accepted(*old(self)) && trimmed(line@).len() > 0) ==> final(sink)@ == old(sink)@,
    {
        match self.kind {
            ProbeKind::RouteTrace => {},
            _ => {
                return false;
            },
        }
        match self.state {
            RunState::Running => {},
            _ => {
                return false;
            },
        }
        if self.cancel {
            return false;
        }
        if !self.in_flight {
            return false;
        }
        match sanitize_line(line) {
            Some(t) => {
                let target_text = render_target(&self.targets[self.next]);
                sink.push(
                    SinkRecord::Outcome(
                        ProbeOutcome { target: target_text, reachable: false, detail: t },
                    ),
                );
            },
            None => {},
        }
        true
    }

    /// Marks the in-flight route trace as finished (its process exited or
    /// was killed): the cursor advances without a record of its own.
    /// Without a route trace in flight this is a no-op.
    pub fn record_trace_end(&mut self)
        requires
            old(self).wf(),
        ensures
            final(self).wf(),
            !(old(self).probe_in_flight() && old(self).probe_kind() is RouteTrace) ==> *final(self)
                == *old(self),
            old(self).probe_in_flight() && old(self).probe_kind() is RouteTrace ==> !final(self).probe_in_flight()
                && final(self).next_index() == old(self).next_index() + 1
                && final(self).run_state() == old(self).run_state()
                && final(self).targets_view() == old(self).targets_view()
                && final(self).probe_kind() == old(self).probe_kind()
                && final(self).config_view() == old(self).config_view()
                && final(self).cancel_requested() == old(self).cancel_requested(),
    {
        match self.kind {
            ProbeKind::RouteTrace => {},
            _ => {
                return;
            },
        }
        if !self.in_flight {
            return;
        }
        self.in_flight = false;
        proof {
            vstd::std_specs::vec::axiom_spec_len(&self.targets);
            assert(old(self).targets_view().len() == old(self).targets@.len());
        }
        self.next = self.next + 1;
    }

    /// Records that the route-trace process could not be started: one
    /// descriptive outcome carrying `error` is pushed and the run's
    /// enumeration is exhausted, since no further lines can be produced.
    /// Without a route trace in flight this is a no-op.
    pub fn record_trace_failure(&mut self, error: &str, sink: &mut ResultSink)
        requires
            old(self).wf(),
        ensures
            final(self).wf(),
            !(old(self).probe_in_flight() && old(self).probe_kind() is RouteTrace) ==> *final(self)
                == *old(self) && final(sink)@ == old(sink)@,
            old(self).probe_in_flight() && old(self).probe_kind() is RouteTrace ==> final(sink)@
                == old(sink)@.push(
                SinkRecordView::Outcome(
                    ProbeOutcomeView {
                        target: render_target_spec(
                            old(self).targets_view()[old(self).next_index()],
                        ),
                        reachable: false,
                        detail: error@,
                    },
                ),
            ) && !final(self).probe_in_flight()
                && final(self).next_index() == final(self).targets_view().len()
                && final(self).run_state() == old(self).run_state()
                && final(self).targets_view() == old(self).targets_view()
                && final(self).probe_kind() == old(self).probe_kind()
                && final(self).config_view() == old(self).config_view()
                && final(self).cancel_requested() == old(self).cancel_requested(),
    {
        match self.kind {
            ProbeKind::RouteTrace => {},
            _ => {
                return;
            },
        }
        if !self.in_flight {
            return;
        }
        let target_text = render_target(&self.targets[self.next]);
        sink.push(
            SinkRecord::Outcome(
                ProbeOutcome {
                    target: target_text,
                    reachable: false,
                    detail: String::from_str(error),
                },
            ),
        );
        self.in_flight = false;
        self.next = self.targets.len();
    }
}

} // verus!
