//! The result sink: an ordered queue of records between the scan worker
//! (the producer) and the presentation layer (the consumer).  Records
//! arrive in the order they were pushed and are consumed oldest first.

use vstd::prelude::*;

verus! {

/// The outcome of probing one target.  For route tracing, one outcome is
/// emitted per sanitized output line rather than one per target, with
/// `reachable` false since liveness is not evaluated per hop.
pub struct ProbeOutcome {
    /// The probed address or hostname, as rendered text.
    pub target: String,
    /// Whether the target answered.
    pub reachable: bool,
    /// Extra detail: reverse-lookup info, `<port>/tcp`, an error text, or
    /// one trace line.
    pub detail: String,
}

/// The mathematical value of a `ProbeOutcome`.
pub struct ProbeOutcomeView {
    pub target: Seq<char>,
    pub reachable: bool,
    pub detail: Seq<char>,
}

impl View for ProbeOutcome {
    type V = ProbeOutcomeView;

    open spec fn view(&self) -> ProbeOutcomeView {
        ProbeOutcomeView { target: self.target@, reachable: self.reachable, detail: self.detail@ }
    }
}

/// One record delivered through the sink.
pub enum SinkRecord {
    /// The fixed header record pushed before a run's first outcome.
    Header,
    /// The outcome of one probe, or one route-trace line.
    Outcome(ProbeOutcome),
    /// An explanatory message, such as the report for an empty
    /// specification.
    Notice(String),
}

/// The mathematical value of a `SinkRecord`.
pub enum SinkRecordView {
    Header,
    Outcome(ProbeOutcomeView),
    Notice(Seq<char>),
}

impl View for SinkRecord {
    type V = SinkRecordView;

    open spec fn view(&self) -> SinkRecordView {
        match self {
            SinkRecord::Header => SinkRecordView::Header,
            SinkRecord::Outcome(o) => SinkRecordView::Outcome(o@),
            SinkRecord::Notice(m) => SinkRecordView::Notice(m@),
        }
    }
}

/// An ordered first-in, first-out queue of records.  Its view is the
/// sequence of records pushed but not yet received, oldest first.
pub struct ResultSink {
    records: Vec<SinkRecord>,
}

impl View for ResultSink {
    type V = Seq<SinkRecordView>;

    closed spec fn view(&self) -> Seq<SinkRecordView> {
        self.records@.map_values(|r: SinkRecord| r@)
    }
}

impl ResultSink {
    /// An empty sink.
    pub fn new() -> (s: Self)
        ensures
            s@ == Seq::<SinkRecordView>::empty(),
    {
        let s = ResultSink { records: Vec::new() };
        proof {
            assert(s@ =~= Seq::<SinkRecordView>::empty());
        }
        s
    }

    /// Appends a record (producer side).
    pub(crate) fn push(&mut self, r: SinkRecord)
        ensures
            final(self)@ == old(self)@.push(r@),
    {
        let ghost rv = r@;
        self.records.push(r);
        proof {
            assert(self@ =~= old(self)@.push(rv));
        }
    }

    /// How many records are waiting.
    pub fn len(&self) -> (n: usize)
        ensures
            n == self@.len(),
    {
        self.records.len()
    }

    /// Removes and returns the oldest waiting record (consumer side), or
    /// `None` when the sink is empty.
    pub fn recv(&mut self) -> (r: Option<SinkRecord>)
        ensures
            old(self)@.len() == 0 ==> r is None && final(self)@ == old(self)@,
            old(self)@.len() > 0 ==> match r {
                Some(rec) => rec@ == old(self)@[0] && final(self)@ == old(self)@.drop_first(),
                None => false,
            },
    {
        if self.records.len() == 0 {
            None
        } else {
            let rec = self.records.remove(0);
            proof {
                assert(self@ =~= old(self)@.drop_first());
            }
            Some(rec)
        }
    }
}

} // verus!
