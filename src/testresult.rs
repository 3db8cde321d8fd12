use crate::decimal::{decimal, push_decimal};
use std::path::PathBuf;
use vstd::prelude::*;

verus! {

/// A file path, carried through unchanged as the location of an artifact.
#[verifier::external_type_specification]
#[verifier::external_body]
pub struct ExPathBuf(PathBuf);

/// The verdict of a test, or of one event during a test.
#[derive(Debug, Clone, Copy, PartialEq, Eq, Structural)]
pub enum TestStatus {
    /// The test passed.
    Passed,
    /// The test failed due to a bug either in the SUT or the test.
    Failed,
    /// The test failed due to an issue that is not going to be fixed soon.
    /// It's basically a pass but we still want to know when the issue is encountered.
    KnownFailure,
    /// The test was skipped either due to manual intervention or unmet requirements.
    Skipped,
}

/// How severe a status is when merging: a higher rank wins.
pub open spec fn rank(s: TestStatus) -> nat {
    match s {
        TestStatus::Passed => 0,
        TestStatus::KnownFailure => 1,
        TestStatus::Failed => 2,
        TestStatus::Skipped => 3,
    }
}

/// The status of higher rank; `current` when the two rank equally.
pub open spec fn merged(current: TestStatus, incoming: TestStatus) -> TestStatus {
    if rank(incoming) > rank(current) {
        incoming
    } else {
        current
    }
}

/// The label that a status is shown with.
pub open spec fn status_label(s: TestStatus) -> Seq<char> {
    match s {
        TestStatus::Passed => "PASSED"@,
        TestStatus::Failed => "FAILED"@,
        TestStatus::KnownFailure => "KNOWNFAIL"@,
        TestStatus::Skipped => "SKIPPED"@,
    }
}

/// The channel that an event of a given status is reported on.
#[derive(Debug, Clone, Copy, PartialEq, Eq, Structural)]
pub enum Severity {
    Info,
    Warning,
    Error,
}

impl TestStatus {
    /// The rank of this status in the merge order.
    pub fn get_precedence(&self) -> (r: u8)
        ensures
            r == rank(*self),
    {
        match self {
            TestStatus::Passed => 0,
            TestStatus::KnownFailure => 1,
            TestStatus::Failed => 2,
            TestStatus::Skipped => 3,
        }
    }

    /// The label of this status: `PASSED`, `FAILED`, `KNOWNFAIL` or `SKIPPED`.
    pub fn to_string(&self) -> (r: String)
        ensures
            r@ == status_label(*self),
    {
        let s = match self {
            TestStatus::Passed => "PASSED",
            TestStatus::Failed => "FAILED",
            TestStatus::KnownFailure => "KNOWNFAIL",
            TestStatus::Skipped => "SKIPPED",
        };
        s.to_owned()
    }

    /// The channel that an event with this status is reported on: passes as
    /// information, failures as errors, known failures and skips as warnings.
    pub fn severity(&self) -> (r: Severity)
        ensures
            r == (match *self {
                TestStatus::Passed => Severity::Info,
                TestStatus::Failed => Severity::Error,
                TestStatus::KnownFailure => Severity::Warning,
                TestStatus::Skipped => Severity::Warning,
            }),
    {
        match self {
            TestStatus::Passed => Severity::Info,
            TestStatus::Failed => Severity::Error,
            TestStatus::KnownFailure => Severity::Warning,
            TestStatus::Skipped => Severity::Warning,
        }
    }
}

/// Precedence orders the statuses strictly and totally: of two distinct
/// statuses exactly one outranks the other, `Passed` is below every other
/// status and `Skipped` above every other.
pub proof fn lemma_precedence_total_order(a: TestStatus, b: TestStatus)
    ensures
        a != b ==> (rank(a) < rank(b) || rank(b) < rank(a)),
        !(rank(a) < rank(b) && rank(b) < rank(a)),
        a == b ==> rank(a) == rank(b),
        a != TestStatus::Passed ==> rank(TestStatus::Passed) < rank(a),
        a != TestStatus::Skipped ==> rank(a) < rank(TestStatus::Skipped),
{
}

/// The kind of file that an artifact refers to.
#[derive(Debug, Clone, Copy, PartialEq, Eq, Structural)]
pub enum TestArtifactType {
    Log,
    Data,
    PDF,
    Image,
    Video,
    Unknown,
}

/// Test Artifacts are files that your test generates or obtains during its
/// life cycle. They travel inside a [TestEvent].
#[derive(Debug)]
pub struct TestArtifact {
    filename: PathBuf,
    artifact_type: TestArtifactType,
    label: String,
    description: String,
}

/// What an artifact holds.
pub struct ArtifactView {
    pub filename: PathBuf,
    pub artifact_type: TestArtifactType,
    pub label: Seq<char>,
    pub description: Seq<char>,
}

impl View for TestArtifact {
    type V = ArtifactView;

    closed spec fn view(&self) -> ArtifactView {
        ArtifactView {
            filename: self.filename,
            artifact_type: self.artifact_type,
            label: self.label@,
            description: self.description@,
        }
    }
}

impl TestArtifact {
    /// Create a new TestArtifact of unknown type and without description.
    /// Also specify a label to identify it. The file need not exist yet.
    pub fn new(filename: PathBuf, label: &str) -> (r: Self)
        ensures
            r@ == (ArtifactView {
                filename,
                artifact_type: TestArtifactType::Unknown,
                label: label@,
                description: Seq::empty(),
            }),
    {
        TestArtifact {
            filename,
            artifact_type: TestArtifactType::Unknown,
            label: label.to_owned(),
            description: String::new(),
        }
    }

    /// Specify the type of artifact.
    pub fn with_type(self, artifact_type: TestArtifactType) -> (r: Self)
        ensures
            r@ == (ArtifactView { artifact_type, ..self@ }),
    {
        let mut a = self;
        a.artifact_type = artifact_type;
        a
    }

    /// Add a description for the artifact.
    pub fn with_description(self, description: &str) -> (r: Self)
        ensures
            r@ == (ArtifactView { description: description@, ..self@ }),
    {
        let mut a = self;
        a.description = description.to_owned();
        a
    }
}

/// A TestEvent is any event that you want to highlight during the test.
/// Typically this will be a test failure but you might also want to capture
/// other events also.
#[derive(Debug)]
pub struct TestEvent {
    status: TestStatus,
    description: String,
    artifacts: Vec<TestArtifact>,
}

/// What an event holds: its status, its description, and its artifacts in
/// the order in which they were added.
pub struct EventView {
    pub status: TestStatus,
    pub description: Seq<char>,
    pub artifacts: Seq<ArtifactView>,
}

impl View for TestEvent {
    type V = EventView;

    closed spec fn view(&self) -> EventView {
        EventView {
            status: self.status,
            description: self.description@,
            artifacts: self.artifacts@.map_values(|a: TestArtifact| a@),
        }
    }
}

/// The human-readable form of an event: the status label, then the
/// description if there is one, then the number of artifacts if there are any.
pub open spec fn event_text(e: EventView) -> Seq<char> {
    let n = e.artifacts.len();
    status_label(e.status) + (if e.description.len() == 0 {
        Seq::empty()
    } else {
        " :: "@ + e.description
    }) + (if n == 0 {
        Seq::empty()
    } else {
        " :: Captured "@ + decimal(n) + (if n == 1 {
            " artifact"@
        } else {
            " artifacts"@
        })
    })
}

impl TestEvent {
    /// Create a new TestEvent, without description or artifacts.
    pub fn new(status: TestStatus) -> (r: Self)
        ensures
            r@ == (EventView { status, description: Seq::empty(), artifacts: Seq::empty() }),
    {
        let r = TestEvent { status, description: String::new(), artifacts: Vec::new() };
        assert(r@.artifacts =~= Seq::empty());
        r
    }

    /// The status of this event.
    pub fn get_status(&self) -> (r: TestStatus)
        ensures
            r == self@.status,
    {
        self.status
    }

    /// Supply a description to the TestEvent. Supports chaining.
    pub fn with_description(self, description: &str) -> (r: Self)
        ensures
            r@ == (EventView { description: description@, ..self@ }),
    {
        let mut e = self;
        e.set_description(description);
        e
    }

    /// Supply an artifact to the TestEvent. Supports chaining. You can add
    /// multiple artifacts by chaining this several times.
    pub fn with_artifact(self, artifact: TestArtifact) -> (r: Self)
        ensures
            r@ == (EventView { artifacts: self@.artifacts.push(artifact@), ..self@ }),
    {
        let mut e = self;
        e.add_artifact(artifact);
        e
    }

    /// Set the description of this event. This will override any existing
    /// description if one was already specified.
    pub fn set_description(&mut self, description: &str)
        ensures
            final(self)@ == (EventView { description: description@, ..old(self)@ }),
    {
        self.description = description.to_owned();
    }

    /// Add an artifact to the end of this event's artifacts.
    pub fn add_artifact(&mut self, artifact: TestArtifact)
        ensures
            final(self)@ == (EventView { artifacts: old(self)@.artifacts.push(artifact@), ..old(self)@ }),
    {
        let ghost a = artifact@;
        self.artifacts.push(artifact);
        assert(self@.artifacts =~= old(self)@.artifacts.push(a));
    }

    /// The human-readable form of this event, such as
    /// `FAILED :: timeout :: Captured 2 artifacts`.
    pub fn to_string(&self) -> (r: String)
        ensures
            r@ == event_text(self@),
    {
        let mut desc = self.status.to_string();
        if !self.description.as_str().is_empty() {
            desc.append(" :: ");
            desc.append(self.description.as_str());
        }
        let n = self.artifacts.len();
        if n != 0 {
            desc.append(" :: Captured ");
            push_decimal(&mut desc, n as u64);
            if n == 1 {
                desc.append(" artifact");
            } else {
                desc.append(" artifacts");
            }
        }
        proof {
            assert(self.description@.len() == 0 ==> self.description@ =~= Seq::empty());
        }
        assert(desc@ =~= event_text(self@));
        desc
    }
}

/// The outcome of a test body: success, or a failure that one event explains.
pub type TestResult = Result<(), TestEvent>;

/// The TestRecord contains details about the test: the test name, the
/// current overall status, and every event applied so far.
#[derive(Debug)]
pub struct TestRecord {
    name: String,
    status: TestStatus,
    events: Vec<TestEvent>,
}

/// What a record holds: its name, its overall status, and its history of
/// events in the order in which they were applied.
pub struct RecordView {
    pub name: Seq<char>,
    pub status: TestStatus,
    pub history: Seq<EventView>,
}

impl RecordView {
    /// A record as created: passed, with no history.
    pub open spec fn fresh(name: Seq<char>) -> RecordView {
        RecordView { name, status: TestStatus::Passed, history: Seq::empty() }
    }

    /// This record with `s` merged into its status.
    pub open spec fn raised(self, s: TestStatus) -> RecordView {
        RecordView { status: merged(self.status, s), ..self }
    }

    /// This record after applying the event `e`: its status merged in, the
    /// event appended to the history.
    pub open spec fn applied(self, e: EventView) -> RecordView {
        RecordView { status: merged(self.status, e.status), history: self.history.push(e), ..self }
    }

    /// This record after applying each event of `es` in turn.
    pub open spec fn applied_all(self, es: Seq<EventView>) -> RecordView
        decreases es.len(),
    {
        if es.len() == 0 {
            self
        } else {
            self.applied_all(es.drop_last()).applied(es.last())
        }
    }
}

/// The highest-ranked of `start` and the statuses of `es`.
pub open spec fn highest_status(start: TestStatus, es: Seq<EventView>) -> TestStatus
    decreases es.len(),
{
    if es.len() == 0 {
        start
    } else {
        merged(highest_status(start, es.drop_last()), es.last().status)
    }
}

impl View for TestRecord {
    type V = RecordView;

    closed spec fn view(&self) -> RecordView {
        RecordView {
            name: self.name@,
            status: self.status,
            history: self.events@.map_values(|e: TestEvent| e@),
        }
    }
}

impl TestRecord {
    /// Create the record of a new test run: passed, with no events.
    pub fn new(test_name: &str) -> (r: Self)
        ensures
            r@ == RecordView::fresh(test_name@),
    {
        let r = TestRecord {
            name: test_name.to_owned(),
            status: TestStatus::Passed,
            events: Vec::new(),
        };
        assert(r@.history =~= Seq::empty());
        r
    }

    /// Update test status. This will only take effect if the new status has a
    /// higher precedence value than the existing status.
    pub fn set_status(&mut self, new_status: TestStatus)
        ensures
            final(self)@ == old(self)@.raised(new_status),
    {
        if new_status.get_precedence() > self.status.get_precedence() {
            self.status = new_status;
        }
    }

    /// Get the test status.
    pub fn get_status(&self) -> (r: &TestStatus)
        ensures
            *r == self@.status,
    {
        &self.status
    }

    /// Add a [TestEvent] to this TestRecord: the event's status is merged
    /// into the record's status, and the event joins the end of the history.
    pub fn add_event(&mut self, event: TestEvent)
        ensures
            final(self)@ == old(self)@.applied(event@),
    {
        let ghost e = event@;
        self.set_status(event.status);
        self.events.push(event);
        assert(self@.history =~= old(self)@.history.push(e));
    }

    /// Apply the outcome of a test body to this TestRecord. A success leaves
    /// the record as it is (`Passed` is the lowest status); a failure adds
    /// its event.
    pub fn apply_result(&mut self, result: TestResult)
        ensures
            final(self)@ == (match result {
                Ok(_) => old(self)@,
                Err(e) => old(self)@.applied(e@),
            }),
    {
        match result {
            Ok(_) => self.set_status(TestStatus::Passed),
            Err(e) => self.add_event(e),
        }
    }
}

/// Applying an event never lowers the status of a record, and for any
/// sequence of applications the status after each one ranks at least as high
/// as the status before it.
pub proof fn lemma_status_monotone(r: RecordView, es: Seq<EventView>)
    ensures
        forall|e: EventView| rank(#[trigger] r.applied(e).status) >= rank(r.status),
        forall|k: int|
            0 <= k < es.len() ==> rank(#[trigger] r.applied_all(es.take(k + 1)).status) >= rank(
                r.applied_all(es.take(k)).status,
            ),
{
    assert forall|k: int| 0 <= k < es.len() implies rank(
        #[trigger] r.applied_all(es.take(k + 1)).status,
    ) >= rank(r.applied_all(es.take(k)).status) by {
        assert(es.take(k + 1).drop_last() =~= es.take(k));
    }
}

/// Applying the same event a second time adds it to the history again but
/// leaves the status where one application put it.
pub proof fn lemma_reapply_same_status(r: RecordView, e: EventView)
    ensures
        r.applied(e).applied(e).status == r.applied(e).status,
        r.applied(e).applied(e).history.len() == r.history.len() + 2,
{
}

/// After events are applied one by one, the history is the earlier history
/// followed by exactly those events, in the order of application.
pub proof fn lemma_history_fidelity(r: RecordView, es: Seq<EventView>)
    ensures
        r.applied_all(es).history == r.history + es,
        r.applied_all(es).history.len() == r.history.len() + es.len(),
        r.applied_all(es).name == r.name,
    decreases es.len(),
{
    if es.len() > 0 {
        lemma_history_fidelity(r, es.drop_last());
        assert(r.history + es =~= (r.history + es.drop_last()).push(es.last()));
    }
}

/// The status of a record built only by applying events is the highest of
/// `Passed` and the statuses of all those events.
pub proof fn lemma_status_is_highest(name: Seq<char>, es: Seq<EventView>)
    ensures
        RecordView::fresh(name).applied_all(es).status == highest_status(TestStatus::Passed, es),
    decreases es.len(),
{
    if es.len() > 0 {
        lemma_status_is_highest(name, es.drop_last());
    }
}

} // verus!
