use kevlar::{TestArtifact, TestArtifactType, TestEvent, TestRecord, TestStatus, Severity};
use std::path::PathBuf;

const ALL: [TestStatus; 4] = [
    TestStatus::Passed,
    TestStatus::KnownFailure,
    TestStatus::Failed,
    TestStatus::Skipped,
];

#[test]
fn precedence_values() {
    assert_eq!(TestStatus::Passed.get_precedence(), 0);
    assert_eq!(TestStatus::KnownFailure.get_precedence(), 1);
    assert_eq!(TestStatus::Failed.get_precedence(), 2);
    assert_eq!(TestStatus::Skipped.get_precedence(), 3);
}

#[test]
fn precedence_is_strict_total_order() {
    for a in ALL.iter() {
        for b in ALL.iter() {
            if a != b {
                let (pa, pb) = (a.get_precedence(), b.get_precedence());
                assert!((pa < pb) != (pb < pa));
            }
        }
        if *a != TestStatus::Passed {
            assert!(TestStatus::Passed.get_precedence() < a.get_precedence());
        }
        if *a != TestStatus::Skipped {
            assert!(a.get_precedence() < TestStatus::Skipped.get_precedence());
        }
    }
}

#[test]
fn status_labels() {
    assert_eq!(TestStatus::Passed.to_string(), "PASSED");
    assert_eq!(TestStatus::Failed.to_string(), "FAILED");
    assert_eq!(TestStatus::KnownFailure.to_string(), "KNOWNFAIL");
    assert_eq!(TestStatus::Skipped.to_string(), "SKIPPED");
}

#[test]
fn severity_routing() {
    assert_eq!(TestStatus::Passed.severity(), Severity::Info);
    assert_eq!(TestStatus::Failed.severity(), Severity::Error);
    assert_eq!(TestStatus::KnownFailure.severity(), Severity::Warning);
    assert_eq!(TestStatus::Skipped.severity(), Severity::Warning);
}

#[test]
fn scenario_failed_stays_failed() {
    let mut record = TestRecord::new("suite1");
    assert_eq!(*record.get_status(), TestStatus::Passed);
    record.add_event(TestEvent::new(TestStatus::Failed));
    assert_eq!(*record.get_status(), TestStatus::Failed);
    record.add_event(TestEvent::new(TestStatus::Passed));
    assert_eq!(*record.get_status(), TestStatus::Failed);
}

#[test]
fn scenario_skipped_outranks_known_failure() {
    let mut record = TestRecord::new("suite2");
    record.add_event(TestEvent::new(TestStatus::KnownFailure));
    assert_eq!(*record.get_status(), TestStatus::KnownFailure);
    record.add_event(TestEvent::new(TestStatus::Skipped));
    assert_eq!(*record.get_status(), TestStatus::Skipped);
}

#[test]
fn scenario_render_failed_with_artifacts() {
    let event = TestEvent::new(TestStatus::Failed)
        .with_description("timeout")
        .with_artifact(TestArtifact::new(PathBuf::from("a.log"), "log"))
        .with_artifact(TestArtifact::new(PathBuf::from("b.png"), "screen"));
    assert_eq!(event.to_string(), "FAILED :: timeout :: Captured 2 artifacts");
}

#[test]
fn render_bare_event() {
    assert_eq!(TestEvent::new(TestStatus::Passed).to_string(), "PASSED");
}

#[test]
fn render_single_artifact() {
    let mut event = TestEvent::new(TestStatus::Skipped);
    event.add_artifact(
        TestArtifact::new(PathBuf::from("data.csv"), "data")
            .with_type(TestArtifactType::Data)
            .with_description("raw samples"),
    );
    assert_eq!(event.to_string(), "SKIPPED :: Captured 1 artifact");
}

#[test]
fn render_description_only_and_override() {
    let mut event = TestEvent::new(TestStatus::KnownFailure).with_description("first");
    event.set_description("issue 42");
    assert_eq!(event.to_string(), "KNOWNFAIL :: issue 42");
}

#[test]
fn render_many_artifacts() {
    let mut event = TestEvent::new(TestStatus::Failed);
    for i in 0..12 {
        event.add_artifact(TestArtifact::new(PathBuf::from(format!("f{}", i)), "file"));
    }
    assert_eq!(event.to_string(), "FAILED :: Captured 12 artifacts");
}

#[test]
fn monotone_over_a_sequence() {
    let order = [
        TestStatus::KnownFailure,
        TestStatus::Passed,
        TestStatus::Failed,
        TestStatus::KnownFailure,
        TestStatus::Skipped,
        TestStatus::Passed,
    ];
    let mut record = TestRecord::new("mono");
    let mut previous = record.get_status().get_precedence();
    for s in order.iter() {
        record.add_event(TestEvent::new(*s));
        let now = record.get_status().get_precedence();
        assert!(now >= previous);
        previous = now;
    }
    assert_eq!(*record.get_status(), TestStatus::Skipped);
}

#[test]
fn reapplying_an_equal_event_keeps_status() {
    let mut once = TestRecord::new("once");
    once.add_event(TestEvent::new(TestStatus::KnownFailure).with_description("x"));
    let mut twice = TestRecord::new("twice");
    twice.add_event(TestEvent::new(TestStatus::KnownFailure).with_description("x"));
    twice.add_event(TestEvent::new(TestStatus::KnownFailure).with_description("x"));
    assert_eq!(once.get_status(), twice.get_status());
    assert_eq!(*twice.get_status(), TestStatus::KnownFailure);
}

#[test]
fn history_keeps_order_and_length() {
    let mut record = TestRecord::new("hist");
    record.add_event(TestEvent::new(TestStatus::Passed).with_description("one"));
    record.add_event(TestEvent::new(TestStatus::Failed).with_description("two"));
    record.add_event(TestEvent::new(TestStatus::Passed).with_description("three"));
    let text = format!("{:?}", record);
    let one = text.find("\"one\"").unwrap();
    let two = text.find("\"two\"").unwrap();
    let three = text.find("\"three\"").unwrap();
    assert!(one < two && two < three);
    assert_eq!(text.matches("TestEvent").count(), 3);
}

#[test]
fn set_status_only_escalates() {
    let mut record = TestRecord::new("set");
    record.set_status(TestStatus::Failed);
    assert_eq!(*record.get_status(), TestStatus::Failed);
    record.set_status(TestStatus::KnownFailure);
    assert_eq!(*record.get_status(), TestStatus::Failed);
    record.set_status(TestStatus::Skipped);
    assert_eq!(*record.get_status(), TestStatus::Skipped);
}

#[test]
fn apply_result_ok_and_err() {
    let mut record = TestRecord::new("apply");
    record.apply_result(Ok(()));
    assert_eq!(*record.get_status(), TestStatus::Passed);
    record.apply_result(Err(TestEvent::new(TestStatus::KnownFailure)));
    assert_eq!(*record.get_status(), TestStatus::KnownFailure);
    record.apply_result(Ok(()));
    assert_eq!(*record.get_status(), TestStatus::KnownFailure);
}
