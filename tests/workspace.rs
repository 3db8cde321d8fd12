use kevlar::{
    candidate_name, name_from_lowercase, normalize_test_name, CreateOutcome, Provisioner, Step,
    Timestamp, WorkspaceError,
};

fn stamp() -> Timestamp {
    Timestamp { year: 2024, month: 3, day: 7, hour: 9, minute: 5, second: 42 }
}

#[test]
fn normalize_strips_and_lowercases() {
    assert_eq!(normalize_test_name("My Test #1!"), Ok("mytest1".to_string()));
}

#[test]
fn normalize_rejects_empty_result() {
    assert_eq!(normalize_test_name("!!!"), Err(WorkspaceError::InvalidTestName));
    assert_eq!(normalize_test_name(""), Err(WorkspaceError::InvalidTestName));
}

#[test]
fn name_from_lowercase_keeps_letters_and_digits() {
    assert_eq!(name_from_lowercase("a-b_c 9.z"), Ok("abc9z".to_string()));
    assert_eq!(name_from_lowercase("ABC"), Err(WorkspaceError::InvalidTestName));
}

#[test]
fn candidate_first_attempt() {
    assert_eq!(candidate_name("mytest1", &stamp(), 0), "mytest1_20240307_090542");
}

#[test]
fn candidate_later_attempts() {
    assert_eq!(candidate_name("mytest1", &stamp(), 1), "mytest1_20240307_090542_1");
    assert_eq!(candidate_name("mytest1", &stamp(), 10), "mytest1_20240307_090542_10");
}

#[test]
fn candidate_small_year() {
    let t = Timestamp { year: 7, month: 12, day: 31, hour: 23, minute: 59, second: 0 };
    assert_eq!(candidate_name("x", &t, 0), "x_00071231_235900");
}

#[test]
fn candidates_in_same_second_differ() {
    let a = candidate_name("t", &stamp(), 0);
    let b = candidate_name("t", &stamp(), 1);
    let c = candidate_name("t", &stamp(), 2);
    assert!(a != b && b != c && a != c);
}

#[test]
fn provisioner_steps() {
    let mut p = Provisioner::new("Suite One").unwrap();
    assert_eq!(p.name(), "suiteone");
    assert_eq!(p.attempt(), 0);
    assert_eq!(p.candidate_at(&stamp()), "suiteone_20240307_090542");
    assert_eq!(p.on_outcome(CreateOutcome::AlreadyExists), Step::Retry);
    assert_eq!(p.attempt(), 1);
    assert_eq!(p.candidate_at(&stamp()), "suiteone_20240307_090542_1");
    assert_eq!(p.on_outcome(CreateOutcome::Failed), Step::Abort);
    assert_eq!(p.on_outcome(CreateOutcome::Created), Step::Done);
    assert_eq!(p.attempt(), 1);
}

#[test]
fn provisioner_rejects_empty_name() {
    assert_eq!(Provisioner::new("#!?").unwrap_err(), WorkspaceError::InvalidTestName);
}

#[test]
fn next_candidate_reads_the_clock() {
    let p = Provisioner::new("Clock").unwrap();
    let name = p.next_candidate();
    assert!(name.starts_with("clock_"));
    let stamp = &name["clock_".len()..];
    assert_eq!(stamp.len(), 15);
    for (i, c) in stamp.chars().enumerate() {
        if i == 8 {
            assert_eq!(c, '_');
        } else {
            assert!(c.is_ascii_digit());
        }
    }
    let month: u32 = stamp[4..6].parse().unwrap();
    assert!((1..=12).contains(&month));
}
