//! Kevlar is a light-weight test harness library: it keeps the record of a
//! test run (its events and the overall verdict that they add up to) and
//! chooses the unique name of the directory that each run works in.
mod decimal;
mod testcase;
mod testconfig;
mod testresult;
mod workspace;

pub use decimal::{
    decimal, digit_char, digit_value, lemma_decimal_injective, lemma_value_of_decimal,
    lemma_value_of_padded, padded, push_decimal, push_padded, value_of,
};
pub use testcase::TestCase;
pub use testconfig::{ConfigType, TestConfig};
pub use testresult::{
    event_text, highest_status, lemma_history_fidelity, lemma_precedence_total_order,
    lemma_reapply_same_status, lemma_status_is_highest, lemma_status_monotone, merged, rank,
    status_label, ArtifactView, EventView, RecordView, Severity, TestArtifact, TestArtifactType,
    TestEvent, TestRecord, TestResult, TestStatus,
};
pub use workspace::{
    candidate_name, candidate_text, is_name_char, lemma_candidates_distinct, lemma_candidates_unique, lower_of,
    name_chars, name_from_lowercase, normalize_test_name, push_timestamp, timestamp_text,
    year_text, CreateOutcome, Provisioner, ProvisionerView, Step, Timestamp, WorkspaceError,
};
