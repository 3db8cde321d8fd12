use crate::testconfig::TestConfig;
use crate::testresult::{TestRecord, TestResult};
use vstd::prelude::*;

verus! {

/// Implement the TestCase trait in order to run your test synchronously.
/// The run() method will be called by the Test Harness, once per run, with
/// the run's configuration and its record.
pub trait TestCase {
    /// Run the test case: succeed, or fail with one event that explains why.
    fn run(&mut self, test_config: TestConfig, test_record: &mut TestRecord) -> TestResult;
}

} // verus!
