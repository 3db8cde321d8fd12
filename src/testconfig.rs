use std::path::PathBuf;
use vstd::prelude::*;

verus! {

/// Where the configuration of a test run comes from.
pub enum ConfigType {
    /// A JSON file at this path.
    File(PathBuf),
}

/// The configuration handed to a test: `path` is the run's workspace
/// directory once the harness has provided it.
pub struct TestConfig {
    pub path: PathBuf,
}

} // verus!
