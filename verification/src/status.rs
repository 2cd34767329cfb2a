//! Test outcomes: what a single test case produced, and the lists of available tests.

use vstd::prelude::*;
use vstd::string::*;

verus! {

/// The result of running a test. Skipped and failed tests may optionally include an explanation
/// for why this happened.
#[allow(inconsistent_fields)]
#[derive(Debug)]
pub enum TestStatus {
    /// The test passed successfully.
    Success { details: Option<String> },
    /// The plugin crashed while running the test. This is only caught for out-of-process
    /// validation.
    Crashed { details: String },
    /// The test failed.
    Failed { details: Option<String> },
    /// Preconditions for running the test were not met, so the test has been skipped.
    Skipped { details: Option<String> },
    /// The test did not succeed, but this should not be treated as a hard failure.
    Warning { details: Option<String> },
}

/// The four groups into which test outcomes are tallied. Crashes count as failures.
#[derive(Debug, Clone, Copy, PartialEq, Eq, Structural)]
pub enum StatusKind {
    Passed,
    Failed,
    Skipped,
    Warning,
}

impl TestStatus {
    /// The group a status is counted in.
    pub open spec fn kind(self) -> StatusKind {
        match self {
            TestStatus::Success { .. } => StatusKind::Passed,
            TestStatus::Crashed { .. } => StatusKind::Failed,
            TestStatus::Failed { .. } => StatusKind::Failed,
            TestStatus::Skipped { .. } => StatusKind::Skipped,
            TestStatus::Warning { .. } => StatusKind::Warning,
        }
    }

    /// Whether a status is shown when only failed tests are requested.
    pub open spec fn is_failed_or_warning(self) -> bool {
        self.kind() == StatusKind::Failed || self.kind() == StatusKind::Warning
    }

    /// The explanation attached to a status, as characters.
    pub open spec fn details_view(self) -> Option<Seq<char>> {
        match self {
            TestStatus::Success { details } => match details {
                Some(d) => Some(d@),
                None => None,
            },
            TestStatus::Failed { details } => match details {
                Some(d) => Some(d@),
                None => None,
            },
            TestStatus::Skipped { details } => match details {
                Some(d) => Some(d@),
                None => None,
            },
            TestStatus::Warning { details } => match details {
                Some(d) => Some(d@),
                None => None,
            },
            TestStatus::Crashed { details } => Some(details@),
        }
    }

    /// Returns `true` if tests with this status should be shown when running the validator with
    /// the `--only-failed` option: failures, crashes and warnings.
    pub fn failed_or_warning(&self) -> (r: bool)
        ensures
            r == self.is_failed_or_warning(),
    {
        match self {
            TestStatus::Success { .. } | TestStatus::Skipped { .. } => false,
            TestStatus::Warning { .. } | TestStatus::Crashed { .. } | TestStatus::Failed { .. } => true,
        }
    }

    /// Get the textual explanation for the test status, if there is one. A crash always has one.
    pub fn details(&self) -> (r: Option<&str>)
        ensures
            match r {
                Some(s) => self.details_view() == Some(s@),
                None => self.details_view() is None,
            },
    {
        match self {
            TestStatus::Success { details }
            | TestStatus::Failed { details }
            | TestStatus::Skipped { details }
            | TestStatus::Warning { details } => match details {
                Some(d) => Some(d.as_str()),
                None => None,
            },
            TestStatus::Crashed { details } => Some(details.as_str()),
        }
    }
}

/// A length of time as `std::time::Duration` holds it: whole seconds and the nanoseconds past
/// them.
#[derive(Debug, Clone, Copy, PartialEq, Eq, Structural)]
pub struct Elapsed {
    pub secs: u64,
    pub nanos: u32,
}

impl Elapsed {
    /// The whole milliseconds in the time.
    pub open spec fn millis_spec(&self) -> int {
        self.secs * 1000 + self.nanos / 1_000_000
    }

    /// The whole milliseconds in the time.
    pub fn as_millis(&self) -> (r: u128)
        ensures
            r == self.millis_spec(),
    {
        (self.secs as u128) * 1000 + (self.nanos / 1_000_000) as u128
    }

    /// The time of `ms` milliseconds.
    pub fn from_millis(ms: u64) -> (r: Elapsed)
        ensures
            r.secs == ms / 1000,
            r.nanos == (ms % 1000) * 1_000_000,
            r.millis_spec() == ms,
    {
        let r = Elapsed { secs: ms / 1000, nanos: ((ms % 1000) as u32) * 1_000_000 };
        assert(r.millis_spec() == ms) by (nonlinear_arith)
            requires
                r.secs == ms / 1000,
                r.nanos == (ms % 1000) * 1_000_000,
        ;
        r
    }
}

/// The outcome of one test case, as it is reported.
#[derive(Debug)]
pub struct TestResult {
    /// The name of this test.
    pub name: String,
    /// A description of what this test case has tested.
    pub description: String,
    /// The outcome of the test.
    pub status: TestStatus,
    /// How much time it took.
    pub duration: Elapsed,
}

/// All of the available tests and their descriptions.
#[derive(Debug)]
pub struct TestList {
    pub plugin_library_tests: Vec<TestListItem>,
    pub plugin_tests: Vec<TestListItem>,
}

/// A single item in the test list.
#[derive(Debug)]
pub struct TestListItem {
    pub name: String,
    pub description: String,
}

/// A test case and its arguments in serialized form, so it can be run in another process.
#[derive(Debug)]
pub struct SerializedTest {
    pub test_type: String,
    pub test_name: String,
    pub data: String,
}

/// The two kinds of test case: tests of a whole plugin library, and tests of one plugin in it.
#[derive(Debug, Clone, Copy, PartialEq, Eq, Structural)]
pub enum TestKind {
    Plugin,
    PluginLibrary,
}

/// The name a kind of test is serialized under.
pub open spec fn test_kind_name(k: TestKind) -> Seq<char> {
    match k {
        TestKind::Plugin => "plugin"@,
        TestKind::PluginLibrary => "plugin_library"@,
    }
}

impl TestKind {
    /// The name this kind of test is serialized under.
    pub fn name(&self) -> (r: &'static str)
        ensures
            r@ == test_kind_name(*self),
    {
        match self {
            TestKind::Plugin => "plugin",
            TestKind::PluginLibrary => "plugin_library",
        }
    }
}

/// Law: the two kinds of test are serialized under different names, so a test serialized for
/// another process is read back as the same kind.
pub proof fn law_test_kind_names_distinct(a: TestKind, b: TestKind)
    ensures
        test_kind_name(a) == test_kind_name(b) ==> a == b,
{
    reveal_strlit("plugin");
    reveal_strlit("plugin_library");
    if a != b {
        assert(test_kind_name(a).len() != test_kind_name(b).len());
    }
}

impl SerializedTest {
    /// A serialized test of the given kind.
    pub fn new(kind: TestKind, test_name: String, data: String) -> (r: SerializedTest)
        ensures
            r.test_type@ == test_kind_name(kind),
            r.test_name == test_name,
            r.data == data,
    {
        SerializedTest { test_type: String::from_str(kind.name()), test_name, data }
    }

    /// The kind of test this is, or `None` when its type names no kind.
    pub fn kind(&self) -> (r: Option<TestKind>)
        ensures
            r matches Some(k) ==> test_kind_name(k) == self.test_type@,
            r is None ==> forall|k: TestKind| test_kind_name(k) != self.test_type@,
    {
        let plugin = String::from_str("plugin");
        if crate::text::compare_strings(&plugin, &self.test_type) == 0 {
            return Some(TestKind::Plugin);
        }
        let library = String::from_str("plugin_library");
        if crate::text::compare_strings(&library, &self.test_type) == 0 {
            return Some(TestKind::PluginLibrary);
        }
        proof {
            assert forall|k: TestKind| test_kind_name(k) != self.test_type@ by {
                match k {
                    TestKind::Plugin => {},
                    TestKind::PluginLibrary => {},
                }
            }
        }
        None
    }
}

} // verus!
