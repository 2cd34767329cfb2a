//! The validator's settings as the command line gives them, and the decisions taken from them:
//! logging levels, test selection, whether tests run in separate processes, and how the fuzzer
//! picks its targets.

use vstd::prelude::*;
use vstd::string::*;
use crate::text::{compare_strings, string_views};
use crate::validate::{FilterError, TestFilter};
use crate::listing::{ScanStatus, decimal, decimal_spec};

verus! {

/// The verbosity level of the validator's own logging.
#[derive(Debug, Clone, Copy, PartialEq, Eq, Structural)]
pub enum Verbosity {
    /// Suppress all logging output from the validator itself.
    Quiet,
    Error,
    Warn,
    Info,
    Debug,
    Trace,
}

/// The levels the logger filters messages by.
#[derive(Debug, Clone, Copy, PartialEq, Eq, Structural)]
pub enum LogLevel {
    Off,
    Error,
    Warn,
    Info,
    Debug,
    Trace,
}

/// The name by which a verbosity is given on the command line.
pub open spec fn verbosity_name(v: Verbosity) -> Seq<char> {
    match v {
        Verbosity::Quiet => "quiet"@,
        Verbosity::Error => "error"@,
        Verbosity::Warn => "warn"@,
        Verbosity::Info => "info"@,
        Verbosity::Debug => "debug"@,
        Verbosity::Trace => "trace"@,
    }
}

impl Verbosity {
    /// The name by which this verbosity is given on the command line.
    pub fn name(&self) -> (r: &'static str)
        ensures
            r@ == verbosity_name(*self),
    {
        match self {
            Verbosity::Quiet => "quiet",
            Verbosity::Error => "error",
            Verbosity::Warn => "warn",
            Verbosity::Info => "info",
            Verbosity::Debug => "debug",
            Verbosity::Trace => "trace",
        }
    }

    /// The verbosity with the given command line name.
    pub fn from_name(name: &String) -> (r: Option<Verbosity>)
        ensures
            r matches Some(v) ==> verbosity_name(v) == name@,
            r is None ==> forall|v: Verbosity| verbosity_name(v) != name@,
    {
        let all = [Verbosity::Quiet, Verbosity::Error, Verbosity::Warn, Verbosity::Info, Verbosity::Debug, Verbosity::Trace];
        let mut i: usize = 0;
        while i < 6
            invariant
                i <= 6,
                all@ == seq![Verbosity::Quiet, Verbosity::Error, Verbosity::Warn, Verbosity::Info, Verbosity::Debug, Verbosity::Trace],
                forall|j: int| 0 <= j < i ==> verbosity_name(#[trigger] all@[j]) != name@,
            decreases 6 - i,
        {
            let v = all[i];
            let candidate = String::from_str(v.name());
            if compare_strings(&candidate, name) == 0 {
                return Some(v);
            }
            i = i + 1;
        }
        proof {
            assert forall|v: Verbosity| verbosity_name(v) != name@ by {
                match v {
                    Verbosity::Quiet => assert(all@[0] == v),
                    Verbosity::Error => assert(all@[1] == v),
                    Verbosity::Warn => assert(all@[2] == v),
                    Verbosity::Info => assert(all@[3] == v),
                    Verbosity::Debug => assert(all@[4] == v),
                    Verbosity::Trace => assert(all@[5] == v),
                }
            }
        }
        None
    }

    /// The level the logger is set to for this verbosity.
    pub fn level(&self) -> (r: LogLevel)
        ensures
            r == match self {
                Verbosity::Quiet => LogLevel::Off,
                Verbosity::Error => LogLevel::Error,
                Verbosity::Warn => LogLevel::Warn,
                Verbosity::Info => LogLevel::Info,
                Verbosity::Debug => LogLevel::Debug,
                Verbosity::Trace => LogLevel::Trace,
            },
    {
        match self {
            Verbosity::Quiet => LogLevel::Off,
            Verbosity::Error => LogLevel::Error,
            Verbosity::Warn => LogLevel::Warn,
            Verbosity::Info => LogLevel::Info,
            Verbosity::Debug => LogLevel::Debug,
            Verbosity::Trace => LogLevel::Trace,
        }
    }
}

/// Law: no two verbosities share a command line name, so a verbosity handed to a child process by
/// its name is read back as the same verbosity.
pub proof fn law_verbosity_names_distinct(a: Verbosity, b: Verbosity)
    ensures
        verbosity_name(a) == verbosity_name(b) ==> a == b,
{
    reveal_strlit("quiet");
    reveal_strlit("error");
    reveal_strlit("warn");
    reveal_strlit("info");
    reveal_strlit("debug");
    reveal_strlit("trace");
    if verbosity_name(a) == verbosity_name(b) && a != b {
        let (x, y) = (verbosity_name(a), verbosity_name(b));
        assert(x.len() != y.len() || x[0] != y[0] || x[1] != y[1]);
    }
}

/// How a test or scan runs in a separate process.
#[derive(Debug, Clone, Copy, PartialEq, Eq, Structural)]
pub struct SandboxConfig {
    pub hide_output: bool,
    pub verbosity: Verbosity,
    /// How long the process may run, in seconds.
    pub timeout_secs: Option<u64>,
}

/// Options for the validator.
#[derive(Debug)]
pub struct ValidatorSettings {
    /// Paths to one or more plugins that should be validated.
    pub paths: Vec<String>,
    /// Only validate plugins with this ID.
    pub plugin_id: Option<String>,
    /// Print the test output as JSON instead of human readable text.
    pub json: bool,
    /// Only run the tests that match this case-insensitive regular expression.
    pub filter: Option<String>,
    /// When running the validation out-of-process, hide the plugin's output.
    pub hide_output: bool,
    /// Only show failed tests.
    pub only_failed: bool,
    /// Run the tests within this process.
    pub in_process: bool,
    /// Don't run tests in parallel.
    pub no_parallel: bool,
    /// When running the validation in-process, emit a JSON trace file.
    pub trace: bool,
}

/// The case-insensitive form of a pattern: the pattern behind the `(?i)` flag.
pub open spec fn case_insensitive(pattern: Seq<char>) -> Seq<char> {
    "(?i)"@ + pattern
}

impl ValidatorSettings {
    /// Tests run in parallel unless that is turned off or they run in this process.
    pub fn runs_in_parallel(&self) -> (r: bool)
        ensures
            r == (!self.no_parallel && !self.in_process),
    {
        !self.no_parallel && !self.in_process
    }

    /// How each test runs: in this process, or in a separate process with the chosen output and
    /// a limit of thirty seconds.
    pub fn sandbox_config(&self, verbosity: Verbosity) -> (r: Option<SandboxConfig>)
        ensures
            self.in_process ==> r is None,
            !self.in_process ==> r == Some(
                SandboxConfig { hide_output: self.hide_output, verbosity, timeout_secs: Some(30) },
            ),
    {
        if self.in_process {
            None
        } else {
            Some(SandboxConfig { hide_output: self.hide_output, verbosity, timeout_secs: Some(30) })
        }
    }

    /// The test filter: the filter pattern, matched without regard to case, when one was given;
    /// no tests are excluded. When the pattern does not compile, the error names the pattern as
    /// it was given.
    pub fn test_filter(&self) -> (r: Result<TestFilter, FilterError>)
        ensures
            r matches Ok(f) ==> f.filter_spec() == match self.filter {
                Some(p) => seq![case_insensitive(p@)],
                None => Seq::<Seq<char>>::empty(),
            } && f.exclude_spec().len() == 0,
            r is Err <==> (self.filter matches Some(p) && !crate::validate::regex_compiles(case_insensitive(p@))),
            r is Err ==> (r matches Err(FilterError::Filter { index, pattern, message }) && index == 0 && pattern
                == self.filter->0),
    {
        let mut patterns: Vec<String> = Vec::new();
        match &self.filter {
            Some(p) => {
                let mut q = String::from_str("(?i)");
                q.append(p.as_str());
                patterns.push(q);
            },
            None => {},
        }
        let exclude: Vec<String> = Vec::new();
        let r = TestFilter::new(&patterns, &exclude);
        proof {
            if self.filter is Some {
                assert(string_views(patterns@) =~= seq![case_insensitive(self.filter->0@)]);
                assert(patterns@[0]@ == case_insensitive(self.filter->0@));
            } else {
                assert(string_views(patterns@) =~= Seq::<Seq<char>>::empty());
            }
            assert(string_views(exclude@) =~= Seq::<Seq<char>>::empty());
        }
        match r {
            Ok(f) => Ok(f),
            Err(FilterError::Filter { index, pattern, message }) => {
                let given = match &self.filter {
                    Some(p) => p.clone(),
                    None => pattern,
                };
                Err(FilterError::Filter { index, pattern: given, message })
            },
            Err(e) => Err(e),
        }
    }
}

/// Options for running a single test in a separate process.
#[derive(Debug)]
pub struct OutOfProcessSettings {
    /// The type of test (plugin library or plugin) to run.
    pub test_type: String,
    /// The name of the test to run.
    pub test_name: String,
    /// The serialized test data as JSON.
    pub test_data: String,
    /// The name of the file to write the test's JSON result to.
    pub output_file: String,
}

/// Commands for listing tests and data related to the installed plugins.
#[derive(Debug)]
pub enum ListCommand {
    /// Lists basic information about all installed CLAP plugins.
    Plugins { json: bool, in_process: bool, paths: Option<Vec<String>> },
    /// Lists the available presets for one, more, or all installed CLAP plugins.
    Presets { json: bool, in_process: bool, paths: Option<Vec<String>> },
    /// Lists all available test cases.
    Tests { json: bool },
}

/// Options for scanning one plugin library in a separate process.
#[derive(Debug)]
pub struct Settings {
    pub plugin_path: String,
    pub output_file: String,
    pub scan_presets: bool,
}

/// What a separate process is started for.
#[derive(Debug)]
pub struct SandboxPayload {
    pub sandbox_id: String,
    pub sandbox_data: String,
    pub output_file: String,
}

/// The operations a separate process can be asked to run.
#[derive(Debug, Clone, Copy, PartialEq, Eq, Structural)]
pub enum SandboxOperationKind {
    /// Run one validation test.
    Validation,
    /// Run one chunk of fuzzing.
    FuzzerChunk,
}

/// The ID a sandboxed operation is known by on the command line.
pub open spec fn operation_id(k: SandboxOperationKind) -> Seq<char> {
    match k {
        SandboxOperationKind::Validation => "validate"@,
        SandboxOperationKind::FuzzerChunk => "fuzz"@,
    }
}

/// The ID a separate process was given does not name an operation.
#[derive(Debug, Clone, Copy, PartialEq, Eq, Structural)]
pub struct UnknownSandboxId;

impl SandboxOperationKind {
    /// The ID this operation is known by on the command line.
    pub fn id(&self) -> (r: &'static str)
        ensures
            r@ == operation_id(*self),
    {
        match self {
            SandboxOperationKind::Validation => "validate",
            SandboxOperationKind::FuzzerChunk => "fuzz",
        }
    }
}

impl SandboxPayload {
    /// The operation the payload asks for.
    pub fn operation(&self) -> (r: Result<SandboxOperationKind, UnknownSandboxId>)
        ensures
            r matches Ok(k) ==> operation_id(k) == self.sandbox_id@,
            r is Err ==> forall|k: SandboxOperationKind| operation_id(k) != self.sandbox_id@,
    {
        let validate = String::from_str("validate");
        if compare_strings(&validate, &self.sandbox_id) == 0 {
            return Ok(SandboxOperationKind::Validation);
        }
        let fuzz = String::from_str("fuzz");
        if compare_strings(&fuzz, &self.sandbox_id) == 0 {
            return Ok(SandboxOperationKind::FuzzerChunk);
        }
        proof {
            assert forall|k: SandboxOperationKind| operation_id(k) != self.sandbox_id@ by {
                match k {
                    SandboxOperationKind::Validation => {},
                    SandboxOperationKind::FuzzerChunk => {},
                }
            }
        }
        Err(UnknownSandboxId)
    }
}

/// The arguments a separate process is started with: the verbosity, the sandbox command, the
/// operation's ID, its data, and the file to write its result to.
pub fn sandbox_arguments(verbosity: Verbosity, operation: SandboxOperationKind, data: String, output_file: String) -> (r: Vec<String>)
    ensures
        string_views(r@) == seq!["--verbosity"@, verbosity_name(verbosity), "sandbox"@, operation_id(operation), data@, output_file@],
{
    let mut args: Vec<String> = Vec::new();
    args.push(String::from_str("--verbosity"));
    args.push(String::from_str(verbosity.name()));
    args.push(String::from_str("sandbox"));
    args.push(String::from_str(operation.id()));
    args.push(data);
    args.push(output_file);
    proof {
        assert(string_views(args@) =~= seq!["--verbosity"@, verbosity_name(verbosity), "sandbox"@, operation_id(operation), data@, output_file@]);
    }
    args
}

/// A test to run in a separate process: a plugin library test on a library, or a plugin test on
/// one plugin of a library. Tests are named as on the command line.
#[derive(Debug)]
pub enum SandboxedValidation {
    PluginLibrary { test: String, path: String },
    Plugin { test: String, path: String, plugin_id: String },
}

impl SandboxedValidation {
    /// The name of the test to run.
    pub fn test_name(&self) -> (r: &String)
        ensures
            r == match self {
                SandboxedValidation::PluginLibrary { test, .. } => test,
                SandboxedValidation::Plugin { test, .. } => test,
            },
    {
        match self {
            SandboxedValidation::PluginLibrary { test, .. } => test,
            SandboxedValidation::Plugin { test, .. } => test,
        }
    }
}

/// One chunk of fuzzing: a plugin of a library, and the seed of the chunk's random choices.
#[derive(Debug)]
pub struct SandboxedFuzzerChunk {
    pub library: String,
    pub plugin_id: String,
    pub seed: u64,
}

/// Options for the fuzzer.
#[derive(Debug)]
pub struct FuzzSettings {
    /// Paths to one or more plugins that should be fuzzed.
    pub paths: Vec<String>,
    /// Only fuzz plugins with this ID.
    pub plugin_id: Option<String>,
    /// Print the test output as JSON instead of human readable text.
    pub json: bool,
    /// When running the validation out-of-process, hide the plugin's output.
    pub hide_output: bool,
    /// Run the fuzzer for this many milliseconds before stopping; without it, it runs until it is
    /// stopped.
    pub duration_millis: Option<u128>,
    /// This many fuzzing chunks run in parallel.
    pub jobs: Option<usize>,
    /// Run a single chunk with this random seed in this process.
    pub reproduce: Option<u64>,
    /// Emit a JSON trace file.
    pub trace: bool,
}

/// What the fuzzer is run from: the verbosity and the settings it was started with.
pub trait FuzzerCli {
    fn verbosity(&self) -> Verbosity;
    fn settings(&self) -> &FuzzSettings;
}

/// How a separate process ended.
#[derive(Debug)]
pub enum ChildExit {
    /// It was still running when its time was up.
    TimedOut,
    /// It exited unsuccessfully; `status` describes its exit status.
    Failed { status: String },
    /// It exited successfully and wrote its result.
    Succeeded,
}

/// The message for a process that ran out of time.
pub open spec fn timed_out_message(timeout_secs: u64) -> Seq<char> {
    "Timed out after "@ + decimal_spec(timeout_secs as nat) + " seconds"@
}

fn timed_out_text(timeout_secs: u64) -> (r: String)
    ensures
        r@ == timed_out_message(timeout_secs),
{
    let mut s = String::from_str("Timed out after ");
    s.append(decimal(timeout_secs as u128).as_str());
    s.append(" seconds");
    s
}

/// Why running an operation in a separate process failed, or `None` when the process finished
/// and its result can be read.
pub fn sandbox_failure(exit: ChildExit, timeout_secs: u64) -> (r: Option<String>)
    ensures
        exit is TimedOut ==> (r matches Some(m) && m@ == timed_out_message(timeout_secs)),
        exit matches ChildExit::Failed { status } ==> r == Some(status),
        exit is Succeeded ==> r is None,
{
    match exit {
        ChildExit::TimedOut => Some(timed_out_text(timeout_secs)),
        ChildExit::Failed { status } => Some(status),
        ChildExit::Succeeded => None,
    }
}

/// The scan status of a library whose scanning process did not finish: a crash with the
/// reason; `None` when the process finished and its result can be read.
pub fn scan_exit_status(exit: ChildExit, timeout_secs: u64) -> (r: Option<ScanStatus>)
    ensures
        exit is TimedOut ==> (r matches Some(ScanStatus::Crashed { details }) && details@ == timed_out_message(timeout_secs)),
        exit matches ChildExit::Failed { status } ==> (r matches Some(ScanStatus::Crashed { details }) && details == status),
        exit is Succeeded ==> r is None,
{
    match sandbox_failure(exit, timeout_secs) {
        Some(details) => Some(ScanStatus::Crashed { details }),
        None => None,
    }
}

} // verus!
