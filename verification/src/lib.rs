//! The verified core of a CLAP plugin validator: test outcomes and their tallies, validation
//! result maps, test selection and the test suite's names, duration parsing for the command
//! line, report layout, the plugin lifecycle, audio port configurations and buffer layouts,
//! event queue ordering, the consistency checks after a process call, the fuzzer's generator
//! and the decisions of a fuzzing chunk, and the checks and verdicts of the individual tests.

pub mod text;
pub mod keys;
pub mod status;
pub mod validator;
pub mod duration;
pub mod clap_abi;
pub mod plugin_state;
pub mod audio_ports;
pub mod events;
pub mod buffers;
pub mod term;
pub mod report;
pub mod validate;
pub mod listing;
pub mod settings;
pub mod fuzz;
pub mod fuzz_rng;
pub mod fuzz_round;
pub mod host;
pub mod consistency;
pub mod suite;
pub mod descriptor;
pub mod processing_checks;
pub mod layout_checks;
pub mod state_checks;
pub mod notes;
