//! The test suite for individual plugins: each test case's name, by which it is selected on the
//! command line and handed to another process, and its description.

use vstd::prelude::*;
use vstd::string::*;
use crate::listing::{decimal, decimal_spec};
use crate::status::TestListItem;
use crate::validate::{any_matches, TestFilter};

verus! {

/// The number of sets of random parameter values the parameter fuzzing test tries.
pub const FUZZ_NUM_PERMUTATIONS: u32 = 50;

/// The number of buffers the parameter fuzzing test processes for each set of values.
pub const FUZZ_RUNS_PER_PERMUTATION: u32 = 5;

/// The tests for individual CLAP plugins.
#[derive(Debug, Clone, Copy, PartialEq, Eq, Structural)]
pub enum PluginTestCase {
    DescriptorConsistency,
    FeaturesCategories,
    FeaturesDuplicates,
    LayoutAudioPortsActivation,
    LayoutAudioPortsConfig,
    LayoutConfigurableAudioPorts,
    ProcessAudioBasicOutOfPlace,
    ProcessAudioBasicInPlace,
    ProcessAudioDoubleOutOfPlace,
    ProcessAudioDoubleInPlace,
    ProcessSleepConstantMask,
    ProcessSleepProcessStatus,
    ProcessAudioResetDeterminism,
    ProcessNoteOutOfPlaceBasic,
    ProcessNoteInconsistent,
    ProcessVaryingSampleRates,
    ProcessVaryingBlockSizes,
    ProcessRandomBlockSizes,
    ParamConversions,
    ParamFuzzBasic,
    ParamFuzzBounds,
    ParamFuzzSampleAccurate,
    ParamFuzzModulation,
    ParamSetWrongNamespace,
    ParamDefaultValues,
    StateInvalidEmpty,
    StateInvalidRandom,
    StateReproducibilityBasic,
    StateReproducibilityNullCookies,
    StateReproducibilityFlush,
    StateBufferedStreams,
    TransportNull,
    TransportFuzz,
    TransportFuzzSampleAccurate,
}

/// The name of a test case.
pub open spec fn case_name(c: PluginTestCase) -> Seq<char> {
    match c {
        PluginTestCase::DescriptorConsistency => "descriptor-consistency"@,
        PluginTestCase::FeaturesCategories => "features-categories"@,
        PluginTestCase::FeaturesDuplicates => "features-duplicates"@,
        PluginTestCase::LayoutAudioPortsActivation => "layout-audio-ports-activation"@,
        PluginTestCase::LayoutAudioPortsConfig => "layout-audio-ports-config"@,
        PluginTestCase::LayoutConfigurableAudioPorts => "layout-configurable-audio-ports"@,
        PluginTestCase::ProcessAudioBasicOutOfPlace => "process-audio-basic-out-of-place"@,
        PluginTestCase::ProcessAudioBasicInPlace => "process-audio-basic-in-place"@,
        PluginTestCase::ProcessAudioDoubleOutOfPlace => "process-audio-double-out-of-place"@,
        PluginTestCase::ProcessAudioDoubleInPlace => "process-audio-double-in-place"@,
        PluginTestCase::ProcessSleepConstantMask => "process-sleep-constant-mask"@,
        PluginTestCase::ProcessSleepProcessStatus => "process-sleep-process-status"@,
        PluginTestCase::ProcessAudioResetDeterminism => "process-audio-reset-determinism"@,
        PluginTestCase::ProcessNoteOutOfPlaceBasic => "process-note-out-of-place-basic"@,
        PluginTestCase::ProcessNoteInconsistent => "process-note-inconsistent"@,
        PluginTestCase::ProcessVaryingSampleRates => "process-varying-sample-rates"@,
        PluginTestCase::ProcessVaryingBlockSizes => "process-varying-block-sizes"@,
        PluginTestCase::ProcessRandomBlockSizes => "process-random-block-sizes"@,
        PluginTestCase::ParamConversions => "param-conversions"@,
        PluginTestCase::ParamFuzzBasic => "param-fuzz-basic"@,
        PluginTestCase::ParamFuzzBounds => "param-fuzz-bounds"@,
        PluginTestCase::ParamFuzzSampleAccurate => "param-fuzz-sample-accurate"@,
        PluginTestCase::ParamFuzzModulation => "param-fuzz-modulation"@,
        PluginTestCase::ParamSetWrongNamespace => "param-set-wrong-namespace"@,
        PluginTestCase::ParamDefaultValues => "param-default-values"@,
        PluginTestCase::StateInvalidEmpty => "state-invalid-empty"@,
        PluginTestCase::StateInvalidRandom => "state-invalid-random"@,
        PluginTestCase::StateReproducibilityBasic => "state-reproducibility-basic"@,
        PluginTestCase::StateReproducibilityNullCookies => "state-reproducibility-null-cookies"@,
        PluginTestCase::StateReproducibilityFlush => "state-reproducibility-flush"@,
        PluginTestCase::StateBufferedStreams => "state-buffered-streams"@,
        PluginTestCase::TransportNull => "transport-null"@,
        PluginTestCase::TransportFuzz => "transport-fuzz"@,
        PluginTestCase::TransportFuzzSampleAccurate => "transport-fuzz-sample-accurate"@,
    }
}

/// Every test case, in the order in which they are listed and run.
pub open spec fn all_cases() -> Seq<PluginTestCase> {
    seq![
        PluginTestCase::DescriptorConsistency,
        PluginTestCase::FeaturesCategories,
        PluginTestCase::FeaturesDuplicates,
        PluginTestCase::LayoutAudioPortsActivation,
        PluginTestCase::LayoutAudioPortsConfig,
        PluginTestCase::LayoutConfigurableAudioPorts,
        PluginTestCase::ProcessAudioBasicOutOfPlace,
        PluginTestCase::ProcessAudioBasicInPlace,
        PluginTestCase::ProcessAudioDoubleOutOfPlace,
        PluginTestCase::ProcessAudioDoubleInPlace,
        PluginTestCase::ProcessSleepConstantMask,
        PluginTestCase::ProcessSleepProcessStatus,
        PluginTestCase::ProcessAudioResetDeterminism,
        PluginTestCase::ProcessNoteOutOfPlaceBasic,
        PluginTestCase::ProcessNoteInconsistent,
        PluginTestCase::ProcessVaryingSampleRates,
        PluginTestCase::ProcessVaryingBlockSizes,
        PluginTestCase::ProcessRandomBlockSizes,
        PluginTestCase::ParamConversions,
        PluginTestCase::ParamFuzzBasic,
        PluginTestCase::ParamFuzzBounds,
        PluginTestCase::ParamFuzzSampleAccurate,
        PluginTestCase::ParamFuzzModulation,
        PluginTestCase::ParamSetWrongNamespace,
        PluginTestCase::ParamDefaultValues,
        PluginTestCase::StateInvalidEmpty,
        PluginTestCase::StateInvalidRandom,
        PluginTestCase::StateReproducibilityBasic,
        PluginTestCase::StateReproducibilityNullCookies,
        PluginTestCase::StateReproducibilityFlush,
        PluginTestCase::StateBufferedStreams,
        PluginTestCase::TransportNull,
        PluginTestCase::TransportFuzz,
        PluginTestCase::TransportFuzzSampleAccurate,
    ]
}

/// The description of a test case: what it does and when the plugin passes it.
pub open spec fn case_description(c: PluginTestCase) -> Seq<char> {
    match c {
        PluginTestCase::DescriptorConsistency => "The plugin descriptor returned from the plugin factory and the plugin descriptor stored on the 'clap_plugin object should be equivalent."@,
        PluginTestCase::FeaturesCategories => "The plugin needs to have at least one of the main CLAP category features."@,
        PluginTestCase::FeaturesDuplicates => "The plugin's features array should not contain any duplicates."@,
        PluginTestCase::LayoutAudioPortsActivation => "Same as '"@ + case_name(PluginTestCase::ProcessAudioBasicOutOfPlace) + "', but this time it toggles the activation state of audio ports on and off via the 'audio-ports-activation' extension."@,
        PluginTestCase::LayoutAudioPortsConfig => "Same as '"@ + case_name(PluginTestCase::ProcessAudioBasicInPlace) + "', but this time it tries all available port configurations exposed via the 'audio-ports-config' extension."@,
        PluginTestCase::LayoutConfigurableAudioPorts => "Same as '"@ + case_name(PluginTestCase::ProcessAudioBasicOutOfPlace) + "', but this time it tries random configurations exposed via the 'configurable-audio-ports' extension."@,
        PluginTestCase::ProcessAudioBasicOutOfPlace => "Processes random audio through the plugin with its default parameter values and tests whether the output does not contain any non-finite or subnormal values. Uses out-of-place audio processing."@,
        PluginTestCase::ProcessAudioBasicInPlace => "Processes random audio through the plugin with its default parameter values and tests whether the output does not contain any non-finite or subnormal values. Uses in-place audio processing for buses that support it."@,
        PluginTestCase::ProcessAudioDoubleOutOfPlace => "Same as '"@ + case_name(PluginTestCase::ProcessAudioBasicOutOfPlace) + "', but uses 64-bit floating point audio buffers instead of 32-bit ones for ports that support it."@,
        PluginTestCase::ProcessAudioDoubleInPlace => "Same as '"@ + case_name(PluginTestCase::ProcessAudioBasicInPlace) + "', but uses 64-bit floating point audio buffers instead of 32-bit ones for ports that support it."@,
        PluginTestCase::ProcessSleepConstantMask => "Processes random audio through the plugin with its default parameter values while setting the constant mask on silent blocks, and tests whether the output does not contain any non-finite or subnormal values and that the plugin sets the constant mask correctly"@,
        PluginTestCase::ProcessSleepProcessStatus => "Processes random audio through the plugin with its default parameter values while checking if the output is consistent with the returned process status, and tests whether the output does not contain any non-finite or subnormal values and that the plugin sets the process status correctly"@,
        PluginTestCase::ProcessAudioResetDeterminism => "Asserts that resetting the plugin via 'clap_plugin::reset()' and via re-activation results in deterministic output when processing the same audio and events again."@,
        PluginTestCase::ProcessNoteOutOfPlaceBasic => "Sends audio and random note and MIDI events to the plugin with its default parameter values and tests the output for consistency. Uses out-of-place audio processing."@,
        PluginTestCase::ProcessNoteInconsistent => "Sends intentionally inconsistent and mismatching note and MIDI events to the plugin with its default parameter values and tests the output for consistency. Uses out-of-place audio processing."@,
        PluginTestCase::ProcessVaryingSampleRates => "Processes random audio and random note events through the plugin with its default parameter values while trying different sample rates ranging from 1kHz to 768kHz, including fractional rates, and tests whether the output does not contain any non-finite or subnormal values. Uses out-of-place audio processing."@,
        PluginTestCase::ProcessVaryingBlockSizes => "Processes random audio and random note events through the plugin with its default parameter values while trying different maximum block sizes ranging from 1 to 16k, including non-power-of-two ones, and tests whether the output does not contain any non-finite or subnormal values. Uses out-of-place audio processing."@,
        PluginTestCase::ProcessRandomBlockSizes => "Processes random audio and random note events through the plugin with maximum block size of 2048 while randomizing block sizes for each process call, and tests whether the output does not contain any non-finite or subnormal values. Uses out-of-place audio processing."@,
        PluginTestCase::ParamConversions => "Asserts that value to string and string to value conversions are supported for ether all or none of the plugin's parameters, and that conversions between values and strings roundtrip consistently."@,
        PluginTestCase::ParamFuzzBasic => "Generates "@ + decimal_spec(FUZZ_NUM_PERMUTATIONS as nat) + " sets of random parameter values, sets those on the plugin, and has the plugin process "@ + decimal_spec(FUZZ_RUNS_PER_PERMUTATION as nat) + " buffers of random audio and note events. The plugin passes the test if it doesn't produce any infinite or NaN values, and doesn't crash."@,
        PluginTestCase::ParamFuzzBounds => "The exact same test as '"@ + case_name(PluginTestCase::ParamFuzzBasic) + "', but this time the parameter values are snapped to the minimum and maximum values."@,
        PluginTestCase::ParamFuzzSampleAccurate => "Sets parameter values in a sample-accurate fashion while processing audio, generating them at fixed intervals (10, 100, 1000 samples). The plugin passes the test if it doesn't produce any infinite or NaN values, and doesn't crash."@,
        PluginTestCase::ParamFuzzModulation => "Sends parameter change events, including monophonic modulation and polyphonic automation/modulation events at random irregular unsynchronized intervals, and have the plugin process them. The plugin passes the test if it doesn't produce any infinite or NaN values, and doesn't crash."@,
        PluginTestCase::ParamSetWrongNamespace => "Sends events to the plugin with the 'CLAP_EVENT_PARAM_VALUE' event type but with a mismatching namespace ID. Asserts that the plugin's parameter values don't change."@,
        PluginTestCase::ParamDefaultValues => "Asserts that the values for all parameters are set correctly to their default values when the plugin is initialized."@,
        PluginTestCase::StateInvalidEmpty => "The plugin should return false when 'clap_plugin_state::load()' is called with an empty state."@,
        PluginTestCase::StateInvalidRandom => "Loads 3x1MB chunks of random bytes via 'clap_plugin_state::load()' and asserts that the plugin doesn't crash."@,
        PluginTestCase::StateReproducibilityBasic => "Randomizes a plugin's parameters, saves its state, recreates the plugin instance, reloads the state, and then checks whether the parameter values are the same and whether saving the state once more results in the same state file as before. The parameter values are updated using the process function."@,
        PluginTestCase::StateReproducibilityNullCookies => "The exact same test as '"@ + case_name(PluginTestCase::StateReproducibilityBasic) + "', but with all cookies in the parameter events set to null pointers. The plugin should handle this in the same way as the other test case."@,
        PluginTestCase::StateReproducibilityFlush => "Randomizes a plugin's parameters, saves its state, recreates the plugin instance, sets the same parameters as before, saves the state again, and then asserts that the two states are identical. The parameter values are set updated using the process function to create the first state, and using the flush function to create the second state."@,
        PluginTestCase::StateBufferedStreams => "Performs the same state and parameter reproducibility check as in '"@ + case_name(PluginTestCase::StateReproducibilityBasic) + "', but this time the plugin is only allowed to read a small prime number of bytes at a time when reloading and resaving the state."@,
        PluginTestCase::TransportNull => "Performs audio processing with a 'null' transport pointer, simulating a free-running transport state. The plugin passes the test if it doesn't produce any infinite or NaN values, and doesn't crash."@,
        PluginTestCase::TransportFuzz => "Performs audio processing while randomly changing the transport state on every block. The plugin passes the test if it doesn't produce any infinite or NaN values, and doesn't crash."@,
        PluginTestCase::TransportFuzzSampleAccurate => "Same as '"@ + case_name(PluginTestCase::TransportFuzz) + "', but this time the test sends 'clap_event_transport' events in sample-accurate fashion while processing audio, generating them at fixed intervals (1, 100, 1000 samples). The plugin passes the test if it doesn't produce any infinite or NaN values, and doesn't crash."@,
    }
}

/// The test case with the given name, if there is one.
pub open spec fn case_of_name(name: Seq<char>) -> Option<PluginTestCase> {
    if exists|c: PluginTestCase| case_name(c) == name {
        Some(choose|c: PluginTestCase| case_name(c) == name)
    } else {
        None
    }
}

impl PluginTestCase {
    /// The name by which the test case is selected and handed to another process.
    pub fn name(&self) -> (r: &'static str)
        ensures
            r@ == case_name(*self),
    {
        match self {
            PluginTestCase::DescriptorConsistency => "descriptor-consistency",
            PluginTestCase::FeaturesCategories => "features-categories",
            PluginTestCase::FeaturesDuplicates => "features-duplicates",
            PluginTestCase::LayoutAudioPortsActivation => "layout-audio-ports-activation",
            PluginTestCase::LayoutAudioPortsConfig => "layout-audio-ports-config",
            PluginTestCase::LayoutConfigurableAudioPorts => "layout-configurable-audio-ports",
            PluginTestCase::ProcessAudioBasicOutOfPlace => "process-audio-basic-out-of-place",
            PluginTestCase::ProcessAudioBasicInPlace => "process-audio-basic-in-place",
            PluginTestCase::ProcessAudioDoubleOutOfPlace => "process-audio-double-out-of-place",
            PluginTestCase::ProcessAudioDoubleInPlace => "process-audio-double-in-place",
            PluginTestCase::ProcessSleepConstantMask => "process-sleep-constant-mask",
            PluginTestCase::ProcessSleepProcessStatus => "process-sleep-process-status",
            PluginTestCase::ProcessAudioResetDeterminism => "process-audio-reset-determinism",
            PluginTestCase::ProcessNoteOutOfPlaceBasic => "process-note-out-of-place-basic",
            PluginTestCase::ProcessNoteInconsistent => "process-note-inconsistent",
            PluginTestCase::ProcessVaryingSampleRates => "process-varying-sample-rates",
            PluginTestCase::ProcessVaryingBlockSizes => "process-varying-block-sizes",
            PluginTestCase::ProcessRandomBlockSizes => "process-random-block-sizes",
            PluginTestCase::ParamConversions => "param-conversions",
            PluginTestCase::ParamFuzzBasic => "param-fuzz-basic",
            PluginTestCase::ParamFuzzBounds => "param-fuzz-bounds",
            PluginTestCase::ParamFuzzSampleAccurate => "param-fuzz-sample-accurate",
            PluginTestCase::ParamFuzzModulation => "param-fuzz-modulation",
            PluginTestCase::ParamSetWrongNamespace => "param-set-wrong-namespace",
            PluginTestCase::ParamDefaultValues => "param-default-values",
            PluginTestCase::StateInvalidEmpty => "state-invalid-empty",
            PluginTestCase::StateInvalidRandom => "state-invalid-random",
            PluginTestCase::StateReproducibilityBasic => "state-reproducibility-basic",
            PluginTestCase::StateReproducibilityNullCookies => "state-reproducibility-null-cookies",
            PluginTestCase::StateReproducibilityFlush => "state-reproducibility-flush",
            PluginTestCase::StateBufferedStreams => "state-buffered-streams",
            PluginTestCase::TransportNull => "transport-null",
            PluginTestCase::TransportFuzz => "transport-fuzz",
            PluginTestCase::TransportFuzzSampleAccurate => "transport-fuzz-sample-accurate",
        }
    }

    /// Every test case, in order.
    pub fn all() -> (r: Vec<PluginTestCase>)
        ensures
            r@ == all_cases(),
    {
        let r = vec![
            PluginTestCase::DescriptorConsistency,
            PluginTestCase::FeaturesCategories,
            PluginTestCase::FeaturesDuplicates,
            PluginTestCase::LayoutAudioPortsActivation,
            PluginTestCase::LayoutAudioPortsConfig,
            PluginTestCase::LayoutConfigurableAudioPorts,
            PluginTestCase::ProcessAudioBasicOutOfPlace,
            PluginTestCase::ProcessAudioBasicInPlace,
            PluginTestCase::ProcessAudioDoubleOutOfPlace,
            PluginTestCase::ProcessAudioDoubleInPlace,
            PluginTestCase::ProcessSleepConstantMask,
            PluginTestCase::ProcessSleepProcessStatus,
            PluginTestCase::ProcessAudioResetDeterminism,
            PluginTestCase::ProcessNoteOutOfPlaceBasic,
            PluginTestCase::ProcessNoteInconsistent,
            PluginTestCase::ProcessVaryingSampleRates,
            PluginTestCase::ProcessVaryingBlockSizes,
            PluginTestCase::ProcessRandomBlockSizes,
            PluginTestCase::ParamConversions,
            PluginTestCase::ParamFuzzBasic,
            PluginTestCase::ParamFuzzBounds,
            PluginTestCase::ParamFuzzSampleAccurate,
            PluginTestCase::ParamFuzzModulation,
            PluginTestCase::ParamSetWrongNamespace,
            PluginTestCase::ParamDefaultValues,
            PluginTestCase::StateInvalidEmpty,
            PluginTestCase::StateInvalidRandom,
            PluginTestCase::StateReproducibilityBasic,
            PluginTestCase::StateReproducibilityNullCookies,
            PluginTestCase::StateReproducibilityFlush,
            PluginTestCase::StateBufferedStreams,
            PluginTestCase::TransportNull,
            PluginTestCase::TransportFuzz,
            PluginTestCase::TransportFuzzSampleAccurate,
        ];
        assert(r@ =~= all_cases());
        r
    }

    /// The description of the test case.
    pub fn description(&self) -> (r: String)
        ensures
            r@ == case_description(*self),
    {
        match self {
            PluginTestCase::DescriptorConsistency => String::from_str("The plugin descriptor returned from the plugin factory and the plugin descriptor stored on the 'clap_plugin object should be equivalent."),
            PluginTestCase::FeaturesCategories => String::from_str("The plugin needs to have at least one of the main CLAP category features."),
            PluginTestCase::FeaturesDuplicates => String::from_str("The plugin's features array should not contain any duplicates."),
            PluginTestCase::LayoutAudioPortsActivation => {
                let mut s = String::from_str("Same as '");
                s.append(PluginTestCase::ProcessAudioBasicOutOfPlace.name());
                s.append("', but this time it toggles the activation state of audio ports on and off via the 'audio-ports-activation' extension.");
                s
            },
            PluginTestCase::LayoutAudioPortsConfig => {
                let mut s = String::from_str("Same as '");
                s.append(PluginTestCase::ProcessAudioBasicInPlace.name());
                s.append("', but this time it tries all available port configurations exposed via the 'audio-ports-config' extension.");
                s
            },
            PluginTestCase::LayoutConfigurableAudioPorts => {
                let mut s = String::from_str("Same as '");
                s.append(PluginTestCase::ProcessAudioBasicOutOfPlace.name());
                s.append("', but this time it tries random configurations exposed via the 'configurable-audio-ports' extension.");
                s
            },
            PluginTestCase::ProcessAudioBasicOutOfPlace => String::from_str("Processes random audio through the plugin with its default parameter values and tests whether the output does not contain any non-finite or subnormal values. Uses out-of-place audio processing."),
            PluginTestCase::ProcessAudioBasicInPlace => String::from_str("Processes random audio through the plugin with its default parameter values and tests whether the output does not contain any non-finite or subnormal values. Uses in-place audio processing for buses that support it."),
            PluginTestCase::ProcessAudioDoubleOutOfPlace => {
                let mut s = String::from_str("Same as '");
                s.append(PluginTestCase::ProcessAudioBasicOutOfPlace.name());
                s.append("', but uses 64-bit floating point audio buffers instead of 32-bit ones for ports that support it.");
                s
            },
            PluginTestCase::ProcessAudioDoubleInPlace => {
                let mut s = String::from_str("Same as '");
                s.append(PluginTestCase::ProcessAudioBasicInPlace.name());
                s.append("', but uses 64-bit floating point audio buffers instead of 32-bit ones for ports that support it.");
                s
            },
            PluginTestCase::ProcessSleepConstantMask => String::from_str("Processes random audio through the plugin with its default parameter values while setting the constant mask on silent blocks, and tests whether the output does not contain any non-finite or subnormal values and that the plugin sets the constant mask correctly"),
            PluginTestCase::ProcessSleepProcessStatus => String::from_str("Processes random audio through the plugin with its default parameter values while checking if the output is consistent with the returned process status, and tests whether the output does not contain any non-finite or subnormal values and that the plugin sets the process status correctly"),
            PluginTestCase::ProcessAudioResetDeterminism => String::from_str("Asserts that resetting the plugin via 'clap_plugin::reset()' and via re-activation results in deterministic output when processing the same audio and events again."),
            PluginTestCase::ProcessNoteOutOfPlaceBasic => String::from_str("Sends audio and random note and MIDI events to the plugin with its default parameter values and tests the output for consistency. Uses out-of-place audio processing."),
            PluginTestCase::ProcessNoteInconsistent => String::from_str("Sends intentionally inconsistent and mismatching note and MIDI events to the plugin with its default parameter values and tests the output for consistency. Uses out-of-place audio processing."),
            PluginTestCase::ProcessVaryingSampleRates => String::from_str("Processes random audio and random note events through the plugin with its default parameter values while trying different sample rates ranging from 1kHz to 768kHz, including fractional rates, and tests whether the output does not contain any non-finite or subnormal values. Uses out-of-place audio processing."),
            PluginTestCase::ProcessVaryingBlockSizes => String::from_str("Processes random audio and random note events through the plugin with its default parameter values while trying different maximum block sizes ranging from 1 to 16k, including non-power-of-two ones, and tests whether the output does not contain any non-finite or subnormal values. Uses out-of-place audio processing."),
            PluginTestCase::ProcessRandomBlockSizes => String::from_str("Processes random audio and random note events through the plugin with maximum block size of 2048 while randomizing block sizes for each process call, and tests whether the output does not contain any non-finite or subnormal values. Uses out-of-place audio processing."),
            PluginTestCase::ParamConversions => String::from_str("Asserts that value to string and string to value conversions are supported for ether all or none of the plugin's parameters, and that conversions between values and strings roundtrip consistently."),
            PluginTestCase::ParamFuzzBasic => {
                let mut s = String::from_str("Generates ");
                s.append(decimal(FUZZ_NUM_PERMUTATIONS as u128).as_str());
                s.append(" sets of random parameter values, sets those on the plugin, and has the plugin process ");
                s.append(decimal(FUZZ_RUNS_PER_PERMUTATION as u128).as_str());
                s.append(" buffers of random audio and note events. The plugin passes the test if it doesn't produce any infinite or NaN values, and doesn't crash.");
                s
            },
            PluginTestCase::ParamFuzzBounds => {
                let mut s = String::from_str("The exact same test as '");
                s.append(PluginTestCase::ParamFuzzBasic.name());
                s.append("', but this time the parameter values are snapped to the minimum and maximum values.");
                s
            },
            PluginTestCase::ParamFuzzSampleAccurate => String::from_str("Sets parameter values in a sample-accurate fashion while processing audio, generating them at fixed intervals (10, 100, 1000 samples). The plugin passes the test if it doesn't produce any infinite or NaN values, and doesn't crash."),
            PluginTestCase::ParamFuzzModulation => String::from_str("Sends parameter change events, including monophonic modulation and polyphonic automation/modulation events at random irregular unsynchronized intervals, and have the plugin process them. The plugin passes the test if it doesn't produce any infinite or NaN values, and doesn't crash."),
            PluginTestCase::ParamSetWrongNamespace => String::from_str("Sends events to the plugin with the 'CLAP_EVENT_PARAM_VALUE' event type but with a mismatching namespace ID. Asserts that the plugin's parameter values don't change."),
            PluginTestCase::ParamDefaultValues => String::from_str("Asserts that the values for all parameters are set correctly to their default values when the plugin is initialized."),
            PluginTestCase::StateInvalidEmpty => String::from_str("The plugin should return false when 'clap_plugin_state::load()' is called with an empty state."),
            PluginTestCase::StateInvalidRandom => String::from_str("Loads 3x1MB chunks of random bytes via 'clap_plugin_state::load()' and asserts that the plugin doesn't crash."),
            PluginTestCase::StateReproducibilityBasic => String::from_str("Randomizes a plugin's parameters, saves its state, recreates the plugin instance, reloads the state, and then checks whether the parameter values are the same and whether saving the state once more results in the same state file as before. The parameter values are updated using the process function."),
            PluginTestCase::StateReproducibilityNullCookies => {
                let mut s = String::from_str("The exact same test as '");
                s.append(PluginTestCase::StateReproducibilityBasic.name());
                s.append("', but with all cookies in the parameter events set to null pointers. The plugin should handle this in the same way as the other test case.");
                s
            },
            PluginTestCase::StateReproducibilityFlush => String::from_str("Randomizes a plugin's parameters, saves its state, recreates the plugin instance, sets the same parameters as before, saves the state again, and then asserts that the two states are identical. The parameter values are set updated using the process function to create the first state, and using the flush function to create the second state."),
            PluginTestCase::StateBufferedStreams => {
                let mut s = String::from_str("Performs the same state and parameter reproducibility check as in '");
                s.append(PluginTestCase::StateReproducibilityBasic.name());
                s.append("', but this time the plugin is only allowed to read a small prime number of bytes at a time when reloading and resaving the state.");
                s
            },
            PluginTestCase::TransportNull => String::from_str("Performs audio processing with a 'null' transport pointer, simulating a free-running transport state. The plugin passes the test if it doesn't produce any infinite or NaN values, and doesn't crash."),
            PluginTestCase::TransportFuzz => String::from_str("Performs audio processing while randomly changing the transport state on every block. The plugin passes the test if it doesn't produce any infinite or NaN values, and doesn't crash."),
            PluginTestCase::TransportFuzzSampleAccurate => {
                let mut s = String::from_str("Same as '");
                s.append(PluginTestCase::TransportFuzz.name());
                s.append("', but this time the test sends 'clap_event_transport' events in sample-accurate fashion while processing audio, generating them at fixed intervals (1, 100, 1000 samples). The plugin passes the test if it doesn't produce any infinite or NaN values, and doesn't crash.");
                s
            },
        }
    }
}

/// Every test case is listed.
proof fn lemma_all_cases_complete(c: PluginTestCase)
    ensures
        exists|k: int| 0 <= k < all_cases().len() && all_cases()[k] == c,
{
    let all = all_cases();
    let k = choose_index(c);
    assert(all[k] == c);
}

/// The position of a test case in the list of all test cases.
spec fn choose_index(c: PluginTestCase) -> int {
    match c {
        PluginTestCase::DescriptorConsistency => 0,
        PluginTestCase::FeaturesCategories => 1,
        PluginTestCase::FeaturesDuplicates => 2,
        PluginTestCase::LayoutAudioPortsActivation => 3,
        PluginTestCase::LayoutAudioPortsConfig => 4,
        PluginTestCase::LayoutConfigurableAudioPorts => 5,
        PluginTestCase::ProcessAudioBasicOutOfPlace => 6,
        PluginTestCase::ProcessAudioBasicInPlace => 7,
        PluginTestCase::ProcessAudioDoubleOutOfPlace => 8,
        PluginTestCase::ProcessAudioDoubleInPlace => 9,
        PluginTestCase::ProcessSleepConstantMask => 10,
        PluginTestCase::ProcessSleepProcessStatus => 11,
        PluginTestCase::ProcessAudioResetDeterminism => 12,
        PluginTestCase::ProcessNoteOutOfPlaceBasic => 13,
        PluginTestCase::ProcessNoteInconsistent => 14,
        PluginTestCase::ProcessVaryingSampleRates => 15,
        PluginTestCase::ProcessVaryingBlockSizes => 16,
        PluginTestCase::ProcessRandomBlockSizes => 17,
        PluginTestCase::ParamConversions => 18,
        PluginTestCase::ParamFuzzBasic => 19,
        PluginTestCase::ParamFuzzBounds => 20,
        PluginTestCase::ParamFuzzSampleAccurate => 21,
        PluginTestCase::ParamFuzzModulation => 22,
        PluginTestCase::ParamSetWrongNamespace => 23,
        PluginTestCase::ParamDefaultValues => 24,
        PluginTestCase::StateInvalidEmpty => 25,
        PluginTestCase::StateInvalidRandom => 26,
        PluginTestCase::StateReproducibilityBasic => 27,
        PluginTestCase::StateReproducibilityNullCookies => 28,
        PluginTestCase::StateReproducibilityFlush => 29,
        PluginTestCase::StateBufferedStreams => 30,
        PluginTestCase::TransportNull => 31,
        PluginTestCase::TransportFuzz => 32,
        PluginTestCase::TransportFuzzSampleAccurate => 33,
    }
}

impl PluginTestCase {
    /// The test case with the given name, or `None` when no test case has that name.
    pub fn from_name(name: &String) -> (r: Option<PluginTestCase>)
        ensures
            r == case_of_name(name@),
    {
        let all = PluginTestCase::all();
        let mut k: usize = 0;
        while k < all.len()
            invariant
                all@ == all_cases(),
                k <= all@.len(),
                forall|j: int| 0 <= j < k ==> case_name(#[trigger] all@[j]) != name@,
            decreases all@.len() - k,
        {
            let c = all[k];
            let candidate = String::from_str(c.name());
            if candidate == *name {
                proof {
                    law_case_names_distinct(c, choose|d: PluginTestCase| case_name(d) == name@);
                }
                return Some(c);
            }
            k = k + 1;
        }
        proof {
            assert forall|c: PluginTestCase| case_name(c) != name@ by {
                lemma_all_cases_complete(c);
            }
        }
        None
    }
}

/// A few characters that tell the names of the test cases apart: the length and the characters
/// at two positions, or a space past the end.
spec fn name_key(s: Seq<char>) -> (nat, char, char) {
    (s.len(), if 10 < s.len() { s[10] } else { ' ' }, if 22 < s.len() { s[22] } else { ' ' })
}

/// The key of each test case's name.
spec fn case_key(c: PluginTestCase) -> (nat, char, char) {
    match c {
        PluginTestCase::DescriptorConsistency => (22, '-', ' '),
        PluginTestCase::FeaturesCategories => (19, 'a', ' '),
        PluginTestCase::FeaturesDuplicates => (19, 'u', ' '),
        PluginTestCase::LayoutAudioPortsActivation => (29, 'i', 'i'),
        PluginTestCase::LayoutAudioPortsConfig => (25, 'i', 'f'),
        PluginTestCase::LayoutConfigurableAudioPorts => (31, 'f', 'd'),
        PluginTestCase::ProcessAudioBasicOutOfPlace => (32, 'd', 't'),
        PluginTestCase::ProcessAudioBasicInPlace => (28, 'd', '-'),
        PluginTestCase::ProcessAudioDoubleOutOfPlace => (33, 'd', 'u'),
        PluginTestCase::ProcessAudioDoubleInPlace => (29, 'd', 'n'),
        PluginTestCase::ProcessSleepConstantMask => (27, 'e', '-'),
        PluginTestCase::ProcessSleepProcessStatus => (28, 'e', 's'),
        PluginTestCase::ProcessAudioResetDeterminism => (31, 'd', 't'),
        PluginTestCase::ProcessNoteOutOfPlaceBasic => (31, 't', 'a'),
        PluginTestCase::ProcessNoteInconsistent => (25, 't', 'e'),
        PluginTestCase::ProcessVaryingSampleRates => (28, 'r', '-'),
        PluginTestCase::ProcessVaryingBlockSizes => (27, 'r', 's'),
        PluginTestCase::ProcessRandomBlockSizes => (26, 'n', 'i'),
        PluginTestCase::ParamConversions => (17, 'e', ' '),
        PluginTestCase::ParamFuzzBasic => (16, '-', ' '),
        PluginTestCase::ParamFuzzBounds => (17, '-', ' '),
        PluginTestCase::ParamFuzzSampleAccurate => (26, '-', 'r'),
        PluginTestCase::ParamFuzzModulation => (21, '-', ' '),
        PluginTestCase::ParamSetWrongNamespace => (25, 'w', 'a'),
        PluginTestCase::ParamDefaultValues => (20, 'u', ' '),
        PluginTestCase::StateInvalidEmpty => (19, 'l', ' '),
        PluginTestCase::StateInvalidRandom => (20, 'l', ' '),
        PluginTestCase::StateReproducibilityBasic => (27, 'o', 'b'),
        PluginTestCase::StateReproducibilityNullCookies => (34, 'o', 'n'),
        PluginTestCase::StateReproducibilityFlush => (27, 'o', 'f'),
        PluginTestCase::StateBufferedStreams => (22, 'e', ' '),
        PluginTestCase::TransportNull => (14, 'n', ' '),
        PluginTestCase::TransportFuzz => (14, 'f', ' '),
        PluginTestCase::TransportFuzzSampleAccurate => (30, 'f', 'a'),
    }
}

/// The test case with a given key.
spec fn case_of_key(k: (nat, char, char)) -> PluginTestCase {
    if k == (22nat, '-', ' ') {
        PluginTestCase::DescriptorConsistency
    } else if k == (19nat, 'a', ' ') {
        PluginTestCase::FeaturesCategories
    } else if k == (19nat, 'u', ' ') {
        PluginTestCase::FeaturesDuplicates
    } else if k == (29nat, 'i', 'i') {
        PluginTestCase::LayoutAudioPortsActivation
    } else if k == (25nat, 'i', 'f') {
        PluginTestCase::LayoutAudioPortsConfig
    } else if k == (31nat, 'f', 'd') {
        PluginTestCase::LayoutConfigurableAudioPorts
    } else if k == (32nat, 'd', 't') {
        PluginTestCase::ProcessAudioBasicOutOfPlace
    } else if k == (28nat, 'd', '-') {
        PluginTestCase::ProcessAudioBasicInPlace
    } else if k == (33nat, 'd', 'u') {
        PluginTestCase::ProcessAudioDoubleOutOfPlace
    } else if k == (29nat, 'd', 'n') {
        PluginTestCase::ProcessAudioDoubleInPlace
    } else if k == (27nat, 'e', '-') {
        PluginTestCase::ProcessSleepConstantMask
    } else if k == (28nat, 'e', 's') {
        PluginTestCase::ProcessSleepProcessStatus
    } else if k == (31nat, 'd', 't') {
        PluginTestCase::ProcessAudioResetDeterminism
    } else if k == (31nat, 't', 'a') {
        PluginTestCase::ProcessNoteOutOfPlaceBasic
    } else if k == (25nat, 't', 'e') {
        PluginTestCase::ProcessNoteInconsistent
    } else if k == (28nat, 'r', '-') {
        PluginTestCase::ProcessVaryingSampleRates
    } else if k == (27nat, 'r', 's') {
        PluginTestCase::ProcessVaryingBlockSizes
    } else if k == (26nat, 'n', 'i') {
        PluginTestCase::ProcessRandomBlockSizes
    } else if k == (17nat, 'e', ' ') {
        PluginTestCase::ParamConversions
    } else if k == (16nat, '-', ' ') {
        PluginTestCase::ParamFuzzBasic
    } else if k == (17nat, '-', ' ') {
        PluginTestCase::ParamFuzzBounds
    } else if k == (26nat, '-', 'r') {
        PluginTestCase::ParamFuzzSampleAccurate
    } else if k == (21nat, '-', ' ') {
        PluginTestCase::ParamFuzzModulation
    } else if k == (25nat, 'w', 'a') {
        PluginTestCase::ParamSetWrongNamespace
    } else if k == (20nat, 'u', ' ') {
        PluginTestCase::ParamDefaultValues
    } else if k == (19nat, 'l', ' ') {
        PluginTestCase::StateInvalidEmpty
    } else if k == (20nat, 'l', ' ') {
        PluginTestCase::StateInvalidRandom
    } else if k == (27nat, 'o', 'b') {
        PluginTestCase::StateReproducibilityBasic
    } else if k == (34nat, 'o', 'n') {
        PluginTestCase::StateReproducibilityNullCookies
    } else if k == (27nat, 'o', 'f') {
        PluginTestCase::StateReproducibilityFlush
    } else if k == (22nat, 'e', ' ') {
        PluginTestCase::StateBufferedStreams
    } else if k == (14nat, 'n', ' ') {
        PluginTestCase::TransportNull
    } else if k == (14nat, 'f', ' ') {
        PluginTestCase::TransportFuzz
    } else if k == (30nat, 'f', 'a') {
        PluginTestCase::TransportFuzzSampleAccurate
    } else {
        PluginTestCase::DescriptorConsistency
    }
}

proof fn lemma_name_key(c: PluginTestCase)
    ensures
        name_key(case_name(c)) == case_key(c),
        case_of_key(case_key(c)) == c,
{
    match c {
        PluginTestCase::DescriptorConsistency => {
            reveal_strlit("descriptor-consistency");
        },
        PluginTestCase::FeaturesCategories => {
            reveal_strlit("features-categories");
        },
        PluginTestCase::FeaturesDuplicates => {
            reveal_strlit("features-duplicates");
        },
        PluginTestCase::LayoutAudioPortsActivation => {
            reveal_strlit("layout-audio-ports-activation");
        },
        PluginTestCase::LayoutAudioPortsConfig => {
            reveal_strlit("layout-audio-ports-config");
        },
        PluginTestCase::LayoutConfigurableAudioPorts => {
            reveal_strlit("layout-configurable-audio-ports");
        },
        PluginTestCase::ProcessAudioBasicOutOfPlace => {
            reveal_strlit("process-audio-basic-out-of-place");
        },
        PluginTestCase::ProcessAudioBasicInPlace => {
            reveal_strlit("process-audio-basic-in-place");
        },
        PluginTestCase::ProcessAudioDoubleOutOfPlace => {
            reveal_strlit("process-audio-double-out-of-place");
        },
        PluginTestCase::ProcessAudioDoubleInPlace => {
            reveal_strlit("process-audio-double-in-place");
        },
        PluginTestCase::ProcessSleepConstantMask => {
            reveal_strlit("process-sleep-constant-mask");
        },
        PluginTestCase::ProcessSleepProcessStatus => {
            reveal_strlit("process-sleep-process-status");
        },
        PluginTestCase::ProcessAudioResetDeterminism => {
            reveal_strlit("process-audio-reset-determinism");
        },
        PluginTestCase::ProcessNoteOutOfPlaceBasic => {
            reveal_strlit("process-note-out-of-place-basic");
        },
        PluginTestCase::ProcessNoteInconsistent => {
            reveal_strlit("process-note-inconsistent");
        },
        PluginTestCase::ProcessVaryingSampleRates => {
            reveal_strlit("process-varying-sample-rates");
        },
        PluginTestCase::ProcessVaryingBlockSizes => {
            reveal_strlit("process-varying-block-sizes");
        },
        PluginTestCase::ProcessRandomBlockSizes => {
            reveal_strlit("process-random-block-sizes");
        },
        PluginTestCase::ParamConversions => {
            reveal_strlit("param-conversions");
        },
        PluginTestCase::ParamFuzzBasic => {
            reveal_strlit("param-fuzz-basic");
        },
        PluginTestCase::ParamFuzzBounds => {
            reveal_strlit("param-fuzz-bounds");
        },
        PluginTestCase::ParamFuzzSampleAccurate => {
            reveal_strlit("param-fuzz-sample-accurate");
        },
        PluginTestCase::ParamFuzzModulation => {
            reveal_strlit("param-fuzz-modulation");
        },
        PluginTestCase::ParamSetWrongNamespace => {
            reveal_strlit("param-set-wrong-namespace");
        },
        PluginTestCase::ParamDefaultValues => {
            reveal_strlit("param-default-values");
        },
        PluginTestCase::StateInvalidEmpty => {
            reveal_strlit("state-invalid-empty");
        },
        PluginTestCase::StateInvalidRandom => {
            reveal_strlit("state-invalid-random");
        },
        PluginTestCase::StateReproducibilityBasic => {
            reveal_strlit("state-reproducibility-basic");
        },
        PluginTestCase::StateReproducibilityNullCookies => {
            reveal_strlit("state-reproducibility-null-cookies");
        },
        PluginTestCase::StateReproducibilityFlush => {
            reveal_strlit("state-reproducibility-flush");
        },
        PluginTestCase::StateBufferedStreams => {
            reveal_strlit("state-buffered-streams");
        },
        PluginTestCase::TransportNull => {
            reveal_strlit("transport-null");
        },
        PluginTestCase::TransportFuzz => {
            reveal_strlit("transport-fuzz");
        },
        PluginTestCase::TransportFuzzSampleAccurate => {
            reveal_strlit("transport-fuzz-sample-accurate");
        },
    }
}

/// Law: no two test cases share a name, so a test case handed to another process by its name is
/// read back as the same test case.
pub proof fn law_case_names_distinct(a: PluginTestCase, b: PluginTestCase)
    ensures
        case_name(a) == case_name(b) ==> a == b,
{
    lemma_name_key(a);
    lemma_name_key(b);
}

/// Law: reading back the name of a test case gives that test case.
pub proof fn law_name_round_trip(c: PluginTestCase)
    ensures
        case_of_name(case_name(c)) == Some(c),
{
    law_case_names_distinct(c, choose|d: PluginTestCase| case_name(d) == case_name(c));
}

/// The list of the plugin tests with their names and descriptions, in order.
pub fn plugin_test_list() -> (r: Vec<TestListItem>)
    ensures
        r@.len() == all_cases().len(),
        forall|k: int|
            0 <= k < r@.len() ==> (#[trigger] r@[k]).name@ == case_name(all_cases()[k]) && r@[k].description@
                == case_description(all_cases()[k]),
{
    let all = PluginTestCase::all();
    let mut r: Vec<TestListItem> = Vec::new();
    let mut k: usize = 0;
    while k < all.len()
        invariant
            all@ == all_cases(),
            k <= all@.len(),
            r@.len() == k,
            forall|j: int|
                0 <= j < k ==> (#[trigger] r@[j]).name@ == case_name(all_cases()[j]) && r@[j].description@
                    == case_description(all_cases()[j]),
        decreases all@.len() - k,
    {
        let c = all[k];
        r.push(TestListItem { name: String::from_str(c.name()), description: c.description() });
        k = k + 1;
    }
    r
}

/// Whether test case `c` runs under a filter, given whether the configuration enables it.
pub open spec fn case_runs(filter: TestFilter, enabled: bool, c: PluginTestCase) -> bool {
    &&& enabled
    &&& filter.filter_spec().len() == 0 || any_matches(filter.filter_spec(), case_name(c))
    &&& !any_matches(filter.exclude_spec(), case_name(c))
}

/// The test cases among the first `n` that run, in order.
pub open spec fn selected_cases(filter: TestFilter, enabled: Seq<bool>, n: int) -> Seq<PluginTestCase>
    decreases n,
{
    if n <= 0 {
        Seq::empty()
    } else {
        let before = selected_cases(filter, enabled, n - 1);
        if case_runs(filter, enabled[n - 1], all_cases()[n - 1]) {
            before.push(all_cases()[n - 1])
        } else {
            before
        }
    }
}

/// The plugin test cases that run, in order. `enabled` says of each test case, in the order of
/// all test cases, whether the configuration enables it.
pub fn selected_plugin_tests(filter: &TestFilter, enabled: &Vec<bool>) -> (r: Vec<PluginTestCase>)
    requires
        enabled@.len() == all_cases().len(),
    ensures
        r@ == selected_cases(*filter, enabled@, all_cases().len() as int),
{
    let all = PluginTestCase::all();
    let mut r: Vec<PluginTestCase> = Vec::new();
    let mut k: usize = 0;
    while k < all.len()
        invariant
            all@ == all_cases(),
            enabled@.len() == all_cases().len(),
            k <= all@.len(),
            r@ == selected_cases(*filter, enabled@, k as int),
        decreases all@.len() - k,
    {
        let c = all[k];
        if filter.allows(enabled[k], c.name()) {
            r.push(c);
        }
        k = k + 1;
    }
    r
}

} // verus!
