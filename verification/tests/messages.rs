use clap_validator::audio_ports::{AudioPortsError, PortTypeError};
use clap_validator::consistency::{ConsistencyError, SampleProblem};
use clap_validator::events::OutputEventError;
use clap_validator::plugin_state::LifecycleError;

#[test]
fn port_type_error_messages() {
    assert_eq!(
        PortTypeError::ExpectedMono { channel_count: 2 }.describe(),
        "Expected 1 channel, but the audio port has 2 channels."
    );
    assert_eq!(
        PortTypeError::ExpectedStereo { channel_count: 1 }.describe(),
        "Expected 2 channels, but the audio port has 1 channel(s)."
    );
    assert_eq!(
        PortTypeError::SurroundWithoutExtension.describe(),
        "Audio port type is 'surround', but the plugin does not implement the 'surround' extension."
    );
    assert_eq!(
        PortTypeError::AmbisonicWithoutExtension.describe(),
        "Audio port type is 'ambisonic', but the plugin does not implement the 'ambisonic' extension."
    );
    assert_eq!(
        PortTypeError::AmbisonicNotSquare { channel_count: 5 }.describe(),
        "Expected a perfect square (N^2 where N is the ambisonics order) number of channels for ambisonic audio \
         port, but the audio port has 5 channels."
    );
}

#[test]
fn audio_ports_error_messages() {
    assert_eq!(
        AudioPortsError::InconsistentType {
            is_input: false,
            index: 3,
            error: PortTypeError::ExpectedMono { channel_count: 2 },
        }
        .describe(),
        "Inconsistent channel count for output port 3: Expected 1 channel, but the audio port has 2 channels."
    );
    assert_eq!(
        AudioPortsError::DuplicateId { is_input: true, index: 1, id: 7 }.describe(),
        "The stable ID of input audio port 1 (id=7) is a duplicate."
    );
    assert_eq!(
        AudioPortsError::MainNotFirst { is_input: false, index: 2, id: 9 }.describe(),
        "Output audio port 2 (id=9) is marked as main, but it is not the first port in the list."
    );
    assert_eq!(
        AudioPortsError::PrefersUnsupported64 { is_input: true, index: 0, id: 4 }.describe(),
        "Input audio port 0 (id=4) prefers 64-bit sample size, but does not support it."
    );
    assert_eq!(
        AudioPortsError::MixedCommonSampleSize.describe(),
        "The plugin has audio ports that require common sample size, but some of these ports only support 32-bit \
         sample size while others support 64-bit sample size."
    );
    assert_eq!(
        AudioPortsError::PairMissing { is_input: true, index: 1, id: 10, pair_id: 20 }.describe(),
        "Input port 1 with stable ID 10 claims to be connected to an output port with stable ID 20 through an \
         in-place pair, but this port does not exist."
    );
    assert_eq!(
        AudioPortsError::PairAsymmetric { is_input: false, index: 0, id: 5, other_index: 2, other_id: 6, other_pair: 8 }
            .describe(),
        "Output port 0 with stable ID 5 is connected to input port 2 with stable ID 6 through an in-place pair, but \
         the relation is not symmetrical. The input port reports to have an in-place pair with stable ID 8."
    );
}

#[test]
fn consistency_error_messages() {
    assert_eq!(
        ConsistencyError::InputOverwritten { index: 1 }.describe(""),
        "The plugin has overwritten an input buffer (index 1) during out-of-place processing."
    );
    assert_eq!(
        ConsistencyError::BadSample { port: 0, channel: 1, sample: 5, problem: SampleProblem::Unwritten }.describe(""),
        "The sample at output port 0, channel 1, and sample index 5 was left unwritten."
    );
    let tiny = f32::from_bits(1);
    assert_eq!(
        ConsistencyError::BadSample { port: 2, channel: 0, sample: 3, problem: SampleProblem::Subnormal }
            .describe(&tiny.to_string()),
        format!("The sample written to output port 2, channel 0, and sample index 3 is subnormal ({tiny}).")
    );
    assert_eq!(
        ConsistencyError::BadSample { port: 1, channel: 1, sample: 0, problem: SampleProblem::NotFinite }
            .describe(&f32::INFINITY.to_string()),
        "The sample written to output port 1, channel 1, and sample index 0 is inf."
    );
    assert_eq!(
        ConsistencyError::Events(OutputEventError::OutOfOrder { time: 3, previous: 10 }).describe(""),
        "The plugin output an event for sample 3 after it had previously output an event for sample 10."
    );
    assert_eq!(
        ConsistencyError::Events(OutputEventError::BeyondBlock { time: 512, block_size: 512 }).describe(""),
        "The plugin output an event for sample 512 but the audio buffer only contains 512 samples."
    );
}

#[test]
fn lifecycle_error_messages() {
    assert_eq!(LifecycleError::InitReturnedFalse.describe(), "'clap_plugin::init()' returned false.");
    assert_eq!(LifecycleError::OnMainThreadMissing.describe(), "clap_plugin::on_main_thread is null");
    assert_eq!(LifecycleError::ActivateReturnedFalse.describe(), "'clap_plugin::activate()' returned false.");
    assert_eq!(
        LifecycleError::StartProcessingReturnedFalse.describe(),
        "'clap_plugin::start_processing()' returned false."
    );
    assert_eq!(
        LifecycleError::ProcessReturnedError.describe(),
        "The plugin returned 'CLAP_PROCESS_ERROR' from 'clap_plugin::process()'."
    );
    assert_eq!(
        LifecycleError::UnknownProcessStatus(-7).describe(),
        "The plugin returned an unknown 'clap_process_status' value -7 from 'clap_plugin::process()'."
    );
    assert_eq!(
        LifecycleError::UnknownProcessStatus(i32::MIN).describe(),
        "The plugin returned an unknown 'clap_process_status' value -2147483648 from 'clap_plugin::process()'."
    );
}
