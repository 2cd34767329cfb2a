use clap_validator::audio_ports::{AudioPort, AudioPortConfig, AudioPortsConfigConfig, AudioPortsRequest, AudioPortsRequestInfo};
use clap_validator::layout_checks::{
    check_config_ports, check_port_info, layout_requests_text, main_port_channels, LayoutTries, PortInfo,
};
use clap_validator::plugin_state::ProcessStatus;
use clap_validator::processing_checks::{
    block_is_quiet, constant_mask_verdict, reset_determinism_verdict, SleepError, SleepTracker, SLEEP_TEST_BLOCKS,
};
use clap_validator::state_checks::{
    invalid_empty_state_verdict, invalid_random_state_verdict, saved_state_matches, state_differs,
};
use clap_validator::status::TestStatus;

fn port(channels: u32, is_main: bool) -> AudioPort {
    AudioPort {
        is_main,
        num_channels: channels,
        in_place_pair_idx: None,
        supports_double_sample_size: false,
        requires_common_sample_size: false,
    }
}

fn config(inputs: u32, outputs: u32, main_in: Option<u32>, main_out: Option<u32>) -> AudioPortsConfigConfig {
    AudioPortsConfigConfig {
        id: 3,
        name: "Stereo".to_string(),
        input_port_count: inputs,
        output_port_count: outputs,
        main_input_channel_count: main_in,
        main_output_channel_count: main_out,
    }
}

fn warning(status: TestStatus) -> String {
    match status {
        TestStatus::Warning { details: Some(d) } => d,
        other => panic!("expected a warning, got {other:?}"),
    }
}

#[test]
fn quiet_blocks_follow_the_schedule() {
    let quiet: Vec<u32> = (0..SLEEP_TEST_BLOCKS).filter(|i| block_is_quiet(*i)).collect();
    let mut expected: Vec<u32> = (0..5).chain(10..20).collect();
    expected.extend(30..80);
    assert_eq!(quiet, expected);
}

#[test]
fn sleep_tracker_follows_process_statuses() {
    let mut t = SleepTracker::new();
    assert_eq!(t.record_block(true, ProcessStatus::Sleep, false, None), Ok(()));
    assert!(t.is_sleeping && !t.has_ever_slept);
    assert!(t.must_be_silent(true));
    assert!(!t.must_be_silent(false));
    t.wake();
    assert!(!t.is_sleeping);
    assert_eq!(t.record_block(true, ProcessStatus::ContinueIfNotQuiet, true, None), Ok(()));
    assert!(t.is_sleeping && t.has_ever_returned_continue_if_not_quiet);
    assert_eq!(t.record_block(false, ProcessStatus::Continue, false, None), Ok(()));
    assert!(!t.is_sleeping && t.has_ever_slept);
    assert!(matches!(t.verdict(), TestStatus::Success { details: None }));
}

#[test]
fn sleep_tracker_counts_quiet_time_for_tails() {
    let mut t = SleepTracker::new();
    assert_eq!(t.record_block(true, ProcessStatus::Tail, false, None), Err(SleepError::TailWithoutExtension));
    assert_eq!(t, SleepTracker::new());
    assert_eq!(t.record_block(true, ProcessStatus::Tail, false, Some(1000)), Ok(()));
    assert_eq!(t.quiet_time, 512);
    assert!(!t.is_sleeping);
    assert_eq!(t.record_block(true, ProcessStatus::Tail, false, Some(1000)), Ok(()));
    assert_eq!(t.quiet_time, 1024);
    assert_eq!(t.record_block(true, ProcessStatus::Tail, false, Some(1000)), Ok(()));
    assert!(t.is_sleeping);
    assert_eq!(t.record_block(false, ProcessStatus::Tail, false, Some(1000)), Ok(()));
    assert_eq!(t.quiet_time, 0);
    assert!(t.has_ever_slept);
}

#[test]
fn sleep_verdicts_warn_when_the_plugin_never_slept() {
    let mut t = SleepTracker::new();
    assert_eq!(warning(t.verdict()), "The plugin never went to sleep during the test.");
    t.record_block(false, ProcessStatus::ContinueIfNotQuiet, false, None).unwrap();
    assert_eq!(
        warning(t.verdict()),
        "The plugin never went to sleep during the test. Make sure to set the output constant mask correctly when \
         returning `CLAP_PROCESS_CONTINUE_IF_NOT_QUIET`."
    );
    assert_eq!(
        warning(constant_mask_verdict(false, true)),
        "The plugin does not seem to set the constant mask during processing."
    );
    assert!(matches!(constant_mask_verdict(true, true), TestStatus::Success { details: None }));
    assert!(matches!(constant_mask_verdict(false, false), TestStatus::Success { details: None }));
}

#[test]
fn reset_determinism_verdicts() {
    assert_eq!(
        warning(reset_determinism_verdict(false, false).unwrap()),
        "Plugin output does not seem to be deterministic after reactivation"
    );
    assert_eq!(reset_determinism_verdict(true, false).unwrap_err(), "Plugin output differs after reset");
    assert!(matches!(reset_determinism_verdict(true, true), Ok(TestStatus::Success { details: None })));
}

#[test]
fn main_port_is_the_first_port_marked_main() {
    assert_eq!(main_port_channels(&vec![port(2, true), port(1, true)]), Some(2));
    assert_eq!(main_port_channels(&vec![port(2, false), port(1, true)]), None);
    assert_eq!(main_port_channels(&vec![]), None);
}

#[test]
fn config_ports_must_match_the_configuration() {
    let ports = AudioPortConfig { inputs: vec![port(2, true)], outputs: vec![port(2, true), port(1, false)] };
    assert_eq!(check_config_ports(&config(1, 2, Some(2), Some(2)), &ports), Ok(()));
    assert_eq!(
        check_config_ports(&config(2, 2, Some(2), Some(2)), &ports).unwrap_err(),
        "The number of input audio ports for configuration 'Stereo' (2) does not match the number reported by \
         'audio-ports' (1)"
    );
    assert_eq!(
        check_config_ports(&config(1, 3, Some(2), Some(2)), &ports).unwrap_err(),
        "The number of output audio ports for configuration 'Stereo' (3) does not match the number reported by \
         'audio-ports' (2)"
    );
    assert_eq!(
        check_config_ports(&config(1, 2, Some(4), Some(2)), &ports).unwrap_err(),
        "The number of channels in the main input port for the 'Stereo' configuration info (4) does not match the \
         number reported by 'audio-ports' (2)"
    );
    assert_eq!(
        check_config_ports(&config(1, 2, Some(2), None), &ports).unwrap_err(),
        "The configuration 'Stereo' reports that main output port does not exist, but according to 'audio-ports' it \
         does."
    );
    let no_main = AudioPortConfig { inputs: vec![port(2, false)], outputs: vec![] };
    assert_eq!(
        check_config_ports(&config(1, 0, Some(2), None), &no_main).unwrap_err(),
        "The configuration 'Stereo' reports that a main input port exists, but 'audio-ports' does not."
    );
}

fn info(id: u32, name: &str, port_type: Option<&str>) -> PortInfo {
    PortInfo { id, channel_count: 2, flags: 1, name: name.to_string(), port_type: port_type.map(|t| t.to_string()) }
}

#[test]
fn port_reports_must_agree() {
    assert_eq!(check_port_info(&info(1, "Main", Some("stereo")), &info(1, "Main", Some("stereo"))), Ok(()));
    assert_eq!(check_port_info(&info(1, "Main", None), &info(2, "Main", None)).unwrap_err(), "ID mismatch: 1 vs 2");
    let mut wide = info(1, "Main", None);
    wide.channel_count = 6;
    assert_eq!(
        check_port_info(&info(1, "Main", None), &wide).unwrap_err(),
        "Channel count mismatch: 2 vs 6"
    );
    let mut flagged = info(1, "Main", None);
    flagged.flags = 3;
    assert_eq!(check_port_info(&info(1, "Main", None), &flagged).unwrap_err(), "Flags mismatch");
    assert_eq!(
        check_port_info(&info(1, "Main", None), &info(1, "Side \"B\"", None)).unwrap_err(),
        "Name mismatch: \"Main\" vs \"Side \\\"B\\\"\""
    );
    assert_eq!(
        check_port_info(&info(1, "Main", Some("stereo")), &info(1, "Main", None)).unwrap_err(),
        "Port type mismatch: \"stereo\" vs \"<null>\""
    );
}

fn request(is_input: bool, port_index: u32, request_info: AudioPortsRequestInfo) -> AudioPortsRequest {
    AudioPortsRequest { is_input, port_index, request_info }
}

#[test]
fn layout_tries_stop_and_report_conflicts() {
    let requests = vec![
        request(true, 0, AudioPortsRequestInfo::Stereo),
        request(false, 1, AudioPortsRequestInfo::Untyped { channel_count: 6 }),
    ];
    assert_eq!(layout_requests_text(&requests), "in0-2ch out1-6ch");
    assert_eq!(layout_requests_text(&vec![]), "");
    let mut tries = LayoutTries::new();
    assert!(tries.wants_more());
    assert_eq!(
        tries.record(true, false, &requests).unwrap_err(),
        "The plugin returned conflicting results from 'can_apply_configuration' (true) and 'apply_configuration' \
         (false) for the following layout: in0-2ch out1-6ch"
    );
    assert_eq!(tries, LayoutTries::new());
    assert_eq!(tries.record(false, false, &requests), Ok(false));
    assert_eq!(warning(tries.verdict()), "Tried 200 random audio port layouts, but none were accepted.");
    for _ in 0..20 {
        assert_eq!(tries.record(true, true, &requests), Ok(true));
    }
    assert_eq!(tries, LayoutTries { total: 21, passed: 20 });
    assert!(!tries.wants_more());
    assert!(matches!(tries.verdict(), TestStatus::Success { details: None }));
}

#[test]
fn state_verdicts() {
    assert_eq!(
        warning(invalid_empty_state_verdict(true)),
        "The plugin returned true when 'clap_plugin_state::load()' was called when an empty state, this is likely a \
         bug."
    );
    assert!(matches!(invalid_empty_state_verdict(false), TestStatus::Success { details: None }));
    assert_eq!(
        warning(invalid_random_state_verdict(true)),
        "The plugin loaded random bytes successfully, which is unexpected, but the plugin did not crash."
    );
    assert!(matches!(invalid_random_state_verdict(false), TestStatus::Success { details: None }));
    assert!(saved_state_matches(true, &vec![1, 2, 3], &vec![1, 2, 3]));
    assert!(!saved_state_matches(true, &vec![1, 2, 3], &vec![1, 2, 4]));
    assert!(!saved_state_matches(true, &vec![1, 2], &vec![1, 2, 3]));
    assert!(saved_state_matches(false, &vec![1, 2], &vec![1, 2, 3]));
    match state_differs("/tmp/a", "/tmp/b") {
        TestStatus::Failed { details: Some(d) } => assert_eq!(
            d,
            "The saved state after loading differs from the original saved state. \nExpected: '/tmp/a'. \nActual: \
             '/tmp/b'."
        ),
        other => panic!("unexpected status {other:?}"),
    }
}
