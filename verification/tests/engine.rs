use clap_validator::audio_ports::{enumerate_configs, reported_channel_map, PortsConfigError, RawPortsConfigInfo};
use clap_validator::buffers::with_precision;
use clap_validator::audio_ports::{
    audio_port_config, is_audio_port_type_consistent, AudioPort, AudioPortConfig, AudioPortsError, PortTypeError,
    RawAudioPortInfo,
};
use clap_validator::buffers::{
    bus_channel_counts, buses_complete, in_place_layout, out_of_place_layout, silent_input_mask, AudioBuffer,
    InPlacePairError,
};
use clap_validator::clap_abi;
use clap_sys::events;
use clap_sys::ext::audio_ports;
use clap_sys::ext::note_ports;
use clap_sys::ext::params;
use clap_sys::process;
use clap_validator::duration::{duration_parse_panics, parse_duration};
use clap_validator::events::{
    check_output_events, event_kind, EventKind, InputEventQueue, OutputEventError, OutputEventQueue, QueuedEvent,
};
use clap_validator::plugin_state::{
    audio_ports_rescan, latency_changed, note_ports_rescan, params_rescan, process_status_from_code,
    processing_loop_step, record_callback_error, CallbackEvent, DropAction, LifecycleError, PluginStatus,
    ProcessControlFlow, ProcessStatus,
};
use clap_validator::consistency::{
    check_process_call_consistency, BufferContents, ConsistencyError, SampleData, SampleProblem, CHECK_NAN_F32, CHECK_NAN_F64,
};
use clap_validator::plugin_state::{calls_before_process, restart_calls, resets_plugin};
use clap_validator::plugin_state::LifecycleCall::{Activate, Deactivate, StartProcessing, StopProcessing};
use clap_validator::audio_ports::{convert_requests, AudioPortsRequest, AudioPortsRequestInfo, PortConfigurationRequest, RequestPortType};

fn ev(time: u32, tag: u64) -> QueuedEvent {
    QueuedEvent { time, tag }
}

#[test]
fn add_events_to_empty_queue_keeps_order() {
    let mut q = InputEventQueue::new();
    q.add_events(vec![ev(5, 0), ev(1, 1)]);
    assert_eq!(q.get(0), Some(ev(5, 0)));
    assert_eq!(q.get(1), Some(ev(1, 1)));
    assert_eq!(q.get(2), None);
    assert_eq!(q.last_event_time(), Some(1));
}

#[test]
fn add_events_to_filled_queue_sorts_stably() {
    let mut q = InputEventQueue::new();
    q.add_events(vec![ev(5, 0), ev(1, 1)]);
    q.add_events(vec![ev(3, 2), ev(1, 3), ev(5, 4)]);
    let times: Vec<(u32, u64)> = (0..q.size()).map(|i| q.get(i).map(|e| (e.time, e.tag)).unwrap()).collect();
    assert_eq!(times, vec![(1, 1), (1, 3), (3, 2), (5, 0), (5, 4)]);
    assert_eq!(q.last_event_time(), Some(5));
    assert!(q.fits_block(6));
    assert!(!q.fits_block(5));
    q.clear();
    assert_eq!(q.last_event_time(), None);
    assert!(q.fits_block(1));
}

#[test]
fn output_queue_records_pushes() {
    let mut q = OutputEventQueue::new();
    assert!(q.try_push(ev(0, 9)));
    assert!(q.try_push(ev(2, 8)));
    assert_eq!(q.read(), vec![ev(0, 9), ev(2, 8)]);
    q.clear();
    assert!(q.read().is_empty());
}

#[test]
fn output_events_must_be_ordered_and_inside_the_block() {
    assert_eq!(check_output_events(&vec![ev(0, 0), ev(3, 0), ev(3, 0)], 4), Ok(()));
    assert_eq!(
        check_output_events(&vec![ev(2, 0), ev(1, 0), ev(9, 0)], 4),
        Err(OutputEventError::OutOfOrder { time: 1, previous: 2 })
    );
    assert_eq!(
        check_output_events(&vec![ev(1, 0), ev(4, 0)], 4),
        Err(OutputEventError::BeyondBlock { time: 4, block_size: 4 })
    );
    assert_eq!(check_output_events(&vec![], 1), Ok(()));
}

#[test]
fn event_kinds_follow_the_clap_event_types() {
    assert_eq!(event_kind(events::CLAP_CORE_EVENT_SPACE_ID, events::CLAP_EVENT_NOTE_ON), EventKind::Note);
    assert_eq!(event_kind(events::CLAP_CORE_EVENT_SPACE_ID, events::CLAP_EVENT_NOTE_END), EventKind::Note);
    assert_eq!(event_kind(events::CLAP_CORE_EVENT_SPACE_ID, events::CLAP_EVENT_NOTE_EXPRESSION), EventKind::NoteExpression);
    assert_eq!(event_kind(events::CLAP_CORE_EVENT_SPACE_ID, events::CLAP_EVENT_PARAM_VALUE), EventKind::ParamValue);
    assert_eq!(event_kind(events::CLAP_CORE_EVENT_SPACE_ID, events::CLAP_EVENT_PARAM_MOD), EventKind::ParamMod);
    assert_eq!(event_kind(events::CLAP_CORE_EVENT_SPACE_ID, events::CLAP_EVENT_MIDI), EventKind::Midi);
    assert_eq!(event_kind(events::CLAP_CORE_EVENT_SPACE_ID, events::CLAP_EVENT_TRANSPORT), EventKind::Transport);
    assert_eq!(event_kind(events::CLAP_CORE_EVENT_SPACE_ID, events::CLAP_EVENT_MIDI_SYSEX), EventKind::Unknown);
    assert_eq!(event_kind(1, events::CLAP_EVENT_NOTE_ON), EventKind::Unknown);
}

#[test]
fn abi_constants_match_clap_sys() {
    assert_eq!(clap_abi::INVALID_ID, clap_sys::id::CLAP_INVALID_ID);
    assert_eq!(clap_abi::AUDIO_PORT_IS_MAIN, audio_ports::CLAP_AUDIO_PORT_IS_MAIN);
    assert_eq!(clap_abi::AUDIO_PORT_SUPPORTS_64BITS, audio_ports::CLAP_AUDIO_PORT_SUPPORTS_64BITS);
    assert_eq!(clap_abi::AUDIO_PORT_PREFERS_64BITS, audio_ports::CLAP_AUDIO_PORT_PREFERS_64BITS);
    assert_eq!(clap_abi::AUDIO_PORT_REQUIRES_COMMON_SAMPLE_SIZE, audio_ports::CLAP_AUDIO_PORT_REQUIRES_COMMON_SAMPLE_SIZE);
    assert_eq!(clap_abi::AUDIO_PORTS_RESCAN_NAMES, audio_ports::CLAP_AUDIO_PORTS_RESCAN_NAMES);
    assert_eq!(clap_abi::NOTE_PORTS_RESCAN_ALL, note_ports::CLAP_NOTE_PORTS_RESCAN_ALL);
    assert_eq!(clap_abi::NOTE_PORTS_RESCAN_NAMES, note_ports::CLAP_NOTE_PORTS_RESCAN_NAMES);
    assert_eq!(clap_abi::PARAM_RESCAN_VALUES, params::CLAP_PARAM_RESCAN_VALUES);
    assert_eq!(clap_abi::PARAM_RESCAN_TEXT, params::CLAP_PARAM_RESCAN_TEXT);
    assert_eq!(clap_abi::PARAM_RESCAN_INFO, params::CLAP_PARAM_RESCAN_INFO);
    assert_eq!(clap_abi::PARAM_RESCAN_ALL, params::CLAP_PARAM_RESCAN_ALL);
    assert_eq!(clap_abi::PROCESS_ERROR, process::CLAP_PROCESS_ERROR);
    assert_eq!(clap_abi::PROCESS_CONTINUE, process::CLAP_PROCESS_CONTINUE);
    assert_eq!(clap_abi::PROCESS_CONTINUE_IF_NOT_QUIET, process::CLAP_PROCESS_CONTINUE_IF_NOT_QUIET);
    assert_eq!(clap_abi::PROCESS_TAIL, process::CLAP_PROCESS_TAIL);
    assert_eq!(clap_abi::PROCESS_SLEEP, process::CLAP_PROCESS_SLEEP);
}

#[test]
fn parse_duration_examples() {
    assert_eq!(parse_duration("1h30m"), Ok(5_400_000));
    assert_eq!(parse_duration("250ms"), Ok(250));
    assert_eq!(parse_duration("1m5s"), Ok(65_000));
    assert_eq!(parse_duration(" 5s"), Ok(5_000));
    assert_eq!(parse_duration("5s 3m"), Err("invalid duration format"));
    assert_eq!(parse_duration(""), Err("no duration provided"));
    assert_eq!(parse_duration("5x"), Err("invalid duration format"));
    assert_eq!(parse_duration("h"), Err("invalid duration format"));
    assert!(!duration_parse_panics("1h30m"));
    assert!(duration_parse_panics("1 s"));
}

#[test]
fn lifecycle_round_trips() {
    let (s, r) = PluginStatus::Uninitialized.after_init(true, true);
    assert_eq!((s, r), (PluginStatus::Deactivated, Ok(())));
    assert_eq!(
        PluginStatus::Uninitialized.after_init(true, false),
        (PluginStatus::Uninitialized, Err(LifecycleError::OnMainThreadMissing))
    );
    let s = s.activating(1, 512);
    assert_eq!(s, PluginStatus::Activating);
    let (s, r) = s.after_activate(true);
    assert_eq!((s, r), (PluginStatus::Activated, Ok(())));
    let (s, r) = s.after_start_processing(true);
    assert_eq!((s, r), (PluginStatus::Processing, Ok(())));
    assert!(s.is_active());
    let s = s.after_stop_processing();
    assert_eq!(s, PluginStatus::Activated);
    assert_eq!(s.drop_action(), DropAction::Deactivate);
    let s = s.after_deactivate();
    assert_eq!(s, PluginStatus::Deactivated);
    assert!(!s.is_active());
    assert_eq!(s.drop_action(), DropAction::Nothing);
    assert_eq!(PluginStatus::Processing.drop_action(), DropAction::InvalidState);
    assert_eq!(
        PluginStatus::Activating.after_activate(false),
        (PluginStatus::Deactivated, Err(LifecycleError::ActivateReturnedFalse))
    );
}

#[test]
fn process_status_codes() {
    assert_eq!(process_status_from_code(PluginStatus::Processing, 1), Ok(ProcessStatus::Continue));
    assert_eq!(process_status_from_code(PluginStatus::Processing, 4), Ok(ProcessStatus::Sleep));
    assert_eq!(process_status_from_code(PluginStatus::Processing, 0), Err(LifecycleError::ProcessReturnedError));
    assert_eq!(process_status_from_code(PluginStatus::Processing, 7), Err(LifecycleError::UnknownProcessStatus(7)));
}

#[test]
fn rescan_requests_and_their_timing() {
    let r = audio_ports_rescan(clap_abi::AUDIO_PORTS_RESCAN_NAMES | 2, PluginStatus::Processing);
    assert_eq!(r.events, vec![CallbackEvent::RescanAudioPortsNames, CallbackEvent::RescanAudioPortsAll]);
    assert!(r.while_active);
    let r = audio_ports_rescan(clap_abi::AUDIO_PORTS_RESCAN_NAMES, PluginStatus::Processing);
    assert_eq!(r.events, vec![CallbackEvent::RescanAudioPortsNames]);
    assert!(!r.while_active);
    let r = note_ports_rescan(clap_abi::NOTE_PORTS_RESCAN_ALL, PluginStatus::Activated);
    assert_eq!(r.events, vec![CallbackEvent::RescanNotePortsAll]);
    assert!(!r.while_active);
    let r = params_rescan(clap_abi::PARAM_RESCAN_VALUES | clap_abi::PARAM_RESCAN_ALL, PluginStatus::Processing);
    assert_eq!(r.events, vec![CallbackEvent::RescanParamsValues, CallbackEvent::RescanParamsAll]);
    assert!(r.while_active);
    assert_eq!(latency_changed(PluginStatus::Activating), (CallbackEvent::ChangedLatency, false));
    assert_eq!(latency_changed(PluginStatus::Deactivated), (CallbackEvent::ChangedLatency, true));
}

#[test]
fn first_callback_error_is_kept() {
    let mut slot = None;
    record_callback_error(&mut slot, "first".to_string());
    record_callback_error(&mut slot, "second".to_string());
    assert_eq!(slot.as_deref(), Some("first"));
}

#[test]
fn processing_loop_decisions() {
    assert_eq!(processing_loop_step(true, ProcessControlFlow::Continue, false), (true, false));
    assert_eq!(processing_loop_step(true, ProcessControlFlow::Continue, true), (true, true));
    assert_eq!(processing_loop_step(true, ProcessControlFlow::Reset, false), (true, true));
    assert_eq!(processing_loop_step(true, ProcessControlFlow::Exit, false), (false, true));
}

fn info(id: u32, flags: u32, channels: u32, port_type: Option<&[u8]>, pair: u32) -> RawAudioPortInfo {
    RawAudioPortInfo { id, flags, channel_count: channels, port_type: port_type.map(|t| t.to_vec()), in_place_pair: pair }
}

#[test]
fn port_type_consistency() {
    assert_eq!(is_audio_port_type_consistent(&Some(b"stereo".to_vec()), 2, false, false), Ok(()));
    assert_eq!(
        is_audio_port_type_consistent(&Some(b"mono".to_vec()), 2, false, false),
        Err(PortTypeError::ExpectedMono { channel_count: 2 })
    );
    assert_eq!(
        is_audio_port_type_consistent(&Some(b"ambisonic".to_vec()), 4, false, false),
        Err(PortTypeError::AmbisonicWithoutExtension)
    );
    assert_eq!(
        is_audio_port_type_consistent(&Some(b"ambisonic".to_vec()), 5, true, false),
        Err(PortTypeError::AmbisonicNotSquare { channel_count: 5 })
    );
    assert_eq!(is_audio_port_type_consistent(&Some(b"ambisonic".to_vec()), 9, true, false), Ok(()));
    assert_eq!(
        is_audio_port_type_consistent(&Some(b"surround".to_vec()), 6, false, false),
        Err(PortTypeError::SurroundWithoutExtension)
    );
    assert_eq!(is_audio_port_type_consistent(&None, 3, false, false), Ok(()));
}

#[test]
fn port_config_pairs_in_place_ports() {
    let inputs = vec![info(10, clap_abi::AUDIO_PORT_IS_MAIN, 2, Some(b"stereo"), 20)];
    let outputs = vec![info(20, clap_abi::AUDIO_PORT_IS_MAIN, 2, Some(b"stereo"), 10), info(21, 0, 1, None, clap_abi::INVALID_ID)];
    let config = audio_port_config(&inputs, &outputs, false, false).unwrap();
    assert_eq!(config.inputs[0].in_place_pair_idx, Some(0));
    assert_eq!(config.outputs[0].in_place_pair_idx, Some(0));
    assert_eq!(config.outputs[1].in_place_pair_idx, None);
    assert!(config.inputs[0].is_main);
    assert_eq!(config.outputs[1].num_channels, 1);
}

#[test]
fn port_config_errors() {
    let dup = vec![info(1, 0, 1, None, clap_abi::INVALID_ID), info(1, 0, 1, None, clap_abi::INVALID_ID)];
    assert!(matches!(
        audio_port_config(&dup, &vec![], false, false),
        Err(AudioPortsError::DuplicateId { is_input: true, index: 1, id: 1 })
    ));
    let main_late = vec![info(1, 0, 1, None, clap_abi::INVALID_ID), info(2, clap_abi::AUDIO_PORT_IS_MAIN, 1, None, clap_abi::INVALID_ID)];
    assert!(matches!(
        audio_port_config(&vec![], &main_late, false, false),
        Err(AudioPortsError::MainNotFirst { is_input: false, index: 1, id: 2 })
    ));
    let prefers = vec![info(1, clap_abi::AUDIO_PORT_PREFERS_64BITS, 1, None, clap_abi::INVALID_ID)];
    assert!(matches!(
        audio_port_config(&prefers, &vec![], false, false),
        Err(AudioPortsError::PrefersUnsupported64 { is_input: true, index: 0, id: 1 })
    ));
    let missing = vec![info(1, 0, 1, None, 7)];
    assert!(matches!(
        audio_port_config(&missing, &vec![], false, false),
        Err(AudioPortsError::PairMissing { is_input: true, index: 0, id: 1, pair_id: 7 })
    ));
    let bad_type = vec![info(1, 0, 3, Some(b"stereo"), clap_abi::INVALID_ID)];
    assert!(matches!(
        audio_port_config(&bad_type, &vec![], false, false),
        Err(AudioPortsError::InconsistentType { is_input: true, index: 0, error: PortTypeError::ExpectedStereo { channel_count: 3 } })
    ));
    let common_in = vec![info(1, clap_abi::AUDIO_PORT_REQUIRES_COMMON_SAMPLE_SIZE | clap_abi::AUDIO_PORT_SUPPORTS_64BITS, 1, None, clap_abi::INVALID_ID)];
    let common_out = vec![info(2, clap_abi::AUDIO_PORT_REQUIRES_COMMON_SAMPLE_SIZE, 1, None, clap_abi::INVALID_ID)];
    assert!(matches!(
        audio_port_config(&common_in, &common_out, false, false),
        Err(AudioPortsError::MixedCommonSampleSize)
    ));
}

fn port(channels: u32, pair: Option<usize>) -> AudioPort {
    AudioPort {
        is_main: false,
        num_channels: channels,
        in_place_pair_idx: pair,
        supports_double_sample_size: false,
        requires_common_sample_size: false,
    }
}

fn buf(input: Option<usize>, output: Option<usize>, channels: u32) -> AudioBuffer {
    AudioBuffer { input, output, channels, is_64bit: false }
}

#[test]
fn out_of_place_layout_has_a_buffer_per_port() {
    let config = AudioPortConfig { inputs: vec![port(2, None)], outputs: vec![port(2, None), port(1, None)] };
    assert_eq!(
        out_of_place_layout(&config),
        vec![buf(Some(0), None, 2), buf(None, Some(0), 2), buf(None, Some(1), 1)]
    );
}

#[test]
fn in_place_layout_shares_buffers_of_matching_pairs() {
    let config = AudioPortConfig {
        inputs: vec![port(2, Some(0)), port(1, Some(1)), port(2, None)],
        outputs: vec![port(2, Some(0)), port(2, Some(1))],
    };
    assert_eq!(
        in_place_layout(&config),
        Ok(vec![buf(Some(1), None, 1), buf(Some(2), None, 2), buf(Some(0), Some(0), 2), buf(None, Some(1), 2)])
    );
}

#[test]
fn in_place_layout_rejects_inconsistent_pairs() {
    let one_sided = AudioPortConfig { inputs: vec![port(2, Some(0))], outputs: vec![port(2, None)] };
    assert_eq!(in_place_layout(&one_sided), Err(InPlacePairError::Input { input: 0, pair: 0 }));
    let out_of_range = AudioPortConfig { inputs: vec![port(2, None), port(2, Some(3))], outputs: vec![port(2, None)] };
    assert_eq!(in_place_layout(&out_of_range), Err(InPlacePairError::Input { input: 1, pair: 3 }));
    let output_only = AudioPortConfig { inputs: vec![port(2, None)], outputs: vec![port(2, None), port(2, Some(0))] };
    assert_eq!(in_place_layout(&output_only), Err(InPlacePairError::Output { output: 1, pair: 0 }));
    let crossed = AudioPortConfig {
        inputs: vec![port(2, Some(0)), port(2, Some(0))],
        outputs: vec![port(2, Some(0))],
    };
    assert_eq!(in_place_layout(&crossed), Err(InPlacePairError::Input { input: 1, pair: 0 }));
}

#[test]
fn bus_channel_counts_need_every_bus() {
    let layout = vec![buf(Some(1), None, 1), buf(Some(0), Some(0), 2), buf(None, Some(1), 3)];
    assert!(buses_complete(&layout, true) && buses_complete(&layout, false));
    assert_eq!(bus_channel_counts(&layout, true), vec![2, 1]);
    assert_eq!(bus_channel_counts(&layout, false), vec![2, 3]);
    let gap = vec![buf(Some(2), None, 1)];
    assert!(!buses_complete(&gap, true));
    assert!(buses_complete(&gap, false));
    assert_eq!(bus_channel_counts(&gap, false), Vec::<u32>::new());
    let output_gap = vec![buf(None, Some(1), 1)];
    assert!(!buses_complete(&output_gap, false));
    let twice = vec![buf(Some(0), None, 1), buf(Some(0), None, 4)];
    assert_eq!(bus_channel_counts(&twice, true), vec![4]);
}

#[test]
fn silent_input_mask_sets_a_bit_per_channel() {
    assert_eq!(silent_input_mask(0), 0);
    assert_eq!(silent_input_mask(1), 1);
    assert_eq!(silent_input_mask(2), 3);
    assert_eq!(silent_input_mask(63), u64::MAX >> 1);
    assert_eq!(silent_input_mask(64), u64::MAX);
    assert_eq!(silent_input_mask(100), u64::MAX);
    for n in [0u32, 1, 5, 64, 70] {
        assert_eq!(silent_input_mask(n), 1u64.unbounded_shl(n).wrapping_sub(1));
    }
}

#[test]
fn consistency_accepts_a_clean_call() {
    let one = 1.0f32.to_bits();
    let input = BufferContents { layout: buf(Some(0), None, 1), data: SampleData::F32(vec![vec![one, one]]) };
    let output = BufferContents { layout: buf(None, Some(0), 1), data: SampleData::F32(vec![vec![0.5f32.to_bits(), 0.0f32.to_bits()]]) };
    let original = vec![SampleData::F32(vec![vec![one, one]]), SampleData::F32(vec![vec![0, 0]])];
    assert_eq!(check_process_call_consistency(&vec![input, output], &original, &vec![ev(0, 0), ev(1, 0)], 2), Ok(()));
}

#[test]
fn consistency_reports_overwritten_inputs() {
    let input = BufferContents { layout: buf(Some(3), None, 1), data: SampleData::F32(vec![vec![2.0f32.to_bits()]]) };
    let original = vec![SampleData::F32(vec![vec![1.0f32.to_bits()]])];
    assert_eq!(
        check_process_call_consistency(&vec![input], &original, &vec![], 1),
        Err(ConsistencyError::InputOverwritten { index: 3 })
    );
    let zeros = BufferContents { layout: buf(Some(0), None, 1), data: SampleData::F64(vec![vec![(-0.0f64).to_bits()]]) };
    assert_eq!(check_process_call_consistency(&vec![zeros], &vec![SampleData::F64(vec![vec![0.0f64.to_bits()]])], &vec![], 1), Ok(()));
    let nan = BufferContents { layout: buf(Some(0), None, 1), data: SampleData::F32(vec![vec![f32::NAN.to_bits()]]) };
    assert_eq!(
        check_process_call_consistency(&vec![nan], &vec![SampleData::F32(vec![vec![f32::NAN.to_bits()]])], &vec![], 1),
        Err(ConsistencyError::InputOverwritten { index: 0 })
    );
}

#[test]
fn consistency_reports_bad_output_samples() {
    let check = |data: SampleData| {
        let b = BufferContents { layout: buf(Some(0), Some(2), 2), data: data.clone() };
        check_process_call_consistency(&vec![b], &vec![data], &vec![], 2)
    };
    assert_eq!(
        check(SampleData::F32(vec![vec![0, 0], vec![0, CHECK_NAN_F32]])),
        Err(ConsistencyError::BadSample { port: 2, channel: 1, sample: 1, problem: SampleProblem::Unwritten })
    );
    assert_eq!(
        check(SampleData::F32(vec![vec![f32::INFINITY.to_bits(), 1], vec![0, 0]])),
        Err(ConsistencyError::BadSample { port: 2, channel: 0, sample: 0, problem: SampleProblem::NotFinite })
    );
    assert_eq!(
        check(SampleData::F32(vec![vec![0, 1], vec![f32::NAN.to_bits(), 0]])),
        Err(ConsistencyError::BadSample { port: 2, channel: 0, sample: 1, problem: SampleProblem::Subnormal })
    );
    assert_eq!(
        check(SampleData::F64(vec![vec![0, CHECK_NAN_F64], vec![0, 0]])),
        Err(ConsistencyError::BadSample { port: 2, channel: 0, sample: 1, problem: SampleProblem::Unwritten })
    );
    assert_eq!(check(SampleData::F64(vec![vec![1.5f64.to_bits(), 0], vec![0, 0]])), Ok(()));
}

#[test]
fn consistency_checks_events_after_buffers() {
    assert_eq!(
        check_process_call_consistency(&vec![], &vec![], &vec![ev(3, 0)], 2),
        Err(ConsistencyError::Events(OutputEventError::BeyondBlock { time: 3, block_size: 2 }))
    );
}

#[test]
fn calls_before_a_block() {
    assert_eq!(calls_before_process(PluginStatus::Deactivated, false), (vec![Activate, StartProcessing], true));
    assert_eq!(calls_before_process(PluginStatus::Activated, false), (vec![StartProcessing], false));
    assert_eq!(calls_before_process(PluginStatus::Processing, false), (vec![], false));
    assert_eq!(
        calls_before_process(PluginStatus::Processing, true),
        (vec![StopProcessing, Deactivate, Activate, StartProcessing], true)
    );
    assert_eq!(restart_calls(PluginStatus::Activated), vec![Deactivate]);
    assert_eq!(restart_calls(PluginStatus::Deactivated), vec![]);
    assert!(resets_plugin(PluginStatus::Processing));
    assert!(!resets_plugin(PluginStatus::Deactivated));
}

#[test]
fn ordered_queue_is_judged_by_its_last_event() {
    let mut q = InputEventQueue::new();
    q.add_events(vec![ev(0, 0)]);
    q.add_events(vec![ev(7, 1), ev(2, 2)]);
    assert_eq!(q.last_event_time(), Some(7));
    assert!(!q.fits_block(7));
    assert!(q.fits_block(8));
}

#[test]
fn configuration_requests_as_handed_to_the_plugin() {
    let requests = vec![
        AudioPortsRequest { is_input: true, port_index: 0, request_info: AudioPortsRequestInfo::Stereo },
        AudioPortsRequest { is_input: false, port_index: 2, request_info: AudioPortsRequestInfo::Surround { channel_map: vec![0, 1, 2, 3, 4, 5] } },
        AudioPortsRequest { is_input: false, port_index: 1, request_info: AudioPortsRequestInfo::Untyped { channel_count: 3 } },
        AudioPortsRequest {
            is_input: true,
            port_index: 1,
            request_info: AudioPortsRequestInfo::Ambisonic { channel_count: 9, ordering: 0, normalization: 1 },
        },
    ];
    assert_eq!(
        convert_requests(&requests),
        vec![
            PortConfigurationRequest { is_input: true, port_index: 0, channel_count: 2, port_type: Some(RequestPortType::Stereo) },
            PortConfigurationRequest { is_input: false, port_index: 2, channel_count: 6, port_type: Some(RequestPortType::Surround) },
            PortConfigurationRequest { is_input: false, port_index: 1, channel_count: 3, port_type: None },
            PortConfigurationRequest { is_input: true, port_index: 1, channel_count: 9, port_type: Some(RequestPortType::Ambisonic) },
        ]
    );
    let texts: Vec<String> = requests.iter().map(|r| r.describe()).collect();
    assert_eq!(texts, vec!["Input #0: Stereo", "Output #2: Surround (6ch)", "Output #1: Untyped (3ch)", "Input #1: Ambisonic (9ch)"]);
}

fn config_info(id: u32, main_in: Option<(u32, &[u8])>, main_out: Option<(u32, &[u8])>) -> RawPortsConfigInfo {
    RawPortsConfigInfo {
        id,
        name: format!("config {id}"),
        input_port_count: 1,
        output_port_count: 2,
        has_main_input: main_in.is_some(),
        main_input_channel_count: main_in.map_or(0, |m| m.0),
        main_input_port_type: main_in.map(|m| m.1.to_vec()),
        has_main_output: main_out.is_some(),
        main_output_channel_count: main_out.map_or(0, |m| m.0),
        main_output_port_type: main_out.map(|m| m.1.to_vec()),
    }
}

#[test]
fn enumerate_configs_lists_consistent_configurations() {
    let infos = vec![config_info(7, Some((2, b"stereo")), Some((1, b"mono"))), config_info(9, None, None)];
    let configs = enumerate_configs(&infos, false, false).unwrap();
    assert_eq!(configs.len(), 2);
    assert_eq!(configs[0].id, 7);
    assert_eq!(configs[0].name, "config 7");
    assert_eq!(configs[0].input_port_count, 1);
    assert_eq!(configs[0].output_port_count, 2);
    assert_eq!(configs[0].main_input_channel_count, Some(2));
    assert_eq!(configs[0].main_output_channel_count, Some(1));
    assert_eq!(configs[1].main_input_channel_count, None);
    assert_eq!(configs[1].main_output_channel_count, None);
}

#[test]
fn enumerate_configs_reports_first_inconsistent_main_port() {
    let infos = vec![
        config_info(1, Some((2, b"stereo")), None),
        config_info(2, Some((2, b"stereo")), Some((3, b"stereo"))),
        config_info(3, Some((3, b"mono")), None),
    ];
    assert_eq!(
        enumerate_configs(&infos, false, false).unwrap_err(),
        PortsConfigError::InconsistentMainOutput { config: 1, error: PortTypeError::ExpectedStereo { channel_count: 3 } }
    );
    let surround = vec![config_info(4, Some((6, b"surround")), None)];
    assert_eq!(
        enumerate_configs(&surround, false, false).unwrap_err(),
        PortsConfigError::InconsistentMainInput { config: 0, error: PortTypeError::SurroundWithoutExtension }
    );
    assert!(enumerate_configs(&surround, false, true).is_ok());
}

#[test]
fn reported_channel_map_keeps_reported_channels() {
    assert_eq!(reported_channel_map(vec![1, 2, 3, 4], 2), vec![1, 2]);
    assert_eq!(reported_channel_map(vec![1, 2], 5), vec![1, 2]);
    assert_eq!(reported_channel_map(vec![1, 2], 0), Vec::<u8>::new());
}

fn double_port(channels: u32, pair: Option<usize>, supports_double: bool) -> AudioPort {
    AudioPort { supports_double_sample_size: supports_double, ..port(channels, pair) }
}

#[test]
fn with_precision_needs_every_served_bus_to_support_doubles() {
    let config = AudioPortConfig {
        inputs: vec![double_port(2, Some(0), true), double_port(1, None, false)],
        outputs: vec![double_port(2, Some(0), false), double_port(2, None, true)],
    };
    let in_place = in_place_layout(&config).unwrap();
    assert_eq!(in_place, vec![buf(Some(1), None, 1), buf(Some(0), Some(0), 2), buf(None, Some(1), 2)]);
    let doubles: Vec<bool> = with_precision(in_place.clone(), &config, true).iter().map(|b| b.is_64bit).collect();
    assert_eq!(doubles, vec![false, false, true]);
    let singles = with_precision(in_place.clone(), &config, false);
    assert_eq!(singles, in_place);
    let out_of_place: Vec<bool> =
        with_precision(out_of_place_layout(&config), &config, true).iter().map(|b| b.is_64bit).collect();
    assert_eq!(out_of_place, vec![true, false, false, true]);
}

#[test]
fn status_assertions_accept_matching_states() {
    PluginStatus::Activated.assert_is(PluginStatus::Activated);
    PluginStatus::Deactivated.assert_is_not(PluginStatus::Processing);
    PluginStatus::Processing.assert_active();
    PluginStatus::Deactivated.assert_inactive();
    assert!(PluginStatus::Processing.is_active());
    assert!(!PluginStatus::Activating.is_active());
}

#[test]
fn durations_written_together_add_up() {
    for (a, b) in [("1h", "30m"), ("2min", "5s"), ("10ms", "1hr"), ("3seconds", "4millis")] {
        let joined = format!("{a}{b}");
        assert_eq!(parse_duration(&joined).unwrap(), parse_duration(a).unwrap() + parse_duration(b).unwrap());
    }
}
