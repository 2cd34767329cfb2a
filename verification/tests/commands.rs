use clap_validator::fuzz::{
    blocks_for, block_size, discover, fuzz, max_buffer_size, min_buffer_size, BlockSizeChoice, FuzzError, FuzzPlan,
};
use clap_validator::host::{
    check_audio_thread, check_main_thread, check_not_audio_thread, host_extension, FuzzFlags, HostExtension,
    ThreadViolation,
};
use clap_validator::plugin_state::CallbackEvent;
use clap_validator::settings::{
    sandbox_arguments, FuzzSettings, LogLevel, SandboxConfig, SandboxOperationKind, SandboxPayload, UnknownSandboxId,
    ValidatorSettings, Verbosity,
};
use clap_validator::listing::ScanStatus;
use clap_validator::settings::{sandbox_failure, scan_exit_status, ChildExit};

fn validator_settings(filter: Option<&str>, in_process: bool, no_parallel: bool) -> ValidatorSettings {
    ValidatorSettings {
        paths: vec!["/a.clap".to_string()],
        plugin_id: None,
        json: false,
        filter: filter.map(|f| f.to_string()),
        hide_output: true,
        only_failed: false,
        in_process,
        no_parallel,
        trace: false,
    }
}

#[test]
fn verbosity_names_round_trip() {
    let all = [Verbosity::Quiet, Verbosity::Error, Verbosity::Warn, Verbosity::Info, Verbosity::Debug, Verbosity::Trace];
    let names: Vec<&str> = all.iter().map(|v| v.name()).collect();
    assert_eq!(names, vec!["quiet", "error", "warn", "info", "debug", "trace"]);
    for v in all {
        assert_eq!(Verbosity::from_name(&v.name().to_string()), Some(v));
    }
    assert_eq!(Verbosity::from_name(&"loud".to_string()), None);
    assert_eq!(Verbosity::Quiet.level(), LogLevel::Off);
    assert_eq!(Verbosity::Trace.level(), LogLevel::Trace);
}

#[test]
fn validator_settings_decide_parallelism_and_sandboxing() {
    assert!(validator_settings(None, false, false).runs_in_parallel());
    assert!(!validator_settings(None, true, false).runs_in_parallel());
    assert!(!validator_settings(None, false, true).runs_in_parallel());
    assert_eq!(validator_settings(None, true, false).sandbox_config(Verbosity::Info), None);
    assert_eq!(
        validator_settings(None, false, false).sandbox_config(Verbosity::Debug),
        Some(SandboxConfig { hide_output: true, verbosity: Verbosity::Debug, timeout_secs: Some(30) })
    );
}

#[test]
fn test_filter_ignores_case() {
    let f = validator_settings(Some("PARAM-"), false, false).test_filter().unwrap();
    assert!(f.allows(true, "param-conversions"));
    assert!(!f.allows(true, "state-invalid-empty"));
    let all = validator_settings(None, false, false).test_filter().unwrap();
    assert!(all.allows(true, "state-invalid-empty"));
    match validator_settings(Some("("), false, false).test_filter() {
        Err(clap_validator::validate::FilterError::Filter { index, pattern, .. }) => {
            assert_eq!(index, 0);
            assert_eq!(pattern, "(");
        }
        _ => panic!("an unbalanced filter must not compile"),
    }
}

#[test]
fn sandbox_payload_operations() {
    let payload = |id: &str| SandboxPayload { sandbox_id: id.to_string(), sandbox_data: "{}".to_string(), output_file: "/tmp/o".to_string() };
    assert_eq!(payload("validate").operation(), Ok(SandboxOperationKind::Validation));
    assert_eq!(payload("fuzz").operation(), Ok(SandboxOperationKind::FuzzerChunk));
    assert_eq!(payload("other").operation(), Err(UnknownSandboxId));
    assert_eq!(
        sandbox_arguments(Verbosity::Warn, SandboxOperationKind::FuzzerChunk, "{\"seed\":1}".to_string(), "/tmp/out.json".to_string()),
        vec!["--verbosity", "warn", "sandbox", "fuzz", "{\"seed\":1}", "/tmp/out.json"]
    );
}

fn fuzz_settings(plugin_id: Option<&str>, reproduce: Option<u64>, duration_millis: Option<u128>) -> FuzzSettings {
    FuzzSettings {
        paths: vec![],
        plugin_id: plugin_id.map(|p| p.to_string()),
        json: false,
        hide_output: false,
        duration_millis,
        jobs: None,
        reproduce,
        trace: false,
    }
}

fn discovered() -> Vec<(String, Vec<String>)> {
    vec![
        ("/a.clap".to_string(), vec!["x".to_string(), "y".to_string()]),
        ("/b.clap".to_string(), vec!["y".to_string()]),
    ]
}

#[test]
fn discover_filters_by_plugin_id() {
    assert_eq!(
        discover(&discovered(), &None),
        vec![
            ("/a.clap".to_string(), "x".to_string()),
            ("/a.clap".to_string(), "y".to_string()),
            ("/b.clap".to_string(), "y".to_string()),
        ]
    );
    assert_eq!(
        discover(&discovered(), &Some("y".to_string())),
        vec![("/a.clap".to_string(), "y".to_string()), ("/b.clap".to_string(), "y".to_string())]
    );
}

#[test]
fn fuzz_plan_errors_and_reproduction() {
    assert!(matches!(fuzz(&fuzz_settings(Some("z"), None, None), &discovered()), Err(FuzzError::NoPluginsSelected)));
    assert!(matches!(fuzz(&fuzz_settings(None, Some(3), None), &discovered()), Err(FuzzError::ReproduceNeedsOnePlugin)));
    match fuzz(&fuzz_settings(Some("x"), Some(3), None), &discovered()) {
        Ok(FuzzPlan::Reproduce { library, plugin_id, seed }) => {
            assert_eq!((library.as_str(), plugin_id.as_str(), seed), ("/a.clap", "x", 3));
        }
        _ => panic!("expected a reproduction"),
    }
}

#[test]
fn fuzz_schedule_is_round_robin_until_time_runs_out() {
    let mut schedule = match fuzz(&fuzz_settings(Some("y"), None, Some(1000)), &discovered()) {
        Ok(FuzzPlan::RoundRobin(s)) => s,
        _ => panic!("expected a schedule"),
    };
    let a = schedule.next_chunk(11, 0).unwrap();
    let b = schedule.next_chunk(12, 10).unwrap();
    let c = schedule.next_chunk(13, 999).unwrap();
    assert_eq!((a.library.as_str(), a.seed), ("/a.clap", 11));
    assert_eq!((b.library.as_str(), b.seed), ("/b.clap", 12));
    assert_eq!((c.library.as_str(), c.plugin_id.as_str()), ("/a.clap", "y"));
    assert!(schedule.next_chunk(14, 1000).is_none());
}

#[test]
fn fuzz_round_sizes() {
    assert_eq!(blocks_for(20000, 512), 40);
    assert_eq!(blocks_for(20001, 512), 40);
    assert_eq!(blocks_for(20480, 512), 40);
    assert_eq!(blocks_for(20481, 512), 41);
    assert_eq!(blocks_for(0, 7), 0);
    assert_eq!(blocks_for(u32::MAX, 1), u32::MAX);
    assert_eq!(min_buffer_size(512, true, true, 3), 512);
    assert_eq!(min_buffer_size(512, false, true, 3), 1);
    assert_eq!(min_buffer_size(512, false, false, 3), 3);
    assert_eq!(block_size(BlockSizeChoice::Drawn(9), 2, 64), 9);
    assert_eq!(block_size(BlockSizeChoice::Largest, 2, 64), 64);
    assert_eq!(block_size(BlockSizeChoice::Smallest, 2, 64), 2);
}

#[test]
fn host_extensions_by_id() {
    assert_eq!(host_extension("clap.audio-ports"), Some(HostExtension::AudioPorts));
    assert_eq!(host_extension("clap.preset-load/2"), Some(HostExtension::PresetLoad));
    assert_eq!(host_extension("clap.voice-info"), Some(HostExtension::VoiceInfo));
    assert_eq!(host_extension("clap.gui"), None);
    let ids = [
        (clap_sys::ext::audio_ports::CLAP_EXT_AUDIO_PORTS, HostExtension::AudioPorts),
        (clap_sys::ext::note_ports::CLAP_EXT_NOTE_PORTS, HostExtension::NotePorts),
        (clap_sys::ext::preset_load::CLAP_EXT_PRESET_LOAD, HostExtension::PresetLoad),
        (clap_sys::ext::params::CLAP_EXT_PARAMS, HostExtension::Params),
        (clap_sys::ext::state::CLAP_EXT_STATE, HostExtension::State),
        (clap_sys::ext::thread_check::CLAP_EXT_THREAD_CHECK, HostExtension::ThreadCheck),
        (clap_sys::ext::latency::CLAP_EXT_LATENCY, HostExtension::Latency),
        (clap_sys::ext::tail::CLAP_EXT_TAIL, HostExtension::Tail),
        (clap_sys::ext::voice_info::CLAP_EXT_VOICE_INFO, HostExtension::VoiceInfo),
    ];
    for (id, ext) in ids {
        assert_eq!(host_extension(id.to_str().unwrap()), Some(ext));
        assert_eq!(ext.id(), id.to_str().unwrap());
    }
}

#[test]
fn thread_checks() {
    assert_eq!(check_main_thread(true), None);
    assert_eq!(check_main_thread(false), Some(ThreadViolation::NotMainThread));
    assert_eq!(check_audio_thread(true, false), None);
    assert_eq!(check_audio_thread(false, true), Some(ThreadViolation::AudioFunctionOnMainThread));
    assert_eq!(check_audio_thread(false, false), Some(ThreadViolation::AudioFunctionOnUnknownThread));
    assert_eq!(check_not_audio_thread(true), Some(ThreadViolation::OnAudioThread));
    assert_eq!(check_not_audio_thread(false), None);
}

#[test]
fn fuzz_flags_follow_callbacks() {
    let start = FuzzFlags { is_sleeping: true, audio_config_changed: false, note_config_changed: false, params_changed: false };
    assert!(!start.after_callback(CallbackEvent::RequestProcess).is_sleeping);
    assert!(start.after_callback(CallbackEvent::RescanAudioPortsAll).audio_config_changed);
    assert!(start.after_callback(CallbackEvent::RescanNotePortsAll).note_config_changed);
    assert!(start.after_callback(CallbackEvent::RescanParamsInfo).params_changed);
    assert!(start.after_callback(CallbackEvent::RescanParamsAll).params_changed);
    assert_eq!(start.after_callback(CallbackEvent::RescanParamsValues), start);
    assert_eq!(start.after_callback(CallbackEvent::RescanAudioPortsNames), start);
}

#[test]
fn child_process_outcomes() {
    assert_eq!(sandbox_failure(ChildExit::TimedOut, 30), Some("Timed out after 30 seconds".to_string()));
    assert_eq!(sandbox_failure(ChildExit::Failed { status: "exit status: 3".to_string() }, 30), Some("exit status: 3".to_string()));
    assert_eq!(sandbox_failure(ChildExit::Succeeded, 30), None);
    assert!(matches!(scan_exit_status(ChildExit::TimedOut, 30), Some(ScanStatus::Crashed { ref details }) if details == "Timed out after 30 seconds"));
    assert!(scan_exit_status(ChildExit::Succeeded, 30).is_none());
}

#[test]
fn max_buffer_size_uses_presets_unless_drawn() {
    assert_eq!(max_buffer_size(false, 0, 9999), 64);
    assert_eq!(max_buffer_size(false, 6, 9999), 4096);
    assert_eq!(max_buffer_size(false, 3, 1), 512);
    assert_eq!(max_buffer_size(true, 3, 777), 777);
    assert_eq!(blocks_for(20000, 4096), 5);
    assert_eq!(blocks_for(20480, 4096), 5);
    assert_eq!(blocks_for(0, 64), 0);
}
