use clap_sys::plugin_features;
use clap_validator::descriptor::{features_categories, features_duplicates, has_duplicate_feature, sort_strings};
use clap_validator::status::TestStatus;
use clap_validator::suite::{plugin_test_list, selected_plugin_tests, PluginTestCase};
use clap_validator::validate::{sandboxed_status, TestFilter};

fn strings(items: &[&str]) -> Vec<String> {
    items.iter().map(|s| s.to_string()).collect()
}

#[test]
fn test_case_names_round_trip() {
    let all = PluginTestCase::all();
    assert_eq!(all.len(), 34);
    for case in &all {
        assert_eq!(PluginTestCase::from_name(&case.name().to_string()), Some(*case));
    }
    assert_eq!(all[0].name(), "descriptor-consistency");
    assert_eq!(all[33].name(), "transport-fuzz-sample-accurate");
    assert_eq!(PluginTestCase::from_name(&"state-invalid-empty".to_string()), Some(PluginTestCase::StateInvalidEmpty));
    assert_eq!(PluginTestCase::from_name(&"no-such-test".to_string()), None);
    assert_eq!(PluginTestCase::from_name(&"".to_string()), None);
}

#[test]
fn test_case_descriptions_name_the_tests_they_build_on() {
    assert_eq!(
        PluginTestCase::ProcessAudioDoubleInPlace.description(),
        "Same as 'process-audio-basic-in-place', but uses 64-bit floating point audio buffers instead of 32-bit ones \
         for ports that support it."
    );
    assert_eq!(
        PluginTestCase::ParamFuzzBasic.description(),
        "Generates 50 sets of random parameter values, sets those on the plugin, and has the plugin process 5 buffers \
         of random audio and note events. The plugin passes the test if it doesn't produce any infinite or NaN values, \
         and doesn't crash."
    );
    assert_eq!(
        PluginTestCase::StateInvalidEmpty.description(),
        "The plugin should return false when 'clap_plugin_state::load()' is called with an empty state."
    );
}

#[test]
fn plugin_test_list_follows_the_suite_order() {
    let list = plugin_test_list();
    assert_eq!(list.len(), 34);
    assert_eq!(list[1].name, "features-categories");
    assert_eq!(list[1].description, "The plugin needs to have at least one of the main CLAP category features.");
}

#[test]
fn selected_plugin_tests_apply_filter_exclusions_and_config() {
    let filter = TestFilter::new(&strings(&["^state-"]), &strings(&["random"])).unwrap();
    let mut enabled = vec![true; 34];
    let selected = selected_plugin_tests(&filter, &enabled);
    assert_eq!(
        selected,
        vec![
            PluginTestCase::StateInvalidEmpty,
            PluginTestCase::StateReproducibilityBasic,
            PluginTestCase::StateReproducibilityNullCookies,
            PluginTestCase::StateReproducibilityFlush,
            PluginTestCase::StateBufferedStreams,
        ]
    );
    enabled[25] = false;
    assert_eq!(selected_plugin_tests(&filter, &enabled)[0], PluginTestCase::StateReproducibilityBasic);
    let everything = TestFilter::new(&vec![], &vec![]).unwrap();
    assert_eq!(selected_plugin_tests(&everything, &vec![true; 34]), PluginTestCase::all());
}

#[test]
fn features_categories_needs_a_main_category() {
    assert!(matches!(
        features_categories(&strings(&["stereo", "audio-effect"])),
        Ok(TestStatus::Success { details: None })
    ));
    assert!(matches!(features_categories(&strings(&["note-detector"])), Ok(TestStatus::Success { details: None })));
    assert_eq!(
        features_categories(&strings(&["stereo", "reverb"])).unwrap_err(),
        "The plugin needs to have at least one of the following plugin category features: \"instrument\", \
         \"audio-effect\", \"note-effect\", or \"analyzer\"."
    );
    assert!(features_categories(&vec![]).is_err());
}

#[test]
fn main_category_names_match_clap_sys() {
    for feature in [
        plugin_features::CLAP_PLUGIN_FEATURE_INSTRUMENT,
        plugin_features::CLAP_PLUGIN_FEATURE_AUDIO_EFFECT,
        plugin_features::CLAP_PLUGIN_FEATURE_NOTE_DETECTOR,
        plugin_features::CLAP_PLUGIN_FEATURE_NOTE_EFFECT,
        plugin_features::CLAP_PLUGIN_FEATURE_ANALYZER,
    ] {
        let name = feature.to_str().unwrap().to_string();
        assert!(features_categories(&vec![name]).is_ok());
    }
    let other = plugin_features::CLAP_PLUGIN_FEATURE_SYNTHESIZER.to_str().unwrap().to_string();
    assert!(features_categories(&vec![other]).is_err());
}

#[test]
fn features_duplicates_lists_sorted_features() {
    assert!(matches!(
        features_duplicates(strings(&["instrument", "stereo"])),
        Ok(TestStatus::Success { details: None })
    ));
    assert_eq!(
        features_duplicates(strings(&["stereo", "instrument", "stereo"])).unwrap_err(),
        "The plugin has duplicate features: [\"instrument\", \"stereo\", \"stereo\"]"
    );
    assert!(has_duplicate_feature(&strings(&["a", "b", "a"])));
    assert!(!has_duplicate_feature(&strings(&["a", "b", "c"])));
    assert_eq!(sort_strings(strings(&["b", "a", "c", "a"])), strings(&["a", "a", "b", "c"]));
}

#[test]
fn sandboxed_status_maps_errors_and_panics() {
    assert!(matches!(
        sandboxed_status(Ok(Ok(TestStatus::Skipped { details: None }))),
        TestStatus::Skipped { details: None }
    ));
    match sandboxed_status(Ok(Err("bad state".to_string()))) {
        TestStatus::Failed { details: Some(d) } => assert_eq!(d, "bad state"),
        other => panic!("unexpected status {other:?}"),
    }
    match sandboxed_status(Err("boom".to_string())) {
        TestStatus::Crashed { details } => assert_eq!(details, "boom"),
        other => panic!("unexpected status {other:?}"),
    }
}
