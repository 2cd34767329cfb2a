use clap_validator::status::{Elapsed, TestResult, TestStatus};
use clap_validator::text::compare_strings;
use clap_validator::validate::{
    check_plugin_matched, library_result, merge_results, plugin_selected, plugins_to_validate, sort_results,
    sort_tests_by_name,
    test_result, MergeError, TestFilter, FilterError,
};
use clap_validator::validator::{run_failed, ValidationResult, ValidationTally};

fn result(name: &str, status: TestStatus) -> TestResult {
    TestResult {
        name: name.to_string(),
        description: format!("{name} description"),
        status,
        duration: Elapsed::from_millis(3),
    }
}

fn passed(name: &str) -> TestResult {
    result(name, TestStatus::Success { details: None })
}

#[test]
fn failed_or_warning_matches_statuses() {
    assert!(!TestStatus::Success { details: None }.failed_or_warning());
    assert!(!TestStatus::Skipped { details: None }.failed_or_warning());
    assert!(TestStatus::Warning { details: None }.failed_or_warning());
    assert!(TestStatus::Failed { details: None }.failed_or_warning());
    assert!(TestStatus::Crashed { details: "boom".to_string() }.failed_or_warning());
}

#[test]
fn details_of_each_status() {
    assert_eq!(TestStatus::Success { details: Some("ok".to_string()) }.details(), Some("ok"));
    assert_eq!(TestStatus::Failed { details: None }.details(), None);
    assert_eq!(TestStatus::Crashed { details: "segfault".to_string() }.details(), Some("segfault"));
}

#[test]
fn compare_strings_orders_lexicographically() {
    assert!(compare_strings(&"abc".to_string(), &"abd".to_string()) < 0);
    assert!(compare_strings(&"abd".to_string(), &"abc".to_string()) > 0);
    assert_eq!(compare_strings(&"abc".to_string(), &"abc".to_string()), 0);
    assert!(compare_strings(&"ab".to_string(), &"abc".to_string()) < 0);
}

#[test]
fn tally_counts_every_status() {
    let mut r = ValidationResult::new();
    r.insert_library_tests(
        "/lib.clap".to_string(),
        vec![passed("a"), result("b", TestStatus::Skipped { details: None })],
    );
    r.insert_plugin_tests(
        "com.example.plugin".to_string(),
        vec![
            result("c", TestStatus::Failed { details: None }),
            result("d", TestStatus::Crashed { details: "x".to_string() }),
            result("e", TestStatus::Warning { details: None }),
        ],
    );
    let t = r.tally();
    assert_eq!((t.num_passed, t.num_failed, t.num_skipped, t.num_warnings), (1, 2, 1, 1));
    assert_eq!(t.total(), 5);
}

#[test]
fn tally_total_adds_the_counts() {
    let t = ValidationTally { num_passed: 3, num_failed: 4, num_skipped: 5, num_warnings: 6 };
    assert_eq!(t.total(), 18);
}

#[test]
fn insert_replaces_results_of_the_same_key() {
    let mut r = ValidationResult::new();
    r.insert_plugin_tests("b".to_string(), vec![passed("x")]);
    r.insert_plugin_tests("a".to_string(), vec![passed("y")]);
    r.insert_plugin_tests("b".to_string(), vec![passed("z"), passed("w")]);
    let keys: Vec<&str> = r.plugin_tests.iter().map(|(k, _)| k.as_str()).collect();
    assert_eq!(keys, vec!["a", "b"]);
    assert_eq!(r.plugin_tests[1].1.len(), 2);
}

#[test]
fn intersects_and_union_of_results() {
    let mut a = ValidationResult::new();
    a.insert_plugin_tests("p1".to_string(), vec![passed("t")]);
    let mut b = ValidationResult::new();
    b.insert_plugin_tests("p2".to_string(), vec![passed("t")]);
    let mut c = ValidationResult::new();
    c.insert_plugin_tests("p1".to_string(), vec![]);
    assert!(!a.intersects(&b));
    assert!(a.intersects(&c));
    let u = a.union(b);
    let keys: Vec<&str> = u.plugin_tests.iter().map(|(k, _)| k.as_str()).collect();
    assert_eq!(keys, vec!["p1", "p2"]);
}

#[test]
fn union_prefers_the_right_hand_side() {
    let mut a = ValidationResult::new();
    a.insert_plugin_tests("p".to_string(), vec![passed("x")]);
    let mut b = ValidationResult::new();
    b.insert_plugin_tests("p".to_string(), vec![passed("y"), passed("z")]);
    let u = a.union(b);
    assert_eq!(u.plugin_tests.len(), 1);
    assert_eq!(u.plugin_tests[0].1.len(), 2);
}

#[test]
fn disjoint_union_in_either_order_holds_the_same_keys() {
    let make = |k: &str| {
        let mut r = ValidationResult::new();
        r.insert_plugin_tests(k.to_string(), vec![passed("t")]);
        r
    };
    let ab = make("a").union(make("b"));
    let ba = make("b").union(make("a"));
    let keys = |r: &ValidationResult| r.plugin_tests.iter().map(|(k, _)| k.clone()).collect::<Vec<_>>();
    assert_eq!(keys(&ab), keys(&ba));
}

#[test]
fn filter_only_failed_keeps_keys() {
    let mut r = ValidationResult::new();
    r.insert_plugin_tests(
        "p".to_string(),
        vec![passed("a"), result("b", TestStatus::Failed { details: None }), passed("c")],
    );
    let f = r.filter(|t: &TestResult| t.status.failed_or_warning());
    assert_eq!(f.plugin_tests.len(), 1);
    assert_eq!(f.plugin_tests[0].1.len(), 1);
    assert_eq!(f.plugin_tests[0].1[0].name, "b");
    let t = f.tally();
    assert_eq!((t.num_passed, t.num_skipped, t.num_failed), (0, 0, 1));
}

#[test]
fn sort_tests_is_stable_by_name() {
    let tests = vec![
        result("b", TestStatus::Success { details: Some("1".to_string()) }),
        passed("a"),
        result("b", TestStatus::Success { details: Some("2".to_string()) }),
        passed("c"),
    ];
    let sorted = sort_tests_by_name(tests);
    let names: Vec<&str> = sorted.iter().map(|t| t.name.as_str()).collect();
    assert_eq!(names, vec!["a", "b", "b", "c"]);
    assert_eq!(sorted[1].status.details(), Some("1"));
    assert_eq!(sorted[2].status.details(), Some("2"));
}

#[test]
fn sort_results_sorts_each_group() {
    let mut r = ValidationResult::new();
    r.insert_plugin_tests("p".to_string(), vec![passed("z"), passed("m"), passed("a")]);
    let s = sort_results(r);
    let names: Vec<&str> = s.plugin_tests[0].1.iter().map(|t| t.name.as_str()).collect();
    assert_eq!(names, vec!["a", "m", "z"]);
}

#[test]
fn merge_results_refuses_duplicate_plugin_ids() {
    let make = |lib: &str, plugin: &str| library_result(lib.to_string(), vec![], true, vec![(plugin.to_string(), vec![passed("t")])]);
    let merged = merge_results(vec![make("/a.clap", "p1"), make("/b.clap", "p2")]).unwrap();
    assert_eq!(merged.plugin_tests.len(), 2);
    assert_eq!(merged.plugin_library_tests.len(), 2);
    let dup = merge_results(vec![make("/a.clap", "p1"), make("/b.clap", "p1")]);
    assert!(matches!(dup, Err(MergeError::DuplicatePluginId)));
    assert!(merge_results(vec![]).unwrap().plugin_tests.is_empty());
}

#[test]
fn incompatible_library_contributes_nothing() {
    let r = library_result("/old.clap".to_string(), vec![passed("lib-test")], false, vec![("p".to_string(), vec![passed("t")])]);
    assert!(r.plugin_library_tests.is_empty());
    assert!(r.plugin_tests.is_empty());
    let r = library_result("/new.clap".to_string(), vec![passed("lib-test")], true, vec![("p".to_string(), vec![passed("t")])]);
    assert_eq!(r.plugin_library_tests.len(), 1);
    assert_eq!(r.plugin_tests.len(), 1);
}

#[test]
fn plugin_selection_by_id() {
    assert!(plugin_selected(&None, &"anything".to_string()));
    assert!(plugin_selected(&Some("a.b".to_string()), &"a.b".to_string()));
    assert!(!plugin_selected(&Some("a.b".to_string()), &"a.c".to_string()));
}

#[test]
fn unmatched_plugin_id_is_an_error() {
    let empty = ValidationResult::new();
    assert!(check_plugin_matched(&None, &empty).is_ok());
    let err = check_plugin_matched(&Some("x".to_string()), &empty).unwrap_err();
    assert_eq!(err.0, "x");
    let mut some = ValidationResult::new();
    some.insert_plugin_tests("x".to_string(), vec![]);
    assert!(check_plugin_matched(&Some("x".to_string()), &some).is_ok());
}

#[test]
fn failed_run_is_recorded_as_crash() {
    let r = test_result("n".to_string(), "d".to_string(), Err("timed out".to_string()), Elapsed::from_millis(7));
    assert!(matches!(r.status, TestStatus::Crashed { ref details } if details == "timed out"));
    assert_eq!(r.duration, Elapsed::from_millis(7));
    let r = test_result(
        "n".to_string(),
        "d".to_string(),
        Ok((TestStatus::Skipped { details: None }, Elapsed::from_millis(2))),
        Elapsed::from_millis(7),
    );
    assert!(matches!(r.status, TestStatus::Skipped { details: None }));
    assert_eq!(r.duration, Elapsed::from_millis(2));
    assert_eq!((r.name.as_str(), r.description.as_str()), ("n", "d"));
}

#[test]
fn test_filter_selects_and_excludes() {
    let f = TestFilter::new(&vec!["^process-".to_string()], &vec!["double".to_string()]).unwrap();
    assert!(f.allows(true, "process-audio-basic-in-place"));
    assert!(!f.allows(true, "process-audio-double-in-place"));
    assert!(!f.allows(true, "state-invalid-empty"));
    assert!(!f.allows(false, "process-audio-basic-in-place"));
    let all = TestFilter::new(&vec![], &vec![]).unwrap();
    assert!(all.allows(true, "anything"));
}

#[test]
fn invalid_filter_patterns_are_reported() {
    match TestFilter::new(&vec!["ok".to_string(), "foo(bar".to_string()], &vec![]) {
        Err(FilterError::Filter { index, pattern, .. }) => {
            assert_eq!(index, 1);
            assert_eq!(pattern, "foo(bar");
        }
        _ => panic!("expected a filter pattern error"),
    }
    match TestFilter::new(&vec![], &vec!["[".to_string()]) {
        Err(FilterError::Exclude { index, .. }) => assert_eq!(index, 0),
        _ => panic!("expected an exclude pattern error"),
    }
}

#[test]
fn report_order_does_not_depend_on_completion_order() {
    let first = sort_tests_by_name(vec![passed("c"), passed("a"), passed("b")]);
    let second = sort_tests_by_name(vec![passed("b"), passed("c"), passed("a")]);
    let names = |v: &Vec<TestResult>| v.iter().map(|t| t.name.clone()).collect::<Vec<_>>();
    assert_eq!(names(&first), names(&second));
    assert_eq!(names(&first), vec!["a", "b", "c"]);
}

#[test]
fn serialized_test_kind_round_trip() {
    use_kind_round_trip(clap_validator::status::TestKind::Plugin, "plugin");
    use_kind_round_trip(clap_validator::status::TestKind::PluginLibrary, "plugin_library");
    let other = clap_validator::status::SerializedTest { test_type: "other".to_string(), test_name: "t".to_string(), data: "{}".to_string() };
    assert_eq!(other.kind(), None);
}

fn use_kind_round_trip(kind: clap_validator::status::TestKind, name: &str) {
    let t = clap_validator::status::SerializedTest::new(kind, "t".to_string(), "{}".to_string());
    assert_eq!(t.test_type, name);
    assert_eq!(t.kind(), Some(kind));
}

#[test]
fn plugins_to_validate_keeps_the_asked_plugin() {
    let ids: Vec<String> = vec!["a".to_string(), "b".to_string(), "a".to_string()];
    assert_eq!(plugins_to_validate(&None, &ids), ids);
    assert_eq!(plugins_to_validate(&Some("a".to_string()), &ids), vec!["a".to_string(), "a".to_string()]);
    assert_eq!(plugins_to_validate(&Some("c".to_string()), &ids), Vec::<String>::new());
}

#[test]
fn a_run_fails_when_a_test_failed() {
    let tally = |failed| ValidationTally { num_passed: 3, num_failed: failed, num_skipped: 1, num_warnings: 2 };
    assert!(!run_failed(&tally(0)));
    assert!(run_failed(&tally(1)));
}

#[test]
fn tallies_of_disjoint_results_add_up_when_merged() {
    let mut a = ValidationResult::new();
    a.insert_plugin_tests("p1".to_string(), vec![passed("t"), result("u", TestStatus::Failed { details: None })]);
    let mut b = ValidationResult::new();
    b.insert_library_tests("/lib.clap".to_string(), vec![result("v", TestStatus::Skipped { details: None })]);
    b.insert_plugin_tests("p2".to_string(), vec![passed("t")]);
    let (ta, tb) = (a.tally(), b.tally());
    let t = a.union(b).tally();
    assert_eq!(t.num_passed, ta.num_passed + tb.num_passed);
    assert_eq!(t.num_failed, ta.num_failed + tb.num_failed);
    assert_eq!(t.num_skipped, ta.num_skipped + tb.num_skipped);
    assert_eq!(t.num_warnings, ta.num_warnings + tb.num_warnings);
    assert_eq!(t.total(), 4);
}

#[test]
fn library_paths_are_ordered_by_components() {
    let mut r = ValidationResult::new();
    r.insert_library_tests("a-b".to_string(), vec![passed("x")]);
    r.insert_library_tests("a/b".to_string(), vec![passed("y")]);
    r.insert_library_tests("a".to_string(), vec![passed("z")]);
    let keys: Vec<&str> = r.plugin_library_tests.iter().map(|(k, _)| k.as_str()).collect();
    assert_eq!(keys, vec!["a", "a/b", "a-b"]);
}

#[test]
fn plugin_ids_are_ordered_as_strings() {
    let mut r = ValidationResult::new();
    r.insert_plugin_tests("a/b".to_string(), vec![passed("x")]);
    r.insert_plugin_tests("a-b".to_string(), vec![passed("y")]);
    let keys: Vec<&str> = r.plugin_tests.iter().map(|(k, _)| k.as_str()).collect();
    assert_eq!(keys, vec!["a-b", "a/b"]);
}

#[test]
fn equivalent_library_paths_share_one_entry() {
    let mut r = ValidationResult::new();
    r.insert_library_tests("/x/a/b".to_string(), vec![passed("x")]);
    r.insert_library_tests("/x/a//b/".to_string(), vec![passed("y"), passed("z")]);
    assert_eq!(r.plugin_library_tests.len(), 1);
    assert_eq!(r.plugin_library_tests[0].0, "/x/a/b");
    assert_eq!(r.plugin_library_tests[0].1.len(), 2);

    let mut other = ValidationResult::new();
    other.insert_library_tests("/x/./a/b".to_string(), vec![passed("w")]);
    assert!(r.intersects(&other));
}

#[test]
fn test_count_counts_both_sides() {
    let mut r = ValidationResult::new();
    assert_eq!(r.test_count(), Some(0));
    r.insert_library_tests("/lib.clap".to_string(), vec![passed("a")]);
    r.insert_plugin_tests("p".to_string(), vec![passed("b"), passed("c")]);
    assert_eq!(r.test_count(), Some(3));
    assert_eq!(r.tally().total(), 3);
}

#[test]
fn elapsed_counts_whole_milliseconds() {
    let e = Elapsed { secs: 2, nanos: 345_678_901 };
    assert_eq!(e.as_millis(), 2345);
    assert_eq!(e.as_millis(), std::time::Duration::new(2, 345_678_901).as_millis());
    assert_eq!(Elapsed::from_millis(1_234), Elapsed { secs: 1, nanos: 234_000_000 });
}
