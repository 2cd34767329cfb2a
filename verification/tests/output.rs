use clap_validator::listing::{
    decimal, group_report, list_plugins_text, list_presets_text, list_tests_text, pluralize, plugin_report,
    pretty_print, tally_line, test_report, PluginInfo, PresetProviderInfo, ScanStatus, ScannedLibrary,
};
use clap_validator::report;
use clap_validator::status::{Elapsed, TestList, TestListItem, TestResult, TestStatus};
use clap_validator::term::{report_width, split_lines, Charset, Report, ReportItem};
use clap_validator::validator::{ValidationResult, ValidationTally};

#[test]
fn term_report_wraps_text_and_joins_footer() {
    let r = Report {
        header: "H".to_string(),
        items: vec![ReportItem::Text("hello world".to_string())],
        footer: vec!["a".to_string(), "b".to_string()],
    };
    let text = r.print_report(&Charset::unicode(), 9);
    assert_eq!(text, "╭─ H\n│ hello\n│ world\n╰── a ─ b");
}

#[test]
fn term_report_nests_children() {
    let child = Report {
        header: "C".to_string(),
        items: vec![ReportItem::Text("x".to_string())],
        footer: vec![],
    };
    let r = Report { header: "P".to_string(), items: vec![ReportItem::Child(child)], footer: vec![] };
    assert_eq!(r.print_report(&Charset::unicode(), 20), "╭─ P\n│ \n│ ╭─ C\n│ │ x\n│ ╰── \n╰── ");
}

#[test]
fn term_report_ascii_charset() {
    let r = Report { header: "T".to_string(), items: vec![ReportItem::Text("x".to_string())], footer: vec!["f".to_string()] };
    assert_eq!(r.print_report(&Charset::ascii(), 20), "| T\n| x\n| f");
}

#[test]
fn report_width_leaves_a_margin_on_wide_terminals() {
    assert_eq!(report_width(80), 70);
    assert_eq!(report_width(41), 31);
    assert_eq!(report_width(40), 40);
    assert_eq!(report_width(10), 10);
}

#[test]
fn split_lines_follows_str_lines() {
    for s in ["", "a", "a\n", "a\nb", "a\r\nb\r\n", "a\n\nb", "x\ry", "\n"] {
        let expected: Vec<String> = s.lines().map(|l| l.to_string()).collect();
        assert_eq!(split_lines(s), expected, "input {s:?}");
    }
}

#[test]
fn cli_report_aligns_table_keys() {
    let r = report::Report {
        header: "T".to_string(),
        footer: vec![],
        items: vec![report::ReportItem::Table(vec![
            ("k".to_string(), "v".to_string()),
            ("long".to_string(), "value".to_string()),
        ])],
    };
    assert_eq!(r.print_width(20), "┌─ T\n│ k    v\n│ long value\n└── ");
}

#[test]
fn cli_report_continues_wrapped_table_values_under_the_value_column() {
    let r = report::Report {
        header: "T".to_string(),
        footer: vec!["x".to_string()],
        items: vec![report::ReportItem::Table(vec![("key".to_string(), "one two".to_string())])],
    };
    assert_eq!(r.print_width(10), "┌─ T\n│ key one\n│     two\n└── x");
}

#[test]
fn decimal_and_pluralize() {
    assert_eq!(decimal(0), "0");
    assert_eq!(decimal(7), "7");
    assert_eq!(decimal(1234567890123), "1234567890123");
    assert_eq!(pluralize(1, "test"), "1 test");
    assert_eq!(pluralize(0, "test"), "0 tests");
    assert_eq!(pluralize(12, "plugin"), "12 plugins");
}

fn sample_result() -> TestResult {
    TestResult {
        name: "param-conversions".to_string(),
        description: "Checks conversions.".to_string(),
        status: TestStatus::Failed { details: Some("bad value".to_string()) },
        duration: Elapsed::from_millis(42),
    }
}

#[test]
fn test_report_shows_status_and_time() {
    let r = test_report(&sample_result());
    assert_eq!(r.header, "param-conversions");
    assert_eq!(r.footer, vec!["FAILED".to_string(), "42ms".to_string()]);
    assert_eq!(r.items.len(), 2);
    assert_eq!(
        r.print_width(40),
        "┌─ param-conversions\n│ Checks conversions.\n│ \n│ ┌─ \n│ │ bad value\n│ └── \n└── FAILED ─ 42ms"
    );
}

#[test]
fn group_report_counts_tests() {
    let tests = vec![sample_result()];
    let r = group_report("Plugin", &"com.example".to_string(), &tests);
    assert_eq!(r.header, "Plugin");
    assert_eq!(r.footer, vec!["1 test".to_string()]);
    assert_eq!(r.items.len(), 2);
}

#[test]
fn tally_line_text() {
    let t = ValidationTally { num_passed: 1, num_failed: 2, num_skipped: 0, num_warnings: 1 };
    assert_eq!(tally_line(&t), "4 tests run, 1 passed, 2 failed, 0 skipped, 1 warnings");
}

#[test]
fn pretty_print_prints_groups_then_tally() {
    let mut r = ValidationResult::new();
    r.insert_plugin_tests("p".to_string(), vec![sample_result()]);
    let t = r.tally();
    let text = pretty_print(&r, &t, 60);
    assert!(text.starts_with("\n┌─ Plugin\n│ p\n"));
    assert!(text.ends_with("└── 1 test\n1 test run, 0 passed, 1 failed, 0 skipped, 0 warnings\n"));
}

fn plugin(id: &str) -> PluginInfo {
    PluginInfo {
        id: id.to_string(),
        name: "Synth".to_string(),
        version: None,
        vendor: Some("Acme".to_string()),
        description: None,
        manual_url: Some("https://acme.test/manual".to_string()),
        support_url: None,
        features: vec!["instrument".to_string(), "synthesizer".to_string()],
    }
}

#[test]
fn plugin_report_lines() {
    let r = plugin_report(&plugin("com.acme.synth"));
    let lines: Vec<String> = r
        .items
        .iter()
        .map(|i| match i {
            ReportItem::Text(t) => t.clone(),
            ReportItem::Child(_) => panic!("unexpected child"),
        })
        .collect();
    assert_eq!(
        lines,
        vec![
            "Synth (unknown version) (Acme)".to_string(),
            "manual url: https://acme.test/manual".to_string(),
            "features: [instrument, synthesizer]".to_string(),
        ]
    );
}

#[test]
fn list_plugins_counts_libraries_plugins_and_errors() {
    let results = vec![
        ("/a.clap".to_string(), ScanStatus::Error { details: "cannot load".to_string() }),
        (
            "/b.clap".to_string(),
            ScanStatus::Success {
                library: ScannedLibrary { version: (1, 2, 3), plugins: vec![plugin("x")], preset_providers: vec![] },
                duration: Elapsed::from_millis(5),
            },
        ),
    ];
    let text = list_plugins_text(&results, 80);
    assert!(text.starts_with("\n╭─ /a.clap\n│ cannot load\n╰── ERROR\n\n╭─ /b.clap\n│ CLAP 1.2.3\n"));
    assert!(text.contains("╰── OK ─ 1 plugin ─ 5ms\n"));
    assert!(text.ends_with("1 library, 1 plugin, 1 error\n"));
}

#[test]
fn list_presets_skips_libraries_without_providers() {
    let provider = PresetProviderInfo {
        provider_id: "acme.presets".to_string(),
        provider_name: "Acme Presets".to_string(),
        provider_version: (2, 0, 1),
        provider_vendor: None,
        soundpacks: 1,
        presets: 3,
    };
    let results = vec![
        (
            "/none.clap".to_string(),
            ScanStatus::Success {
                library: ScannedLibrary { version: (1, 0, 0), plugins: vec![], preset_providers: vec![] },
                duration: Elapsed::from_millis(1),
            },
        ),
        (
            "/some.clap".to_string(),
            ScanStatus::Success {
                library: ScannedLibrary { version: (1, 0, 0), plugins: vec![], preset_providers: vec![provider] },
                duration: Elapsed::from_millis(9),
            },
        ),
        ("/bad.clap".to_string(), ScanStatus::Crashed { details: "signal 11".to_string() }),
    ];
    let text = list_presets_text(&results, 80);
    assert!(!text.contains("/none.clap"));
    assert!(text.contains("│ │ Acme Presets 2.0.1 (unknown vendor)\n"));
    assert!(text.contains("│ ╰── 1 soundpack ─ 3 presets\n"));
    assert!(text.contains("╰── OK ─ 1 preset provider ─ 9ms\n"));
    assert!(text.ends_with("╭─ /bad.clap\n│ signal 11\n╰── CRASHED\n"));
}

#[test]
fn list_tests_marks_disabled_tests() {
    let list = TestList {
        plugin_library_tests: vec![TestListItem { name: "scan-time".to_string(), description: "d1".to_string() }],
        plugin_tests: vec![TestListItem { name: "state-invalid-empty".to_string(), description: "d2".to_string() }],
    };
    let text = list_tests_text(&list, &vec![true], &vec![false], 200);
    assert!(text.contains("│ ╭─ scan-time\n│ │ d1\n│ ╰── \n"));
    assert!(text.contains("│ ╭─ state-invalid-empty\n│ │ d2\n│ ╰── disabled\n"));
    assert!(text.contains("╰── 1 tests\n"));
}
