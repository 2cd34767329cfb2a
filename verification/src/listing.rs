//! The text the validator prints: the reports of test results and their tally, the reports of
//! scanned plugin libraries and their presets, and the list of available tests.

use vstd::prelude::*;
use vstd::string::*;
use crate::status::{Elapsed, TestList, TestListItem, TestResult, TestStatus};
use crate::validator::{ValidationResult, ValidationTally};
use crate::report;
use crate::term;
use crate::events::lemma_filter_push;

verus! {

/// The character of decimal digit `d`.
pub open spec fn digit_char(d: int) -> char {
    if d == 0 {
        '0'
    } else if d == 1 {
        '1'
    } else if d == 2 {
        '2'
    } else if d == 3 {
        '3'
    } else if d == 4 {
        '4'
    } else if d == 5 {
        '5'
    } else if d == 6 {
        '6'
    } else if d == 7 {
        '7'
    } else if d == 8 {
        '8'
    } else {
        '9'
    }
}

/// The decimal digits of `n`, most significant first, without leading zeros.
pub open spec fn decimal_spec(n: nat) -> Seq<char>
    decreases n,
{
    if n < 10 {
        seq![digit_char(n as int)]
    } else {
        decimal_spec(n / 10).push(digit_char((n % 10) as int))
    }
}

fn digit_str(d: u128) -> (r: &'static str)
    requires
        d < 10,
    ensures
        r@ == seq![digit_char(d as int)],
{
    proof {
        reveal_strlit("0");
        reveal_strlit("1");
        reveal_strlit("2");
        reveal_strlit("3");
        reveal_strlit("4");
        reveal_strlit("5");
        reveal_strlit("6");
        reveal_strlit("7");
        reveal_strlit("8");
        reveal_strlit("9");
    }
    match d {
        0 => "0",
        1 => "1",
        2 => "2",
        3 => "3",
        4 => "4",
        5 => "5",
        6 => "6",
        7 => "7",
        8 => "8",
        _ => "9",
    }
}

/// The decimal representation of `n`.
pub fn decimal(n: u128) -> (r: String)
    ensures
        r@ == decimal_spec(n as nat),
    decreases n,
{
    if n < 10 {
        String::from_str(digit_str(n))
    } else {
        let mut s = decimal(n / 10);
        s.append(digit_str(n % 10));
        s
    }
}

/// `n` followed by the word, with an "s" unless `n` is one.
pub open spec fn pluralize_spec(n: nat, word: Seq<char>) -> Seq<char> {
    decimal_spec(n) + seq![' '] + word + if n == 1 {
        Seq::<char>::empty()
    } else {
        seq!['s']
    }
}

/// Counts something: `n` followed by the word, in the plural unless `n` is one.
pub fn pluralize(n: usize, word: &str) -> (r: String)
    ensures
        r@ == pluralize_spec(n as nat, word@),
{
    let mut s = decimal(n as u128);
    s.append(" ");
    s.append(word);
    if n != 1 {
        s.append("s");
    }
    proof {
        reveal_strlit(" ");
        reveal_strlit("s");
        assert(s@ =~= pluralize_spec(n as nat, word@));
    }
    s
}


/// The word a report shows for a test's status.
pub open spec fn status_word(s: TestStatus) -> Seq<char> {
    match s {
        TestStatus::Success { .. } => "PASSED"@,
        TestStatus::Skipped { .. } => "SKIPPED"@,
        TestStatus::Warning { .. } => "WARNING"@,
        TestStatus::Failed { .. } => "FAILED"@,
        TestStatus::Crashed { .. } => "CRASHED"@,
    }
}

fn status_text(s: &TestStatus) -> (r: &'static str)
    ensures
        r@ == status_word(*s),
{
    match s {
        TestStatus::Success { .. } => "PASSED",
        TestStatus::Skipped { .. } => "SKIPPED",
        TestStatus::Warning { .. } => "WARNING",
        TestStatus::Failed { .. } => "FAILED",
        TestStatus::Crashed { .. } => "CRASHED",
    }
}

/// The two statuses are of the same kind of outcome: both passed, both skipped, both warnings,
/// both failures or both crashes.
pub open spec fn same_status_kind(a: TestStatus, b: TestStatus) -> bool {
    ||| (a is Success && b is Success)
    ||| (a is Skipped && b is Skipped)
    ||| (a is Warning && b is Warning)
    ||| (a is Failed && b is Failed)
    ||| (a is Crashed && b is Crashed)
}

/// Law: a test's report names its status in its first footer field, with a word of its own for
/// each of the five outcomes: `PASSED`, `SKIPPED`, `WARNING`, `FAILED` or `CRASHED`. Two reports
/// show the same word only for the same outcome, so a warning is never shown as passed, nor a
/// crash as a failure. The second footer field is the test's time in whole milliseconds.
pub proof fn law_report_names_the_status(r: report::Report, t: TestResult, a: TestStatus, b: TestStatus)
    requires
        is_test_report(r, t),
    ensures
        t.status is Success ==> r.footer@[0]@ == "PASSED"@,
        t.status is Skipped ==> r.footer@[0]@ == "SKIPPED"@,
        t.status is Warning ==> r.footer@[0]@ == "WARNING"@,
        t.status is Failed ==> r.footer@[0]@ == "FAILED"@,
        t.status is Crashed ==> r.footer@[0]@ == "CRASHED"@,
        status_word(a) == status_word(b) ==> same_status_kind(a, b),
        r.footer@[1]@ == decimal_spec((t.duration.secs * 1000 + t.duration.nanos / 1_000_000) as nat) + "ms"@,
{
    reveal_strlit("PASSED");
    reveal_strlit("SKIPPED");
    reveal_strlit("WARNING");
    reveal_strlit("FAILED");
    reveal_strlit("CRASHED");
    if status_word(a) == status_word(b) {
        let w = status_word(a);
        assert(w[0] == status_word(b)[0]);
        assert(w.len() == status_word(b).len());
    }
}

/// `r` is the report of one test: its name as header, its description, its details in a nested
/// report when it has some, and its status and running time in milliseconds as footer.
pub open spec fn is_test_report(r: report::Report, t: TestResult) -> bool {
    &&& r.header@ == t.name@
    &&& r.footer@.len() == 2
    &&& r.footer@[0]@ == status_word(t.status)
    &&& r.footer@[1]@ == decimal_spec(t.duration.millis_spec() as nat) + "ms"@
    &&& r.items@.len() == if t.status.details_view() is Some {
        2int
    } else {
        1int
    }
    &&& r.items@[0] matches report::ReportItem::Text(d) && d@ == t.description@
    &&& t.status.details_view() matches Some(details) ==> (r.items@[1] matches report::ReportItem::Child(c) && {
        &&& c.header@.len() == 0
        &&& c.footer@.len() == 0
        &&& c.items@.len() == 1
        &&& c.items@[0] matches report::ReportItem::Text(x) && x@ == details
    })
}

/// The report of one test result.
pub fn test_report(t: &TestResult) -> (r: report::Report)
    ensures
        is_test_report(r, *t),
{
    let mut items: Vec<report::ReportItem> = Vec::new();
    items.push(report::ReportItem::Text(t.description.clone()));
    match t.status.details() {
        Some(details) => {
            let mut inner: Vec<report::ReportItem> = Vec::new();
            inner.push(report::ReportItem::Text(String::from_str(details)));
            items.push(report::ReportItem::Child(report::Report { header: String::new(), footer: Vec::new(), items: inner }));
        },
        None => {},
    }
    let mut millis = decimal(t.duration.as_millis());
    millis.append("ms");
    let mut footer: Vec<String> = Vec::new();
    footer.push(String::from_str(status_text(&t.status)));
    footer.push(millis);
    report::Report { items, header: t.name.clone(), footer }
}

/// `r` is the report of a group of tests: the title as header, the group's key as first text,
/// one nested report per test, and the number of tests as footer.
pub open spec fn is_group_report(r: report::Report, title: Seq<char>, key: Seq<char>, tests: Seq<TestResult>) -> bool {
    &&& r.header@ == title
    &&& r.footer@.len() == 1
    &&& r.footer@[0]@ == pluralize_spec(tests.len(), "test"@)
    &&& r.items@.len() == tests.len() + 1
    &&& r.items@[0] matches report::ReportItem::Text(k) && k@ == key
    &&& forall|i: int|
        0 <= i < tests.len() ==> ((#[trigger] r.items@[i + 1]) matches report::ReportItem::Child(c) && is_test_report(
            c,
            tests[i],
        ))
}

/// The report of the tests run for one library path or plugin ID.
pub fn group_report(title: &str, key: &String, tests: &Vec<TestResult>) -> (r: report::Report)
    ensures
        is_group_report(r, title@, key@, tests@),
{
    let mut items: Vec<report::ReportItem> = Vec::new();
    items.push(report::ReportItem::Text(key.clone()));
    let mut i: usize = 0;
    while i < tests.len()
        invariant
            i <= tests@.len(),
            items@.len() == i + 1,
            items@[0] matches report::ReportItem::Text(k) && k@ == key@,
            forall|j: int|
                0 <= j < i ==> ((#[trigger] items@[j + 1]) matches report::ReportItem::Child(c) && is_test_report(c, tests@[j])),
        decreases tests@.len() - i,
    {
        let child = test_report(&tests[i]);
        items.push(report::ReportItem::Child(child));
        i = i + 1;
    }
    let mut footer: Vec<String> = Vec::new();
    footer.push(pluralize(tests.len(), "test"));
    report::Report { header: String::from_str(title), footer, items }
}

/// The closing line of a validation run: how many tests ran, passed, failed, were skipped and
/// warned.
pub open spec fn tally_line_spec(t: ValidationTally) -> Seq<char> {
    pluralize_spec((t.num_passed + t.num_failed + t.num_skipped + t.num_warnings) as nat, "test"@) + " run, "@
        + decimal_spec(t.num_passed as nat) + " passed, "@ + decimal_spec(t.num_failed as nat) + " failed, "@
        + decimal_spec(t.num_skipped as nat) + " skipped, "@ + decimal_spec(t.num_warnings as nat) + " warnings"@
}

/// The closing line of a validation run.
pub fn tally_line(t: &ValidationTally) -> (r: String)
    requires
        t.sum() <= usize::MAX,
    ensures
        r@ == tally_line_spec(*t),
{
    let mut s = pluralize(t.total(), "test");
    s.append(" run, ");
    s.append(decimal(t.num_passed as u128).as_str());
    s.append(" passed, ");
    s.append(decimal(t.num_failed as u128).as_str());
    s.append(" failed, ");
    s.append(decimal(t.num_skipped as u128).as_str());
    s.append(" skipped, ");
    s.append(decimal(t.num_warnings as u128).as_str());
    s.append(" warnings");
    s
}

/// Each report drawn `width` wide on a line of its own, after an empty line.
pub open spec fn cli_printed(reports: Seq<report::Report>, width: usize) -> Seq<char>
    decreases reports.len(),
{
    if reports.len() == 0 {
        Seq::empty()
    } else {
        cli_printed(reports.drop_last(), width) + seq!['\n'] + report::render(reports.last(), width) + seq!['\n']
    }
}

/// Appends the groups' reports under `title`, each after an empty line.
fn print_groups(out: &mut String, title: &str, groups: &Vec<(String, Vec<TestResult>)>, terminal_width: usize, Ghost(reports): Ghost<Seq<report::Report>>) -> (added: Ghost<Seq<report::Report>>)
    ensures
        added@.len() == groups@.len(),
        forall|i: int| 0 <= i < groups@.len() ==> is_group_report(#[trigger] added@[i], title@, groups@[i].0@, groups@[i].1@),
        old(out)@ == cli_printed(reports, term::report_width_spec(terminal_width)) ==> final(out)@ == cli_printed(
            reports + added@,
            term::report_width_spec(terminal_width),
        ),
{
    let ghost width = term::report_width_spec(terminal_width);
    let ghost mut done: Seq<report::Report> = Seq::empty();
    let mut i: usize = 0;
    proof {
        assert(reports + done =~= reports);
    }
    while i < groups.len()
        invariant
            i <= groups@.len(),
            done.len() == i,
            width == term::report_width_spec(terminal_width),
            forall|j: int| 0 <= j < i ==> is_group_report(#[trigger] done[j], title@, groups@[j].0@, groups@[j].1@),
            old(out)@ == cli_printed(reports, width) ==> out@ == cli_printed(reports + done, width),
        decreases groups@.len() - i,
    {
        let rep = group_report(title, &groups[i].0, &groups[i].1);
        let text = rep.print(terminal_width);
        out.append("\n");
        out.append(text.as_str());
        out.append("\n");
        proof {
            reveal_strlit("\n");
            let next = done.push(rep);
            assert((reports + next).drop_last() =~= reports + done);
            assert((reports + next).last() == rep);
            done = next;
        }
        i = i + 1;
    }
    Ghost(done)
}

/// The text printed for a validation run: a report per library and per plugin, then the tally.
pub fn pretty_print(result: &ValidationResult, tally: &ValidationTally, terminal_width: usize) -> (r: String)
    requires
        tally.sum() <= usize::MAX,
    ensures
        exists|reports: Seq<report::Report>| #![trigger cli_printed(reports, term::report_width_spec(terminal_width))] {
            let lib = result.plugin_library_tests@;
            let plug = result.plugin_tests@;
            &&& reports.len() == lib.len() + plug.len()
            &&& forall|i: int| 0 <= i < lib.len() ==> is_group_report(#[trigger] reports[i], "Plugin Library"@, lib[i].0@, lib[i].1@)
            &&& forall|i: int|
                0 <= i < plug.len() ==> is_group_report(#[trigger] reports[lib.len() + i], "Plugin"@, plug[i].0@, plug[i].1@)
            &&& r@ == cli_printed(reports, term::report_width_spec(terminal_width)) + tally_line_spec(*tally) + "\n"@
        },
{
    let mut out = String::new();
    let ghost width = term::report_width_spec(terminal_width);
    assert(out@ == cli_printed(Seq::empty(), width));
    let libs = print_groups(&mut out, "Plugin Library", &result.plugin_library_tests, terminal_width, Ghost(Seq::empty()));
    let ghost first: Seq<report::Report> = Seq::empty() + libs@;
    let plugins = print_groups(&mut out, "Plugin", &result.plugin_tests, terminal_width, Ghost(first));
    let ghost all = first + plugins@;
    let line = tally_line(tally);
    out.append(line.as_str());
    out.append("\n");
    proof {
        let lib = result.plugin_library_tests@;
        let plug = result.plugin_tests@;
        assert forall|i: int| 0 <= i < lib.len() implies is_group_report(#[trigger] all[i], "Plugin Library"@, lib[i].0@, lib[i].1@) by {
            assert(all[i] == libs@[i]);
        }
        assert forall|i: int| 0 <= i < plug.len() implies is_group_report(#[trigger] all[lib.len() + i], "Plugin"@, plug[i].0@, plug[i].1@) by {
            assert(all[lib.len() + i] == plugins@[i]);
        }
    }
    out
}

/// What scanning a plugin library found about one plugin.
#[derive(Debug)]
pub struct PluginInfo {
    pub id: String,
    pub name: String,
    pub version: Option<String>,
    pub vendor: Option<String>,
    pub description: Option<String>,
    pub manual_url: Option<String>,
    pub support_url: Option<String>,
    pub features: Vec<String>,
}

/// What scanning a plugin library found about one preset provider.
#[derive(Debug)]
pub struct PresetProviderInfo {
    pub provider_id: String,
    pub provider_name: String,
    pub provider_version: (u32, u32, u32),
    pub provider_vendor: Option<String>,
    /// The number of soundpacks the provider declares.
    pub soundpacks: usize,
    /// The number of presets the provider indexed.
    pub presets: usize,
}

/// What scanning a plugin library found: the CLAP version it was built against, its plugins and
/// its preset providers.
#[derive(Debug)]
pub struct ScannedLibrary {
    pub version: (u32, u32, u32),
    pub plugins: Vec<PluginInfo>,
    pub preset_providers: Vec<PresetProviderInfo>,
}

/// The outcome of scanning one plugin library.
#[derive(Debug)]
pub enum ScanStatus {
    /// The library was scanned; `duration` is the time the scan took.
    Success { library: ScannedLibrary, duration: Elapsed },
    /// The library could not be scanned.
    Error { details: String },
    /// The process scanning the library crashed or timed out.
    Crashed { details: String },
}

/// The text of a version triple, as `a.b.c`.
pub open spec fn version_spec(v: (u32, u32, u32)) -> Seq<char> {
    decimal_spec(v.0 as nat) + "."@ + decimal_spec(v.1 as nat) + "."@ + decimal_spec(v.2 as nat)
}

fn version_text(v: (u32, u32, u32)) -> (r: String)
    ensures
        r@ == version_spec(v),
{
    let mut s = decimal(v.0 as u128);
    s.append(".");
    s.append(decimal(v.1 as u128).as_str());
    s.append(".");
    s.append(decimal(v.2 as u128).as_str());
    s
}

/// The text of an optional field, or the fallback when it is missing.
pub open spec fn or_else(field: Option<String>, fallback: Seq<char>) -> Seq<char> {
    match field {
        Some(s) => s@,
        None => fallback,
    }
}

fn text_or<'a>(field: &'a Option<String>, fallback: &'a str) -> (r: &'a str)
    ensures
        r@ == or_else(*field, fallback@),
{
    match field {
        Some(s) => s.as_str(),
        None => fallback,
    }
}

/// The strings joined by a comma and a space.
pub open spec fn comma_joined(items: Seq<String>) -> Seq<char>
    decreases items.len(),
{
    if items.len() == 0 {
        Seq::empty()
    } else if items.len() == 1 {
        items[0]@
    } else {
        comma_joined(items.drop_last()) + ", "@ + items.last()@
    }
}

fn join_comma(items: &Vec<String>) -> (r: String)
    ensures
        r@ == comma_joined(items@),
{
    let mut s = String::new();
    let mut i: usize = 0;
    while i < items.len()
        invariant
            i <= items@.len(),
            s@ == comma_joined(items@.subrange(0, i as int)),
        decreases items@.len() - i,
    {
        let ghost before = s@;
        if i > 0 {
            s.append(", ");
        }
        s.append(items[i].as_str());
        proof {
            let done = items@.subrange(0, i + 1);
            assert(done.drop_last() =~= items@.subrange(0, i as int));
            assert(done.last() == items@[i as int]);
            if i == 0 {
                assert(comma_joined(done) == done[0]@);
                assert(s@ =~= comma_joined(done));
            } else {
                assert(s@ =~= comma_joined(done));
            }
        }
        i = i + 1;
    }
    proof {
        assert(items@.subrange(0, items@.len() as int) =~= items@);
    }
    s
}

/// The text items of a plugin's report: name, version and vendor; the description, the manual
/// and support URLs when there are some; and the features.
pub open spec fn plugin_lines(p: PluginInfo) -> Seq<Seq<char>> {
    let first = p.name@ + " "@ + or_else(p.version, "(unknown version)"@) + " ("@ + or_else(p.vendor, "unknown vendor"@)
        + ")"@;
    let a = seq![first];
    let b = match p.description {
        Some(d) => a.push(d@),
        None => a,
    };
    let c = match p.manual_url {
        Some(u) => b.push("manual url: "@ + u@),
        None => b,
    };
    let d = match p.support_url {
        Some(u) => c.push("support url: "@ + u@),
        None => c,
    };
    d.push("features: ["@ + comma_joined(p.features@) + "]"@)
}

/// The report holds exactly the given lines as text items, with no footer.
pub open spec fn is_text_report(r: term::Report, header: Seq<char>, lines: Seq<Seq<char>>) -> bool {
    &&& r.header@ == header
    &&& r.footer@.len() == 0
    &&& r.items@.len() == lines.len()
    &&& forall|i: int| 0 <= i < lines.len() ==> ((#[trigger] r.items@[i]) matches term::ReportItem::Text(t) && t@ == lines[i])
}

fn push_text(items: &mut Vec<term::ReportItem>, text: String)
    ensures
        final(items)@.len() == old(items)@.len() + 1,
        forall|i: int| 0 <= i < old(items)@.len() ==> #[trigger] final(items)@[i] == old(items)@[i],
        final(items)@[old(items)@.len() as int] matches term::ReportItem::Text(t) && t@ == text@,
{
    items.push(term::ReportItem::Text(text));
}

/// The report of one plugin found in a library.
pub fn plugin_report(p: &PluginInfo) -> (r: term::Report)
    ensures
        is_text_report(r, p.id@, plugin_lines(*p)),
{
    let mut items: Vec<term::ReportItem> = Vec::new();
    let mut first = p.name.clone();
    first.append(" ");
    first.append(text_or(&p.version, "(unknown version)"));
    first.append(" (");
    first.append(text_or(&p.vendor, "unknown vendor"));
    first.append(")");
    let ghost lines: Seq<Seq<char>> = seq![first@];
    push_text(&mut items, first);
    match &p.description {
        Some(d) => {
            push_text(&mut items, d.clone());
            proof { lines = lines.push(d@); }
        },
        None => {},
    }
    match &p.manual_url {
        Some(u) => {
            let mut t = String::from_str("manual url: ");
            t.append(u.as_str());
            let ghost tv = t@;
            push_text(&mut items, t);
            proof { lines = lines.push(tv); }
        },
        None => {},
    }
    match &p.support_url {
        Some(u) => {
            let mut t = String::from_str("support url: ");
            t.append(u.as_str());
            let ghost tv = t@;
            push_text(&mut items, t);
            proof { lines = lines.push(tv); }
        },
        None => {},
    }
    let mut f = String::from_str("features: [");
    f.append(join_comma(&p.features).as_str());
    f.append("]");
    let ghost fv = f@;
    push_text(&mut items, f);
    proof {
        lines = lines.push(fv);
        assert(lines =~= plugin_lines(*p));
    }
    term::Report { header: p.id.clone(), items, footer: Vec::new() }
}

/// Each report drawn on a line of its own after an empty line, for a terminal `terminal_width`
/// columns wide.
pub open spec fn term_printed(reports: Seq<term::Report>, terminal_width: usize) -> Seq<char>
    decreases reports.len(),
{
    if reports.len() == 0 {
        Seq::empty()
    } else {
        term_printed(reports.drop_last(), terminal_width) + seq!['\n'] + term::render(
            reports.last(),
            term::unicode_charset(),
            term::report_width_spec(terminal_width),
        ) + seq!['\n']
    }
}

/// Appends a report on a line of its own after an empty line.
fn print_term_report(out: &mut String, rep: &term::Report, terminal_width: usize, Ghost(printed): Ghost<Seq<term::Report>>)
    requires
        old(out)@ == term_printed(printed, terminal_width),
    ensures
        final(out)@ == term_printed(printed.push(*rep), terminal_width),
{
    let text = rep.print(terminal_width);
    out.append("\n");
    out.append(text.as_str());
    out.append("\n");
    proof {
        reveal_strlit("\n");
        assert(printed.push(*rep).drop_last() =~= printed);
    }
}

/// The report of a library that could not be scanned: its path, the error, and a status word.
pub open spec fn is_failed_scan_report(r: term::Report, path: Seq<char>, details: Seq<char>, word: Seq<char>) -> bool {
    &&& r.header@ == path
    &&& r.items@.len() == 1
    &&& r.items@[0] matches term::ReportItem::Text(t) && t@ == details
    &&& r.footer@.len() == 1
    &&& r.footer@[0]@ == word
}

fn failed_scan_report(path: &String, details: &String, word: &str) -> (r: term::Report)
    ensures
        is_failed_scan_report(r, path@, details@, word@),
{
    let mut items: Vec<term::ReportItem> = Vec::new();
    items.push(term::ReportItem::Text(details.clone()));
    let mut footer: Vec<String> = Vec::new();
    footer.push(String::from_str(word));
    term::Report { header: path.clone(), items, footer }
}

/// The report of a scanned library: its path, its CLAP version, one nested report per plugin,
/// and a footer with "OK", the number of plugins and the time the scan took.
pub open spec fn is_library_report(r: term::Report, path: Seq<char>, lib: ScannedLibrary, duration: Elapsed) -> bool {
    &&& r.header@ == path
    &&& r.items@.len() == lib.plugins@.len() + 1
    &&& r.items@[0] matches term::ReportItem::Text(t) && t@ == "CLAP "@ + version_spec(lib.version)
    &&& forall|i: int|
        0 <= i < lib.plugins@.len() ==> ((#[trigger] r.items@[i + 1]) matches term::ReportItem::Child(c) && is_text_report(
            c,
            lib.plugins@[i].id@,
            plugin_lines(lib.plugins@[i]),
        ))
    &&& r.footer@.len() == 3
    &&& r.footer@[0]@ == "OK"@
    &&& r.footer@[1]@ == pluralize_spec(lib.plugins@.len(), "plugin"@)
    &&& r.footer@[2]@ == decimal_spec(duration.millis_spec() as nat) + "ms"@
}

fn library_report(path: &String, lib: &ScannedLibrary, duration: &Elapsed) -> (r: term::Report)
    ensures
        is_library_report(r, path@, *lib, *duration),
{
    let mut items: Vec<term::ReportItem> = Vec::new();
    let mut clap = String::from_str("CLAP ");
    clap.append(version_text(lib.version).as_str());
    items.push(term::ReportItem::Text(clap));
    let mut i: usize = 0;
    while i < lib.plugins.len()
        invariant
            i <= lib.plugins@.len(),
            items@.len() == i + 1,
            items@[0] matches term::ReportItem::Text(t) && t@ == "CLAP "@ + version_spec(lib.version),
            forall|j: int|
                0 <= j < i ==> ((#[trigger] items@[j + 1]) matches term::ReportItem::Child(c) && is_text_report(
                    c,
                    lib.plugins@[j].id@,
                    plugin_lines(lib.plugins@[j]),
                )),
        decreases lib.plugins@.len() - i,
    {
        items.push(term::ReportItem::Child(plugin_report(&lib.plugins[i])));
        i = i + 1;
    }
    let mut footer: Vec<String> = Vec::new();
    footer.push(String::from_str("OK"));
    footer.push(pluralize(lib.plugins.len(), "plugin"));
    let mut ms = decimal(duration.as_millis());
    ms.append("ms");
    footer.push(ms);
    term::Report { header: path.clone(), items, footer }
}

/// The report printed for one scanned path.
pub open spec fn is_scan_report(r: term::Report, path: Seq<char>, status: ScanStatus) -> bool {
    match status {
        ScanStatus::Error { details } => is_failed_scan_report(r, path, details@, "ERROR"@),
        ScanStatus::Crashed { details } => is_failed_scan_report(r, path, details@, "CRASHED"@),
        ScanStatus::Success { library, duration } => is_library_report(r, path, library, duration),
    }
}

/// The number of plugins found in the scanned libraries.
pub open spec fn plugins_found(results: Seq<(String, ScanStatus)>) -> nat
    decreases results.len(),
{
    if results.len() == 0 {
        0
    } else {
        plugins_found(results.drop_last()) + match results.last().1 {
            ScanStatus::Success { library, .. } => library.plugins@.len(),
            _ => 0,
        }
    }
}

/// The number of libraries scanned successfully.
pub open spec fn libraries_found(results: Seq<(String, ScanStatus)>) -> nat
    decreases results.len(),
{
    if results.len() == 0 {
        0
    } else {
        libraries_found(results.drop_last()) + if results.last().1 is Success {
            1nat
        } else {
            0nat
        }
    }
}

/// The number of plugins found in the scanned libraries, or `None` when it does not fit a
/// `usize`.
pub fn plugins_found_count(results: &Vec<(String, ScanStatus)>) -> (r: Option<usize>)
    ensures
        r matches Some(n) ==> n == plugins_found(results@),
        r is None <==> plugins_found(results@) > usize::MAX,
{
    let mut n: usize = 0;
    let mut i: usize = 0;
    while i < results.len()
        invariant
            i <= results@.len(),
            n == plugins_found(results@.subrange(0, i as int)),
        decreases results@.len() - i,
    {
        let ghost done = results@.subrange(0, i + 1);
        proof {
            assert(done.drop_last() =~= results@.subrange(0, i as int));
            assert(done.last() == results@[i as int]);
        }
        match &results[i].1 {
            ScanStatus::Success { library, .. } => {
                let k = library.plugins.len();
                if n > usize::MAX - k {
                    proof {
                        lemma_plugins_found_prefix(results@, i + 1);
                    }
                    return None;
                }
                n = n + k;
            },
            _ => {},
        }
        i = i + 1;
    }
    proof {
        assert(results@.subrange(0, results@.len() as int) =~= results@);
    }
    Some(n)
}

/// `n` and the singular or plural word.
pub open spec fn counted(n: nat, one: Seq<char>, many: Seq<char>) -> Seq<char> {
    decimal_spec(n) + " "@ + if n == 1 {
        one
    } else {
        many
    }
}

/// The closing line of the plugin listing: the numbers of libraries, plugins and errors.
pub open spec fn plugins_summary(results: Seq<(String, ScanStatus)>) -> Seq<char> {
    let libs = libraries_found(results);
    let errors = (results.len() - libs) as nat;
    counted(libs, "library"@, "libraries"@) + ", "@ + counted(plugins_found(results), "plugin"@, "plugins"@) + ", "@
        + counted(errors, "error"@, "errors"@)
}

fn counted_text(n: usize, one: &str, many: &str) -> (r: String)
    ensures
        r@ == counted(n as nat, one@, many@),
{
    let mut s = decimal(n as u128);
    s.append(" ");
    if n == 1 {
        s.append(one);
    } else {
        s.append(many);
    }
    proof {
        reveal_strlit(" ");
    }
    s
}

proof fn lemma_libraries_bounded(results: Seq<(String, ScanStatus)>)
    ensures
        libraries_found(results) <= results.len(),
    decreases results.len(),
{
    if results.len() > 0 {
        lemma_libraries_bounded(results.drop_last());
    }
}

/// The text printed when listing plugins: a report per scanned path, in the order given, then the
/// numbers of libraries, plugins and errors.
pub fn list_plugins_text(results: &Vec<(String, ScanStatus)>, terminal_width: usize) -> (r: String)
    requires
        plugins_found(results@) <= usize::MAX,
    ensures
        exists|reports: Seq<term::Report>| #![trigger term_printed(reports, terminal_width)] {
            &&& reports.len() == results@.len()
            &&& forall|i: int| 0 <= i < results@.len() ==> is_scan_report(#[trigger] reports[i], results@[i].0@, results@[i].1)
            &&& r@ == term_printed(reports, terminal_width) + plugins_summary(results@) + "\n"@
        },
{
    let mut out = String::new();
    let ghost mut reports: Seq<term::Report> = Seq::empty();
    let mut num_libraries: usize = 0;
    let mut num_plugins: usize = 0;
    let mut i: usize = 0;
    proof {
        assert(results@.subrange(0, 0) =~= Seq::<(String, ScanStatus)>::empty());
    }
    while i < results.len()
        invariant
            i <= results@.len(),
            plugins_found(results@) <= usize::MAX,
            reports.len() == i,
            forall|j: int| 0 <= j < i ==> is_scan_report(#[trigger] reports[j], results@[j].0@, results@[j].1),
            out@ == term_printed(reports, terminal_width),
            num_libraries == libraries_found(results@.subrange(0, i as int)),
            num_plugins == plugins_found(results@.subrange(0, i as int)),
        decreases results@.len() - i,
    {
        let (path, status) = (&results[i].0, &results[i].1);
        let ghost done = results@.subrange(0, i + 1);
        proof {
            assert(done.drop_last() =~= results@.subrange(0, i as int));
            assert(done.last() == results@[i as int]);
            lemma_plugins_found_prefix(results@, i + 1);
            lemma_libraries_bounded(done);
        }
        let rep = match status {
            ScanStatus::Error { details } => failed_scan_report(path, details, "ERROR"),
            ScanStatus::Crashed { details } => failed_scan_report(path, details, "CRASHED"),
            ScanStatus::Success { library, duration } => {
                num_libraries = num_libraries + 1;
                num_plugins = num_plugins + library.plugins.len();
                library_report(path, library, duration)
            },
        };
        print_term_report(&mut out, &rep, terminal_width, Ghost(reports));
        proof {
            reports = reports.push(rep);
        }
        i = i + 1;
    }
    proof {
        assert(results@.subrange(0, results@.len() as int) =~= results@);
        lemma_libraries_bounded(results@);
    }
    let errors = results.len() - num_libraries;
    out.append(counted_text(num_libraries, "library", "libraries").as_str());
    out.append(", ");
    out.append(counted_text(num_plugins, "plugin", "plugins").as_str());
    out.append(", ");
    out.append(counted_text(errors, "error", "errors").as_str());
    out.append("\n");
    out
}

proof fn lemma_plugins_found_prefix(results: Seq<(String, ScanStatus)>, n: int)
    requires
        0 <= n <= results.len(),
    ensures
        plugins_found(results.subrange(0, n)) <= plugins_found(results),
    decreases results.len() - n,
{
    if n < results.len() {
        lemma_plugins_found_prefix(results, n + 1);
        let s = results.subrange(0, n + 1);
        assert(s.drop_last() =~= results.subrange(0, n));
    } else {
        assert(results.subrange(0, n) =~= results);
    }
}

/// The text items of a preset provider's report: its name, version and vendor.
pub open spec fn provider_line(p: PresetProviderInfo) -> Seq<char> {
    p.provider_name@ + " "@ + version_spec(p.provider_version) + " ("@ + or_else(p.provider_vendor, "unknown vendor"@) + ")"@
}

/// The report of a preset provider: its ID, its name line, and the numbers of soundpacks and
/// presets.
pub open spec fn is_provider_report(r: term::Report, p: PresetProviderInfo) -> bool {
    &&& r.header@ == p.provider_id@
    &&& r.items@.len() == 1
    &&& r.items@[0] matches term::ReportItem::Text(t) && t@ == provider_line(p)
    &&& r.footer@.len() == 2
    &&& r.footer@[0]@ == pluralize_spec(p.soundpacks as nat, "soundpack"@)
    &&& r.footer@[1]@ == pluralize_spec(p.presets as nat, "preset"@)
}

fn provider_report(p: &PresetProviderInfo) -> (r: term::Report)
    ensures
        is_provider_report(r, *p),
{
    let mut line = p.provider_name.clone();
    line.append(" ");
    line.append(version_text(p.provider_version).as_str());
    line.append(" (");
    line.append(text_or(&p.provider_vendor, "unknown vendor"));
    line.append(")");
    let mut items: Vec<term::ReportItem> = Vec::new();
    items.push(term::ReportItem::Text(line));
    let mut footer: Vec<String> = Vec::new();
    footer.push(pluralize(p.soundpacks, "soundpack"));
    footer.push(pluralize(p.presets, "preset"));
    term::Report { header: p.provider_id.clone(), items, footer }
}

/// The report of a library with preset providers: its path, its CLAP version, one nested report
/// per provider, and a footer with "OK", the number of providers and the time the scan took.
pub open spec fn is_preset_library_report(r: term::Report, path: Seq<char>, lib: ScannedLibrary, duration: Elapsed) -> bool {
    &&& r.header@ == path
    &&& r.items@.len() == lib.preset_providers@.len() + 1
    &&& r.items@[0] matches term::ReportItem::Text(t) && t@ == "CLAP "@ + version_spec(lib.version)
    &&& forall|i: int|
        0 <= i < lib.preset_providers@.len() ==> ((#[trigger] r.items@[i + 1]) matches term::ReportItem::Child(c)
            && is_provider_report(c, lib.preset_providers@[i]))
    &&& r.footer@.len() == 3
    &&& r.footer@[0]@ == "OK"@
    &&& r.footer@[1]@ == pluralize_spec(lib.preset_providers@.len(), "preset provider"@)
    &&& r.footer@[2]@ == decimal_spec(duration.millis_spec() as nat) + "ms"@
}

fn preset_library_report(path: &String, lib: &ScannedLibrary, duration: &Elapsed) -> (r: term::Report)
    ensures
        is_preset_library_report(r, path@, *lib, *duration),
{
    let mut items: Vec<term::ReportItem> = Vec::new();
    let mut clap = String::from_str("CLAP ");
    clap.append(version_text(lib.version).as_str());
    items.push(term::ReportItem::Text(clap));
    let mut i: usize = 0;
    while i < lib.preset_providers.len()
        invariant
            i <= lib.preset_providers@.len(),
            items@.len() == i + 1,
            items@[0] matches term::ReportItem::Text(t) && t@ == "CLAP "@ + version_spec(lib.version),
            forall|j: int|
                0 <= j < i ==> ((#[trigger] items@[j + 1]) matches term::ReportItem::Child(c) && is_provider_report(
                    c,
                    lib.preset_providers@[j],
                )),
        decreases lib.preset_providers@.len() - i,
    {
        items.push(term::ReportItem::Child(provider_report(&lib.preset_providers[i])));
        i = i + 1;
    }
    let mut footer: Vec<String> = Vec::new();
    footer.push(String::from_str("OK"));
    footer.push(pluralize(lib.preset_providers.len(), "preset provider"));
    let mut ms = decimal(duration.as_millis());
    ms.append("ms");
    footer.push(ms);
    term::Report { header: path.clone(), items, footer }
}

/// Whether a scanned path shows up in the preset listing: every failure does, and every library
/// with at least one preset provider.
pub open spec fn lists_presets(entry: (String, ScanStatus)) -> bool {
    match entry.1 {
        ScanStatus::Success { library, .. } => library.preset_providers@.len() > 0,
        _ => true,
    }
}

/// The report printed for a path in the preset listing.
pub open spec fn is_preset_scan_report(r: term::Report, path: Seq<char>, status: ScanStatus) -> bool {
    match status {
        ScanStatus::Error { details } => is_failed_scan_report(r, path, details@, "ERROR"@),
        ScanStatus::Crashed { details } => is_failed_scan_report(r, path, details@, "CRASHED"@),
        ScanStatus::Success { library, duration } => is_preset_library_report(r, path, library, duration),
    }
}

/// The text printed when listing presets: a report per failed path and per library with preset
/// providers, in the order given.
pub fn list_presets_text(results: &Vec<(String, ScanStatus)>, terminal_width: usize) -> (r: String)
    ensures
        exists|reports: Seq<term::Report>| #![trigger term_printed(reports, terminal_width)] {
            let shown = results@.filter(|e: (String, ScanStatus)| lists_presets(e));
            &&& reports.len() == shown.len()
            &&& forall|i: int| 0 <= i < shown.len() ==> is_preset_scan_report(#[trigger] reports[i], shown[i].0@, shown[i].1)
            &&& r@ == term_printed(reports, terminal_width)
        },
{
    let ghost pred = |e: (String, ScanStatus)| lists_presets(e);
    let mut out = String::new();
    let ghost mut reports: Seq<term::Report> = Seq::empty();
    let mut i: usize = 0;
    proof {
        reveal(Seq::filter);
        assert(results@.subrange(0, 0) =~= Seq::<(String, ScanStatus)>::empty());
    }
    while i < results.len()
        invariant
            i <= results@.len(),
            pred == (|e: (String, ScanStatus)| lists_presets(e)),
            reports.len() == results@.subrange(0, i as int).filter(pred).len(),
            forall|j: int|
                0 <= j < reports.len() ==> is_preset_scan_report(
                    #[trigger] reports[j],
                    results@.subrange(0, i as int).filter(pred)[j].0@,
                    results@.subrange(0, i as int).filter(pred)[j].1,
                ),
            out@ == term_printed(reports, terminal_width),
        decreases results@.len() - i,
    {
        let (path, status) = (&results[i].0, &results[i].1);
        let ghost prev = results@.subrange(0, i as int);
        let ghost done = results@.subrange(0, i + 1);
        proof {
            assert(done =~= prev.push(results@[i as int]));
            lemma_filter_push(prev, results@[i as int], pred);
        }
        match status {
            ScanStatus::Error { details } => {
                let rep = failed_scan_report(path, details, "ERROR");
                print_term_report(&mut out, &rep, terminal_width, Ghost(reports));
                proof { reports = reports.push(rep); }
            },
            ScanStatus::Crashed { details } => {
                let rep = failed_scan_report(path, details, "CRASHED");
                print_term_report(&mut out, &rep, terminal_width, Ghost(reports));
                proof { reports = reports.push(rep); }
            },
            ScanStatus::Success { library, duration } => {
                if library.preset_providers.len() > 0 {
                    let rep = preset_library_report(path, library, duration);
                    print_term_report(&mut out, &rep, terminal_width, Ghost(reports));
                    proof { reports = reports.push(rep); }
                }
            },
        }
        i = i + 1;
    }
    proof {
        assert(results@.subrange(0, results@.len() as int) =~= results@);
    }
    out
}

/// The report of one available test: its name, its description, and "disabled" as footer when
/// it does not run.
pub open spec fn is_test_item_report(r: term::Report, t: TestListItem, enabled: bool) -> bool {
    &&& r.header@ == t.name@
    &&& r.items@.len() == 1
    &&& r.items@[0] matches term::ReportItem::Text(d) && d@ == t.description@
    &&& r.footer@.len() == if enabled {
        0int
    } else {
        1int
    }
    &&& !enabled ==> r.footer@[0]@ == "disabled"@
}

fn test_item_report(t: &TestListItem, enabled: bool) -> (r: term::Report)
    ensures
        is_test_item_report(r, *t, enabled),
{
    let mut items: Vec<term::ReportItem> = Vec::new();
    items.push(term::ReportItem::Text(t.description.clone()));
    let mut footer: Vec<String> = Vec::new();
    if !enabled {
        footer.push(String::from_str("disabled"));
    }
    term::Report { header: t.name.clone(), items, footer }
}

/// The report of a kind of tests: a title, an explanation, one nested report per test, and the
/// number of tests.
pub open spec fn is_test_kind_report(r: term::Report, title: Seq<char>, about: Seq<char>, tests: Seq<TestListItem>, enabled: Seq<bool>) -> bool {
    &&& r.header@ == title
    &&& r.items@.len() == tests.len() + 1
    &&& r.items@[0] matches term::ReportItem::Text(t) && t@ == about
    &&& forall|i: int|
        0 <= i < tests.len() ==> ((#[trigger] r.items@[i + 1]) matches term::ReportItem::Child(c) && is_test_item_report(
            c,
            tests[i],
            enabled[i],
        ))
    &&& r.footer@.len() == 1
    &&& r.footer@[0]@ == decimal_spec(tests.len()) + " tests"@
}

fn test_kind_report(title: &str, about: &str, tests: &Vec<TestListItem>, enabled: &Vec<bool>) -> (r: term::Report)
    requires
        enabled@.len() == tests@.len(),
    ensures
        is_test_kind_report(r, title@, about@, tests@, enabled@),
{
    let mut items: Vec<term::ReportItem> = Vec::new();
    items.push(term::ReportItem::Text(String::from_str(about)));
    let mut i: usize = 0;
    while i < tests.len()
        invariant
            i <= tests@.len(),
            enabled@.len() == tests@.len(),
            items@.len() == i + 1,
            items@[0] matches term::ReportItem::Text(t) && t@ == about@,
            forall|j: int|
                0 <= j < i ==> ((#[trigger] items@[j + 1]) matches term::ReportItem::Child(c) && is_test_item_report(
                    c,
                    tests@[j],
                    enabled@[j],
                )),
        decreases tests@.len() - i,
    {
        items.push(term::ReportItem::Child(test_item_report(&tests[i], enabled[i])));
        i = i + 1;
    }
    let mut count = decimal(tests.len() as u128);
    count.append(" tests");
    let mut footer: Vec<String> = Vec::new();
    footer.push(count);
    term::Report { header: String::from_str(title), items, footer }
}

/// The explanation of the plugin library tests in the test listing.
pub open spec fn library_tests_about() -> Seq<char> {
    "Tests for plugin factories, preset providers and plugin libraries (files) in general"@
}

/// The explanation of the plugin tests in the test listing.
pub open spec fn plugin_tests_about() -> Seq<char> {
    "Tests for specific plugins within libraries, including their behavior during initialization, deinitialization, audio processing and callback handling."@
}

/// The text printed when listing the available tests: a report on the plugin library tests and
/// one on the plugin tests. `library_enabled` and `plugin_enabled` say which tests run.
pub fn list_tests_text(list: &TestList, library_enabled: &Vec<bool>, plugin_enabled: &Vec<bool>, terminal_width: usize) -> (r: String)
    requires
        library_enabled@.len() == list.plugin_library_tests@.len(),
        plugin_enabled@.len() == list.plugin_tests@.len(),
    ensures
        exists|reports: Seq<term::Report>| #![trigger term_printed(reports, terminal_width)] {
            &&& reports.len() == 2
            &&& is_test_kind_report(reports[0], "Plugin Library"@, library_tests_about(), list.plugin_library_tests@, library_enabled@)
            &&& is_test_kind_report(reports[1], "Plugin"@, plugin_tests_about(), list.plugin_tests@, plugin_enabled@)
            &&& r@ == term_printed(reports, terminal_width)
        },
{
    let library = test_kind_report(
        "Plugin Library",
        "Tests for plugin factories, preset providers and plugin libraries (files) in general",
        &list.plugin_library_tests,
        library_enabled,
    );
    let plugin = test_kind_report(
        "Plugin",
        "Tests for specific plugins within libraries, including their behavior during initialization, deinitialization, audio processing and callback handling.",
        &list.plugin_tests,
        plugin_enabled,
    );
    let mut out = String::new();
    print_term_report(&mut out, &library, terminal_width, Ghost(Seq::empty()));
    print_term_report(&mut out, &plugin, terminal_width, Ghost(Seq::empty().push(library)));
    proof {
        let reports = Seq::empty().push(library).push(plugin);
        assert(out@ == term_printed(reports, terminal_width));
    }
    out
}

} // verus!
