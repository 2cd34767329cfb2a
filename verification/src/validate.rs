//! The decisions of a validation run: which tests and plugins run, how the per-library results are
//! combined, the order results are reported in, and what a test's outcome is recorded as.
//!
//! Loading plugin libraries and running the tests is left to the caller, which hands the outcomes
//! to these functions.

use vstd::prelude::*;
use vstd::string::*;
use crate::status::{Elapsed, TestResult, TestStatus};
use crate::text::{compare_strings, lemma_seq_lt_irreflexive, lemma_seq_lt_total, lemma_seq_lt_transitive, seq_lt, string_views};
use crate::keys::group_key;
use crate::validator::{GroupKey, TestGroup, ValidationResult, groups_intersect, has_key, lemma_group_map};
use crate::events::{lemma_filter_none, lemma_filter_push};

verus! {

#[verifier::external_type_specification]
#[verifier::external_body]
pub struct ExRegex(regex_lite::Regex);

/// Names whether `regex_lite::Regex::new` accepts `pattern`.
pub uninterp spec fn regex_compiles(pattern: Seq<char>) -> bool;

/// Names whether the regular expression compiled from `pattern` matches somewhere in `text`.
pub uninterp spec fn regex_matches(pattern: Seq<char>, text: Seq<char>) -> bool;

/// A compiled regular expression together with the pattern it was compiled from.
pub struct Pattern {
    source: String,
    regex: regex_lite::Regex,
}

impl Pattern {
    /// The pattern the expression was compiled from.
    pub closed spec fn source(&self) -> Seq<char> {
        self.source@
    }
}

/// Calls `regex_lite::Regex::new(pattern)`. The contract claims that it succeeds exactly when
/// `regex_compiles` holds of the pattern, and that the compiled expression is kept beside the
/// pattern; of the error message it claims nothing.
#[verifier::external_body]
fn compile_pattern(pattern: &str) -> (r: Result<Pattern, String>)
    ensures
        r is Ok <==> regex_compiles(pattern@),
        r matches Ok(p) ==> p.source() == pattern@,
{
    match regex_lite::Regex::new(pattern) {
        Ok(regex) => Ok(Pattern { source: pattern.to_string(), regex }),
        Err(e) => Err(e.to_string()),
    }
}

/// Calls `regex_lite::Regex::is_match(text)` on the compiled expression. The contract claims that
/// the answer is what `regex_matches` names for the pattern the expression was compiled from.
#[verifier::external_body]
fn pattern_matches(p: &Pattern, text: &str) -> (r: bool)
    ensures
        r == regex_matches(p.source(), text@),
{
    p.regex.is_match(text)
}

/// Why the test filter could not be built.
#[derive(Debug)]
pub enum FilterError {
    /// The test filter pattern at `index` is not a valid regular expression.
    Filter { index: usize, pattern: String, message: String },
    /// The test exclude pattern at `index` is not a valid regular expression.
    Exclude { index: usize, pattern: String, message: String },
}

/// The regular expressions that select the tests to run.
pub struct TestFilter {
    filters: Vec<Pattern>,
    exclude: Vec<Pattern>,
}

/// The sources of compiled patterns.
pub open spec fn sources(ps: Seq<Pattern>) -> Seq<Seq<char>> {
    ps.map_values(|p: Pattern| p.source())
}

/// Whether any of the patterns matches `id`.
pub open spec fn any_matches(patterns: Seq<Seq<char>>, id: Seq<char>) -> bool {
    exists|i: int| 0 <= i < patterns.len() && regex_matches(#[trigger] patterns[i], id)
}

/// Compiles each pattern, stopping at the first that does not compile.
fn compile_all(patterns: &Vec<String>) -> (r: Result<Vec<Pattern>, (usize, String)>)
    ensures
        r matches Ok(ps) ==> sources(ps@) == string_views(patterns@) && forall|i: int|
            0 <= i < patterns@.len() ==> regex_compiles(#[trigger] patterns@[i]@),
        r matches Err((index, message)) ==> index < patterns@.len() && !regex_compiles(patterns@[index as int]@)
            && forall|i: int| 0 <= i < index ==> regex_compiles(#[trigger] patterns@[i]@),
{
    let mut out: Vec<Pattern> = Vec::new();
    let mut i: usize = 0;
    while i < patterns.len()
        invariant
            i <= patterns@.len(),
            out@.len() == i,
            sources(out@) == string_views(patterns@.subrange(0, i as int)),
            forall|j: int| 0 <= j < i ==> regex_compiles(#[trigger] patterns@[j]@),
        decreases patterns@.len() - i,
    {
        match compile_pattern(patterns[i].as_str()) {
            Ok(p) => {
                let ghost before = out@;
                let ghost src = p.source();
                assert(src == patterns@[i as int]@);
                out.push(p);
                proof {
                    assert(out@ == before.push(p));
                    assert forall|k: int| 0 <= k < i + 1 implies #[trigger] sources(out@)[k] == string_views(
                        patterns@.subrange(0, i + 1),
                    )[k] by {
                        if k < i {
                            assert(out@[k] == before[k]);
                            assert(sources(before)[k] == string_views(patterns@.subrange(0, i as int))[k]);
                        }
                    }
                    assert(sources(out@) =~= string_views(patterns@.subrange(0, i + 1)));
                }
            },
            Err(message) => {
                return Err((i, message));
            },
        }
        i = i + 1;
    }
    proof {
        assert(patterns@.subrange(0, patterns@.len() as int) =~= patterns@);
    }
    Ok(out)
}

impl TestFilter {
    /// The patterns that select tests.
    pub closed spec fn filter_spec(&self) -> Seq<Seq<char>> {
        sources(self.filters@)
    }

    /// The patterns that exclude tests.
    pub closed spec fn exclude_spec(&self) -> Seq<Seq<char>> {
        sources(self.exclude@)
    }

    /// Compiles the filter and exclude patterns. The first pattern that does not compile is
    /// reported, the filter patterns before the exclude patterns.
    pub fn new(filters: &Vec<String>, exclude: &Vec<String>) -> (r: Result<TestFilter, FilterError>)
        ensures
            r matches Ok(f) ==> f.filter_spec() == string_views(filters@) && f.exclude_spec() == string_views(
                exclude@,
            ),
            r is Ok <==> (forall|i: int| 0 <= i < filters@.len() ==> regex_compiles(#[trigger] filters@[i]@))
                && (forall|i: int| 0 <= i < exclude@.len() ==> regex_compiles(#[trigger] exclude@[i]@)),
            r matches Err(FilterError::Filter { index, pattern, message }) ==> index < filters@.len() && pattern@
                == filters@[index as int]@ && !regex_compiles(pattern@) && forall|i: int|
                0 <= i < index ==> regex_compiles(#[trigger] filters@[i]@),
            r matches Err(FilterError::Exclude { index, pattern, message }) ==> (forall|i: int|
                0 <= i < filters@.len() ==> regex_compiles(#[trigger] filters@[i]@)) && index < exclude@.len()
                && pattern@ == exclude@[index as int]@ && !regex_compiles(pattern@) && forall|i: int|
                0 <= i < index ==> regex_compiles(#[trigger] exclude@[i]@),
    {
        let inc = match compile_all(filters) {
            Ok(ps) => ps,
            Err((index, message)) => {
                let pattern = filters[index].clone();
                return Err(FilterError::Filter { index, pattern, message });
            },
        };
        let exc = match compile_all(exclude) {
            Ok(ps) => ps,
            Err((index, message)) => {
                let pattern = exclude[index].clone();
                return Err(FilterError::Exclude { index, pattern, message });
            },
        };
        Ok(TestFilter { filters: inc, exclude: exc })
    }

    /// Whether the test `id` runs: it is enabled, it matches one of the filter patterns or there
    /// are none, and it matches none of the exclude patterns.
    pub fn allows(&self, enabled: bool, id: &str) -> (r: bool)
        ensures
            r == (enabled && (self.filter_spec().len() == 0 || any_matches(self.filter_spec(), id@))
                && !any_matches(self.exclude_spec(), id@)),
    {
        if !enabled {
            return false;
        }
        let mut selected = self.filters.len() == 0;
        let mut i: usize = 0;
        while i < self.filters.len() && !selected
            invariant
                i <= self.filters@.len(),
                selected == (self.filters@.len() == 0 || exists|j: int|
                    0 <= j < i && regex_matches(#[trigger] sources(self.filters@)[j], id@)),
            decreases self.filters@.len() - i,
        {
            if pattern_matches(&self.filters[i], id) {
                assert(regex_matches(sources(self.filters@)[i as int], id@));
                selected = true;
            }
            i = i + 1;
        }
        if !selected {
            assert(!any_matches(self.filter_spec(), id@));
            return false;
        }
        let mut j: usize = 0;
        while j < self.exclude.len()
            invariant
                j <= self.exclude@.len(),
                forall|k: int| 0 <= k < j ==> !regex_matches(#[trigger] sources(self.exclude@)[k], id@),
            decreases self.exclude@.len() - j,
        {
            if pattern_matches(&self.exclude[j], id) {
                assert(regex_matches(sources(self.exclude@)[j as int], id@));
                return false;
            }
            j = j + 1;
        }
        true
    }
}

/// Whether the plugin `id` is validated: every plugin is when no plugin ID was asked for.
pub fn plugin_selected(plugin_id: &Option<String>, id: &String) -> (r: bool)
    ensures
        r == match plugin_id {
            None => true,
            Some(p) => p@ == id@,
        },
{
    match plugin_id {
        None => true,
        Some(p) => compare_strings(p, id) == 0,
    }
}

/// Whether the plugin `id` is validated when `plugin_id` was asked for: every plugin is when no
/// plugin ID was asked for.
pub open spec fn plugin_wanted(plugin_id: Option<String>, id: String) -> bool {
    match plugin_id {
        None => true,
        Some(p) => p@ == id@,
    }
}

/// The plugins of a library that are validated, in the library's order.
pub fn plugins_to_validate(plugin_id: &Option<String>, ids: &Vec<String>) -> (r: Vec<String>)
    ensures
        r@ == ids@.filter(|id: String| plugin_wanted(*plugin_id, id)),
{
    let ghost p = |id: String| plugin_wanted(*plugin_id, id);
    let mut r: Vec<String> = Vec::new();
    let mut k: usize = 0;
    proof {
        assert(ids@.subrange(0, 0) =~= Seq::<String>::empty());
        reveal(Seq::filter);
        assert(Seq::<String>::empty().filter(p) =~= Seq::<String>::empty());
    }
    while k < ids.len()
        invariant
            k <= ids@.len(),
            p == (|id: String| plugin_wanted(*plugin_id, id)),
            r@ == ids@.subrange(0, k as int).filter(p),
        decreases ids@.len() - k,
    {
        let id = &ids[k];
        proof {
            assert(ids@.subrange(0, k + 1) =~= ids@.subrange(0, k as int).push(*id));
            lemma_filter_push(ids@.subrange(0, k as int), *id, p);
        }
        if plugin_selected(plugin_id, id) {
            r.push(id.clone());
        }
        k = k + 1;
    }
    proof {
        assert(ids@.subrange(0, ids@.len() as int) =~= ids@);
    }
    r
}

/// The tests of a library named `name`.
pub open spec fn named(name: Seq<char>) -> spec_fn(TestResult) -> bool {
    |t: TestResult| t.name@ == name
}

/// The tests are ordered by name.
pub open spec fn sorted_by_name(s: Seq<TestResult>) -> bool {
    forall|i: int, j: int| 0 <= i <= j < s.len() ==> !seq_lt(#[trigger] s[j].name@, #[trigger] s[i].name@)
}

/// `out` is what a stable sort by name makes of `input`: ordered by name, with the tests of each
/// name in the order they had in `input`.
pub open spec fn stable_name_sort_of(out: Seq<TestResult>, input: Seq<TestResult>) -> bool {
    &&& sorted_by_name(out)
    &&& forall|n: Seq<char>| #[trigger] out.filter(named(n)) == input.filter(named(n))
}

proof fn lemma_insert_by_name(out: Seq<TestResult>, input: Seq<TestResult>, x: TestResult, p: int)
    requires
        stable_name_sort_of(out, input),
        0 <= p <= out.len(),
        forall|k: int| 0 <= k < p ==> !seq_lt(x.name@, (#[trigger] out[k]).name@),
        forall|k: int| p <= k < out.len() ==> seq_lt(x.name@, (#[trigger] out[k]).name@),
    ensures
        stable_name_sort_of(out.insert(p, x), input.push(x)),
{
    let res = out.insert(p, x);
    let pre = out.subrange(0, p);
    let post = out.subrange(p, out.len() as int);
    assert(out =~= pre + post);
    assert(res =~= pre.push(x) + post);
    assert forall|i: int, j: int| 0 <= i <= j < res.len() implies !seq_lt(#[trigger] res[j].name@, #[trigger] res[i].name@) by {
        if i == j {
            lemma_seq_lt_irreflexive(res[i].name@);
        } else if i < p && j < p {
        } else if i < p && j == p {
        } else if i < p {
            assert(res[j] == out[j - 1]);
        } else if i == p {
            assert(res[j] == out[j - 1]);
            if seq_lt(res[j].name@, x.name@) {
                lemma_seq_lt_transitive(x.name@, res[j].name@, x.name@);
                lemma_seq_lt_irreflexive(x.name@);
            }
        } else {
            assert(res[i] == out[i - 1]);
            assert(res[j] == out[j - 1]);
        }
    }
    assert forall|n: Seq<char>| #[trigger] res.filter(named(n)) == input.push(x).filter(named(n)) by {
        let q = named(n);
        Seq::filter_distributes_over_add(pre.push(x), post, q);
        Seq::filter_distributes_over_add(pre, post, q);
        lemma_filter_push(pre, x, q);
        lemma_filter_push(input, x, q);
        assert(out.filter(q) == input.filter(q));
        if x.name@ == n {
            assert forall|i: int| 0 <= i < post.len() implies !q(#[trigger] post[i]) by {
                assert(post[i] == out[p + i]);
                lemma_seq_lt_irreflexive(x.name@);
            }
            lemma_filter_none(post, q);
            assert(out.filter(q) =~= pre.filter(q));
            assert(res.filter(q) =~= pre.filter(q).push(x));
        } else {
            assert(res.filter(q) =~= pre.filter(q) + post.filter(q));
        }
    }
}

/// The tests in a stable order by name.
pub fn sort_tests_by_name(tests: Vec<TestResult>) -> (out: Vec<TestResult>)
    ensures
        stable_name_sort_of(out@, tests@),
        out@.to_multiset() == tests@.to_multiset(),
{
    let ghost input = tests@;
    assert(input.len() == tests.len());
    let mut rest = tests;
    let mut out: Vec<TestResult> = Vec::new();
    let mut i: usize = 0;
    proof {
        reveal(Seq::filter);
        assert(input.subrange(0, 0) =~= Seq::<TestResult>::empty());
        assert(input.subrange(0, input.len() as int) =~= input);
    }
    while rest.len() > 0
        invariant
            input.len() <= usize::MAX,
            i + rest@.len() == input.len(),
            rest@ == input.subrange(i as int, input.len() as int),
            stable_name_sort_of(out@, input.subrange(0, i as int)),
            out@.to_multiset() == input.subrange(0, i as int).to_multiset(),
        decreases rest@.len(),
    {
        let x = rest.remove(0);
        let mut p: usize = 0;
        while p < out.len() && compare_strings(&out[p].name, &x.name) <= 0
            invariant
                p <= out@.len(),
                sorted_by_name(out@),
                forall|k: int| 0 <= k < p ==> !seq_lt(x.name@, (#[trigger] out@[k]).name@),
            decreases out@.len() - p,
        {
            p = p + 1;
        }
        proof {
            assert(x == input[i as int]);
            assert forall|k: int| p <= k < out@.len() implies seq_lt(x.name@, (#[trigger] out@[k]).name@) by {
                let a = out@[p as int].name@;
                let b = out@[k].name@;
                assert(seq_lt(x.name@, a));
                assert(!seq_lt(b, a));
                lemma_seq_lt_total(a, b);
                if a != b {
                    lemma_seq_lt_transitive(x.name@, a, b);
                }
            }
            lemma_insert_by_name(out@, input.subrange(0, i as int), x, p as int);
            assert(input.subrange(0, i as int).push(x) =~= input.subrange(0, i + 1));
            vstd::seq_lib::to_multiset_insert(out@, p as int, x);
            input.subrange(0, i as int).to_multiset_ensures();
            assert(rest@ =~= input.subrange(i + 1, input.len() as int));
        }
        out.insert(p, x);
        i = i + 1;
    }
    proof {
        assert(input.subrange(0, i as int) =~= input);
    }
    out
}

/// At most one test of each name.
pub open spec fn names_unique(tests: Seq<TestResult>) -> bool {
    forall|n: Seq<char>| #[trigger] tests.filter(named(n)).len() <= 1
}

proof fn lemma_filter_singleton<A>(x: A, p: spec_fn(A) -> bool)
    ensures
        seq![x].filter(p) == if p(x) {
            seq![x]
        } else {
            Seq::<A>::empty()
        },
{
    reveal_with_fuel(Seq::filter, 2);
    assert(seq![x].drop_last() =~= Seq::<A>::empty());
}

/// Filtering a sequence, seen from its first element.
proof fn lemma_filter_first<A>(s: Seq<A>, p: spec_fn(A) -> bool)
    requires
        s.len() > 0,
    ensures
        s.filter(p) == if p(s[0]) {
            seq![s[0]] + s.drop_first().filter(p)
        } else {
            s.drop_first().filter(p)
        },
{
    assert(s =~= seq![s[0]] + s.drop_first());
    Seq::filter_distributes_over_add(seq![s[0]], s.drop_first(), p);
    lemma_filter_singleton(s[0], p);
    if !p(s[0]) {
        assert(Seq::<A>::empty() + s.drop_first().filter(p) =~= s.drop_first().filter(p));
    }
}

/// The count of a value in the filtered sequence is its count in the sequence, when it passes.
proof fn lemma_filter_count<A>(s: Seq<A>, p: spec_fn(A) -> bool, v: A)
    ensures
        s.filter(p).to_multiset().count(v) == if p(v) {
            s.to_multiset().count(v)
        } else {
            0
        },
    decreases s.len(),
{
    broadcast use vstd::multiset::group_multiset_axioms;
    if s.len() == 0 {
        reveal(Seq::filter);
        s.to_multiset_ensures();
        s.filter(p).to_multiset_ensures();
        assert(s.filter(p) =~= Seq::<A>::empty());
        assert(s.to_multiset() =~= vstd::multiset::Multiset::empty());
    } else {
        let init = s.drop_last();
        let x = s.last();
        assert(s =~= init.push(x));
        lemma_filter_count(init, p, v);
        crate::events::lemma_filter_push(init, x, p);
        init.to_multiset_ensures();
        init.filter(p).to_multiset_ensures();
    }
}

/// Sequences with the same elements, one of each name at most, have the same tests of each name.
proof fn lemma_same_named(a: Seq<TestResult>, b: Seq<TestResult>, n: Seq<char>)
    requires
        a.to_multiset() == b.to_multiset(),
        names_unique(a),
    ensures
        a.filter(named(n)) == b.filter(named(n)),
{
    broadcast use vstd::multiset::group_multiset_axioms;
    let p = named(n);
    let fa = a.filter(p);
    let fb = b.filter(p);
    assert forall|v: TestResult| fa.to_multiset().count(v) == fb.to_multiset().count(v) by {
        lemma_filter_count(a, p, v);
        lemma_filter_count(b, p, v);
    }
    assert(fa.to_multiset() =~= fb.to_multiset());
    fa.to_multiset_ensures();
    fb.to_multiset_ensures();
    assert(fa.len() <= 1);
    if fa.len() == 1 {
        assert(fa.contains(fa[0]));
        assert(fb.to_multiset().count(fa[0]) > 0);
        assert(fb.contains(fa[0]));
        assert(fa =~= fb);
    } else {
        assert(fa =~= fb);
    }
}

/// Two sequences ordered by name with the same tests of each name are the same.
proof fn lemma_sorted_same(x: Seq<TestResult>, y: Seq<TestResult>)
    requires
        sorted_by_name(x),
        sorted_by_name(y),
        forall|n: Seq<char>| #[trigger] x.filter(named(n)) == y.filter(named(n)),
    ensures
        x == y,
    decreases x.len() + y.len(),
{
    if x.len() == 0 && y.len() == 0 {
        assert(x =~= y);
    } else if x.len() == 0 {
        lemma_filter_first(y, named(y[0].name@));
        assert(x.filter(named(y[0].name@)) =~= Seq::<TestResult>::empty()) by {
            reveal(Seq::filter);
        }
        assert(false);
    } else if y.len() == 0 {
        lemma_filter_first(x, named(x[0].name@));
        assert(y.filter(named(x[0].name@)) =~= Seq::<TestResult>::empty()) by {
            reveal(Seq::filter);
        }
        assert(false);
    } else {
        let kx = x[0].name@;
        let ky = y[0].name@;
        lemma_filter_first(x, named(kx));
        lemma_filter_first(y, named(ky));
        lemma_seq_lt_total(kx, ky);
        if seq_lt(kx, ky) {
            let f = y.filter(named(kx));
            assert(f == x.filter(named(kx)));
            assert(f[0] == x[0]);
            assert(f.contains(f[0]));
            y.lemma_filter_contains_rev(named(kx), f[0]);
            assert(y.contains(f[0]));
            let j = choose|j: int| 0 <= j < y.len() && y[j] == f[0];
            assert(!seq_lt(y[j].name@, y[0].name@));
            assert(false);
        }
        if seq_lt(ky, kx) {
            let f = x.filter(named(ky));
            assert(f == y.filter(named(ky)));
            assert(f[0] == y[0]);
            assert(f.contains(f[0]));
            x.lemma_filter_contains_rev(named(ky), f[0]);
            assert(x.contains(f[0]));
            let j = choose|j: int| 0 <= j < x.len() && x[j] == f[0];
            assert(!seq_lt(x[j].name@, x[0].name@));
            assert(false);
        }
        assert(kx == ky);
        assert(x.filter(named(kx))[0] == x[0]);
        assert(y.filter(named(kx))[0] == y[0]);
        assert(x[0] == y[0]);
        let xs = x.drop_first();
        let ys = y.drop_first();
        assert forall|n: Seq<char>| #[trigger] xs.filter(named(n)) == ys.filter(named(n)) by {
            lemma_filter_first(x, named(n));
            lemma_filter_first(y, named(n));
            if n == kx {
                assert(xs.filter(named(n)) =~= x.filter(named(n)).drop_first());
                assert(ys.filter(named(n)) =~= y.filter(named(n)).drop_first());
            }
        }
        assert(sorted_by_name(xs)) by {
            assert forall|i: int, j: int| 0 <= i <= j < xs.len() implies !seq_lt(#[trigger] xs[j].name@, #[trigger] xs[i].name@) by {
                assert(xs[i] == x[i + 1] && xs[j] == x[j + 1]);
            }
        }
        assert(sorted_by_name(ys)) by {
            assert forall|i: int, j: int| 0 <= i <= j < ys.len() implies !seq_lt(#[trigger] ys[j].name@, #[trigger] ys[i].name@) by {
                assert(ys[i] == y[i + 1] && ys[j] == y[j + 1]);
            }
        }
        lemma_sorted_same(xs, ys);
        assert(x =~= seq![x[0]] + xs);
        assert(y =~= seq![y[0]] + ys);
        assert(x =~= y);
    }
}

/// Law: the order in which tests are reported does not depend on the order in which they
/// finished. Two runs that produced the same tests, at most one of each name, report them in the
/// same order once sorted.
pub proof fn law_report_order_is_canonical(a: Seq<TestResult>, b: Seq<TestResult>, sa: Seq<TestResult>, sb: Seq<TestResult>)
    requires
        a.to_multiset() == b.to_multiset(),
        names_unique(a),
        stable_name_sort_of(sa, a),
        stable_name_sort_of(sb, b),
    ensures
        sa == sb,
{
    assert forall|n: Seq<char>| #[trigger] sa.filter(named(n)) == sb.filter(named(n)) by {
        lemma_same_named(a, b, n);
    }
    lemma_sorted_same(sa, sb);
}

/// The groups with every group's tests sorted by name; the keys stay as they are.
pub fn sort_group_tests(groups: Vec<TestGroup>) -> (r: Vec<TestGroup>)
    ensures
        r@.len() == groups@.len(),
        forall|i: int|
            0 <= i < groups@.len() ==> (#[trigger] r@[i]).0 == groups@[i].0 && stable_name_sort_of(r@[i].1@, groups@[i].1@)
                && r@[i].1@.to_multiset() == groups@[i].1@.to_multiset(),
{
    let ghost input = groups@;
    assert(input.len() == groups.len());
    let mut rest = groups;
    let mut out: Vec<TestGroup> = Vec::new();
    let mut i: usize = 0;
    proof {
        assert(input.subrange(0, input.len() as int) =~= input);
    }
    while rest.len() > 0
        invariant
            input.len() <= usize::MAX,
            i + rest@.len() == input.len(),
            rest@ == input.subrange(i as int, input.len() as int),
            out@.len() == i,
            forall|k: int|
                0 <= k < i ==> (#[trigger] out@[k]).0 == input[k].0 && stable_name_sort_of(out@[k].1@, input[k].1@)
                    && out@[k].1@.to_multiset() == input[k].1@.to_multiset(),
        decreases rest@.len(),
    {
        let (key, tests) = rest.remove(0);
        assert(input[i as int] == (key, tests));
        let sorted = sort_tests_by_name(tests);
        out.push((key, sorted));
        proof {
            assert(rest@ =~= input.subrange(i + 1, input.len() as int));
        }
        i = i + 1;
    }
    out
}

/// Sorts the tests of every library and every plugin by name, as the results are reported.
pub fn sort_results(result: ValidationResult) -> (r: ValidationResult)
    ensures
        r.plugin_library_tests@.len() == result.plugin_library_tests@.len(),
        r.plugin_tests@.len() == result.plugin_tests@.len(),
        forall|i: int|
            0 <= i < result.plugin_library_tests@.len() ==> (#[trigger] r.plugin_library_tests@[i]).0
                == result.plugin_library_tests@[i].0 && stable_name_sort_of(
                r.plugin_library_tests@[i].1@,
                result.plugin_library_tests@[i].1@,
            ),
        forall|i: int|
            0 <= i < result.plugin_tests@.len() ==> (#[trigger] r.plugin_tests@[i]).0 == result.plugin_tests@[i].0
                && stable_name_sort_of(r.plugin_tests@[i].1@, result.plugin_tests@[i].1@),
{
    let ValidationResult { plugin_library_tests, plugin_tests } = result;
    let plugin_tests = sort_group_tests(plugin_tests);
    let plugin_library_tests = sort_group_tests(plugin_library_tests);
    ValidationResult { plugin_library_tests, plugin_tests }
}

/// The results of one side: per library path, or per plugin ID when `plugins` holds.
pub open spec fn side_map(r: ValidationResult, plugins: bool) -> Map<GroupKey, Seq<TestResult>> {
    if plugins {
        r.plugin_map()
    } else {
        r.library_map()
    }
}

/// The results of one side of all of `rs` merged in order, a later result taking precedence.
pub open spec fn merged_map(rs: Seq<ValidationResult>, plugins: bool) -> Map<GroupKey, Seq<TestResult>>
    decreases rs.len(),
{
    if rs.len() == 0 {
        Map::empty()
    } else {
        merged_map(rs.drop_last(), plugins).union_prefer_right(side_map(rs.last(), plugins))
    }
}

/// The number of test results held by all of `rs`.
pub open spec fn total_tests(rs: Seq<ValidationResult>) -> nat
    decreases rs.len(),
{
    if rs.len() == 0 {
        0
    } else {
        total_tests(rs.drop_last()) + rs.last().num_tests()
    }
}

/// No two of the results share a library path or a plugin ID.
pub open spec fn pairwise_disjoint(rs: Seq<ValidationResult>) -> bool {
    forall|i: int, j: int| #![trigger rs[i], rs[j]] 0 <= i < j < rs.len() ==> !rs[i].intersects_spec(&rs[j])
}

/// A key is merged in exactly when one of the results holds it.
proof fn lemma_merged_dom(rs: Seq<ValidationResult>, plugins: bool, k: GroupKey)
    ensures
        merged_map(rs, plugins).dom().contains(k) <==> exists|j: int|
            0 <= j < rs.len() && #[trigger] side_map(rs[j], plugins).dom().contains(k),
    decreases rs.len(),
{
    if rs.len() > 0 {
        let s = rs.drop_last();
        lemma_merged_dom(s, plugins, k);
        if merged_map(s, plugins).dom().contains(k) {
            let j = choose|j: int| 0 <= j < s.len() && #[trigger] side_map(s[j], plugins).dom().contains(k);
            assert(rs[j] == s[j]);
        }
        if exists|j: int| 0 <= j < rs.len() && #[trigger] side_map(rs[j], plugins).dom().contains(k) {
            let j = choose|j: int| 0 <= j < rs.len() && #[trigger] side_map(rs[j], plugins).dom().contains(k);
            if j < s.len() {
                assert(rs[j] == s[j]);
            }
        }
    }
}

/// Two well-formed results intersect exactly when their maps share a key on one side.
proof fn lemma_intersects_dom(a: ValidationResult, b: ValidationResult)
    requires
        a.wf(),
        b.wf(),
    ensures
        a.intersects_spec(&b) <==> exists|k: GroupKey, plugins: bool|
            #[trigger] side_map(a, plugins).dom().contains(k) && side_map(b, plugins).dom().contains(k),
{
    lemma_group_map(a.plugin_library_tests@, true);
    lemma_group_map(b.plugin_library_tests@, true);
    lemma_group_map(a.plugin_tests@, false);
    lemma_group_map(b.plugin_tests@, false);
    if groups_intersect(a.plugin_library_tests@, b.plugin_library_tests@, true) {
        let k = choose|k: GroupKey| has_key(a.plugin_library_tests@, true, k) && has_key(b.plugin_library_tests@, true, k);
        assert(side_map(a, false).dom().contains(k) && side_map(b, false).dom().contains(k));
    }
    if groups_intersect(a.plugin_tests@, b.plugin_tests@, false) {
        let k = choose|k: GroupKey| has_key(a.plugin_tests@, false, k) && has_key(b.plugin_tests@, false, k);
        assert(side_map(a, true).dom().contains(k) && side_map(b, true).dom().contains(k));
    }
    if exists|k: GroupKey, plugins: bool|
        #[trigger] side_map(a, plugins).dom().contains(k) && side_map(b, plugins).dom().contains(k) {
        let (k, plugins) = choose|k: GroupKey, plugins: bool|
            #[trigger] side_map(a, plugins).dom().contains(k) && side_map(b, plugins).dom().contains(k);
        if plugins {
            assert(has_key(a.plugin_tests@, false, k) && has_key(b.plugin_tests@, false, k));
        } else {
            assert(has_key(a.plugin_library_tests@, true, k) && has_key(b.plugin_library_tests@, true, k));
        }
    }
}

/// Why combining the results of several libraries failed.
#[derive(Debug, Clone, Copy, PartialEq, Eq, Structural)]
pub enum MergeError {
    /// Two libraries hold results for the same library path or plugin ID, as when several versions
    /// of a plugin are validated at once.
    DuplicatePluginId,
}

/// Combines the results of the libraries in order. This fails when two of them share a library
/// path or a plugin ID; otherwise every key of every result is kept.
pub fn merge_results(results: Vec<ValidationResult>) -> (r: Result<ValidationResult, MergeError>)
    requires
        forall|i: int| 0 <= i < results@.len() ==> (#[trigger] results@[i]).wf(),
    ensures
        r is Ok <==> pairwise_disjoint(results@),
        r matches Ok(v) ==> {
            &&& v.wf()
            &&& v.library_map() == merged_map(results@, false)
            &&& v.plugin_map() == merged_map(results@, true)
            &&& v.num_tests() == total_tests(results@)
        },
{
    let ghost input = results@;
    assert(input.len() == results.len());
    let mut rest = results;
    let mut acc = ValidationResult::new();
    let mut i: usize = 0;
    proof {
        lemma_group_map(acc.plugin_library_tests@, true);
        lemma_group_map(acc.plugin_tests@, false);
        assert(acc.library_map() =~= merged_map(input.subrange(0, 0), false));
        assert(acc.plugin_map() =~= merged_map(input.subrange(0, 0), true));
        assert(input.subrange(0, input.len() as int) =~= input);
    }
    while rest.len() > 0
        invariant
            input.len() <= usize::MAX,
            input == results@,
            forall|j: int| 0 <= j < input.len() ==> (#[trigger] input[j]).wf(),
            i + rest@.len() == input.len(),
            rest@ == input.subrange(i as int, input.len() as int),
            acc.wf(),
            acc.library_map() == merged_map(input.subrange(0, i as int), false),
            acc.plugin_map() == merged_map(input.subrange(0, i as int), true),
            acc.num_tests() == total_tests(input.subrange(0, i as int)),
            pairwise_disjoint(input.subrange(0, i as int)),
        decreases rest@.len(),
    {
        let x = rest.remove(0);
        let ghost prefix = input.subrange(0, i as int);
        let ghost next = input.subrange(0, i + 1);
        proof {
            assert(x == input[i as int]);
            assert(rest@ =~= input.subrange(i + 1, input.len() as int));
            assert(next.drop_last() =~= prefix);
            assert(next.last() == x);
            lemma_intersects_dom(acc, x);
        }
        if acc.intersects(&x) {
            proof {
                let (k, plugins) = choose|k: GroupKey, plugins: bool|
                    #[trigger] side_map(acc, plugins).dom().contains(k) && side_map(x, plugins).dom().contains(k);
                lemma_merged_dom(prefix, plugins, k);
                let j = choose|j: int| 0 <= j < prefix.len() && #[trigger] side_map(prefix[j], plugins).dom().contains(k);
                assert(prefix[j] == input[j]);
                lemma_intersects_dom(input[j], x);
                assert(input[j].intersects_spec(&input[i as int]));
                assert(0 <= j < i < input.len());
                assert(!pairwise_disjoint(input));
            }
            return Err(MergeError::DuplicatePluginId);
        }
        proof {
            assert forall|a: int, b: int| #![trigger next[a], next[b]] 0 <= a < b < next.len() implies !next[a].intersects_spec(
                &next[b],
            ) by {
                if b < i {
                    assert(next[a] == prefix[a] && next[b] == prefix[b]);
                } else {
                    assert(next[b] == x);
                    assert(next[a] == input[a]);
                    lemma_intersects_dom(input[a], x);
                    if input[a].intersects_spec(&x) {
                        let (k, plugins) = choose|k: GroupKey, plugins: bool|
                            #[trigger] side_map(input[a], plugins).dom().contains(k) && side_map(x, plugins).dom().contains(k);
                        lemma_merged_dom(prefix, plugins, k);
                        assert(prefix[a] == input[a]);
                        assert(side_map(prefix[a], plugins).dom().contains(k));
                        assert(side_map(acc, plugins).dom().contains(k));
                    }
                }
            }
        }
        acc = acc.union(x);
        i = i + 1;
    }
    proof {
        assert(input.subrange(0, i as int) =~= input);
    }
    Ok(acc)
}

/// The map that inserting each pair in order into an empty map gives; a later pair replaces an
/// earlier one with the same key.
pub open spec fn inserted_map(pairs: Seq<TestGroup>) -> Map<GroupKey, Seq<TestResult>>
    decreases pairs.len(),
{
    if pairs.len() == 0 {
        Map::empty()
    } else {
        inserted_map(pairs.drop_last()).insert(group_key(false, pairs.last().0@), pairs.last().1@)
    }
}

/// The results of one library: the library's own tests under its path, and the tests of each
/// plugin under the plugin's ID. A library whose CLAP version is not supported contributes
/// nothing, not even its library tests.
pub fn library_result(path: String, library_tests: Vec<TestResult>, compatible: bool, plugin_tests: Vec<TestGroup>) -> (r: ValidationResult)
    ensures
        r.wf(),
        !compatible ==> r.library_map() == Map::<GroupKey, Seq<TestResult>>::empty() && r.plugin_map() == Map::<GroupKey, Seq<TestResult>>::empty(),
        compatible ==> r.library_map() == Map::<GroupKey, Seq<TestResult>>::empty().insert(group_key(true, path@), library_tests@)
            && r.plugin_map() == inserted_map(plugin_tests@),
{
    let mut result = ValidationResult::new();
    proof {
        lemma_group_map(result.plugin_library_tests@, true);
        lemma_group_map(result.plugin_tests@, false);
        assert(result.library_map() =~= Map::<GroupKey, Seq<TestResult>>::empty());
        assert(result.plugin_map() =~= Map::<GroupKey, Seq<TestResult>>::empty());
    }
    if !compatible {
        return result;
    }
    result.insert_library_tests(path, library_tests);
    let ghost input = plugin_tests@;
    assert(input.len() == plugin_tests.len());
    let mut rest = plugin_tests;
    let mut i: usize = 0;
    proof {
        assert(input.subrange(0, 0) =~= Seq::<TestGroup>::empty());
        assert(input.subrange(0, input.len() as int) =~= input);
    }
    while rest.len() > 0
        invariant
            input.len() <= usize::MAX,
            i + rest@.len() == input.len(),
            rest@ == input.subrange(i as int, input.len() as int),
            result.wf(),
            result.library_map() == Map::<GroupKey, Seq<TestResult>>::empty().insert(group_key(true, path@), library_tests@),
            result.plugin_map() == inserted_map(input.subrange(0, i as int)),
        decreases rest@.len(),
    {
        let (id, tests) = rest.remove(0);
        proof {
            assert(input[i as int] == (id, tests));
            assert(rest@ =~= input.subrange(i + 1, input.len() as int));
            let next = input.subrange(0, i + 1);
            assert(next.drop_last() =~= input.subrange(0, i as int));
            assert(next.last() == (id, tests));
        }
        result.insert_plugin_tests(id, tests);
        i = i + 1;
    }
    proof {
        assert(input.subrange(0, i as int) =~= input);
    }
    result
}

/// A plugin ID was asked for, and no plugin with it was found.
#[derive(Debug)]
pub struct UnmatchedPluginId(pub String);

/// When a plugin ID was asked for, some plugin must have been validated.
pub fn check_plugin_matched(plugin_id: &Option<String>, result: &ValidationResult) -> (r: Result<(), UnmatchedPluginId>)
    ensures
        r is Err <==> (plugin_id is Some && result.plugin_tests@.len() == 0),
        r matches Err(e) ==> e.0@ == plugin_id->0@,
{
    match plugin_id {
        Some(id) => {
            if result.plugin_tests.len() == 0 {
                Err(UnmatchedPluginId(id.clone()))
            } else {
                Ok(())
            }
        },
        None => Ok(()),
    }
}


/// The result recorded for a test: the status and duration the test reported, or, when running
/// the test failed, a crash with the error's message and the time spent trying.
pub fn test_result(name: String, description: String, outcome: Result<(TestStatus, Elapsed), String>, elapsed: Elapsed) -> (r: TestResult)
    ensures
        r.name == name,
        r.description == description,
        outcome matches Ok((status, duration)) ==> r.status == status && r.duration == duration,
        outcome matches Err(message) ==> r.status == (TestStatus::Crashed { details: message }) && r.duration == elapsed,
{
    let (status, duration) = match outcome {
        Ok((status, duration)) => (status, duration),
        Err(message) => (TestStatus::Crashed { details: message }, elapsed),
    };
    TestResult { name, description, status, duration }
}

/// The status of a test run in a sandbox: what the test reported, a failure with the error's
/// message when it returned an error, or a crash with the panic's message when it panicked.
pub fn sandboxed_status(outcome: Result<Result<TestStatus, String>, String>) -> (r: TestStatus)
    ensures
        outcome matches Ok(Ok(status)) ==> r == status,
        outcome matches Ok(Err(message)) ==> r == (TestStatus::Failed { details: Some(message) }),
        outcome matches Err(panic) ==> r == (TestStatus::Crashed { details: panic }),
{
    match outcome {
        Ok(Ok(status)) => status,
        Ok(Err(message)) => TestStatus::Failed { details: Some(message) },
        Err(panic) => TestStatus::Crashed { details: panic },
    }
}

} // verus!
