//! Checks on the features a plugin declares in its descriptor: that it names one of the main
//! plugin categories, and that no feature is listed twice.

use vstd::prelude::*;
use vstd::string::*;
use crate::status::TestStatus;
use crate::text::{compare_strings, lemma_seq_lt_irreflexive, lemma_seq_lt_total, lemma_seq_lt_transitive, seq_lt, string_views};

verus! {

/// Whether a feature names one of the main plugin categories: `instrument`, `audio-effect`,
/// `note-detector`, `note-effect` or `analyzer`.
pub open spec fn main_category(feature: Seq<char>) -> bool {
    ||| feature == "instrument"@
    ||| feature == "audio-effect"@
    ||| feature == "note-detector"@
    ||| feature == "note-effect"@
    ||| feature == "analyzer"@
}

/// The message of a plugin without a main category feature.
pub open spec fn no_category_message() -> Seq<char> {
    "The plugin needs to have at least one of the following plugin category features: \"instrument\", \"audio-effect\", \"note-effect\", or \"analyzer\"."@
}

/// The strings are ordered by their characters.
pub open spec fn sorted_strings(strings: Seq<String>) -> bool {
    forall|i: int, j: int| 0 <= i < j < strings.len() ==> !seq_lt(#[trigger] strings[j]@, #[trigger] strings[i]@)
}

/// Some feature is listed twice.
pub open spec fn has_duplicate(features: Seq<String>) -> bool {
    exists|i: int, j: int| 0 <= i < j < features.len() && #[trigger] features[i]@ == #[trigger] features[j]@
}

/// How `{:?}` writes a list of strings: in brackets, separated by commas, each quoted and escaped.
pub uninterp spec fn debug_list(items: Seq<Seq<char>>) -> Seq<char>;

/// Writes a list of strings as `{:?}` does.
///
/// Trusted: calls std's `Debug` formatting of a slice of `String`s through `format!`; the
/// contract only names the result as a function of the strings' characters.
#[verifier::external_body]
fn debug_strings(items: &Vec<String>) -> (r: String)
    ensures
        r@ == debug_list(string_views(items@)),
{
    format!("{:?}", items)
}

/// Whether a feature names one of the main plugin categories.
pub fn is_main_category(feature: &String) -> (r: bool)
    ensures
        r == main_category(feature@),
{
    *feature == String::from_str("instrument") || *feature == String::from_str("audio-effect")
        || *feature == String::from_str("note-detector") || *feature == String::from_str("note-effect")
        || *feature == String::from_str("analyzer")
}

/// The plugin must declare at least one of the main category features. An error carries the
/// message the test fails with.
pub fn features_categories(features: &Vec<String>) -> (r: Result<TestStatus, String>)
    ensures
        r is Ok <==> exists|i: int| 0 <= i < features@.len() && main_category(#[trigger] features@[i]@),
        r matches Ok(status) ==> status == (TestStatus::Success { details: None }),
        r matches Err(message) ==> message@ == no_category_message(),
{
    let mut i: usize = 0;
    while i < features.len()
        invariant
            i <= features@.len(),
            forall|k: int| 0 <= k < i ==> !main_category(#[trigger] features@[k]@),
        decreases features@.len() - i,
    {
        if is_main_category(&features[i]) {
            return Ok(TestStatus::Success { details: None });
        }
        i = i + 1;
    }
    Err(String::from_str("The plugin needs to have at least one of the following plugin category features: \"instrument\", \"audio-effect\", \"note-effect\", or \"analyzer\"."))
}

/// Whether some feature is listed twice.
pub fn has_duplicate_feature(features: &Vec<String>) -> (r: bool)
    ensures
        r == has_duplicate(features@),
{
    let mut j: usize = 0;
    while j < features.len()
        invariant
            j <= features@.len(),
            forall|a: int, b: int| 0 <= a < b < j ==> #[trigger] features@[a]@ != #[trigger] features@[b]@,
        decreases features@.len() - j,
    {
        let mut i: usize = 0;
        while i < j
            invariant
                i <= j < features@.len(),
                forall|a: int| 0 <= a < i ==> #[trigger] features@[a]@ != features@[j as int]@,
            decreases j - i,
        {
            if compare_strings(&features[i], &features[j]) == 0 {
                assert(features@[i as int]@ == features@[j as int]@);
                return true;
            }
            i = i + 1;
        }
        j = j + 1;
    }
    false
}

/// The strings in order.
pub fn sort_strings(strings: Vec<String>) -> (out: Vec<String>)
    ensures
        sorted_strings(out@),
        out@.to_multiset() == strings@.to_multiset(),
{
    let ghost input = strings@;
    assert(input.len() == strings.len());
    let mut rest = strings;
    let mut out: Vec<String> = Vec::new();
    let mut i: usize = 0;
    proof {
        assert(input.subrange(0, 0) =~= Seq::<String>::empty());
        assert(input.subrange(0, input.len() as int) =~= input);
    }
    while rest.len() > 0
        invariant
            input.len() <= usize::MAX,
            i + rest@.len() == input.len(),
            rest@ == input.subrange(i as int, input.len() as int),
            sorted_strings(out@),
            out@.to_multiset() == input.subrange(0, i as int).to_multiset(),
        decreases rest@.len(),
    {
        let x = rest.remove(0);
        let mut p: usize = 0;
        while p < out.len() && compare_strings(&x, &out[p]) >= 0
            invariant
                p <= out@.len(),
                sorted_strings(out@),
                forall|k: int| 0 <= k < p ==> !seq_lt(x@, (#[trigger] out@[k])@),
            decreases out@.len() - p,
        {
            p = p + 1;
        }
        proof {
            assert(x == input[i as int]);
            assert forall|k: int| p <= k < out@.len() implies seq_lt(x@, (#[trigger] out@[k])@) by {
                let a = out@[p as int]@;
                let b = out@[k]@;
                assert(seq_lt(x@, a));
                if k > p {
                    assert(!seq_lt(b, a));
                    lemma_seq_lt_total(a, b);
                    if a != b {
                        lemma_seq_lt_transitive(x@, a, b);
                    }
                }
            }
            let res = out@.insert(p as int, x);
            assert forall|a: int, b: int| 0 <= a < b < res.len() implies !seq_lt(#[trigger] res[b]@, #[trigger] res[a]@) by {
                if a < p && b == p {
                    assert(res[a] == out@[a]);
                } else if a == p {
                    assert(res[b] == out@[b - 1]);
                    lemma_seq_lt_total(x@, out@[b - 1]@);
                } else if a < p && b < p {
                    assert(res[a] == out@[a] && res[b] == out@[b]);
                } else if a < p {
                    assert(res[a] == out@[a] && res[b] == out@[b - 1]);
                } else {
                    assert(res[a] == out@[a - 1] && res[b] == out@[b - 1]);
                }
            }
            assert(input.subrange(0, i as int).push(x) =~= input.subrange(0, i + 1));
            vstd::seq_lib::to_multiset_insert(out@, p as int, x);
            input.subrange(0, i as int).to_multiset_ensures();
            assert(rest@ =~= input.subrange(i + 1, input.len() as int));
        }
        out.insert(p, x);
        i = i + 1;
    }
    proof {
        assert(input.subrange(0, i as int) =~= input);
    }
    out
}

/// The message of a plugin with duplicate features, listing all its features in order.
pub open spec fn duplicates_message(sorted: Seq<String>) -> Seq<char> {
    "The plugin has duplicate features: "@ + debug_list(string_views(sorted))
}

/// No feature may be listed twice. An error carries the message the test fails with, which lists
/// all of the plugin's features in order so the duplicates stand next to each other.
pub fn features_duplicates(features: Vec<String>) -> (r: Result<TestStatus, String>)
    ensures
        r is Ok <==> !has_duplicate(features@),
        r matches Ok(status) ==> status == (TestStatus::Success { details: None }),
        r matches Err(message) ==> exists|sorted: Seq<String>|
            #![trigger duplicates_message(sorted)]
            sorted_strings(sorted) && sorted.to_multiset() == features@.to_multiset() && message@
                == duplicates_message(sorted),
{
    if !has_duplicate_feature(&features) {
        return Ok(TestStatus::Success { details: None });
    }
    let sorted = sort_strings(features);
    let mut message = String::from_str("The plugin has duplicate features: ");
    let listed = debug_strings(&sorted);
    message.append(listed.as_str());
    proof {
        assert(sorted_strings(sorted@) && message@ == duplicates_message(sorted@));
    }
    Err(message)
}

/// Two orderings of the same strings list the same characters in the same order, so the sorted
/// list in a duplicate features message is determined by the features alone.
pub proof fn lemma_sorted_permutations_agree(a: Seq<String>, b: Seq<String>)
    requires
        sorted_strings(a),
        sorted_strings(b),
        a.to_multiset() == b.to_multiset(),
    ensures
        string_views(a) == string_views(b),
    decreases a.len(),
{
    a.to_multiset_ensures();
    b.to_multiset_ensures();
    if a.len() == 0 {
        assert(string_views(a) =~= string_views(b));
        return;
    }
    let x = a[0];
    assert(a.contains(x));
    assert(a.to_multiset().count(x) > 0);
    assert(b.to_multiset().count(x) > 0);
    assert(b.contains(x));
    let j = choose|j: int| 0 <= j < b.len() && b[j] == x;
    let y = b[0];
    assert(b.contains(y));
    assert(b.to_multiset().count(y) > 0);
    assert(a.to_multiset().count(y) > 0);
    assert(a.contains(y));
    let i = choose|i: int| 0 <= i < a.len() && a[i] == y;
    if i > 0 {
        assert(!seq_lt(a[i]@, a[0]@));
    } else {
        lemma_seq_lt_irreflexive(x@);
    }
    if j > 0 {
        assert(!seq_lt(b[j]@, b[0]@));
    } else {
        lemma_seq_lt_irreflexive(x@);
    }
    lemma_seq_lt_total(x@, y@);
    assert(x@ == y@);
    let a2 = a.remove(0);
    let b2 = b.remove(j);
    assert(a2.to_multiset() == b2.to_multiset());
    assert forall|p: int, q: int| 0 <= p < q < b2.len() implies !seq_lt(#[trigger] b2[q]@, #[trigger] b2[p]@) by {
        let pp = if p < j { p } else { p + 1 };
        let qq = if q < j { q } else { q + 1 };
        assert(b2[p] == b[pp] && b2[q] == b[qq]);
    }
    assert forall|p: int, q: int| 0 <= p < q < a2.len() implies !seq_lt(#[trigger] a2[q]@, #[trigger] a2[p]@) by {
        assert(a2[p] == a[p + 1] && a2[q] == a[q + 1]);
    }
    lemma_sorted_permutations_agree(a2, b2);
    assert forall|k: int| 0 <= k < j implies (#[trigger] b[k])@ == x@ by {
        if k > 0 {
            assert(!seq_lt(b[k]@, b[0]@));
            assert(!seq_lt(b[j]@, b[k]@));
            lemma_seq_lt_total(b[k]@, x@);
        }
    }
    assert(string_views(a) =~= seq![x@] + string_views(a2));
    assert forall|k: int| 0 <= k < b.len() implies #[trigger] string_views(b)[k] == (seq![x@] + string_views(b2))[k] by {
        if k == 0 {
        } else if k <= j {
            assert(b2[k - 1] == b[k - 1]);
        } else {
            assert(b2[k - 1] == b[k]);
        }
    }
    assert(string_views(b) =~= seq![x@] + string_views(b2));
}

} // verus!
