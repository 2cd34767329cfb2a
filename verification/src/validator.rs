//! The results of running the validation test suite on one or more plugins, and their tallies.
//!
//! Results are grouped per plugin library path and per plugin ID. Each group list is kept sorted
//! by key with every key occurring once, so that the order in which results are reported is
//! stable: the list behaves as an ordered map from keys to test results. Library paths are keyed
//! by their components and plugin IDs by their text (see [`crate::keys`]), as a map keyed by
//! `PathBuf` and one keyed by `String` would order and identify them.

use vstd::prelude::*;
use crate::status::{StatusKind, TestResult, TestStatus};
use crate::keys::{
    compare_keys, group_key, group_key_of, key_lt, key_view, lemma_key_lt_irreflexive, lemma_key_lt_total,
    lemma_key_lt_transitive,
};

verus! {

/// A key (a library path or a plugin ID) with the results of the tests run for it.
pub type TestGroup = (String, Vec<TestResult>);

/// The number of tests in `tests` whose status falls in group `k`.
pub open spec fn count_kind(tests: Seq<TestResult>, k: StatusKind) -> nat
    decreases tests.len(),
{
    if tests.len() == 0 {
        0
    } else {
        count_kind(tests.drop_last(), k) + if tests.last().status.kind() == k { 1nat } else { 0nat }
    }
}

/// The number of tests over all groups whose status falls in group `k`.
pub open spec fn groups_count(groups: Seq<TestGroup>, k: StatusKind) -> nat
    decreases groups.len(),
{
    if groups.len() == 0 {
        0
    } else {
        groups_count(groups.drop_last(), k) + count_kind(groups.last().1@, k)
    }
}

/// The number of tests over all groups.
pub open spec fn groups_len(groups: Seq<TestGroup>) -> nat
    decreases groups.len(),
{
    if groups.len() == 0 {
        0
    } else {
        groups_len(groups.drop_last()) + groups.last().1@.len()
    }
}

/// A group's key as a value: the components of a library path, or a plugin ID as one part (see
/// [`group_key`]).
pub type GroupKey = Seq<(u8, Seq<char>)>;

/// Keys strictly increase along the list, so each key occurs once. `paths` says whether the
/// groups are keyed by library path rather than by plugin ID.
pub open spec fn keys_sorted(groups: Seq<TestGroup>, paths: bool) -> bool {
    forall|i: int, j: int|
        0 <= i < j < groups.len() ==> key_lt(
            #[trigger] group_key(paths, groups[i].0@),
            #[trigger] group_key(paths, groups[j].0@),
        )
}

/// Whether some group has key `k`.
pub open spec fn has_key(groups: Seq<TestGroup>, paths: bool, k: GroupKey) -> bool {
    exists|i: int| 0 <= i < groups.len() && #[trigger] group_key(paths, groups[i].0@) == k
}

/// The map from keys to test results that a group list stands for. A later group with the same
/// key takes precedence, as with repeated map insertions.
pub open spec fn group_map(groups: Seq<TestGroup>, paths: bool) -> Map<GroupKey, Seq<TestResult>>
    decreases groups.len(),
{
    if groups.len() == 0 {
        Map::empty()
    } else {
        group_map(groups.drop_last(), paths).insert(group_key(paths, groups.last().0@), groups.last().1@)
    }
}

/// Every test in `tests` falls in exactly one of the four groups.
pub proof fn lemma_count_kind_partition(tests: Seq<TestResult>)
    ensures
        count_kind(tests, StatusKind::Passed) + count_kind(tests, StatusKind::Failed) + count_kind(
            tests,
            StatusKind::Skipped,
        ) + count_kind(tests, StatusKind::Warning) == tests.len(),
    decreases tests.len(),
{
    if tests.len() > 0 {
        lemma_count_kind_partition(tests.drop_last());
    }
}

/// Over a group list, the four counts add up to the number of tests.
pub proof fn lemma_groups_count_partition(groups: Seq<TestGroup>)
    ensures
        groups_count(groups, StatusKind::Passed) + groups_count(groups, StatusKind::Failed)
            + groups_count(groups, StatusKind::Skipped) + groups_count(groups, StatusKind::Warning)
            == groups_len(groups),
    decreases groups.len(),
{
    if groups.len() > 0 {
        lemma_groups_count_partition(groups.drop_last());
        lemma_count_kind_partition(groups.last().1@);
    }
}

proof fn lemma_count_kind_step(tests: Seq<TestResult>, i: int, k: StatusKind)
    requires
        0 <= i < tests.len(),
    ensures
        count_kind(tests.take(i + 1), k) == count_kind(tests.take(i), k) + if tests[i].status.kind()
            == k {
            1nat
        } else {
            0nat
        },
{
    assert(tests.take(i + 1).drop_last() =~= tests.take(i));
}

proof fn lemma_groups_step(groups: Seq<TestGroup>, i: int)
    requires
        0 <= i < groups.len(),
    ensures
        forall|k: StatusKind|
            groups_count(groups.take(i + 1), k) == groups_count(groups.take(i), k) + count_kind(
                #[trigger] groups[i].1@,
                k,
            ),
        groups_len(groups.take(i + 1)) == groups_len(groups.take(i)) + groups[i].1@.len(),
{
    assert(groups.take(i + 1).drop_last() =~= groups.take(i));
}

proof fn lemma_groups_len_prefix(groups: Seq<TestGroup>, i: int)
    requires
        0 <= i <= groups.len(),
    ensures
        groups_len(groups.take(i)) <= groups_len(groups),
    decreases groups.len() - i,
{
    if i < groups.len() {
        lemma_groups_step(groups, i);
        lemma_groups_len_prefix(groups, i + 1);
    } else {
        assert(groups.take(i) =~= groups);
    }
}

/// Inserting a group anywhere adds its tests to every count.
proof fn lemma_groups_count_insert(groups: Seq<TestGroup>, p: int, g: TestGroup)
    requires
        0 <= p <= groups.len(),
    ensures
        forall|k: StatusKind|
            #[trigger] groups_count(groups.insert(p, g), k) == groups_count(groups, k) + count_kind(g.1@, k),
        groups_len(groups.insert(p, g)) == groups_len(groups) + g.1@.len(),
    decreases groups.len(),
{
    let s = groups.insert(p, g);
    if p == groups.len() {
        assert(s.drop_last() =~= groups);
    } else {
        lemma_groups_count_insert(groups.drop_last(), p, g);
        assert(s.drop_last() =~= groups.drop_last().insert(p, g));
        assert(s.last() == groups.last());
        assert forall|k: StatusKind| #[trigger] groups_count(s, k) == groups_count(groups, k) + count_kind(
            g.1@,
            k,
        ) by {
            assert(groups_count(s, k) == groups_count(s.drop_last(), k) + count_kind(s.last().1@, k));
        }
    }
}

/// What the map of a sorted group list holds: exactly its keys, each with its own tests.
pub proof fn lemma_group_map(groups: Seq<TestGroup>, paths: bool)
    requires
        keys_sorted(groups, paths),
    ensures
        forall|k: GroupKey| #[trigger] group_map(groups, paths).dom().contains(k) <==> has_key(groups, paths, k),
        forall|i: int|
            0 <= i < groups.len() ==> group_map(groups, paths)[#[trigger] group_key(paths, groups[i].0@)]
                == groups[i].1@,
    decreases groups.len(),
{
    if groups.len() > 0 {
        let s = groups.drop_last();
        let n = groups.len() - 1;
        assert(keys_sorted(s, paths)) by {
            assert forall|i: int, j: int| 0 <= i < j < s.len() implies key_lt(
                #[trigger] group_key(paths, s[i].0@),
                #[trigger] group_key(paths, s[j].0@),
            ) by {
                assert(s[i] == groups[i] && s[j] == groups[j]);
                assert(key_lt(group_key(paths, groups[i].0@), group_key(paths, groups[j].0@)));
            }
        }
        lemma_group_map(s, paths);
        assert forall|k: GroupKey| #[trigger] group_map(groups, paths).dom().contains(k) <==> has_key(
            groups,
            paths,
            k,
        ) by {
            if has_key(groups, paths, k) {
                let i = choose|i: int| 0 <= i < groups.len() && #[trigger] group_key(paths, groups[i].0@) == k;
                if i < n {
                    assert(s[i] == groups[i]);
                    assert(group_key(paths, s[i].0@) == k);
                    assert(has_key(s, paths, k));
                }
            }
            if group_map(s, paths).dom().contains(k) {
                let i = choose|i: int| 0 <= i < s.len() && #[trigger] group_key(paths, s[i].0@) == k;
                assert(groups[i] == s[i]);
                assert(group_key(paths, groups[i].0@) == k);
            }
        }
        assert forall|i: int| 0 <= i < groups.len() implies group_map(groups, paths)[#[trigger] group_key(
            paths,
            groups[i].0@,
        )] == groups[i].1@ by {
            if i < n {
                assert(key_lt(group_key(paths, groups[i].0@), group_key(paths, groups[n].0@)));
                lemma_key_lt_irreflexive(group_key(paths, groups[i].0@));
                assert(s[i] == groups[i]);
                assert(group_map(s, paths)[group_key(paths, s[i].0@)] == s[i].1@);
            }
        }
    }
}

/// Three-way comparison of the key of group `i` with `k`.
fn compare_key_at(groups: &Vec<TestGroup>, i: usize, paths: bool, k: &Vec<(u8, String)>) -> (r: i8)
    requires
        i < groups.len(),
    ensures
        r < 0 <==> key_lt(group_key(paths, groups@[i as int].0@), key_view(k@)),
        r == 0 <==> group_key(paths, groups@[i as int].0@) == key_view(k@),
        r > 0 <==> key_lt(key_view(k@), group_key(paths, groups@[i as int].0@)),
{
    let gk = group_key_of(paths, &groups[i].0);
    compare_keys(&gk, k)
}

/// Insert the tests for `key` into a sorted group list, replacing the tests already stored under
/// the same key, as `BTreeMap::insert` does; a key already stored keeps its spelling.
pub fn insert_group(groups: &mut Vec<TestGroup>, paths: bool, key: String, tests: Vec<TestResult>)
    requires
        keys_sorted(old(groups)@, paths),
    ensures
        keys_sorted(final(groups)@, paths),
        group_map(final(groups)@, paths) == group_map(old(groups)@, paths).insert(group_key(paths, key@), tests@),
        !has_key(old(groups)@, paths, group_key(paths, key@)) ==> (forall|k: StatusKind| #[trigger] groups_count(
            final(groups)@,
            k,
        ) == groups_count(old(groups)@, k) + count_kind(tests@, k)),
        !has_key(old(groups)@, paths, group_key(paths, key@)) ==> groups_len(final(groups)@) == groups_len(
            old(groups)@,
        ) + tests@.len(),
{
    let ghost old_groups = groups@;
    let ghost kk = group_key(paths, key@);
    let k = group_key_of(paths, &key);
    let mut p: usize = 0;
    while p < groups.len() && compare_key_at(groups, p, paths, &k) < 0
        invariant
            groups@ == old_groups,
            key_view(k@) == kk,
            p <= groups.len(),
            forall|i: int| 0 <= i < p ==> key_lt(#[trigger] group_key(paths, groups@[i].0@), kk),
        decreases groups.len() - p,
    {
        p = p + 1;
    }
    let same = p < groups.len() && compare_key_at(groups, p, paths, &k) == 0;
    proof {
        lemma_group_map(old_groups, paths);
        if p < groups.len() && !same {
            lemma_key_lt_total(group_key(paths, groups@[p as int].0@), kk);
        }
    }
    if same {
        let (old_key, _old_tests) = groups.remove(p);
        groups.insert(p, (old_key, tests));
        proof {
            let s = groups@;
            assert(s =~= old_groups.update(p as int, (old_groups[p as int].0, tests)));
            assert(group_key(paths, s[p as int].0@) == kk);
            assert(keys_sorted(s, paths)) by {
                assert forall|i: int, j: int| 0 <= i < j < s.len() implies key_lt(
                    #[trigger] group_key(paths, s[i].0@),
                    #[trigger] group_key(paths, s[j].0@),
                ) by {
                    assert(s[i].0 == old_groups[i].0 && s[j].0 == old_groups[j].0);
                    assert(key_lt(group_key(paths, old_groups[i].0@), group_key(paths, old_groups[j].0@)));
                }
            }
            lemma_group_map(s, paths);
            assert(group_map(s, paths) =~= group_map(old_groups, paths).insert(kk, tests@)) by {
                assert forall|x: GroupKey| #[trigger] group_map(s, paths).dom().contains(x) <==> group_map(
                    old_groups,
                    paths,
                ).insert(kk, tests@).dom().contains(x) by {
                    if has_key(s, paths, x) {
                        let i = choose|i: int| 0 <= i < s.len() && #[trigger] group_key(paths, s[i].0@) == x;
                        assert(old_groups[i].0 == s[i].0);
                        assert(group_key(paths, old_groups[i].0@) == x);
                    }
                    if has_key(old_groups, paths, x) {
                        let i = choose|i: int|
                            0 <= i < old_groups.len() && #[trigger] group_key(paths, old_groups[i].0@) == x;
                        assert(s[i].0 == old_groups[i].0);
                        assert(group_key(paths, s[i].0@) == x);
                    }
                    if x == kk {
                        assert(group_key(paths, s[p as int].0@) == x);
                    }
                }
                assert forall|x: GroupKey| #[trigger] group_map(s, paths).dom().contains(x) implies group_map(
                    s,
                    paths,
                )[x] == group_map(old_groups, paths).insert(kk, tests@)[x] by {
                    let i = choose|i: int| 0 <= i < s.len() && #[trigger] group_key(paths, s[i].0@) == x;
                    if i != p {
                        assert(old_groups[i] == s[i]);
                        assert(group_key(paths, old_groups[i].0@) == x);
                        lemma_key_lt_irreflexive(x);
                        if i < p {
                            assert(key_lt(group_key(paths, old_groups[i].0@), group_key(paths, old_groups[p as int].0@)));
                        } else {
                            assert(key_lt(group_key(paths, old_groups[p as int].0@), group_key(paths, old_groups[i].0@)));
                        }
                    }
                }
            }
        }
    } else {
        groups.insert(p, (key, tests));
        proof {
            let s = groups@;
            let g = (key, tests);
            assert(s == old_groups.insert(p as int, g));
            assert(group_key(paths, s[p as int].0@) == kk);
            assert(keys_sorted(s, paths)) by {
                assert forall|i: int, j: int| 0 <= i < j < s.len() implies key_lt(
                    #[trigger] group_key(paths, s[i].0@),
                    #[trigger] group_key(paths, s[j].0@),
                ) by {
                    if j < p {
                        assert(s[i] == old_groups[i] && s[j] == old_groups[j]);
                        assert(key_lt(group_key(paths, old_groups[i].0@), group_key(paths, old_groups[j].0@)));
                    } else if j == p {
                        assert(s[i] == old_groups[i]);
                        assert(key_lt(group_key(paths, old_groups[i].0@), kk));
                    } else if i < p {
                        assert(s[i] == old_groups[i]);
                        assert(s[j] == old_groups[j - 1]);
                        assert(key_lt(group_key(paths, old_groups[i].0@), kk));
                        assert(key_lt(kk, group_key(paths, old_groups[p as int].0@)));
                        if j - 1 > p {
                            assert(key_lt(
                                group_key(paths, old_groups[p as int].0@),
                                group_key(paths, old_groups[j - 1].0@),
                            ));
                            lemma_key_lt_transitive(
                                kk,
                                group_key(paths, old_groups[p as int].0@),
                                group_key(paths, old_groups[j - 1].0@),
                            );
                        }
                        lemma_key_lt_transitive(group_key(paths, s[i].0@), kk, group_key(paths, s[j].0@));
                    } else if i == p {
                        assert(s[j] == old_groups[j - 1]);
                        assert(key_lt(kk, group_key(paths, old_groups[p as int].0@)));
                        if j - 1 > p {
                            assert(key_lt(
                                group_key(paths, old_groups[p as int].0@),
                                group_key(paths, old_groups[j - 1].0@),
                            ));
                            lemma_key_lt_transitive(
                                kk,
                                group_key(paths, old_groups[p as int].0@),
                                group_key(paths, old_groups[j - 1].0@),
                            );
                        }
                    } else {
                        assert(s[i] == old_groups[i - 1] && s[j] == old_groups[j - 1]);
                        assert(key_lt(group_key(paths, old_groups[i - 1].0@), group_key(paths, old_groups[j - 1].0@)));
                    }
                }
            }
            assert(!has_key(old_groups, paths, kk)) by {
                if has_key(old_groups, paths, kk) {
                    let i = choose|i: int|
                        0 <= i < old_groups.len() && #[trigger] group_key(paths, old_groups[i].0@) == kk;
                    lemma_key_lt_irreflexive(kk);
                    if i > p {
                        assert(key_lt(group_key(paths, old_groups[p as int].0@), group_key(paths, old_groups[i].0@)));
                        lemma_key_lt_total(group_key(paths, old_groups[p as int].0@), kk);
                    } else if i < p {
                        assert(key_lt(group_key(paths, old_groups[i].0@), kk));
                    }
                }
            }
            lemma_group_map(s, paths);
            assert(group_map(s, paths) =~= group_map(old_groups, paths).insert(kk, tests@)) by {
                assert forall|x: GroupKey| #[trigger] group_map(s, paths).dom().contains(x) <==> group_map(
                    old_groups,
                    paths,
                ).insert(kk, tests@).dom().contains(x) by {
                    if x == kk {
                        assert(group_key(paths, s[p as int].0@) == x);
                    }
                    if has_key(s, paths, x) {
                        let i = choose|i: int| 0 <= i < s.len() && #[trigger] group_key(paths, s[i].0@) == x;
                        if i < p {
                            assert(old_groups[i] == s[i]);
                            assert(group_key(paths, old_groups[i].0@) == x);
                        } else if i > p {
                            assert(old_groups[i - 1] == s[i]);
                            assert(group_key(paths, old_groups[i - 1].0@) == x);
                        }
                    }
                    if has_key(old_groups, paths, x) {
                        let i = choose|i: int|
                            0 <= i < old_groups.len() && #[trigger] group_key(paths, old_groups[i].0@) == x;
                        if i < p {
                            assert(s[i] == old_groups[i]);
                            assert(group_key(paths, s[i].0@) == x);
                        } else {
                            assert(s[i + 1] == old_groups[i]);
                            assert(group_key(paths, s[i + 1].0@) == x);
                        }
                    }
                }
                assert forall|x: GroupKey| #[trigger] group_map(s, paths).dom().contains(x) implies group_map(
                    s,
                    paths,
                )[x] == group_map(old_groups, paths).insert(kk, tests@)[x] by {
                    let i = choose|i: int| 0 <= i < s.len() && #[trigger] group_key(paths, s[i].0@) == x;
                    if i < p {
                        assert(old_groups[i] == s[i]);
                        assert(group_key(paths, old_groups[i].0@) == x);
                    } else if i > p {
                        assert(old_groups[i - 1] == s[i]);
                        assert(group_key(paths, old_groups[i - 1].0@) == x);
                    }
                }
            }
            lemma_groups_count_insert(old_groups, p as int, g);
        }
    }
}

/// Whether some group of the list has the key of `key`.
pub fn contains_key(groups: &Vec<TestGroup>, paths: bool, key: &String) -> (r: bool)
    ensures
        r == has_key(groups@, paths, group_key(paths, key@)),
{
    let k = group_key_of(paths, key);
    let mut i: usize = 0;
    while i < groups.len()
        invariant
            i <= groups.len(),
            key_view(k@) == group_key(paths, key@),
            forall|j: int| 0 <= j < i ==> #[trigger] group_key(paths, groups@[j].0@) != group_key(paths, key@),
        decreases groups.len() - i,
    {
        if compare_key_at(groups, i, paths, &k) == 0 {
            return true;
        }
        i = i + 1;
    }
    false
}

/// Whether the two group lists share a key.
pub open spec fn groups_intersect(a: Seq<TestGroup>, b: Seq<TestGroup>, paths: bool) -> bool {
    exists|k: GroupKey| has_key(a, paths, k) && has_key(b, paths, k)
}

fn groups_intersect_exec(a: &Vec<TestGroup>, b: &Vec<TestGroup>, paths: bool) -> (r: bool)
    ensures
        r == groups_intersect(a@, b@, paths),
{
    let mut i: usize = 0;
    while i < b.len()
        invariant
            i <= b.len(),
            forall|j: int| 0 <= j < i ==> !has_key(a@, paths, #[trigger] group_key(paths, b@[j].0@)),
        decreases b.len() - i,
    {
        if contains_key(a, paths, &b[i].0) {
            assert(has_key(b@, paths, group_key(paths, b@[i as int].0@)));
            return true;
        }
        i = i + 1;
    }
    proof {
        if groups_intersect(a@, b@, paths) {
            let k = choose|k: GroupKey| has_key(a@, paths, k) && has_key(b@, paths, k);
            let j = choose|j: int| 0 <= j < b@.len() && #[trigger] group_key(paths, b@[j].0@) == k;
            assert(!has_key(a@, paths, group_key(paths, b@[j].0@)));
        }
    }
    false
}

/// Insert every group of `from` into `into`; groups of `from` replace groups of `into` with the
/// same key.
fn merge_groups(into: &mut Vec<TestGroup>, from: Vec<TestGroup>, paths: bool)
    requires
        keys_sorted(old(into)@, paths),
        keys_sorted(from@, paths),
    ensures
        keys_sorted(final(into)@, paths),
        group_map(final(into)@, paths) == group_map(old(into)@, paths).union_prefer_right(group_map(from@, paths)),
        !groups_intersect(old(into)@, from@, paths) ==> (forall|k: StatusKind| #[trigger] groups_count(
            final(into)@,
            k,
        ) == groups_count(old(into)@, k) + groups_count(from@, k)),
        !groups_intersect(old(into)@, from@, paths) ==> groups_len(final(into)@) == groups_len(old(into)@)
            + groups_len(from@),
{
    let ghost into0 = into@;
    let ghost from0 = from@;
    let ghost disjoint = !groups_intersect(into0, from0, paths);
    let mut from = from;
    while from.len() > 0
        invariant
            keys_sorted(into@, paths),
            keys_sorted(from@, paths),
            group_map(into0, paths).union_prefer_right(group_map(from0, paths)) == group_map(
                into@,
                paths,
            ).union_prefer_right(group_map(from@, paths)),
            disjoint == !groups_intersect(into0, from0, paths),
            disjoint ==> !groups_intersect(into@, from@, paths),
            disjoint ==> (forall|k: StatusKind| groups_count(into@, k) + groups_count(from@, k)
                == #[trigger] groups_count(into0, k) + groups_count(from0, k)),
            disjoint ==> groups_len(into@) + groups_len(from@) == groups_len(into0) + groups_len(from0),
        decreases from.len(),
    {
        let ghost f = from@;
        let ghost i0 = into@;
        let (key, tests) = from.pop().unwrap();
        let ghost rest = from@;
        let ghost kk = group_key(paths, key@);
        proof {
            assert(rest =~= f.drop_last());
            assert(keys_sorted(rest, paths)) by {
                assert forall|i: int, j: int| 0 <= i < j < rest.len() implies key_lt(
                    #[trigger] group_key(paths, rest[i].0@),
                    #[trigger] group_key(paths, rest[j].0@),
                ) by {
                    assert(rest[i] == f[i] && rest[j] == f[j]);
                    assert(key_lt(group_key(paths, f[i].0@), group_key(paths, f[j].0@)));
                }
            }
            lemma_group_map(rest, paths);
            lemma_group_map(f, paths);
            lemma_group_map(i0, paths);
            assert(group_key(paths, f[f.len() - 1].0@) == kk);
            assert(!has_key(rest, paths, kk)) by {
                if has_key(rest, paths, kk) {
                    let j = choose|j: int| 0 <= j < rest.len() && #[trigger] group_key(paths, rest[j].0@) == kk;
                    assert(rest[j] == f[j]);
                    assert(key_lt(group_key(paths, f[j].0@), group_key(paths, f[f.len() - 1].0@)));
                    lemma_key_lt_irreflexive(kk);
                }
            }
            assert(has_key(f, paths, kk));
        }
        insert_group(into, paths, key, tests);
        proof {
            lemma_group_map(into@, paths);
            let m = group_map(i0, paths);
            let fr = group_map(rest, paths);
            assert(group_map(f, paths) == fr.insert(kk, tests@));
            assert(m.union_prefer_right(fr.insert(kk, tests@)) =~= m.insert(kk, tests@).union_prefer_right(fr));
            if disjoint {
                assert(!has_key(i0, paths, kk));
                assert forall|x: GroupKey| !(has_key(into@, paths, x) && has_key(rest, paths, x)) by {
                    if has_key(into@, paths, x) && has_key(rest, paths, x) {
                        assert(group_map(into@, paths).dom().contains(x));
                        if x != kk {
                            assert(m.dom().contains(x));
                            assert(fr.dom().contains(x));
                            assert(group_map(f, paths).dom().contains(x));
                            assert(has_key(i0, paths, x) && has_key(f, paths, x));
                        }
                    }
                }
                assert forall|k: StatusKind| groups_count(into@, k) + groups_count(rest, k)
                    == #[trigger] groups_count(into0, k) + groups_count(from0, k) by {
                    assert(groups_count(f, k) == groups_count(f.drop_last(), k) + count_kind(f.last().1@, k));
                    assert(groups_count(into@, k) == groups_count(i0, k) + count_kind(tests@, k));
                }
                assert(groups_len(f) == groups_len(f.drop_last()) + f.last().1@.len());
            }
        }
    }
    proof {
        assert(group_map(from@, paths) =~= Map::empty());
        assert(group_map(into@, paths).union_prefer_right(Map::empty()) =~= group_map(into@, paths));
    }
}

/// Keep the tests of every group that `f` accepts, in their order; the groups themselves stay.
pub open spec fn kept<F: Fn(&TestResult) -> bool>(f: F) -> spec_fn(TestResult) -> bool {
    |t: TestResult| call_ensures(f, (&t,), true)
}

/// `f` may be called on every test result and gives one answer for each.
pub open spec fn decides_tests<F: Fn(&TestResult) -> bool>(f: F) -> bool {
    &&& forall|t: &TestResult| #[trigger] call_requires(f, (t,))
    &&& forall|t: &TestResult| !(#[trigger] call_ensures(f, (t,), true) && call_ensures(f, (t,), false))
}

fn filter_tests<F: Fn(&TestResult) -> bool>(tests: Vec<TestResult>, f: &F) -> (r: Vec<TestResult>)
    requires
        decides_tests(*f),
    ensures
        r@ == tests@.filter(kept(*f)),
{
    let ghost t0 = tests@;
    let mut rest = tests;
    let mut out: Vec<TestResult> = Vec::new();
    proof {
        reveal_with_fuel(Seq::<_>::filter, 1);
        assert(t0.take(0) =~= Seq::<TestResult>::empty());
        assert(t0.skip(0) =~= t0);
    }
    while rest.len() > 0
        invariant
            decides_tests(*f),
            rest.len() <= t0.len(),
            rest@ == t0.skip(t0.len() - rest.len()),
            out@ == t0.take(t0.len() - rest.len()).filter(kept(*f)),
        decreases rest.len(),
    {
        let ghost i = t0.len() - rest.len();
        let t = rest.remove(0);
        let keep = (*f)(&t);
        proof {
            assert(t == t0[i]);
            assert(rest@ =~= t0.skip(i + 1));
            assert(t0.take(i + 1).drop_last() =~= t0.take(i));
            assert(t0.take(i + 1).last() == t);
            reveal_with_fuel(Seq::<_>::filter, 1);
            assert(kept(*f)(t) == keep);
        }
        if keep {
            out.push(t);
        }
    }
    proof {
        assert(t0.take(t0.len() as int) =~= t0);
    }
    out
}

fn filter_groups<F: Fn(&TestResult) -> bool>(groups: Vec<TestGroup>, f: &F) -> (r: Vec<TestGroup>)
    requires
        decides_tests(*f),
    ensures
        r@.len() == groups@.len(),
        forall|i: int|
            0 <= i < groups@.len() ==> (#[trigger] r@[i]).0 == groups@[i].0 && r@[i].1@ == groups@[i].1@.filter(
                kept(*f),
            ),
{
    let ghost g0 = groups@;
    let mut rest = groups;
    let mut out: Vec<TestGroup> = Vec::new();
    while rest.len() > 0
        invariant
            decides_tests(*f),
            rest.len() <= g0.len(),
            rest@ == g0.skip(g0.len() - rest.len()),
            out@.len() == g0.len() - rest.len(),
            forall|i: int|
                0 <= i < out@.len() ==> #[trigger] out@[i].0 == g0[i].0 && out@[i].1@ == g0[i].1@.filter(
                    kept(*f),
                ),
        decreases rest.len(),
    {
        let ghost i = g0.len() - rest.len();
        let (key, tests) = rest.remove(0);
        proof {
            assert(rest@ =~= g0.skip(i + 1));
        }
        let kept_tests = filter_tests(tests, f);
        out.push((key, kept_tests));
    }
    assert forall|i: int| 0 <= i < g0.len() implies (#[trigger] out@[i]).0 == g0[i].0 && out@[i].1@ == g0[i].1@.filter(
        kept(*f),
    ) by {
        assert(out@[i].0 == g0[i].0);
    }
    assert(out@.len() == g0.len());
    assert(g0 == groups@);
    out
}

/// The results of running the validation test suite on one or more plugins, grouped per plugin
/// library path and per plugin ID. Use [`tally()`][Self::tally()] to count passed and failed tests.
#[derive(Debug)]
pub struct ValidationResult {
    /// The results of the per-library tests, keyed by the library's path. These tests mainly
    /// examine the plugin's scanning behavior.
    pub plugin_library_tests: Vec<TestGroup>,
    /// The results of the per-plugin tests, keyed by plugin ID.
    pub plugin_tests: Vec<TestGroup>,
}

/// Statistics for the validator.
#[derive(Debug, Clone, Copy)]
pub struct ValidationTally {
    /// The number of passed test cases.
    pub num_passed: usize,
    /// The number of failed or crashed test cases.
    pub num_failed: usize,
    /// The number of skipped test cases.
    pub num_skipped: usize,
    /// The number of test cases resulting in a warning.
    pub num_warnings: usize,
}

impl ValidationTally {
    /// The sum of the four counts.
    pub open spec fn sum(&self) -> int {
        self.num_passed + self.num_failed + self.num_skipped + self.num_warnings
    }

    /// The count kept for group `k`.
    pub open spec fn of(&self, k: StatusKind) -> int {
        match k {
            StatusKind::Passed => self.num_passed as int,
            StatusKind::Failed => self.num_failed as int,
            StatusKind::Skipped => self.num_skipped as int,
            StatusKind::Warning => self.num_warnings as int,
        }
    }

    /// Get the total number of tests run.
    pub fn total(&self) -> (r: usize)
        requires
            self.sum() <= usize::MAX,
        ensures
            r == self.sum(),
    {
        self.num_passed + self.num_failed + self.num_skipped + self.num_warnings
    }
}

fn bump(tally: &mut ValidationTally, status: &TestStatus)
    requires
        old(tally).sum() < usize::MAX,
    ensures
        final(tally).sum() == old(tally).sum() + 1,
        forall|k: StatusKind| #[trigger] final(tally).of(k) == old(tally).of(k) + if status.kind() == k {
            1int
        } else {
            0int
        },
{
    match status {
        TestStatus::Success { .. } => tally.num_passed = tally.num_passed + 1,
        TestStatus::Crashed { .. } | TestStatus::Failed { .. } => tally.num_failed = tally.num_failed + 1,
        TestStatus::Skipped { .. } => tally.num_skipped = tally.num_skipped + 1,
        TestStatus::Warning { .. } => tally.num_warnings = tally.num_warnings + 1,
    }
}

fn add_counts(groups: &Vec<TestGroup>, tally: &mut ValidationTally)
    requires
        old(tally).sum() + groups_len(groups@) <= usize::MAX,
    ensures
        forall|k: StatusKind| #[trigger] final(tally).of(k) == old(tally).of(k) + groups_count(groups@, k),
{
    let ghost t0 = *tally;
    let mut i: usize = 0;
    proof {
        assert(groups@.take(0) =~= Seq::<TestGroup>::empty());
    }
    while i < groups.len()
        invariant
            i <= groups.len(),
            t0.sum() + groups_len(groups@) <= usize::MAX,
            tally.sum() == t0.sum() + groups_len(groups@.take(i as int)),
            forall|k: StatusKind| #[trigger] tally.of(k) == t0.of(k) + groups_count(groups@.take(i as int), k),
        decreases groups.len() - i,
    {
        let tests = &groups[i].1;
        let ghost tseq = tests@;
        let ghost ti = *tally;
        proof {
            lemma_groups_step(groups@, i as int);
            lemma_groups_len_prefix(groups@, i + 1);
            assert(tseq.take(0) =~= Seq::<TestResult>::empty());
        }
        let mut j: usize = 0;
        while j < tests.len()
            invariant
                tests@ == tseq,
                j <= tseq.len(),
                ti.sum() + tseq.len() <= usize::MAX,
                tally.sum() == ti.sum() + j,
                forall|k: StatusKind| #[trigger] tally.of(k) == ti.of(k) + count_kind(tseq.take(j as int), k),
            decreases tseq.len() - j,
        {
            proof {
                assert forall|k: StatusKind| #[trigger] count_kind(tseq.take(j + 1), k) == count_kind(
                    tseq.take(j as int),
                    k,
                ) + if tseq[j as int].status.kind() == k {
                    1nat
                } else {
                    0nat
                } by {
                    lemma_count_kind_step(tseq, j as int, k);
                }
            }
            bump(tally, &tests[j].status);
            j = j + 1;
        }
        proof {
            assert(tseq.take(j as int) =~= tseq);
        }
        i = i + 1;
    }
    proof {
        assert(groups@.take(i as int) =~= groups@);
    }
}

/// `start` plus the number of tests in `groups`, or `None` when that does not fit in a `usize`.
fn count_groups(groups: &Vec<TestGroup>, start: usize) -> (r: Option<usize>)
    ensures
        r matches Some(n) ==> n == start + groups_len(groups@),
        r is None <==> start + groups_len(groups@) > usize::MAX,
{
    let mut n: usize = start;
    let mut i: usize = 0;
    assert(groups@.take(0) =~= Seq::<TestGroup>::empty());
    while i < groups.len()
        invariant
            i <= groups.len(),
            n == start + groups_len(groups@.take(i as int)),
        decreases groups.len() - i,
    {
        proof {
            lemma_groups_step(groups@, i as int);
        }
        let len = groups[i].1.len();
        match n.checked_add(len) {
            Some(m) => {
                n = m;
            },
            None => {
                proof {
                    lemma_groups_len_prefix(groups@, i + 1);
                }
                return None;
            },
        }
        i = i + 1;
    }
    assert(groups@.take(i as int) =~= groups@);
    Some(n)
}

impl ValidationResult {
    /// Both group lists are sorted by key, with unique keys.
    pub open spec fn wf(&self) -> bool {
        keys_sorted(self.plugin_library_tests@, true) && keys_sorted(self.plugin_tests@, false)
    }

    /// The number of test results held.
    pub open spec fn num_tests(&self) -> nat {
        groups_len(self.plugin_library_tests@) + groups_len(self.plugin_tests@)
    }

    /// The number of test results held whose status falls in group `k`.
    pub open spec fn count(&self, k: StatusKind) -> nat {
        groups_count(self.plugin_library_tests@, k) + groups_count(self.plugin_tests@, k)
    }

    /// The per-library results as a map from the key of a library path (its components) to
    /// results.
    pub open spec fn library_map(&self) -> Map<GroupKey, Seq<TestResult>> {
        group_map(self.plugin_library_tests@, true)
    }

    /// The per-plugin results as a map from plugin ID to results.
    pub open spec fn plugin_map(&self) -> Map<GroupKey, Seq<TestResult>> {
        group_map(self.plugin_tests@, false)
    }

    /// The two results share a library path (by its components) or a plugin ID.
    pub open spec fn intersects_spec(&self, other: &Self) -> bool {
        groups_intersect(self.plugin_library_tests@, other.plugin_library_tests@, true) || groups_intersect(
            self.plugin_tests@,
            other.plugin_tests@,
            false,
        )
    }

    /// An empty result.
    pub fn new() -> (r: Self)
        ensures
            r.wf(),
            r.plugin_library_tests@.len() == 0,
            r.plugin_tests@.len() == 0,
    {
        ValidationResult { plugin_library_tests: Vec::new(), plugin_tests: Vec::new() }
    }

    /// Store the per-library results for `path`, replacing earlier results for that path. Paths
    /// are told apart by their components, so `a//b` replaces the results of `a/b`, which keeps
    /// its spelling.
    pub fn insert_library_tests(&mut self, path: String, tests: Vec<TestResult>)
        requires
            old(self).wf(),
        ensures
            final(self).wf(),
            final(self).library_map() == old(self).library_map().insert(group_key(true, path@), tests@),
            final(self).plugin_tests == old(self).plugin_tests,
    {
        insert_group(&mut self.plugin_library_tests, true, path, tests);
    }

    /// Store the per-plugin results for `plugin_id`, replacing earlier results for that ID.
    pub fn insert_plugin_tests(&mut self, plugin_id: String, tests: Vec<TestResult>)
        requires
            old(self).wf(),
        ensures
            final(self).wf(),
            final(self).plugin_map() == old(self).plugin_map().insert(group_key(false, plugin_id@), tests@),
            final(self).plugin_library_tests == old(self).plugin_library_tests,
    {
        insert_group(&mut self.plugin_tests, false, plugin_id, tests);
    }

    /// The number of test results held, or `None` when it does not fit in a `usize`; a tally can
    /// only be taken when it fits.
    pub fn test_count(&self) -> (r: Option<usize>)
        ensures
            r matches Some(n) ==> n == self.num_tests(),
            r is None <==> self.num_tests() > usize::MAX,
    {
        match count_groups(&self.plugin_library_tests, 0) {
            None => None,
            Some(n) => count_groups(&self.plugin_tests, n),
        }
    }

    /// Count the number of passing, failing, skipped tests and warnings. Crashed tests count as
    /// failed.
    pub fn tally(&self) -> (r: ValidationTally)
        requires
            self.num_tests() <= usize::MAX,
        ensures
            r.num_passed == self.count(StatusKind::Passed),
            r.num_failed == self.count(StatusKind::Failed),
            r.num_skipped == self.count(StatusKind::Skipped),
            r.num_warnings == self.count(StatusKind::Warning),
            is_tally_of(r, *self),
    {
        let mut tally = ValidationTally { num_passed: 0, num_failed: 0, num_skipped: 0, num_warnings: 0 };
        proof {
            lemma_groups_count_partition(self.plugin_library_tests@);
        }
        add_counts(&self.plugin_library_tests, &mut tally);
        proof {
            assert(tally.of(StatusKind::Passed) + tally.of(StatusKind::Failed) + tally.of(StatusKind::Skipped)
                + tally.of(StatusKind::Warning) == tally.sum());
        }
        add_counts(&self.plugin_tests, &mut tally);
        proof {
            assert(tally.of(StatusKind::Passed) == self.count(StatusKind::Passed));
            assert(tally.of(StatusKind::Failed) == self.count(StatusKind::Failed));
            assert(tally.of(StatusKind::Skipped) == self.count(StatusKind::Skipped));
            assert(tally.of(StatusKind::Warning) == self.count(StatusKind::Warning));
        }
        tally
    }

    /// Check whether the maps in the two results share a key. Used to ensure that a plugin ID only
    /// occurs once in the outputs before merging them.
    pub fn intersects(&self, other: &Self) -> (r: bool)
        ensures
            r == self.intersects_spec(other),
    {
        groups_intersect_exec(&self.plugin_library_tests, &other.plugin_library_tests, true)
            || groups_intersect_exec(&self.plugin_tests, &other.plugin_tests, false)
    }

    /// Merge the results from two validation result objects. If `other` contains a key that also
    /// exists in this object, then the version from `other` is used.
    pub fn union(self, other: Self) -> (r: Self)
        requires
            self.wf(),
            other.wf(),
        ensures
            r.wf(),
            r.library_map() == self.library_map().union_prefer_right(other.library_map()),
            r.plugin_map() == self.plugin_map().union_prefer_right(other.plugin_map()),
            !self.intersects_spec(&other) ==> (forall|k: StatusKind| #[trigger] r.count(k) == self.count(k)
                + other.count(k)),
            !self.intersects_spec(&other) ==> r.num_tests() == self.num_tests() + other.num_tests(),
            is_union_of(self, other, r),
    {
        let ValidationResult { plugin_library_tests: mut library_tests, plugin_tests: mut plugin_tests } = self;
        merge_groups(&mut library_tests, other.plugin_library_tests, true);
        merge_groups(&mut plugin_tests, other.plugin_tests, false);
        ValidationResult { plugin_library_tests: library_tests, plugin_tests }
    }

    /// Filter the test results using the specified filter function. Every key stays, with the
    /// results that `f` accepts, in their order.
    pub fn filter<F: Fn(&TestResult) -> bool>(self, f: F) -> (r: Self)
        requires
            decides_tests(f),
        ensures
            r.plugin_library_tests@.len() == self.plugin_library_tests@.len(),
            r.plugin_tests@.len() == self.plugin_tests@.len(),
            forall|i: int|
                0 <= i < self.plugin_library_tests@.len() ==> #[trigger] r.plugin_library_tests@[i].0
                    == self.plugin_library_tests@[i].0 && r.plugin_library_tests@[i].1@
                    == self.plugin_library_tests@[i].1@.filter(kept(f)),
            forall|i: int|
                0 <= i < self.plugin_tests@.len() ==> #[trigger] r.plugin_tests@[i].0 == self.plugin_tests@[i].0
                    && r.plugin_tests@[i].1@ == self.plugin_tests@[i].1@.filter(kept(f)),
    {
        let plugin_tests = filter_groups(self.plugin_tests, &f);
        let plugin_library_tests = filter_groups(self.plugin_library_tests, &f);
        ValidationResult { plugin_library_tests, plugin_tests }
    }
}

impl Default for ValidationResult {
    fn default() -> (r: Self)
        ensures
            r.plugin_library_tests@.len() == 0,
            r.plugin_tests@.len() == 0,
    {
        Self::new()
    }
}


/// The predicate by which the validator keeps only failed tests, crashes and warnings.
pub open spec fn failed_or_warning_pred() -> spec_fn(TestResult) -> bool {
    |t: TestResult| t.status.is_failed_or_warning()
}

proof fn lemma_count_only_failed(tests: Seq<TestResult>, k: StatusKind)
    ensures
        count_kind(tests.filter(failed_or_warning_pred()), k) == if k == StatusKind::Passed || k
            == StatusKind::Skipped {
            0
        } else {
            count_kind(tests, k)
        },
    decreases tests.len(),
{
    reveal_with_fuel(Seq::<_>::filter, 1);
    if tests.len() > 0 {
        lemma_count_only_failed(tests.drop_last(), k);
        let sub = tests.drop_last().filter(failed_or_warning_pred());
        if failed_or_warning_pred()(tests.last()) {
            assert(tests.filter(failed_or_warning_pred()) == sub.push(tests.last()));
            assert(sub.push(tests.last()).drop_last() =~= sub);
        }
    }
}

proof fn lemma_groups_count_only_failed(a: Seq<TestGroup>, b: Seq<TestGroup>, k: StatusKind)
    requires
        a.len() == b.len(),
        forall|i: int| 0 <= i < a.len() ==> (#[trigger] b[i]).1@ == a[i].1@.filter(failed_or_warning_pred()),
    ensures
        groups_count(b, k) == if k == StatusKind::Passed || k == StatusKind::Skipped {
            0
        } else {
            groups_count(a, k)
        },
    decreases a.len(),
{
    if a.len() > 0 {
        let n = a.len() - 1;
        assert(b[n].1@ == a[n].1@.filter(failed_or_warning_pred()));
        lemma_count_only_failed(a[n].1@, k);
        lemma_groups_count_only_failed(a.drop_last(), b.drop_last(), k);
    }
}

/// Law: a tally accounts for every test result exactly once, so the four counts of `tally()`
/// add up to the number of results held.
pub proof fn law_tally_counts_every_test(result: &ValidationResult)
    ensures
        result.count(StatusKind::Passed) + result.count(StatusKind::Failed) + result.count(StatusKind::Skipped)
            + result.count(StatusKind::Warning) == result.num_tests(),
{
    lemma_groups_count_partition(result.plugin_library_tests@);
    lemma_groups_count_partition(result.plugin_tests@);
}

/// Law: when two results share no library path and no plugin ID, merging them gives the same
/// maps in either order.
pub proof fn law_disjoint_union_commutes(a: &ValidationResult, b: &ValidationResult)
    requires
        a.wf(),
        b.wf(),
        !a.intersects_spec(b),
    ensures
        a.library_map().union_prefer_right(b.library_map()) == b.library_map().union_prefer_right(
            a.library_map(),
        ),
        a.plugin_map().union_prefer_right(b.plugin_map()) == b.plugin_map().union_prefer_right(a.plugin_map()),
{
    lemma_group_map(a.plugin_library_tests@, true);
    lemma_group_map(b.plugin_library_tests@, true);
    lemma_group_map(a.plugin_tests@, false);
    lemma_group_map(b.plugin_tests@, false);
    let (am, bm) = (a.library_map(), b.library_map());
    assert forall|k: GroupKey| am.dom().contains(k) && bm.dom().contains(k) implies false by {
        assert(has_key(a.plugin_library_tests@, true, k) && has_key(b.plugin_library_tests@, true, k));
    }
    assert(am.union_prefer_right(bm) =~= bm.union_prefer_right(am));
    let (ap, bp) = (a.plugin_map(), b.plugin_map());
    assert forall|k: GroupKey| ap.dom().contains(k) && bp.dom().contains(k) implies false by {
        assert(has_key(a.plugin_tests@, false, k) && has_key(b.plugin_tests@, false, k));
    }
    assert(ap.union_prefer_right(bp) =~= bp.union_prefer_right(ap));
}

/// Law: keeping only failed tests, crashes and warnings leaves no passed or skipped test behind
/// and keeps every failure and warning.
pub proof fn law_only_failed_tally(before: &ValidationResult, after: &ValidationResult)
    requires
        after.plugin_library_tests@.len() == before.plugin_library_tests@.len(),
        after.plugin_tests@.len() == before.plugin_tests@.len(),
        forall|i: int|
            0 <= i < before.plugin_library_tests@.len() ==> (#[trigger] after.plugin_library_tests@[i]).1@
                == before.plugin_library_tests@[i].1@.filter(failed_or_warning_pred()),
        forall|i: int|
            0 <= i < before.plugin_tests@.len() ==> (#[trigger] after.plugin_tests@[i]).1@
                == before.plugin_tests@[i].1@.filter(failed_or_warning_pred()),
    ensures
        after.count(StatusKind::Passed) == 0,
        after.count(StatusKind::Skipped) == 0,
        after.count(StatusKind::Failed) == before.count(StatusKind::Failed),
        after.count(StatusKind::Warning) == before.count(StatusKind::Warning),
{
    lemma_groups_count_only_failed(before.plugin_library_tests@, after.plugin_library_tests@, StatusKind::Passed);
    lemma_groups_count_only_failed(before.plugin_library_tests@, after.plugin_library_tests@, StatusKind::Skipped);
    lemma_groups_count_only_failed(before.plugin_library_tests@, after.plugin_library_tests@, StatusKind::Failed);
    lemma_groups_count_only_failed(before.plugin_library_tests@, after.plugin_library_tests@, StatusKind::Warning);
    lemma_groups_count_only_failed(before.plugin_tests@, after.plugin_tests@, StatusKind::Passed);
    lemma_groups_count_only_failed(before.plugin_tests@, after.plugin_tests@, StatusKind::Skipped);
    lemma_groups_count_only_failed(before.plugin_tests@, after.plugin_tests@, StatusKind::Failed);
    lemma_groups_count_only_failed(before.plugin_tests@, after.plugin_tests@, StatusKind::Warning);
}

/// Whether a validation run fails: some test failed or crashed, counted before any filtering
/// for display.
pub fn run_failed(tally: &ValidationTally) -> (r: bool)
    ensures
        r == (tally.num_failed != 0),
{
    tally.num_failed != 0
}

/// `t` holds the counts of `r`, as [`ValidationResult::tally`] returns them.
pub open spec fn is_tally_of(t: ValidationTally, r: ValidationResult) -> bool {
    &&& t.num_passed == r.count(StatusKind::Passed)
    &&& t.num_failed == r.count(StatusKind::Failed)
    &&& t.num_skipped == r.count(StatusKind::Skipped)
    &&& t.num_warnings == r.count(StatusKind::Warning)
}

/// `r` is what [`ValidationResult::union`] makes of `a` and `b`.
pub open spec fn is_union_of(a: ValidationResult, b: ValidationResult, r: ValidationResult) -> bool {
    &&& r.wf()
    &&& r.library_map() == a.library_map().union_prefer_right(b.library_map())
    &&& r.plugin_map() == a.plugin_map().union_prefer_right(b.plugin_map())
    &&& !a.intersects_spec(&b) ==> (forall|k: StatusKind| #[trigger] r.count(k) == a.count(k) + b.count(k))
    &&& !a.intersects_spec(&b) ==> r.num_tests() == a.num_tests() + b.num_tests()
}

/// Law: the total of a tally is the number of test results it was taken from, each counted once.
pub proof fn law_tally_total_counts_every_test(r: ValidationResult, t: ValidationTally)
    requires
        is_tally_of(t, r),
    ensures
        t.sum() == r.num_tests(),
{
    law_tally_counts_every_test(&r);
}

/// Law: merging two results that share no library path and no plugin ID adds their tallies,
/// count by count.
pub proof fn law_union_tally_adds(
    a: ValidationResult,
    b: ValidationResult,
    r: ValidationResult,
    ta: ValidationTally,
    tb: ValidationTally,
    tr: ValidationTally,
)
    requires
        a.wf(),
        b.wf(),
        !a.intersects_spec(&b),
        is_union_of(a, b, r),
        is_tally_of(ta, a),
        is_tally_of(tb, b),
        is_tally_of(tr, r),
    ensures
        tr.num_passed == ta.num_passed + tb.num_passed,
        tr.num_failed == ta.num_failed + tb.num_failed,
        tr.num_skipped == ta.num_skipped + tb.num_skipped,
        tr.num_warnings == ta.num_warnings + tb.num_warnings,
        tr.sum() == ta.sum() + tb.sum(),
{
    assert(r.count(StatusKind::Passed) == a.count(StatusKind::Passed) + b.count(StatusKind::Passed));
    assert(r.count(StatusKind::Failed) == a.count(StatusKind::Failed) + b.count(StatusKind::Failed));
    assert(r.count(StatusKind::Skipped) == a.count(StatusKind::Skipped) + b.count(StatusKind::Skipped));
    assert(r.count(StatusKind::Warning) == a.count(StatusKind::Warning) + b.count(StatusKind::Warning));
}

} // verus!
