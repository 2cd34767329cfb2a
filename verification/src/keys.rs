//! Keys under which results are grouped, and their order.
//!
//! A key is a sequence of parts, each a kind and a text. A library path is keyed by its
//! components, as `std::path::Path::components` splits it: std compares and orders paths by
//! these components (`Path`'s `PartialEq` and `Ord` go through them), a component by its variant
//! in declaration order and then by its text. So `a/b` and `a//b` are one key, and `a/b` comes
//! before `a-b`. A plugin ID is keyed by a single part holding the whole ID, so IDs compare as
//! strings do.

use vstd::prelude::*;
use std::path::{Component, Path};
use crate::text::{compare_strings, lemma_seq_lt_irreflexive, lemma_seq_lt_total, lemma_seq_lt_transitive, seq_lt};

verus! {

/// The parts of a key, as views.
pub open spec fn key_view(parts: Seq<(u8, String)>) -> Seq<(u8, Seq<char>)> {
    parts.map_values(|p: (u8, String)| p@)
}

/// Strict order on key parts: by kind, then by text.
pub open spec fn part_lt(a: (u8, Seq<char>), b: (u8, Seq<char>)) -> bool {
    a.0 < b.0 || (a.0 == b.0 && seq_lt(a.1, b.1))
}

/// Strict lexicographic order on keys, comparing parts with [`part_lt`].
pub open spec fn key_lt(a: Seq<(u8, Seq<char>)>, b: Seq<(u8, Seq<char>)>) -> bool
    decreases a.len(),
{
    if a.len() == 0 {
        b.len() > 0
    } else if b.len() == 0 {
        false
    } else if part_lt(a[0], b[0]) {
        true
    } else if a[0] == b[0] {
        key_lt(a.drop_first(), b.drop_first())
    } else {
        false
    }
}

proof fn lemma_part_lt(a: (u8, Seq<char>), b: (u8, Seq<char>), c: (u8, Seq<char>))
    ensures
        !part_lt(a, a),
        a != b ==> (part_lt(a, b) || part_lt(b, a)),
        !(part_lt(a, b) && part_lt(b, a)),
        part_lt(a, b) && part_lt(b, c) ==> part_lt(a, c),
{
    lemma_seq_lt_irreflexive(a.1);
    lemma_seq_lt_total(a.1, b.1);
    if seq_lt(a.1, b.1) && seq_lt(b.1, c.1) {
        lemma_seq_lt_transitive(a.1, b.1, c.1);
    }
}

/// No key is smaller than itself.
pub proof fn lemma_key_lt_irreflexive(a: Seq<(u8, Seq<char>)>)
    ensures
        !key_lt(a, a),
    decreases a.len(),
{
    if a.len() > 0 {
        lemma_part_lt(a[0], a[0], a[0]);
        lemma_key_lt_irreflexive(a.drop_first());
    }
}

/// Two distinct keys are ordered one way or the other, and never both ways.
pub proof fn lemma_key_lt_total(a: Seq<(u8, Seq<char>)>, b: Seq<(u8, Seq<char>)>)
    ensures
        a != b ==> (key_lt(a, b) || key_lt(b, a)),
        !(key_lt(a, b) && key_lt(b, a)),
    decreases a.len(),
{
    if a.len() > 0 && b.len() > 0 {
        lemma_part_lt(a[0], b[0], b[0]);
        if a[0] == b[0] {
            lemma_key_lt_total(a.drop_first(), b.drop_first());
            if a != b {
                assert(a =~= seq![a[0]] + a.drop_first());
                assert(b =~= seq![b[0]] + b.drop_first());
            }
        }
    } else if a.len() == 0 && b.len() == 0 {
        assert(a =~= b);
    }
}

/// The order is transitive.
pub proof fn lemma_key_lt_transitive(a: Seq<(u8, Seq<char>)>, b: Seq<(u8, Seq<char>)>, c: Seq<(u8, Seq<char>)>)
    requires
        key_lt(a, b),
        key_lt(b, c),
    ensures
        key_lt(a, c),
    decreases a.len(),
{
    if a.len() > 0 && b.len() > 0 && c.len() > 0 {
        lemma_part_lt(a[0], b[0], c[0]);
        if a[0] == b[0] && b[0] == c[0] {
            lemma_key_lt_transitive(a.drop_first(), b.drop_first(), c.drop_first());
        }
    }
}

/// Three-way comparison of two key parts: negative when `a` comes first, zero when they are
/// equal, positive when `b` comes first.
fn compare_parts(a: &(u8, String), b: &(u8, String)) -> (r: i8)
    ensures
        r < 0 <==> part_lt(a@, b@),
        r == 0 <==> a@ == b@,
        r > 0 <==> part_lt(b@, a@),
{
    if a.0 < b.0 {
        -1
    } else if b.0 < a.0 {
        1
    } else {
        let r = compare_strings(&a.1, &b.1);
        proof {
            lemma_seq_lt_irreflexive(a.1@);
            lemma_seq_lt_total(a.1@, b.1@);
        }
        r
    }
}

/// Three-way lexicographic comparison of two keys, as [`compare_parts`] does it for parts.
pub fn compare_keys(a: &Vec<(u8, String)>, b: &Vec<(u8, String)>) -> (r: i8)
    ensures
        r < 0 <==> key_lt(key_view(a@), key_view(b@)),
        r == 0 <==> key_view(a@) == key_view(b@),
        r > 0 <==> key_lt(key_view(b@), key_view(a@)),
{
    let ghost ka = key_view(a@);
    let ghost kb = key_view(b@);
    proof {
        lemma_key_lt_total(ka, kb);
        lemma_key_lt_irreflexive(ka);
        assert(ka.skip(0) =~= ka);
        assert(kb.skip(0) =~= kb);
    }
    let mut i: usize = 0;
    while i < a.len() && i < b.len()
        invariant
            ka == key_view(a@),
            kb == key_view(b@),
            i <= a.len(),
            i <= b.len(),
            key_lt(ka, kb) == key_lt(ka.skip(i as int), kb.skip(i as int)),
            key_lt(kb, ka) == key_lt(kb.skip(i as int), ka.skip(i as int)),
            (ka == kb) == (ka.skip(i as int) == kb.skip(i as int)),
        decreases a.len() - i,
    {
        let ghost sa = ka.skip(i as int);
        let ghost sb = kb.skip(i as int);
        let c = compare_parts(&a[i], &b[i]);
        proof {
            assert(sa[0] == a@[i as int]@ && sb[0] == b@[i as int]@);
            lemma_key_lt_total(sa, sb);
        }
        if c < 0 {
            proof {
                assert(sa != sb);
            }
            return -1;
        }
        if c > 0 {
            proof {
                lemma_part_lt(sa[0], sb[0], sb[0]);
                assert(sa != sb);
            }
            return 1;
        }
        proof {
            assert(sa.drop_first() =~= ka.skip(i + 1));
            assert(sb.drop_first() =~= kb.skip(i + 1));
            assert(sa =~= seq![sa[0]] + sa.drop_first());
            assert(sb =~= seq![sb[0]] + sb.drop_first());
            if sa.drop_first() == sb.drop_first() {
                assert(sa =~= sb);
            }
        }
        i = i + 1;
    }
    proof {
        let sa = ka.skip(i as int);
        let sb = kb.skip(i as int);
        if sa.len() == 0 && sb.len() == 0 {
            assert(sa =~= sb);
        }
    }
    if a.len() < b.len() {
        -1
    } else if b.len() < a.len() {
        1
    } else {
        0
    }
}

/// The components of `path` as `std::path::Path::components` yields them on the platform the
/// crate is built for, each as the index of its `std::path::Component` variant in declaration
/// order (`Prefix`, `RootDir`, `CurDir`, `ParentDir`, `Normal`) and its text.
pub uninterp spec fn path_components_of(path: Seq<char>) -> Seq<(u8, Seq<char>)>;

/// Splits `path` with `std::path::Path::components`. The contract claims that the result is
/// [`path_components_of`] of the path: one pair per component, the variant's index and the
/// component's text (empty for `RootDir`, `CurDir` and `ParentDir`). How std splits a path
/// (repeated separators and inner `.` dropped, a trailing separator ignored) is not stated.
#[verifier::external_body]
fn path_components(path: &str) -> (r: Vec<(u8, String)>)
    ensures
        key_view(r@) == path_components_of(path@),
{
    Path::new(path).components().map(|c| match c {
        Component::Prefix(p) => (0u8, p.as_os_str().to_string_lossy().into_owned()),
        Component::RootDir => (1u8, String::new()),
        Component::CurDir => (2u8, String::new()),
        Component::ParentDir => (3u8, String::new()),
        Component::Normal(s) => (4u8, s.to_string_lossy().into_owned()),
    }).collect()
}

/// The key of a group: the components of a library path when `paths` holds, else the whole
/// plugin ID as one part.
pub open spec fn group_key(paths: bool, key: Seq<char>) -> Seq<(u8, Seq<char>)> {
    if paths {
        path_components_of(key)
    } else {
        seq![(0u8, key)]
    }
}

/// Computes [`group_key`].
pub fn group_key_of(paths: bool, key: &String) -> (r: Vec<(u8, String)>)
    ensures
        key_view(r@) == group_key(paths, key@),
{
    if paths {
        path_components(key.as_str())
    } else {
        let mut r: Vec<(u8, String)> = Vec::new();
        r.push((0u8, key.clone()));
        assert(key_view(r@) =~= seq![(0u8, key@)]);
        r
    }
}

} // verus!
