//! The verdicts of the state tests: loading invalid states, and saving a state again after
//! loading it.

use vstd::prelude::*;
use vstd::string::*;
use crate::status::TestStatus;

verus! {

/// The verdict of the empty state test, given whether the plugin accepted the empty state: that
/// is likely a bug, so it is a warning.
pub fn invalid_empty_state_verdict(loaded: bool) -> (r: TestStatus)
    ensures
        loaded ==> (r matches TestStatus::Warning { details: Some(d) }
            && d@ == "The plugin returned true when 'clap_plugin_state::load()' was called when an empty state, this is likely a bug."@),
        !loaded ==> r == (TestStatus::Success { details: None }),
{
    if loaded {
        TestStatus::Warning {
            details: Some(String::from_str("The plugin returned true when 'clap_plugin_state::load()' was called when an empty state, this is likely a bug.")),
        }
    } else {
        TestStatus::Success { details: None }
    }
}

/// The verdict of the random state test, given whether the plugin accepted any of the random
/// states: unexpected, but not a failure as long as it did not crash.
pub fn invalid_random_state_verdict(any_loaded: bool) -> (r: TestStatus)
    ensures
        any_loaded ==> (r matches TestStatus::Warning { details: Some(d) }
            && d@ == "The plugin loaded random bytes successfully, which is unexpected, but the plugin did not crash."@),
        !any_loaded ==> r == (TestStatus::Success { details: None }),
{
    if any_loaded {
        TestStatus::Warning {
            details: Some(String::from_str("The plugin loaded random bytes successfully, which is unexpected, but the plugin did not crash.")),
        }
    } else {
        TestStatus::Success { details: None }
    }
}

/// Whether the state saved after loading passes: when the test asks for the same bytes, they
/// must be the same.
pub fn saved_state_matches(binary_equality: bool, expected: &Vec<u8>, actual: &Vec<u8>) -> (r: bool)
    ensures
        r == (!binary_equality || actual@ == expected@),
{
    if !binary_equality {
        return true;
    }
    if expected.len() != actual.len() {
        return false;
    }
    let mut i: usize = 0;
    while i < expected.len()
        invariant
            binary_equality,
            expected@.len() == actual@.len(),
            i <= expected@.len(),
            forall|k: int| 0 <= k < i ==> expected@[k] == actual@[k],
        decreases expected@.len() - i,
    {
        if expected[i] != actual[i] {
            assert(expected@[i as int] != actual@[i as int]);
            return false;
        }
        i = i + 1;
    }
    assert(actual@ =~= expected@);
    true
}

/// The message of a saved state that differs, naming the files both states were written to.
pub open spec fn state_differs_message(expected_path: Seq<char>, actual_path: Seq<char>) -> Seq<char> {
    "The saved state after loading differs from the original saved state. \nExpected: '"@ + expected_path
        + "'. \nActual: '"@ + actual_path + "'."@
}

/// The failure of a saved state that differs, naming the files both states were written to.
pub fn state_differs(expected_path: &str, actual_path: &str) -> (r: TestStatus)
    ensures
        r matches TestStatus::Failed { details: Some(d) } && d@ == state_differs_message(expected_path@, actual_path@),
{
    let mut s = String::from_str("The saved state after loading differs from the original saved state. \nExpected: '");
    s.append(expected_path);
    s.append("'. \nActual: '");
    s.append(actual_path);
    s.append("'.");
    TestStatus::Failed { details: Some(s) }
}

} // verus!
