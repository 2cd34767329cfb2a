//! The checks of the layout tests: that a port configuration agrees with the ports the plugin
//! then reports, that two reports of one port agree, and the bookkeeping of the test that asks
//! the plugin to take random port layouts.

use vstd::prelude::*;
use vstd::string::*;
use crate::audio_ports::{request_channel_count, AudioPort, AudioPortConfig, AudioPortsConfigConfig, AudioPortsRequest};
use crate::listing::{decimal, decimal_spec};
use crate::status::TestStatus;

verus! {

/// The channel count of the main port: the first port, when it is marked as main.
pub open spec fn main_channels(ports: Seq<AudioPort>) -> Option<u32> {
    if ports.len() > 0 && ports[0].is_main {
        Some(ports[0].num_channels)
    } else {
        None
    }
}

/// The channel count of the main port among `ports`, if there is one.
pub fn main_port_channels(ports: &Vec<AudioPort>) -> (r: Option<u32>)
    ensures
        r == main_channels(ports@),
{
    if ports.len() > 0 && ports[0].is_main {
        Some(ports[0].num_channels)
    } else {
        None
    }
}

/// `'name' (id)`, as configurations are named in messages.
pub open spec fn side_word(is_input: bool) -> Seq<char> {
    if is_input {
        "input"@
    } else {
        "output"@
    }
}

/// The message of a port count that differs from the configuration's.
pub open spec fn count_message(is_input: bool, name: Seq<char>, expected: u32, actual: u32) -> Seq<char> {
    "The number of "@ + side_word(is_input) + " audio ports for configuration '"@ + name + "' ("@ + decimal_spec(
        expected as nat,
    ) + ") does not match the number reported by 'audio-ports' ("@ + decimal_spec(actual as nat) + ")"@
}

/// The message of a main port that disagrees with the configuration, or `None` when they agree.
pub open spec fn main_port_message(is_input: bool, name: Seq<char>, actual: Option<u32>, expected: Option<u32>) -> Option<Seq<char>> {
    match (actual, expected) {
        (None, None) => None,
        (Some(a), Some(b)) => if a == b {
            None
        } else {
            Some(
                "The number of channels in the main "@ + side_word(is_input) + " port for the '"@ + name
                    + "' configuration info ("@ + decimal_spec(b as nat) + ") does not match the number reported by 'audio-ports' ("@
                    + decimal_spec(a as nat) + ")"@,
            )
        },
        (None, Some(_)) => Some(
            "The configuration '"@ + name + "' reports that a main "@ + side_word(is_input)
                + " port exists, but 'audio-ports' does not."@,
        ),
        (Some(_), None) => Some(
            "The configuration '"@ + name + "' reports that main "@ + side_word(is_input)
                + " port does not exist, but according to 'audio-ports' it does."@,
        ),
    }
}

/// The first disagreement between a port configuration and the ports the plugin reports after
/// selecting it: the input count, the output count, the main input, then the main output.
pub open spec fn config_mismatch(config: AudioPortsConfigConfig, ports: AudioPortConfig) -> Option<Seq<char>> {
    let inputs = ports.inputs@.len() as u32;
    let outputs = ports.outputs@.len() as u32;
    if inputs != config.input_port_count {
        Some(count_message(true, config.name@, config.input_port_count, inputs))
    } else if outputs != config.output_port_count {
        Some(count_message(false, config.name@, config.output_port_count, outputs))
    } else if main_port_message(true, config.name@, main_channels(ports.inputs@), config.main_input_channel_count) is Some {
        main_port_message(true, config.name@, main_channels(ports.inputs@), config.main_input_channel_count)
    } else {
        main_port_message(false, config.name@, main_channels(ports.outputs@), config.main_output_channel_count)
    }
}

fn side_text(is_input: bool) -> (r: &'static str)
    ensures
        r@ == side_word(is_input),
{
    if is_input {
        "input"
    } else {
        "output"
    }
}

fn count_text(is_input: bool, name: &String, expected: u32, actual: u32) -> (r: String)
    ensures
        r@ == count_message(is_input, name@, expected, actual),
{
    let mut s = String::from_str("The number of ");
    s.append(side_text(is_input));
    s.append(" audio ports for configuration '");
    s.append(name.as_str());
    s.append("' (");
    s.append(decimal(expected as u128).as_str());
    s.append(") does not match the number reported by 'audio-ports' (");
    s.append(decimal(actual as u128).as_str());
    s.append(")");
    s
}

fn main_port_text(is_input: bool, name: &String, actual: Option<u32>, expected: Option<u32>) -> (r: Option<String>)
    ensures
        match r {
            Some(m) => main_port_message(is_input, name@, actual, expected) == Some(m@),
            None => main_port_message(is_input, name@, actual, expected) is None,
        },
{
    match (actual, expected) {
        (None, None) => None,
        (Some(a), Some(b)) => if a == b {
            None
        } else {
            let mut s = String::from_str("The number of channels in the main ");
            s.append(side_text(is_input));
            s.append(" port for the '");
            s.append(name.as_str());
            s.append("' configuration info (");
            s.append(decimal(b as u128).as_str());
            s.append(") does not match the number reported by 'audio-ports' (");
            s.append(decimal(a as u128).as_str());
            s.append(")");
            Some(s)
        },
        (None, Some(_)) => {
            let mut s = String::from_str("The configuration '");
            s.append(name.as_str());
            s.append("' reports that a main ");
            s.append(side_text(is_input));
            s.append(" port exists, but 'audio-ports' does not.");
            Some(s)
        },
        (Some(_), None) => {
            let mut s = String::from_str("The configuration '");
            s.append(name.as_str());
            s.append("' reports that main ");
            s.append(side_text(is_input));
            s.append(" port does not exist, but according to 'audio-ports' it does.");
            Some(s)
        },
    }
}

/// Checks that the ports the plugin reports after selecting a configuration agree with what the
/// configuration said of them. An error carries the message the test fails with.
pub fn check_config_ports(config: &AudioPortsConfigConfig, ports: &AudioPortConfig) -> (r: Result<(), String>)
    ensures
        match config_mismatch(*config, *ports) {
            None => r is Ok,
            Some(m) => r matches Err(e) && e@ == m,
        },
{
    let inputs: u32 = #[verifier::truncate] (ports.inputs.len() as u32);
    let outputs: u32 = #[verifier::truncate] (ports.outputs.len() as u32);
    if inputs != config.input_port_count {
        return Err(count_text(true, &config.name, config.input_port_count, inputs));
    }
    if outputs != config.output_port_count {
        return Err(count_text(false, &config.name, config.output_port_count, outputs));
    }
    if let Some(m) = main_port_text(true, &config.name, main_port_channels(&ports.inputs), config.main_input_channel_count) {
        return Err(m);
    }
    match main_port_text(false, &config.name, main_port_channels(&ports.outputs), config.main_output_channel_count) {
        Some(m) => Err(m),
        None => Ok(()),
    }
}

/// One port as two extensions report it.
#[derive(Debug, Clone)]
pub struct PortInfo {
    pub id: u32,
    pub channel_count: u32,
    pub flags: u32,
    pub name: String,
    /// The port type, when the plugin set one.
    pub port_type: Option<String>,
}

/// How `{:?}` writes a string: quoted, with quotes, backslashes and control characters escaped.
pub uninterp spec fn debug_text(s: Seq<char>) -> Seq<char>;

/// Writes a string as `{:?}` does.
///
/// Trusted: calls std's `Debug` formatting of a `str` through `format!`; the contract only names
/// the result as a function of the string's characters.
#[verifier::external_body]
fn debug_str(s: &str) -> (r: String)
    ensures
        r@ == debug_text(s@),
{
    format!("{:?}", s)
}

/// The characters of a port type, when there is one.
pub open spec fn type_view(port_type: Option<String>) -> Option<Seq<char>> {
    match port_type {
        Some(t) => Some(t@),
        None => None,
    }
}

/// A port type for messages: `<null>` when the plugin set none.
pub open spec fn shown_port_type(port_type: Option<String>) -> Seq<char> {
    match port_type {
        Some(t) => t@,
        None => "<null>"@,
    }
}

/// The first way two reports of a port disagree: the ID, the channel count, the flags, the name,
/// then the port type.
pub open spec fn port_info_mismatch(left: PortInfo, right: PortInfo) -> Option<Seq<char>> {
    if left.id != right.id {
        Some("ID mismatch: "@ + decimal_spec(left.id as nat) + " vs "@ + decimal_spec(right.id as nat))
    } else if left.channel_count != right.channel_count {
        Some("Channel count mismatch: "@ + decimal_spec(left.channel_count as nat) + " vs "@ + decimal_spec(
            right.channel_count as nat,
        ))
    } else if left.flags != right.flags {
        Some("Flags mismatch"@)
    } else if left.name@ != right.name@ {
        Some("Name mismatch: "@ + debug_text(left.name@) + " vs "@ + debug_text(right.name@))
    } else if type_view(left.port_type) != type_view(right.port_type) {
        Some("Port type mismatch: "@ + debug_text(shown_port_type(left.port_type)) + " vs "@ + debug_text(
            shown_port_type(right.port_type),
        ))
    } else {
        None
    }
}

/// Checks that two reports of a port agree. An error carries the message the test fails with.
pub fn check_port_info(left: &PortInfo, right: &PortInfo) -> (r: Result<(), String>)
    ensures
        match port_info_mismatch(*left, *right) {
            None => r is Ok,
            Some(m) => r matches Err(e) && e@ == m,
        },
{
    if left.id != right.id {
        let mut s = String::from_str("ID mismatch: ");
        s.append(decimal(left.id as u128).as_str());
        s.append(" vs ");
        s.append(decimal(right.id as u128).as_str());
        return Err(s);
    }
    if left.channel_count != right.channel_count {
        let mut s = String::from_str("Channel count mismatch: ");
        s.append(decimal(left.channel_count as u128).as_str());
        s.append(" vs ");
        s.append(decimal(right.channel_count as u128).as_str());
        return Err(s);
    }
    if left.flags != right.flags {
        return Err(String::from_str("Flags mismatch"));
    }
    if !(left.name == right.name) {
        let mut s = String::from_str("Name mismatch: ");
        s.append(debug_str(left.name.as_str()).as_str());
        s.append(" vs ");
        s.append(debug_str(right.name.as_str()).as_str());
        return Err(s);
    }
    let same_type = match (&left.port_type, &right.port_type) {
        (None, None) => true,
        (Some(a), Some(b)) => *a == *b,
        _ => false,
    };
    if !same_type {
        let l = match &left.port_type {
            Some(t) => t.as_str(),
            None => "<null>",
        };
        let r = match &right.port_type {
            Some(t) => t.as_str(),
            None => "<null>",
        };
        let mut s = String::from_str("Port type mismatch: ");
        s.append(debug_str(l).as_str());
        s.append(" vs ");
        s.append(debug_str(r).as_str());
        return Err(s);
    }
    Ok(())
}

/// Law: two reports of a port agree, so that checking them succeeds, exactly when they give the
/// same ID, channel count, flags, name and port type (both without one, or both with the same
/// one).
pub proof fn law_port_reports_agree_when_equal(left: PortInfo, right: PortInfo)
    ensures
        port_info_mismatch(left, right) is None <==> {
            &&& left.id == right.id
            &&& left.channel_count == right.channel_count
            &&& left.flags == right.flags
            &&& left.name@ == right.name@
            &&& match (left.port_type, right.port_type) {
                (None, None) => true,
                (Some(a), Some(b)) => a@ == b@,
                _ => false,
            }
        },
{
}

/// One request as the configurable ports test shows it: `in0-2ch` or `out1-6ch`.
pub open spec fn request_word(r: AudioPortsRequest) -> Seq<char> {
    (if r.is_input {
        "in"@
    } else {
        "out"@
    }) + decimal_spec(r.port_index as nat) + "-"@ + decimal_spec(request_channel_count(r.request_info) as nat) + "ch"@
}

/// The first `n` requests as the configurable ports test shows them, separated by spaces.
pub open spec fn requests_words(requests: Seq<AudioPortsRequest>, n: int) -> Seq<char>
    decreases n,
{
    if n <= 0 {
        Seq::empty()
    } else if n == 1 {
        request_word(requests[0])
    } else {
        requests_words(requests, n - 1) + " "@ + request_word(requests[n - 1])
    }
}

/// The requests as the configurable ports test shows them in its messages.
pub fn layout_requests_text(requests: &Vec<AudioPortsRequest>) -> (r: String)
    ensures
        r@ == requests_words(requests@, requests@.len() as int),
{
    let mut s = String::new();
    let mut k: usize = 0;
    while k < requests.len()
        invariant
            k <= requests@.len(),
            s@ == requests_words(requests@, k as int),
        decreases requests@.len() - k,
    {
        let request = &requests[k];
        assert(*request == requests@[k as int]);
        if k > 0 {
            s.append(" ");
        }
        s.append(if request.is_input {
            "in"
        } else {
            "out"
        });
        s.append(decimal(request.port_index as u128).as_str());
        s.append("-");
        let channels: u32 = match &request.request_info {
            crate::audio_ports::AudioPortsRequestInfo::Mono => 1,
            crate::audio_ports::AudioPortsRequestInfo::Stereo => 2,
            crate::audio_ports::AudioPortsRequestInfo::Untyped { channel_count } => *channel_count,
            crate::audio_ports::AudioPortsRequestInfo::Ambisonic { channel_count, .. } => *channel_count,
            crate::audio_ports::AudioPortsRequestInfo::Surround { channel_map } => channel_map.len() as u32,
        };
        s.append(decimal(channels as u128).as_str());
        s.append("ch");
        k = k + 1;
    }
    s
}

/// The most random layouts the configurable ports test tries.
pub const LAYOUT_TRIES: u32 = 200;

/// The number of accepted layouts after which the configurable ports test stops.
pub const LAYOUT_ACCEPTED: u32 = 20;

/// How many random layouts the configurable ports test has tried, and how many the plugin took.
#[derive(Debug, Clone, Copy, PartialEq, Eq, Structural)]
pub struct LayoutTries {
    pub total: u32,
    pub passed: u32,
}

/// The message of a plugin that answered `can_apply_configuration` and `apply_configuration`
/// differently for a layout.
pub open spec fn conflict_message(can_apply: bool, has_applied: bool, layout: Seq<char>) -> Seq<char> {
    "The plugin returned conflicting results from 'can_apply_configuration' ("@ + bool_word(can_apply)
        + ") and 'apply_configuration' ("@ + bool_word(has_applied) + ") for the following layout: "@ + layout
}

/// `true` or `false`.
pub open spec fn bool_word(b: bool) -> Seq<char> {
    if b {
        "true"@
    } else {
        "false"@
    }
}

impl LayoutTries {
    /// No layout tried yet.
    pub fn new() -> (r: LayoutTries)
        ensures
            r == (LayoutTries { total: 0, passed: 0 }),
    {
        LayoutTries { total: 0, passed: 0 }
    }

    /// Whether to try another layout: fewer than 200 were tried and fewer than 20 taken.
    pub fn wants_more(&self) -> (r: bool)
        ensures
            r == (self.total < LAYOUT_TRIES && self.passed < LAYOUT_ACCEPTED),
    {
        self.total < LAYOUT_TRIES && self.passed < LAYOUT_ACCEPTED
    }

    /// Records the plugin's answers for one layout. Differing answers fail the test with the
    /// returned message; otherwise the layout counts as tried, and as taken when it was applied,
    /// and the result says whether to process audio with it.
    pub fn record(&mut self, can_apply: bool, has_applied: bool, requests: &Vec<AudioPortsRequest>) -> (r: Result<bool, String>)
        requires
            old(self).total < LAYOUT_TRIES,
            old(self).passed <= old(self).total,
        ensures
            can_apply != has_applied ==> (r matches Err(m) && m@ == conflict_message(
                can_apply,
                has_applied,
                requests_words(requests@, requests@.len() as int),
            ) && *final(self) == *old(self)),
            can_apply == has_applied ==> r == Ok::<bool, String>(has_applied) && final(self).total == old(self).total
                + 1 && final(self).passed == old(self).passed + (if has_applied {
                1int
            } else {
                0int
            }),
    {
        if can_apply != has_applied {
            let mut s = String::from_str("The plugin returned conflicting results from 'can_apply_configuration' (");
            s.append(if can_apply {
                "true"
            } else {
                "false"
            });
            s.append(") and 'apply_configuration' (");
            s.append(if has_applied {
                "true"
            } else {
                "false"
            });
            s.append(") for the following layout: ");
            s.append(layout_requests_text(requests).as_str());
            return Err(s);
        }
        self.total = self.total + 1;
        if has_applied {
            self.passed = self.passed + 1;
        }
        Ok(has_applied)
    }

    /// The verdict once no more layouts are tried: a warning when the plugin took none.
    pub fn verdict(&self) -> (r: TestStatus)
        ensures
            self.passed == 0 ==> (r matches TestStatus::Warning { details: Some(d) }
                && d@ == "Tried 200 random audio port layouts, but none were accepted."@),
            self.passed != 0 ==> r == (TestStatus::Success { details: None }),
    {
        if self.passed == 0 {
            TestStatus::Warning {
                details: Some(String::from_str("Tried 200 random audio port layouts, but none were accepted.")),
            }
        } else {
            TestStatus::Success { details: None }
        }
    }
}

} // verus!
