//! The audio port configuration of a plugin, checked for consistency.
//!
//! The plugin reports each input and output port: a stable ID, flags, a channel count, an
//! optional port type and the stable ID of the port it can be processed in place with. The
//! configuration turns stable IDs into indices in the port lists and rejects inconsistent
//! reports.

use vstd::prelude::*;
use vstd::string::*;
use crate::listing::{decimal, decimal_spec};
use crate::clap_abi::{
    AUDIO_PORT_IS_MAIN, AUDIO_PORT_PREFERS_64BITS, AUDIO_PORT_REQUIRES_COMMON_SAMPLE_SIZE,
    AUDIO_PORT_SUPPORTS_64BITS, INVALID_ID,
};

verus! {

/// The port type word `mono`.
pub open spec fn port_mono() -> Seq<u8> {
    seq![109u8, 111u8, 110u8, 111u8]
}

/// The port type word `stereo`.
pub open spec fn port_stereo() -> Seq<u8> {
    seq![115u8, 116u8, 101u8, 114u8, 101u8, 111u8]
}

/// The port type word `surround`.
pub open spec fn port_surround() -> Seq<u8> {
    seq![115u8, 117u8, 114u8, 114u8, 111u8, 117u8, 110u8, 100u8]
}

/// The port type word `ambisonic`.
pub open spec fn port_ambisonic() -> Seq<u8> {
    seq![97u8, 109u8, 98u8, 105u8, 115u8, 111u8, 110u8, 105u8, 99u8]
}

/// Whether `n` is the square of a whole number.
pub open spec fn is_square(n: int) -> bool {
    exists|r: nat| #[trigger] (r * r) == n
}

/// Why a port's channel count does not match its port type.
#[derive(Debug, Clone, Copy, PartialEq, Eq, Structural)]
pub enum PortTypeError {
    /// A mono port without exactly one channel.
    ExpectedMono { channel_count: u32 },
    /// A stereo port without exactly two channels.
    ExpectedStereo { channel_count: u32 },
    /// A surround port on a plugin without the `surround` extension.
    SurroundWithoutExtension,
    /// An ambisonic port on a plugin without the `ambisonic` extension.
    AmbisonicWithoutExtension,
    /// An ambisonic port whose channel count is not a perfect square.
    AmbisonicNotSquare { channel_count: u32 },
}

/// The check of a port type against a channel count. An absent or unknown port type is
/// consistent with any channel count.
pub open spec fn port_type_check(port_type: Option<Seq<u8>>, channel_count: u32, has_ambisonic: bool, has_surround: bool) -> Result<(), PortTypeError> {
    match port_type {
        None => Ok(()),
        Some(t) => if t == port_mono() {
            if channel_count == 1 {
                Ok(())
            } else {
                Err(PortTypeError::ExpectedMono { channel_count })
            }
        } else if t == port_stereo() {
            if channel_count == 2 {
                Ok(())
            } else {
                Err(PortTypeError::ExpectedStereo { channel_count })
            }
        } else if t == port_surround() {
            if has_surround {
                Ok(())
            } else {
                Err(PortTypeError::SurroundWithoutExtension)
            }
        } else if t == port_ambisonic() {
            if !has_ambisonic {
                Err(PortTypeError::AmbisonicWithoutExtension)
            } else if !is_square(channel_count as int) {
                Err(PortTypeError::AmbisonicNotSquare { channel_count })
            } else {
                Ok(())
            }
        } else {
            Ok(())
        },
    }
}

/// The bytes of an optional port type.
pub open spec fn port_type_view(port_type: Option<Vec<u8>>) -> Option<Seq<u8>> {
    match port_type {
        Some(t) => Some(t@),
        None => None,
    }
}

fn bytes_eq(a: &Vec<u8>, b: &[u8]) -> (r: bool)
    ensures
        r == (a@ == b@),
{
    if a.len() != b.len() {
        return false;
    }
    let mut i: usize = 0;
    while i < a.len()
        invariant
            a@.len() == b@.len(),
            i <= a@.len(),
            forall|k: int| 0 <= k < i ==> a@[k] == b@[k],
        decreases a.len() - i,
    {
        if a[i] != b[i] {
            return false;
        }
        i = i + 1;
    }
    assert(a@ =~= b@);
    true
}

proof fn lemma_square_monotone(a: nat, b: nat)
    requires
        a <= b,
    ensures
        a * a <= b * b,
{
    assert(a * a <= b * b) by (nonlinear_arith)
        requires
            a <= b,
    ;
}

/// Whether `n` is a perfect square, computed with an integer square root.
fn is_square_u32(n: u32) -> (r: bool)
    ensures
        r == is_square(n as int),
{
    let mut root: u64 = 0;
    let mut sq: u64 = 0;
    while sq + 2 * root + 1 <= n as u64
        invariant
            sq == root * root,
            sq <= n,
            root <= 65535,
        decreases n - sq,
    {
        proof {
            assert((root + 1) * (root + 1) == root * root + 2 * root + 1) by (nonlinear_arith);
            if root + 1 > 65535 {
                lemma_square_monotone(65536, (root + 1) as nat);
            }
        }
        sq = sq + 2 * root + 1;
        root = root + 1;
    }
    proof {
        assert((root + 1) * (root + 1) == root * root + 2 * root + 1) by (nonlinear_arith);
    }
    proof {
        if is_square(n as int) && root * root != n {
            let k = choose|k: nat| #[trigger] (k * k) == n as int;
            if k <= root {
                lemma_square_monotone(k, root as nat);
                if k < root {
                    assert(k * k < root * root) by (nonlinear_arith)
                        requires
                            k < root,
                    ;
                }
            } else {
                lemma_square_monotone((root + 1) as nat, k);
            }
        }
        if root * root == n {
            assert(is_square(n as int)) by {
                assert(((root as nat) * (root as nat)) == n as int);
            }
        }
    }
    sq == n as u64
}

/// Check whether the number of channels matches an audio port's type, if that is set.
pub fn is_audio_port_type_consistent(port_type: &Option<Vec<u8>>, channel_count: u32, has_ambisonic: bool, has_surround: bool) -> (r: Result<(), PortTypeError>)
    ensures
        r == port_type_check(port_type_view(*port_type), channel_count, has_ambisonic, has_surround),
{
    match port_type {
        None => Ok(()),
        Some(t) => {
            if bytes_eq(t, &[109u8, 111u8, 110u8, 111u8]) {
                assert(t@ == port_mono());
                if channel_count == 1 {
                    Ok(())
                } else {
                    Err(PortTypeError::ExpectedMono { channel_count })
                }
            } else if bytes_eq(t, &[115u8, 116u8, 101u8, 114u8, 101u8, 111u8]) {
                assert(t@ == port_stereo());
                if channel_count == 2 {
                    Ok(())
                } else {
                    Err(PortTypeError::ExpectedStereo { channel_count })
                }
            } else if bytes_eq(t, &[115u8, 117u8, 114u8, 114u8, 111u8, 117u8, 110u8, 100u8]) {
                assert(t@ == port_surround());
                if has_surround {
                    Ok(())
                } else {
                    Err(PortTypeError::SurroundWithoutExtension)
                }
            } else if bytes_eq(t, &[97u8, 109u8, 98u8, 105u8, 115u8, 111u8, 110u8, 105u8, 99u8]) {
                assert(t@ == port_ambisonic());
                if !has_ambisonic {
                    Err(PortTypeError::AmbisonicWithoutExtension)
                } else if !is_square_u32(channel_count) {
                    Err(PortTypeError::AmbisonicNotSquare { channel_count })
                } else {
                    Ok(())
                }
            } else {
                proof {
                    assert(t@ != port_mono()) by {
                        if t@ == port_mono() {
                            assert(t@ =~= seq![109u8, 111u8, 110u8, 111u8]);
                        }
                    }
                }
                Ok(())
            }
        },
    }
}


/// A port as the plugin reports it through `clap_plugin_audio_ports::get()`.
#[derive(Debug, Clone)]
pub struct RawAudioPortInfo {
    /// The port's stable ID.
    pub id: u32,
    /// The `CLAP_AUDIO_PORT_*` flags.
    pub flags: u32,
    pub channel_count: u32,
    /// The port type's bytes, without the terminating NUL, when the plugin set one.
    pub port_type: Option<Vec<u8>>,
    /// The stable ID of the port on the other side this port can be processed in place with,
    /// or `CLAP_INVALID_ID`.
    pub in_place_pair: u32,
}

/// The configuration for a single audio port.
#[derive(Debug, Clone, Copy, PartialEq, Eq, Structural)]
pub struct AudioPort {
    /// Whether this is the main audio port.
    pub is_main: bool,
    /// The number of channels for an audio port.
    pub num_channels: u32,
    /// The index of the output or input port this port is processed in place with, in the other
    /// port list.
    pub in_place_pair_idx: Option<usize>,
    /// Supports 64-bit processing.
    pub supports_double_sample_size: bool,
    /// All ports with this flag require a common sample size.
    pub requires_common_sample_size: bool,
}

/// The audio port configuration for a plugin.
#[derive(Debug)]
pub struct AudioPortConfig {
    /// Configuration for the plugin's input audio ports.
    pub inputs: Vec<AudioPort>,
    /// Configuration for the plugin's output audio ports.
    pub outputs: Vec<AudioPort>,
}

impl Default for AudioPortConfig {
    fn default() -> (r: Self)
        ensures
            r.inputs@.len() == 0,
            r.outputs@.len() == 0,
    {
        AudioPortConfig { inputs: Vec::new(), outputs: Vec::new() }
    }
}

/// Why a plugin's audio port configuration was rejected.
#[derive(Debug, Clone, Copy, PartialEq, Eq, Structural)]
pub enum AudioPortsError {
    /// The port's channel count does not match its type.
    InconsistentType { is_input: bool, index: usize, error: PortTypeError },
    /// The port's stable ID was already used by an earlier port on the same side.
    DuplicateId { is_input: bool, index: usize, id: u32 },
    /// A port other than the first is marked as main.
    MainNotFirst { is_input: bool, index: usize, id: u32 },
    /// The port prefers 64-bit samples but does not support them.
    PrefersUnsupported64 { is_input: bool, index: usize, id: u32 },
    /// Ports that require a common sample size disagree on whether they support 64 bits.
    MixedCommonSampleSize,
    /// The port names an in-place pair that no port on the other side has as stable ID.
    PairMissing { is_input: bool, index: usize, id: u32, pair_id: u32 },
    /// The port's in-place pair does not name the port back.
    PairAsymmetric { is_input: bool, index: usize, id: u32, other_index: usize, other_id: u32, other_pair: u32 },
}

/// The message of a port type error, as in `Expected 1 channel, but the audio port has 2
/// channels.`
pub open spec fn port_type_error_text(e: PortTypeError) -> Seq<char> {
    match e {
        PortTypeError::ExpectedMono { channel_count } => "Expected 1 channel, but the audio port has "@
            + decimal_spec(channel_count as nat) + " channels."@,
        PortTypeError::ExpectedStereo { channel_count } => "Expected 2 channels, but the audio port has "@
            + decimal_spec(channel_count as nat) + " channel(s)."@,
        PortTypeError::SurroundWithoutExtension =>
            "Audio port type is 'surround', but the plugin does not implement the 'surround' extension."@,
        PortTypeError::AmbisonicWithoutExtension =>
            "Audio port type is 'ambisonic', but the plugin does not implement the 'ambisonic' extension."@,
        PortTypeError::AmbisonicNotSquare { channel_count } =>
            "Expected a perfect square (N^2 where N is the ambisonics order) number of channels for ambisonic audio port, but the audio port has "@
            + decimal_spec(channel_count as nat) + " channels."@,
    }
}

impl PortTypeError {
    /// The error's message.
    pub fn describe(&self) -> (r: String)
        ensures
            r@ == port_type_error_text(*self),
    {
        match self {
            PortTypeError::ExpectedMono { channel_count } => {
                let mut s = String::from_str("Expected 1 channel, but the audio port has ");
                s.append(decimal(*channel_count as u128).as_str());
                s.append(" channels.");
                s
            },
            PortTypeError::ExpectedStereo { channel_count } => {
                let mut s = String::from_str("Expected 2 channels, but the audio port has ");
                s.append(decimal(*channel_count as u128).as_str());
                s.append(" channel(s).");
                s
            },
            PortTypeError::SurroundWithoutExtension => String::from_str(
                "Audio port type is 'surround', but the plugin does not implement the 'surround' extension.",
            ),
            PortTypeError::AmbisonicWithoutExtension => String::from_str(
                "Audio port type is 'ambisonic', but the plugin does not implement the 'ambisonic' extension.",
            ),
            PortTypeError::AmbisonicNotSquare { channel_count } => {
                let mut s = String::from_str(
                    "Expected a perfect square (N^2 where N is the ambisonics order) number of channels for ambisonic audio port, but the audio port has ",
                );
                s.append(decimal(*channel_count as u128).as_str());
                s.append(" channels.");
                s
            },
        }
    }
}

/// `input` or `output`.
pub open spec fn side_word(is_input: bool) -> Seq<char> {
    if is_input {
        "input"@
    } else {
        "output"@
    }
}

/// `Input` or `Output`.
pub open spec fn side_title(is_input: bool) -> Seq<char> {
    if is_input {
        "Input"@
    } else {
        "Output"@
    }
}

fn side_word_str(is_input: bool) -> (r: &'static str)
    ensures
        r@ == side_word(is_input),
{
    if is_input {
        "input"
    } else {
        "output"
    }
}

fn side_title_str(is_input: bool) -> (r: &'static str)
    ensures
        r@ == side_title(is_input),
{
    if is_input {
        "Input"
    } else {
        "Output"
    }
}

/// The message of an audio port configuration error.
pub open spec fn audio_ports_error_text(e: AudioPortsError) -> Seq<char> {
    match e {
        AudioPortsError::InconsistentType { is_input, index, error } => "Inconsistent channel count for "@
            + side_word(is_input) + " port "@ + decimal_spec(index as nat) + ": "@ + port_type_error_text(error),
        AudioPortsError::DuplicateId { is_input, index, id } => "The stable ID of "@ + side_word(is_input)
            + " audio port "@ + decimal_spec(index as nat) + " (id="@ + decimal_spec(id as nat) + ") is a duplicate."@,
        AudioPortsError::MainNotFirst { is_input, index, id } => side_title(is_input) + " audio port "@
            + decimal_spec(index as nat) + " (id="@ + decimal_spec(id as nat)
            + ") is marked as main, but it is not the first port in the list."@,
        AudioPortsError::PrefersUnsupported64 { is_input, index, id } => side_title(is_input) + " audio port "@
            + decimal_spec(index as nat) + " (id="@ + decimal_spec(id as nat)
            + ") prefers 64-bit sample size, but does not support it."@,
        AudioPortsError::MixedCommonSampleSize =>
            "The plugin has audio ports that require common sample size, but some of these ports only support 32-bit sample size while others support 64-bit sample size."@,
        AudioPortsError::PairMissing { is_input, index, id, pair_id } => side_title(is_input) + " port "@
            + decimal_spec(index as nat) + " with stable ID "@ + decimal_spec(id as nat)
            + " claims to be connected to an "@ + side_word(!is_input) + " port with stable ID "@ + decimal_spec(
            pair_id as nat,
        ) + " through an in-place pair, but this port does not exist."@,
        AudioPortsError::PairAsymmetric { is_input, index, id, other_index, other_id, other_pair } => side_title(
            is_input,
        ) + " port "@ + decimal_spec(index as nat) + " with stable ID "@ + decimal_spec(id as nat)
            + " is connected to "@ + side_word(!is_input) + " port "@ + decimal_spec(other_index as nat)
            + " with stable ID "@ + decimal_spec(other_id as nat)
            + " through an in-place pair, but the relation is not symmetrical. The "@ + side_word(!is_input)
            + " port reports to have an in-place pair with stable ID "@ + decimal_spec(other_pair as nat) + "."@,
    }
}

impl AudioPortsError {
    /// The error's message, as in `The stable ID of input audio port 1 (id=7) is a duplicate.`
    pub fn describe(&self) -> (r: String)
        ensures
            r@ == audio_ports_error_text(*self),
    {
        match self {
            AudioPortsError::InconsistentType { is_input, index, error } => {
                let mut s = String::from_str("Inconsistent channel count for ");
                s.append(side_word_str(*is_input));
                s.append(" port ");
                s.append(decimal(*index as u128).as_str());
                s.append(": ");
                s.append(error.describe().as_str());
                s
            },
            AudioPortsError::DuplicateId { is_input, index, id } => {
                let mut s = String::from_str("The stable ID of ");
                s.append(side_word_str(*is_input));
                s.append(" audio port ");
                s.append(decimal(*index as u128).as_str());
                s.append(" (id=");
                s.append(decimal(*id as u128).as_str());
                s.append(") is a duplicate.");
                s
            },
            AudioPortsError::MainNotFirst { is_input, index, id } => {
                let mut s = String::from_str(side_title_str(*is_input));
                s.append(" audio port ");
                s.append(decimal(*index as u128).as_str());
                s.append(" (id=");
                s.append(decimal(*id as u128).as_str());
                s.append(") is marked as main, but it is not the first port in the list.");
                s
            },
            AudioPortsError::PrefersUnsupported64 { is_input, index, id } => {
                let mut s = String::from_str(side_title_str(*is_input));
                s.append(" audio port ");
                s.append(decimal(*index as u128).as_str());
                s.append(" (id=");
                s.append(decimal(*id as u128).as_str());
                s.append(") prefers 64-bit sample size, but does not support it.");
                s
            },
            AudioPortsError::MixedCommonSampleSize => String::from_str(
                "The plugin has audio ports that require common sample size, but some of these ports only support 32-bit sample size while others support 64-bit sample size.",
            ),
            AudioPortsError::PairMissing { is_input, index, id, pair_id } => {
                let mut s = String::from_str(side_title_str(*is_input));
                s.append(" port ");
                s.append(decimal(*index as u128).as_str());
                s.append(" with stable ID ");
                s.append(decimal(*id as u128).as_str());
                s.append(" claims to be connected to an ");
                s.append(side_word_str(!*is_input));
                s.append(" port with stable ID ");
                s.append(decimal(*pair_id as u128).as_str());
                s.append(" through an in-place pair, but this port does not exist.");
                s
            },
            AudioPortsError::PairAsymmetric { is_input, index, id, other_index, other_id, other_pair } => {
                let mut s = String::from_str(side_title_str(*is_input));
                s.append(" port ");
                s.append(decimal(*index as u128).as_str());
                s.append(" with stable ID ");
                s.append(decimal(*id as u128).as_str());
                s.append(" is connected to ");
                s.append(side_word_str(!*is_input));
                s.append(" port ");
                s.append(decimal(*other_index as u128).as_str());
                s.append(" with stable ID ");
                s.append(decimal(*other_id as u128).as_str());
                s.append(" through an in-place pair, but the relation is not symmetrical. The ");
                s.append(side_word_str(!*is_input));
                s.append(" port reports to have an in-place pair with stable ID ");
                s.append(decimal(*other_pair as u128).as_str());
                s.append(".");
                s
            },
        }
    }
}

/// Whether `bit` is set in `flags`.
pub open spec fn flag(flags: u32, bit: u32) -> bool {
    flags & bit != 0
}

/// The first inconsistency of port `k` on one side, given the ports before it.
pub open spec fn port_error(infos: Seq<RawAudioPortInfo>, k: int, is_input: bool, has_ambisonic: bool, has_surround: bool) -> Option<AudioPortsError> {
    let info = infos[k];
    match port_type_check(port_type_view(info.port_type), info.channel_count, has_ambisonic, has_surround) {
        Err(e) => Some(AudioPortsError::InconsistentType { is_input, index: k as usize, error: e }),
        Ok(_) => if exists|m: int| 0 <= m < k && #[trigger] infos[m].id == info.id {
            Some(AudioPortsError::DuplicateId { is_input, index: k as usize, id: info.id })
        } else if flag(info.flags, AUDIO_PORT_IS_MAIN) && k != 0 {
            Some(AudioPortsError::MainNotFirst { is_input, index: k as usize, id: info.id })
        } else if flag(info.flags, AUDIO_PORT_PREFERS_64BITS) && !flag(info.flags, AUDIO_PORT_SUPPORTS_64BITS) {
            Some(AudioPortsError::PrefersUnsupported64 { is_input, index: k as usize, id: info.id })
        } else {
            None
        },
    }
}

/// The first inconsistency among the first `n` ports of one side, in port order.
pub open spec fn first_port_error(infos: Seq<RawAudioPortInfo>, n: int, is_input: bool, has_ambisonic: bool, has_surround: bool) -> Option<AudioPortsError>
    decreases n,
{
    if n <= 0 {
        None
    } else {
        match first_port_error(infos, n - 1, is_input, has_ambisonic, has_surround) {
            Some(e) => Some(e),
            None => port_error(infos, n - 1, is_input, has_ambisonic, has_surround),
        }
    }
}

/// Some port requires a common sample size and supports 64 bits (`double`) or does not.
pub open spec fn has_common(infos: Seq<RawAudioPortInfo>, double: bool) -> bool {
    exists|k: int|
        0 <= k < infos.len() && flag(#[trigger] infos[k].flags, AUDIO_PORT_REQUIRES_COMMON_SAMPLE_SIZE)
            && flag(infos[k].flags, AUDIO_PORT_SUPPORTS_64BITS) == double
}

/// Ports requiring a common sample size exist both with and without 64-bit support.
pub open spec fn mixed_common(inputs: Seq<RawAudioPortInfo>, outputs: Seq<RawAudioPortInfo>) -> bool {
    (has_common(inputs, false) || has_common(outputs, false)) && (has_common(inputs, true) || has_common(
        outputs,
        true,
    ))
}

/// Port `k` of `side` names a port of `other` as in-place pair, and that port names it back.
pub open spec fn paired(side: Seq<RawAudioPortInfo>, other: Seq<RawAudioPortInfo>, k: int, o: int) -> bool {
    &&& side[k].in_place_pair != INVALID_ID
    &&& other[o].id == side[k].in_place_pair
    &&& other[o].in_place_pair == side[k].id
}

/// Port `k` of `side` has no in-place pair or a symmetric one.
pub open spec fn pair_ok(side: Seq<RawAudioPortInfo>, other: Seq<RawAudioPortInfo>, k: int) -> bool {
    side[k].in_place_pair == INVALID_ID || exists|o: int| 0 <= o < other.len() && #[trigger] paired(side, other, k, o)
}

/// Every in-place pair on either side is symmetric.
pub open spec fn pairs_ok(inputs: Seq<RawAudioPortInfo>, outputs: Seq<RawAudioPortInfo>) -> bool {
    &&& forall|k: int| 0 <= k < inputs.len() ==> #[trigger] pair_ok(inputs, outputs, k)
    &&& forall|k: int| 0 <= k < outputs.len() ==> #[trigger] pair_ok(outputs, inputs, k)
}

/// `e` describes an in-place pair that is missing or not symmetric.
pub open spec fn describes_pair_error(inputs: Seq<RawAudioPortInfo>, outputs: Seq<RawAudioPortInfo>, e: AudioPortsError) -> bool {
    match e {
        AudioPortsError::PairMissing { is_input, index, id, pair_id } => {
            let side = if is_input { inputs } else { outputs };
            let other = if is_input { outputs } else { inputs };
            &&& index < side.len()
            &&& side[index as int].id == id
            &&& side[index as int].in_place_pair == pair_id
            &&& pair_id != INVALID_ID
            &&& forall|o: int| 0 <= o < other.len() ==> #[trigger] other[o].id != pair_id
        },
        AudioPortsError::PairAsymmetric { is_input, index, id, other_index, other_id, other_pair } => {
            let side = if is_input { inputs } else { outputs };
            let other = if is_input { outputs } else { inputs };
            &&& index < side.len()
            &&& other_index < other.len()
            &&& side[index as int].id == id
            &&& side[index as int].in_place_pair == other_id
            &&& other_id != INVALID_ID
            &&& other[other_index as int].id == other_id
            &&& other[other_index as int].in_place_pair == other_pair
            &&& other_pair != id
        },
        _ => false,
    }
}

/// A configured port carries the flags and channel count of its report.
pub open spec fn port_matches(port: AudioPort, info: RawAudioPortInfo) -> bool {
    &&& port.is_main == flag(info.flags, AUDIO_PORT_IS_MAIN)
    &&& port.num_channels == info.channel_count
    &&& port.supports_double_sample_size == flag(info.flags, AUDIO_PORT_SUPPORTS_64BITS)
    &&& port.requires_common_sample_size == flag(info.flags, AUDIO_PORT_REQUIRES_COMMON_SAMPLE_SIZE)
}

/// The configuration built from consistent reports: each port carries its report, an input
/// points at the output its in-place pair names, and an output points at the input paired with
/// it.
pub open spec fn config_matches(inputs: Seq<RawAudioPortInfo>, outputs: Seq<RawAudioPortInfo>, cfg_inputs: Seq<AudioPort>, cfg_outputs: Seq<AudioPort>) -> bool {
    &&& cfg_inputs.len() == inputs.len()
    &&& cfg_outputs.len() == outputs.len()
    &&& forall|k: int| 0 <= k < inputs.len() ==> port_matches(#[trigger] cfg_inputs[k], inputs[k])
    &&& forall|k: int| 0 <= k < outputs.len() ==> port_matches(#[trigger] cfg_outputs[k], outputs[k])
    &&& forall|k: int|
        0 <= k < inputs.len() ==> match #[trigger] cfg_inputs[k].in_place_pair_idx {
            None => inputs[k].in_place_pair == INVALID_ID,
            Some(o) => o < outputs.len() && paired(inputs, outputs, k, o as int),
        }
    &&& forall|o: int|
        0 <= o < outputs.len() ==> match #[trigger] cfg_outputs[o].in_place_pair_idx {
            None => forall|k: int| 0 <= k < inputs.len() ==> !paired(inputs, outputs, k, o),
            Some(k) => k < inputs.len() && paired(inputs, outputs, k as int, o),
        }
}

/// What building the configuration from the reports comes to, when it fails.
pub open spec fn config_error(inputs: Seq<RawAudioPortInfo>, outputs: Seq<RawAudioPortInfo>, has_ambisonic: bool, has_surround: bool) -> Option<AudioPortsError> {
    match first_port_error(inputs, inputs.len() as int, true, has_ambisonic, has_surround) {
        Some(e) => Some(e),
        None => match first_port_error(outputs, outputs.len() as int, false, has_ambisonic, has_surround) {
            Some(e) => Some(e),
            None => if mixed_common(inputs, outputs) {
                Some(AudioPortsError::MixedCommonSampleSize)
            } else {
                None
            },
        },
    }
}

proof fn lemma_first_error_stable(infos: Seq<RawAudioPortInfo>, m: int, n: int, is_input: bool, a: bool, s: bool)
    requires
        0 <= m <= n,
        first_port_error(infos, m, is_input, a, s) is Some,
    ensures
        first_port_error(infos, n, is_input, a, s) == first_port_error(infos, m, is_input, a, s),
    decreases n - m,
{
    if m < n {
        lemma_first_error_stable(infos, m, n - 1, is_input, a, s);
    }
}

proof fn lemma_first_error_prefix(infos: Seq<RawAudioPortInfo>, n: int, k: int, is_input: bool, a: bool, s: bool)
    requires
        0 <= k < n,
        first_port_error(infos, n, is_input, a, s) is None,
    ensures
        port_error(infos, k, is_input, a, s) is None,
    decreases n,
{
    if k < n - 1 {
        lemma_first_error_prefix(infos, n - 1, k, is_input, a, s);
    }
}

/// Ports without errors have unique stable IDs.
proof fn lemma_unique_ids(infos: Seq<RawAudioPortInfo>, is_input: bool, a: bool, s: bool)
    requires
        first_port_error(infos, infos.len() as int, is_input, a, s) is None,
    ensures
        forall|m: int, k: int| 0 <= m < infos.len() && 0 <= k < infos.len() && #[trigger] infos[m].id == #[trigger] infos[k].id ==> m == k,
{
    assert forall|m: int, k: int| 0 <= m < infos.len() && 0 <= k < infos.len() && #[trigger] infos[m].id == #[trigger] infos[k].id implies m == k by {
        if m < k {
            lemma_first_error_prefix(infos, infos.len() as int, k, is_input, a, s);
        } else if k < m {
            lemma_first_error_prefix(infos, infos.len() as int, m, is_input, a, s);
        }
    }
}

/// Check the ports of one side in order, returning the first inconsistency or the ports.
fn check_ports(infos: &Vec<RawAudioPortInfo>, is_input: bool, has_ambisonic: bool, has_surround: bool) -> (r: Result<Vec<AudioPort>, AudioPortsError>)
    ensures
        match first_port_error(infos@, infos@.len() as int, is_input, has_ambisonic, has_surround) {
            Some(e) => r == Err::<Vec<AudioPort>, AudioPortsError>(e),
            None => r is Ok && r->Ok_0@.len() == infos@.len() && forall|k: int|
                0 <= k < infos@.len() ==> port_matches(#[trigger] r->Ok_0@[k], infos@[k]) && r->Ok_0@[k].in_place_pair_idx is None,
        },
{
    let mut ports: Vec<AudioPort> = Vec::new();
    let mut k: usize = 0;
    while k < infos.len()
        invariant
            k <= infos@.len(),
            first_port_error(infos@, k as int, is_input, has_ambisonic, has_surround) is None,
            ports@.len() == k,
            forall|m: int| 0 <= m < k ==> port_matches(#[trigger] ports@[m], infos@[m]) && ports@[m].in_place_pair_idx is None,
        decreases infos.len() - k,
    {
        let info = &infos[k];
        match is_audio_port_type_consistent(&info.port_type, info.channel_count, has_ambisonic, has_surround) {
            Err(e) => {
                proof {
                    lemma_first_error_stable(infos@, k + 1, infos@.len() as int, is_input, has_ambisonic, has_surround);
                }
                return Err(AudioPortsError::InconsistentType { is_input, index: k, error: e });
            },
            Ok(()) => {},
        }
        let mut m: usize = 0;
        while m < k
            invariant
                k < infos@.len(),
                m <= k,
                first_port_error(infos@, k as int, is_input, has_ambisonic, has_surround) is None,
                port_type_check(
                    port_type_view(infos@[k as int].port_type),
                    infos@[k as int].channel_count,
                    has_ambisonic,
                    has_surround,
                ) is Ok,
                forall|j: int| 0 <= j < m ==> #[trigger] infos@[j].id != infos@[k as int].id,
            decreases k - m,
        {
            if infos[m].id == infos[k].id {
                proof {
                    assert(exists|j: int| 0 <= j < k && #[trigger] infos@[j].id == infos@[k as int].id) by {
                        assert(infos@[m as int].id == infos@[k as int].id);
                    }
                    lemma_first_error_stable(infos@, k + 1, infos@.len() as int, is_input, has_ambisonic, has_surround);
                }
                return Err(AudioPortsError::DuplicateId { is_input, index: k, id: infos[k].id });
            }
            m = m + 1;
        }
        let is_main = info.flags & AUDIO_PORT_IS_MAIN != 0;
        if is_main && k != 0 {
            proof {
                lemma_first_error_stable(infos@, k + 1, infos@.len() as int, is_input, has_ambisonic, has_surround);
            }
            return Err(AudioPortsError::MainNotFirst { is_input, index: k, id: info.id });
        }
        let supports_double_sample_size = info.flags & AUDIO_PORT_SUPPORTS_64BITS != 0;
        let prefers_double_sample_size = info.flags & AUDIO_PORT_PREFERS_64BITS != 0;
        let requires_common_sample_size = info.flags & AUDIO_PORT_REQUIRES_COMMON_SAMPLE_SIZE != 0;
        if prefers_double_sample_size && !supports_double_sample_size {
            proof {
                lemma_first_error_stable(infos@, k + 1, infos@.len() as int, is_input, has_ambisonic, has_surround);
            }
            return Err(AudioPortsError::PrefersUnsupported64 { is_input, index: k, id: info.id });
        }
        ports.push(AudioPort {
            is_main,
            num_channels: info.channel_count,
            in_place_pair_idx: None,
            supports_double_sample_size,
            requires_common_sample_size,
        });
        k = k + 1;
    }
    Ok(ports)
}

/// Whether some port requires a common sample size with 64-bit support `double`.
fn find_common(infos: &Vec<RawAudioPortInfo>, double: bool) -> (r: bool)
    ensures
        r == has_common(infos@, double),
{
    let mut k: usize = 0;
    while k < infos.len()
        invariant
            k <= infos@.len(),
            forall|j: int|
                0 <= j < k ==> !(flag(#[trigger] infos@[j].flags, AUDIO_PORT_REQUIRES_COMMON_SAMPLE_SIZE) && flag(
                    infos@[j].flags,
                    AUDIO_PORT_SUPPORTS_64BITS,
                ) == double),
        decreases infos.len() - k,
    {
        let f = infos[k].flags;
        if f & AUDIO_PORT_REQUIRES_COMMON_SAMPLE_SIZE != 0 && (f & AUDIO_PORT_SUPPORTS_64BITS != 0) == double {
            return true;
        }
        k = k + 1;
    }
    false
}

/// The index of the port with stable ID `id`, if any.
fn find_by_id(infos: &Vec<RawAudioPortInfo>, id: u32) -> (r: Option<usize>)
    ensures
        match r {
            Some(o) => o < infos@.len() && infos@[o as int].id == id,
            None => forall|o: int| 0 <= o < infos@.len() ==> #[trigger] infos@[o].id != id,
        },
{
    let mut k: usize = 0;
    while k < infos.len()
        invariant
            k <= infos@.len(),
            forall|j: int| 0 <= j < k ==> #[trigger] infos@[j].id != id,
        decreases infos.len() - k,
    {
        if infos[k].id == id {
            return Some(k);
        }
        k = k + 1;
    }
    None
}


fn with_pair(port: AudioPort, pair: usize) -> (r: AudioPort)
    ensures
        r == (AudioPort { in_place_pair_idx: Some(pair), ..port }),
{
    AudioPort {
        is_main: port.is_main,
        num_channels: port.num_channels,
        in_place_pair_idx: Some(pair),
        supports_double_sample_size: port.supports_double_sample_size,
        requires_common_sample_size: port.requires_common_sample_size,
    }
}

/// Get the audio port configuration from the ports the plugin reports, checking it for
/// consistency: each port's type against its channel count, unique stable IDs per side, only the
/// first port marked as main, no port preferring 64-bit samples without supporting them, no mix
/// of common-sample-size ports with and without 64-bit support, and symmetric in-place pairs.
/// The per-port checks run in port order, inputs first. Which asymmetric or missing in-place pair
/// is reported when there are several is left open.
pub fn audio_port_config(inputs: &Vec<RawAudioPortInfo>, outputs: &Vec<RawAudioPortInfo>, has_ambisonic: bool, has_surround: bool) -> (r: Result<AudioPortConfig, AudioPortsError>)
    ensures
        match config_error(inputs@, outputs@, has_ambisonic, has_surround) {
            Some(e) => r == Err::<AudioPortConfig, AudioPortsError>(e),
            None => if pairs_ok(inputs@, outputs@) {
                r is Ok && config_matches(inputs@, outputs@, r->Ok_0.inputs@, r->Ok_0.outputs@)
            } else {
                r is Err && describes_pair_error(inputs@, outputs@, r->Err_0)
            },
        },
{
    let mut cfg_in = match check_ports(inputs, true, has_ambisonic, has_surround) {
        Ok(ports) => ports,
        Err(e) => {
            return Err(e);
        },
    };
    let mut cfg_out = match check_ports(outputs, false, has_ambisonic, has_surround) {
        Ok(ports) => ports,
        Err(e) => {
            return Err(e);
        },
    };
    let single = find_common(inputs, false) || find_common(outputs, false);
    let double = find_common(inputs, true) || find_common(outputs, true);
    if single && double {
        return Err(AudioPortsError::MixedCommonSampleSize);
    }
    proof {
        lemma_unique_ids(inputs@, true, has_ambisonic, has_surround);
        lemma_unique_ids(outputs@, false, has_ambisonic, has_surround);
    }
    let ghost ins = inputs@;
    let ghost outs = outputs@;
    let mut k: usize = 0;
    while k < inputs.len()
        invariant
            inputs@ == ins,
            outputs@ == outs,
            config_error(ins, outs, has_ambisonic, has_surround) is None,
            forall|m: int, j: int| 0 <= m < ins.len() && 0 <= j < ins.len() && #[trigger] ins[m].id == #[trigger] ins[j].id ==> m == j,
            forall|m: int, j: int| 0 <= m < outs.len() && 0 <= j < outs.len() && #[trigger] outs[m].id == #[trigger] outs[j].id ==> m == j,
            k <= ins.len(),
            cfg_in@.len() == ins.len(),
            cfg_out@.len() == outs.len(),
            forall|m: int| 0 <= m < ins.len() ==> port_matches(#[trigger] cfg_in@[m], ins[m]),
            forall|m: int| 0 <= m < outs.len() ==> port_matches(#[trigger] cfg_out@[m], outs[m]),
            forall|m: int| 0 <= m < k ==> #[trigger] pair_ok(ins, outs, m),
            forall|m: int|
                0 <= m < k ==> match #[trigger] cfg_in@[m].in_place_pair_idx {
                    None => ins[m].in_place_pair == INVALID_ID,
                    Some(o) => o < outs.len() && paired(ins, outs, m, o as int),
                },
            forall|m: int| k <= m < ins.len() ==> #[trigger] cfg_in@[m].in_place_pair_idx is None,
            forall|o: int|
                0 <= o < outs.len() ==> match #[trigger] cfg_out@[o].in_place_pair_idx {
                    None => forall|m: int| 0 <= m < k ==> !paired(ins, outs, m, o),
                    Some(m) => m < k && paired(ins, outs, m as int, o),
                },
        decreases ins.len() - k,
    {
        let pair = inputs[k].in_place_pair;
        if pair != INVALID_ID {
            match find_by_id(outputs, pair) {
                None => {
                    proof {
                        assert(!pair_ok(ins, outs, k as int));
                    }
                    return Err(AudioPortsError::PairMissing { is_input: true, index: k, id: inputs[k].id, pair_id: pair });
                },
                Some(o) => {
                    if outputs[o].in_place_pair != inputs[k].id {
                        proof {
                            assert forall|j: int| 0 <= j < outs.len() implies !#[trigger] paired(ins, outs, k as int, j) by {
                                if paired(ins, outs, k as int, j) {
                                    assert(outs[j].id == outs[o as int].id);
                                }
                            }
                            assert(!pair_ok(ins, outs, k as int));
                        }
                        return Err(AudioPortsError::PairAsymmetric {
                            is_input: true,
                            index: k,
                            id: inputs[k].id,
                            other_index: o,
                            other_id: outputs[o].id,
                            other_pair: outputs[o].in_place_pair,
                        });
                    }
                    let ghost old_out = cfg_out@;
                    proof {
                        assert(paired(ins, outs, k as int, o as int));
                        assert(pair_ok(ins, outs, k as int));
                        assert(cfg_out@[o as int].in_place_pair_idx is None) by {
                            if let Some(m) = cfg_out@[o as int].in_place_pair_idx {
                                assert(ins[m as int].id == ins[k as int].id);
                            }
                        }
                    }
                    let p = cfg_in[k];
                    cfg_in.set(k, with_pair(p, o));
                    let q = cfg_out[o];
                    cfg_out.set(o, with_pair(q, k));
                    proof {
                        assert forall|j: int| 0 <= j < outs.len() && j != o implies !#[trigger] paired(ins, outs, k as int, j) by {
                            if paired(ins, outs, k as int, j) {
                                assert(outs[j].id == outs[o as int].id);
                            }
                        }
                        assert forall|j: int| 0 <= j < outs.len() implies match #[trigger] cfg_out@[j].in_place_pair_idx {
                            None => forall|m: int| 0 <= m < k + 1 ==> !paired(ins, outs, m, j),
                            Some(m) => m < k + 1 && paired(ins, outs, m as int, j),
                        } by {
                            if j != o {
                                assert(cfg_out@[j] == old_out[j]);
                            }
                        }
                    }
                },
            }
        } else {
            assert(pair_ok(ins, outs, k as int));
            proof {
                assert forall|j: int| 0 <= j < outs.len() implies match #[trigger] cfg_out@[j].in_place_pair_idx {
                    None => forall|m: int| 0 <= m < k + 1 ==> !paired(ins, outs, m, j),
                    Some(m) => m < k + 1 && paired(ins, outs, m as int, j),
                } by {
                    assert(!paired(ins, outs, k as int, j));
                }
            }
        }
        k = k + 1;
    }
    let mut o: usize = 0;
    while o < outputs.len()
        invariant
            inputs@ == ins,
            outputs@ == outs,
            config_error(ins, outs, has_ambisonic, has_surround) is None,
            forall|m: int, j: int| 0 <= m < ins.len() && 0 <= j < ins.len() && #[trigger] ins[m].id == #[trigger] ins[j].id ==> m == j,
            forall|m: int| 0 <= m < ins.len() ==> #[trigger] pair_ok(ins, outs, m),
            forall|j: int| 0 <= j < o ==> #[trigger] pair_ok(outs, ins, j),
            o <= outs.len(),
        decreases outs.len() - o,
    {
        let pair = outputs[o].in_place_pair;
        if pair != INVALID_ID {
            match find_by_id(inputs, pair) {
                None => {
                    proof {
                        assert(!pair_ok(outs, ins, o as int));
                    }
                    return Err(AudioPortsError::PairMissing { is_input: false, index: o, id: outputs[o].id, pair_id: pair });
                },
                Some(m) => {
                    if inputs[m].in_place_pair != outputs[o].id {
                        proof {
                            assert forall|j: int| 0 <= j < ins.len() implies !#[trigger] paired(outs, ins, o as int, j) by {
                                if paired(outs, ins, o as int, j) {
                                    assert(ins[j].id == ins[m as int].id);
                                }
                            }
                            assert(!pair_ok(outs, ins, o as int));
                        }
                        return Err(AudioPortsError::PairAsymmetric {
                            is_input: false,
                            index: o,
                            id: outputs[o].id,
                            other_index: m,
                            other_id: inputs[m].id,
                            other_pair: inputs[m].in_place_pair,
                        });
                    }
                    assert(paired(outs, ins, o as int, m as int));
                },
            }
        }
        o = o + 1;
    }
    Ok(AudioPortConfig { inputs: cfg_in, outputs: cfg_out })
}

/// A port layout a plugin is asked to take through the `configurable-audio-ports` extension.
#[derive(Debug, Clone)]
pub enum AudioPortsRequestInfo {
    Mono,
    Stereo,
    Untyped { channel_count: u32 },
    /// An ambisonic layout with the `clap_ambisonic_config` ordering and normalization.
    Ambisonic { channel_count: u32, ordering: u32, normalization: u32 },
    /// A surround layout with the given channel map.
    Surround { channel_map: Vec<u8> },
}

/// A request to give one port a layout.
#[derive(Debug, Clone)]
pub struct AudioPortsRequest {
    pub is_input: bool,
    pub port_index: u32,
    pub request_info: AudioPortsRequestInfo,
}

/// The port types a request names.
#[derive(Debug, Clone, Copy, PartialEq, Eq, Structural)]
pub enum RequestPortType {
    Mono,
    Stereo,
    Ambisonic,
    Surround,
}

/// A request as it is handed to the plugin: the port, its channel count and its port type.
#[derive(Debug, Clone, Copy, PartialEq, Eq, Structural)]
pub struct PortConfigurationRequest {
    pub is_input: bool,
    pub port_index: u32,
    pub channel_count: u32,
    pub port_type: Option<RequestPortType>,
}

/// The channel count a layout asks for: one for mono, two for stereo, the given count, or as many
/// as the surround channel map has (as a 32-bit count).
pub open spec fn request_channel_count(info: AudioPortsRequestInfo) -> u32 {
    match info {
        AudioPortsRequestInfo::Mono => 1,
        AudioPortsRequestInfo::Stereo => 2,
        AudioPortsRequestInfo::Untyped { channel_count } => channel_count,
        AudioPortsRequestInfo::Ambisonic { channel_count, .. } => channel_count,
        AudioPortsRequestInfo::Surround { channel_map } => channel_map@.len() as u32,
    }
}

/// The port type a layout names; an untyped layout names none.
pub open spec fn request_port_type(info: AudioPortsRequestInfo) -> Option<RequestPortType> {
    match info {
        AudioPortsRequestInfo::Mono => Some(RequestPortType::Mono),
        AudioPortsRequestInfo::Stereo => Some(RequestPortType::Stereo),
        AudioPortsRequestInfo::Untyped { .. } => None,
        AudioPortsRequestInfo::Ambisonic { .. } => Some(RequestPortType::Ambisonic),
        AudioPortsRequestInfo::Surround { .. } => Some(RequestPortType::Surround),
    }
}

/// The request as it is handed to the plugin.
pub open spec fn converted(r: AudioPortsRequest) -> PortConfigurationRequest {
    PortConfigurationRequest {
        is_input: r.is_input,
        port_index: r.port_index,
        channel_count: request_channel_count(r.request_info),
        port_type: request_port_type(r.request_info),
    }
}

fn convert_request(r: &AudioPortsRequest) -> (c: PortConfigurationRequest)
    ensures
        c == converted(*r),
{
    let (channel_count, port_type) = match &r.request_info {
        AudioPortsRequestInfo::Mono => (1u32, Some(RequestPortType::Mono)),
        AudioPortsRequestInfo::Stereo => (2u32, Some(RequestPortType::Stereo)),
        AudioPortsRequestInfo::Untyped { channel_count } => (*channel_count, None),
        AudioPortsRequestInfo::Ambisonic { channel_count, .. } => (*channel_count, Some(RequestPortType::Ambisonic)),
        AudioPortsRequestInfo::Surround { channel_map } => (channel_map.len() as u32, Some(RequestPortType::Surround)),
    };
    PortConfigurationRequest { is_input: r.is_input, port_index: r.port_index, channel_count, port_type }
}

/// The requests as they are handed to the plugin, in order.
pub fn convert_requests(requests: &Vec<AudioPortsRequest>) -> (r: Vec<PortConfigurationRequest>)
    ensures
        r@.len() == requests@.len(),
        forall|i: int| 0 <= i < requests@.len() ==> #[trigger] r@[i] == converted(requests@[i]),
{
    let mut out: Vec<PortConfigurationRequest> = Vec::new();
    let mut i: usize = 0;
    while i < requests.len()
        invariant
            i <= requests@.len(),
            out@.len() == i,
            forall|j: int| 0 <= j < i ==> #[trigger] out@[j] == converted(requests@[j]),
        decreases requests@.len() - i,
    {
        out.push(convert_request(&requests[i]));
        i = i + 1;
    }
    out
}

/// The text of a requested layout.
pub open spec fn request_info_text(info: AudioPortsRequestInfo) -> Seq<char> {
    match info {
        AudioPortsRequestInfo::Mono => "Mono"@,
        AudioPortsRequestInfo::Stereo => "Stereo"@,
        AudioPortsRequestInfo::Untyped { channel_count } => "Untyped ("@ + decimal_spec(channel_count as nat) + "ch)"@,
        AudioPortsRequestInfo::Ambisonic { channel_count, .. } => "Ambisonic ("@ + decimal_spec(channel_count as nat)
            + "ch)"@,
        AudioPortsRequestInfo::Surround { channel_map } => "Surround ("@ + decimal_spec(channel_map@.len()) + "ch)"@,
    }
}

/// The text of a request: the side, the port index, and the layout.
pub open spec fn request_text(r: AudioPortsRequest) -> Seq<char> {
    (if r.is_input {
        "Input"@
    } else {
        "Output"@
    }) + " #"@ + decimal_spec(r.port_index as nat) + ": "@ + request_info_text(r.request_info)
}

impl AudioPortsRequest {
    /// Describes the request, as in `Input #0: Stereo`.
    pub fn describe(&self) -> (r: String)
        ensures
            r@ == request_text(*self),
    {
        let mut s = String::from_str(if self.is_input {
            "Input"
        } else {
            "Output"
        });
        s.append(" #");
        s.append(decimal(self.port_index as u128).as_str());
        s.append(": ");
        match &self.request_info {
            AudioPortsRequestInfo::Mono => s.append("Mono"),
            AudioPortsRequestInfo::Stereo => s.append("Stereo"),
            AudioPortsRequestInfo::Untyped { channel_count } => {
                s.append("Untyped (");
                s.append(decimal(*channel_count as u128).as_str());
                s.append("ch)");
            },
            AudioPortsRequestInfo::Ambisonic { channel_count, .. } => {
                s.append("Ambisonic (");
                s.append(decimal(*channel_count as u128).as_str());
                s.append("ch)");
            },
            AudioPortsRequestInfo::Surround { channel_map } => {
                s.append("Surround (");
                s.append(decimal(channel_map.len() as u128).as_str());
                s.append("ch)");
            },
        }
        s
    }
}

/// A port configuration as the plugin reports it through `clap_plugin_audio_ports_config::get()`.
#[derive(Debug, Clone)]
pub struct RawPortsConfigInfo {
    pub id: u32,
    pub name: String,
    pub input_port_count: u32,
    pub output_port_count: u32,
    pub has_main_input: bool,
    pub main_input_channel_count: u32,
    /// The main input's port type bytes, without the terminating NUL, when the plugin set one.
    pub main_input_port_type: Option<Vec<u8>>,
    pub has_main_output: bool,
    pub main_output_channel_count: u32,
    /// The main output's port type bytes, without the terminating NUL, when the plugin set one.
    pub main_output_port_type: Option<Vec<u8>>,
}

/// A port configuration a plugin offers: its counts, and the main ports' channel counts when it
/// has main ports.
#[derive(Debug, Clone)]
pub struct AudioPortsConfigConfig {
    pub id: u32,
    pub name: String,
    pub input_port_count: u32,
    pub output_port_count: u32,
    pub main_input_channel_count: Option<u32>,
    pub main_output_channel_count: Option<u32>,
}

/// Why the list of port configurations was rejected: the main input or output port of the
/// configuration at index `config` has a channel count that does not match its type.
#[derive(Debug, Clone, Copy, PartialEq, Eq, Structural)]
pub enum PortsConfigError {
    InconsistentMainInput { config: usize, error: PortTypeError },
    InconsistentMainOutput { config: usize, error: PortTypeError },
}

/// The configuration at index `i`, or why it is inconsistent; the main input is checked first.
pub open spec fn config_entry(info: RawPortsConfigInfo, i: int, has_ambisonic: bool, has_surround: bool) -> Result<AudioPortsConfigConfig, PortsConfigError> {
    let input_check = port_type_check(port_type_view(info.main_input_port_type), info.main_input_channel_count, has_ambisonic, has_surround);
    let output_check = port_type_check(port_type_view(info.main_output_port_type), info.main_output_channel_count, has_ambisonic, has_surround);
    if info.has_main_input && input_check is Err {
        Err(PortsConfigError::InconsistentMainInput { config: i as usize, error: input_check->Err_0 })
    } else if info.has_main_output && output_check is Err {
        Err(PortsConfigError::InconsistentMainOutput { config: i as usize, error: output_check->Err_0 })
    } else {
        Ok(AudioPortsConfigConfig {
            id: info.id,
            name: info.name,
            input_port_count: info.input_port_count,
            output_port_count: info.output_port_count,
            main_input_channel_count: if info.has_main_input { Some(info.main_input_channel_count) } else { None },
            main_output_channel_count: if info.has_main_output { Some(info.main_output_channel_count) } else { None },
        })
    }
}

/// The first `n` configurations, or the error of the first inconsistent one among them.
pub open spec fn configs_spec(infos: Seq<RawPortsConfigInfo>, n: int, has_ambisonic: bool, has_surround: bool) -> Result<Seq<AudioPortsConfigConfig>, PortsConfigError>
    decreases n,
{
    if n <= 0 {
        Ok(Seq::empty())
    } else {
        match configs_spec(infos, n - 1, has_ambisonic, has_surround) {
            Err(e) => Err(e),
            Ok(s) => match config_entry(infos[n - 1], n - 1, has_ambisonic, has_surround) {
                Err(e) => Err(e),
                Ok(c) => Ok(s.push(c)),
            },
        }
    }
}

proof fn lemma_configs_error_stays(infos: Seq<RawPortsConfigInfo>, k: int, n: int, has_ambisonic: bool, has_surround: bool)
    requires
        0 <= k <= n,
        configs_spec(infos, k, has_ambisonic, has_surround) is Err,
    ensures
        configs_spec(infos, n, has_ambisonic, has_surround) == configs_spec(infos, k, has_ambisonic, has_surround),
    decreases n - k,
{
    if n > k {
        lemma_configs_error_stays(infos, k, n - 1, has_ambisonic, has_surround);
    }
}

/// Checks the main ports of each configuration against their port types and lists the
/// configurations, in order; the first inconsistent configuration fails the whole list.
pub fn enumerate_configs(infos: &Vec<RawPortsConfigInfo>, has_ambisonic: bool, has_surround: bool) -> (r: Result<Vec<AudioPortsConfigConfig>, PortsConfigError>)
    ensures
        match configs_spec(infos@, infos@.len() as int, has_ambisonic, has_surround) {
            Ok(s) => r matches Ok(v) && v@ == s,
            Err(e) => r == Err::<Vec<AudioPortsConfigConfig>, PortsConfigError>(e),
        },
{
    let mut out: Vec<AudioPortsConfigConfig> = Vec::new();
    let mut i: usize = 0;
    while i < infos.len()
        invariant
            i <= infos@.len(),
            configs_spec(infos@, i as int, has_ambisonic, has_surround) == Ok::<Seq<AudioPortsConfigConfig>, PortsConfigError>(out@),
        decreases infos@.len() - i,
    {
        let info = &infos[i];
        assert(*info == infos@[i as int]);
        if info.has_main_input {
            if let Err(error) = is_audio_port_type_consistent(&info.main_input_port_type, info.main_input_channel_count, has_ambisonic, has_surround) {
                let e = PortsConfigError::InconsistentMainInput { config: i, error };
                proof {
                    lemma_configs_error_stays(infos@, i + 1, infos@.len() as int, has_ambisonic, has_surround);
                }
                return Err(e);
            }
        }
        if info.has_main_output {
            if let Err(error) = is_audio_port_type_consistent(&info.main_output_port_type, info.main_output_channel_count, has_ambisonic, has_surround) {
                let e = PortsConfigError::InconsistentMainOutput { config: i, error };
                proof {
                    lemma_configs_error_stays(infos@, i + 1, infos@.len() as int, has_ambisonic, has_surround);
                }
                return Err(e);
            }
        }
        let entry = AudioPortsConfigConfig {
            id: info.id,
            name: info.name.clone(),
            input_port_count: info.input_port_count,
            output_port_count: info.output_port_count,
            main_input_channel_count: if info.has_main_input { Some(info.main_input_channel_count) } else { None },
            main_output_channel_count: if info.has_main_output { Some(info.main_output_channel_count) } else { None },
        };
        out.push(entry);
        i = i + 1;
    }
    Ok(out)
}

/// The channel map a plugin filled in through `clap_plugin_surround::get_channel_map()`: the
/// buffer it was handed, cut to the number of channels the plugin reported when that is fewer.
pub fn reported_channel_map(filled: Vec<u8>, reported: u32) -> (r: Vec<u8>)
    ensures
        reported <= filled@.len() ==> r@ == filled@.subrange(0, reported as int),
        reported > filled@.len() ==> r@ == filled@,
{
    let mut map = filled;
    map.truncate(reported as usize);
    map
}

} // verus!
