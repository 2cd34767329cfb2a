//! The layout of the audio buffers handed to a plugin's process call: which buffer serves which
//! input and output bus, how many channels it has, and which buses the plugin sees.
//!
//! The sample data itself is held by the caller; these functions decide its shape.

use vstd::prelude::*;
use crate::audio_ports::{AudioPort, AudioPortConfig};

verus! {

/// One audio buffer: the input bus and the output bus it serves (both for an in-place buffer),
/// its channel count, and whether it holds 64-bit samples.
#[derive(Clone, Copy, Debug, PartialEq, Eq, Structural)]
pub struct AudioBuffer {
    pub input: Option<usize>,
    pub output: Option<usize>,
    pub channels: u32,
    pub is_64bit: bool,
}

impl AudioBuffer {
    /// The index of the input bus this buffer serves.
    pub fn input(&self) -> (r: Option<usize>)
        ensures
            r == self.input,
    {
        self.input
    }

    /// The index of the output bus this buffer serves.
    pub fn output(&self) -> (r: Option<usize>)
        ensures
            r == self.output,
    {
        self.output
    }

    /// Whether this is a double precision buffer.
    pub fn is_64bit(&self) -> (r: bool)
        ensures
            r == self.is_64bit,
    {
        self.is_64bit
    }

    /// The number of channels.
    pub fn channels(&self) -> (r: u32)
        ensures
            r == self.channels,
    {
        self.channels
    }
}

/// A 32-bit buffer serving the given buses with `channels` channels.
pub open spec fn buffer_of(input: Option<usize>, output: Option<usize>, channels: u32) -> AudioBuffer {
    AudioBuffer { input, output, channels, is_64bit: false }
}

/// Out-of-place buffers: one per input bus, in order, then one per output bus, in order.
pub open spec fn out_of_place_spec(inputs: Seq<AudioPort>, outputs: Seq<AudioPort>) -> Seq<AudioBuffer> {
    Seq::new(inputs.len(), |k: int| buffer_of(Some(k as usize), None, inputs[k].num_channels)) + Seq::new(
        outputs.len(),
        |k: int| buffer_of(None, Some(k as usize), outputs[k].num_channels),
    )
}

/// Every in-place pair index names a port of the other list.
pub open spec fn pairs_in_range(config: &AudioPortConfig) -> bool {
    &&& forall|k: int|
        0 <= k < config.inputs@.len() ==> match (#[trigger] config.inputs@[k]).in_place_pair_idx {
            Some(o) => o < config.outputs@.len(),
            None => true,
        }
    &&& forall|k: int|
        0 <= k < config.outputs@.len() ==> match (#[trigger] config.outputs@[k]).in_place_pair_idx {
            Some(i) => i < config.inputs@.len(),
            None => true,
        }
}

/// The port's in-place pair, when it names a port of the other list with as many channels.
pub open spec fn usable_pair(port: AudioPort, other: Seq<AudioPort>) -> Option<usize> {
    match port.in_place_pair_idx {
        Some(o) => if other[o as int].num_channels == port.num_channels {
            Some(o)
        } else {
            None
        },
        None => None,
    }
}

/// The buffers for the first `n` inputs that are not processed in place.
pub open spec fn lone_inputs(inputs: Seq<AudioPort>, outputs: Seq<AudioPort>, n: int) -> Seq<AudioBuffer>
    decreases n,
{
    if n <= 0 {
        Seq::empty()
    } else {
        let before = lone_inputs(inputs, outputs, n - 1);
        if usable_pair(inputs[n - 1], outputs) is None {
            before.push(buffer_of(Some((n - 1) as usize), None, inputs[n - 1].num_channels))
        } else {
            before
        }
    }
}

/// In-place buffers: one per input bus without a usable in-place pair, in order, then one per
/// output bus, in order, which also serves the output's paired input when the pair is usable.
pub open spec fn in_place_spec(inputs: Seq<AudioPort>, outputs: Seq<AudioPort>) -> Seq<AudioBuffer> {
    lone_inputs(inputs, outputs, inputs.len() as int) + Seq::new(
        outputs.len(),
        |k: int| buffer_of(usable_pair(outputs[k], inputs), Some(k as usize), outputs[k].num_channels),
    )
}

/// The buffers for out-of-place processing of a port configuration.
pub fn out_of_place_layout(config: &AudioPortConfig) -> (r: Vec<AudioBuffer>)
    ensures
        r@ == out_of_place_spec(config.inputs@, config.outputs@),
{
    let mut r: Vec<AudioBuffer> = Vec::new();
    let mut k: usize = 0;
    while k < config.inputs.len()
        invariant
            k <= config.inputs@.len(),
            r@ == Seq::new(k as nat, |j: int| buffer_of(Some(j as usize), None, config.inputs@[j].num_channels)),
        decreases config.inputs@.len() - k,
    {
        r.push(AudioBuffer { input: Some(k), output: None, channels: config.inputs[k].num_channels, is_64bit: false });
        k = k + 1;
    }
    let ghost head = r@;
    let mut k: usize = 0;
    while k < config.outputs.len()
        invariant
            k <= config.outputs@.len(),
            head == Seq::new(config.inputs@.len(), |j: int| buffer_of(Some(j as usize), None, config.inputs@[j].num_channels)),
            r@ == head + Seq::new(k as nat, |j: int| buffer_of(None, Some(j as usize), config.outputs@[j].num_channels)),
        decreases config.outputs@.len() - k,
    {
        r.push(AudioBuffer { input: None, output: Some(k), channels: config.outputs[k].num_channels, is_64bit: false });
        k = k + 1;
    }
    r
}

/// The pair a port can be processed in place with, if its pair has as many channels.
fn usable_pair_of(port: &AudioPort, other: &Vec<AudioPort>) -> (r: Option<usize>)
    requires
        match port.in_place_pair_idx {
            Some(o) => o < other@.len(),
            None => true,
        },
    ensures
        r == usable_pair(*port, other@),
{
    match port.in_place_pair_idx {
        Some(o) => if other[o].num_channels == port.num_channels {
            Some(o)
        } else {
            None
        },
        None => None,
    }
}

/// The in-place buffers of a configuration whose pair indices are in range.
fn layout_from_pairs(config: &AudioPortConfig) -> (r: Vec<AudioBuffer>)
    requires
        pairs_in_range(config),
    ensures
        r@ == in_place_spec(config.inputs@, config.outputs@),
{
    let mut r: Vec<AudioBuffer> = Vec::new();
    let mut k: usize = 0;
    while k < config.inputs.len()
        invariant
            k <= config.inputs@.len(),
            pairs_in_range(config),
            r@ == lone_inputs(config.inputs@, config.outputs@, k as int),
        decreases config.inputs@.len() - k,
    {
        let port = &config.inputs[k];
        assert(config.inputs@[k as int] == *port);
        if usable_pair_of(port, &config.outputs).is_none() {
            r.push(AudioBuffer { input: Some(k), output: None, channels: port.num_channels, is_64bit: false });
        }
        k = k + 1;
    }
    let ghost head = r@;
    let mut k: usize = 0;
    while k < config.outputs.len()
        invariant
            k <= config.outputs@.len(),
            pairs_in_range(config),
            head == lone_inputs(config.inputs@, config.outputs@, config.inputs@.len() as int),
            r@ == head + Seq::new(
                k as nat,
                |j: int| buffer_of(usable_pair(config.outputs@[j], config.inputs@), Some(j as usize), config.outputs@[j].num_channels),
            ),
        decreases config.outputs@.len() - k,
    {
        let port = &config.outputs[k];
        assert(config.outputs@[k as int] == *port);
        let input = usable_pair_of(port, &config.inputs);
        r.push(AudioBuffer { input, output: Some(k), channels: port.num_channels, is_64bit: false });
        proof {
            let f = |j: int| buffer_of(usable_pair(config.outputs@[j], config.inputs@), Some(j as usize), config.outputs@[j].num_channels);
            assert(Seq::new(k as nat, f).push(f(k as int)) =~= Seq::new((k + 1) as nat, f));
        }
        k = k + 1;
    }
    proof {
        let f = |j: int| buffer_of(usable_pair(config.outputs@[j], config.inputs@), Some(j as usize), config.outputs@[j].num_channels);
        assert(Seq::new(config.outputs@.len(), f) =~= Seq::new(k as nat, f));
    }
    r
}

/// Input `k`'s in-place pair, if it has one, is an output that names input `k` back.
pub open spec fn input_pair_ok(config: &AudioPortConfig, k: int) -> bool {
    match config.inputs@[k].in_place_pair_idx {
        Some(o) => o < config.outputs@.len() && config.outputs@[o as int].in_place_pair_idx == Some(k as usize),
        None => true,
    }
}

/// Output `o`'s in-place pair, if it has one, is an input that names output `o` back.
pub open spec fn output_pair_ok(config: &AudioPortConfig, o: int) -> bool {
    match config.outputs@[o].in_place_pair_idx {
        Some(i) => i < config.inputs@.len() && config.inputs@[i as int].in_place_pair_idx == Some(o as usize),
        None => true,
    }
}

/// Every in-place pair names an existing port on the other side that names it back.
pub open spec fn pairs_consistent(config: &AudioPortConfig) -> bool {
    &&& forall|k: int| 0 <= k < config.inputs@.len() ==> #[trigger] input_pair_ok(config, k)
    &&& forall|o: int| 0 <= o < config.outputs@.len() ==> #[trigger] output_pair_ok(config, o)
}

/// Why a configuration's ports cannot be processed in place.
#[derive(Debug, Clone, Copy, PartialEq, Eq, Structural)]
pub enum InPlacePairError {
    /// Input `input` names output `pair` as its in-place pair, but there is no such output or it
    /// does not name the input back.
    Input { input: usize, pair: usize },
    /// Output `output` names input `pair` as its in-place pair, but there is no such input or it
    /// does not name the output back.
    Output { output: usize, pair: usize },
}

proof fn lemma_consistent_in_range(config: &AudioPortConfig)
    requires
        pairs_consistent(config),
    ensures
        pairs_in_range(config),
{
    assert forall|k: int| 0 <= k < config.inputs@.len() implies match (#[trigger] config.inputs@[k]).in_place_pair_idx {
        Some(o) => o < config.outputs@.len(),
        None => true,
    } by {
        assert(input_pair_ok(config, k));
    }
    assert forall|k: int| 0 <= k < config.outputs@.len() implies match (#[trigger] config.outputs@[k]).in_place_pair_idx {
        Some(i) => i < config.inputs@.len(),
        None => true,
    } by {
        assert(output_pair_ok(config, k));
    }
}

/// The buffers for in-place processing of a port configuration: ports paired with each other
/// that have as many channels share one buffer. The pairs must be consistent; otherwise the first
/// inconsistent input, or when every input is consistent the first inconsistent output, is
/// reported.
pub fn in_place_layout(config: &AudioPortConfig) -> (r: Result<Vec<AudioBuffer>, InPlacePairError>)
    ensures
        r is Ok <==> pairs_consistent(config),
        r matches Ok(v) ==> v@ == in_place_spec(config.inputs@, config.outputs@),
        r matches Err(InPlacePairError::Input { input, pair }) ==> {
            &&& input < config.inputs@.len()
            &&& config.inputs@[input as int].in_place_pair_idx == Some(pair)
            &&& !input_pair_ok(config, input as int)
            &&& forall|k: int| 0 <= k < input ==> #[trigger] input_pair_ok(config, k)
        },
        r matches Err(InPlacePairError::Output { output, pair }) ==> {
            &&& forall|k: int| 0 <= k < config.inputs@.len() ==> #[trigger] input_pair_ok(config, k)
            &&& output < config.outputs@.len()
            &&& config.outputs@[output as int].in_place_pair_idx == Some(pair)
            &&& !output_pair_ok(config, output as int)
            &&& forall|o: int| 0 <= o < output ==> #[trigger] output_pair_ok(config, o)
        },
{
    let mut k: usize = 0;
    while k < config.inputs.len()
        invariant
            k <= config.inputs@.len(),
            forall|j: int| 0 <= j < k ==> #[trigger] input_pair_ok(config, j),
        decreases config.inputs@.len() - k,
    {
        if let Some(o) = config.inputs[k].in_place_pair_idx {
            let back = o < config.outputs.len() && config.outputs[o].in_place_pair_idx == Some(k);
            if !back {
                assert(!input_pair_ok(config, k as int));
                return Err(InPlacePairError::Input { input: k, pair: o });
            }
        }
        k = k + 1;
    }
    let mut o: usize = 0;
    while o < config.outputs.len()
        invariant
            o <= config.outputs@.len(),
            forall|j: int| 0 <= j < config.inputs@.len() ==> #[trigger] input_pair_ok(config, j),
            forall|j: int| 0 <= j < o ==> #[trigger] output_pair_ok(config, j),
        decreases config.outputs@.len() - o,
    {
        if let Some(i) = config.outputs[o].in_place_pair_idx {
            let back = i < config.inputs.len() && config.inputs[i].in_place_pair_idx == Some(o);
            if !back {
                assert(!output_pair_ok(config, o as int));
                return Err(InPlacePairError::Output { output: o, pair: i });
            }
        }
        o = o + 1;
    }
    proof {
        lemma_consistent_in_range(config);
    }
    Ok(layout_from_pairs(config))
}

proof fn lemma_lone_inputs_shape(inputs: Seq<AudioPort>, outputs: Seq<AudioPort>, n: int)
    requires
        0 <= n <= inputs.len(),
        inputs.len() <= usize::MAX,
    ensures
        ({
            let lone = lone_inputs(inputs, outputs, n);
            &&& forall|k: int|
                0 <= k < lone.len() ==> {
                    &&& (#[trigger] lone[k]).output is None
                    &&& lone[k].input is Some
                    &&& lone[k].input->0 < n
                    &&& usable_pair(inputs[lone[k].input->0 as int], outputs) is None
                }
            &&& forall|k1: int, k2: int|
                0 <= k1 < lone.len() && 0 <= k2 < lone.len() && #[trigger] lone[k1].input == #[trigger] lone[k2].input
                    ==> k1 == k2
            &&& forall|m: int|
                0 <= m < n && usable_pair(#[trigger] inputs[m], outputs) is None ==> exists|k: int|
                    0 <= k < lone.len() && lone[k].input == Some(m as usize)
        }),
    decreases n,
{
    if n > 0 {
        lemma_lone_inputs_shape(inputs, outputs, n - 1);
        let before = lone_inputs(inputs, outputs, n - 1);
        let lone = lone_inputs(inputs, outputs, n);
        if usable_pair(inputs[n - 1], outputs) is None {
            assert(lone == before.push(buffer_of(Some((n - 1) as usize), None, inputs[n - 1].num_channels)));
            assert forall|m: int| 0 <= m < n && usable_pair(#[trigger] inputs[m], outputs) is None implies exists|k: int|
                0 <= k < lone.len() && lone[k].input == Some(m as usize) by {
                if m == n - 1 {
                    assert(lone[before.len() as int].input == Some(m as usize));
                } else {
                    let k = choose|k: int| 0 <= k < before.len() && before[k].input == Some(m as usize);
                    assert(lone[k] == before[k]);
                }
            }
            assert forall|k1: int, k2: int|
                0 <= k1 < lone.len() && 0 <= k2 < lone.len() && #[trigger] lone[k1].input == #[trigger] lone[k2].input
                implies k1 == k2 by {
                if k1 < before.len() && k2 < before.len() {
                    assert(lone[k1] == before[k1] && lone[k2] == before[k2]);
                } else if k1 < before.len() {
                    assert(lone[k1] == before[k1]);
                } else if k2 < before.len() {
                    assert(lone[k2] == before[k2]);
                }
            }
        }
    }
}

/// `layout` holds exactly one buffer that serves bus `b` (an input bus when `inputs` is true,
/// an output bus otherwise).
pub open spec fn served_once(layout: Seq<AudioBuffer>, inputs: bool, b: int) -> bool {
    exists|k: int|
        0 <= k < layout.len() && bus_of(layout[k], inputs) == Some(b as usize) && forall|j: int|
            0 <= j < layout.len() && j != k ==> bus_of(#[trigger] layout[j], inputs) != Some(b as usize)
}

/// Law: when the in-place pairs of a configuration are consistent, its in-place layout holds
/// exactly one buffer for each input port and exactly one for each output port.
pub proof fn law_in_place_layout_serves_each_port_once(config: &AudioPortConfig)
    requires
        pairs_consistent(config),
    ensures
        forall|i: int|
            0 <= i < config.inputs@.len() ==> #[trigger] served_once(in_place_spec(config.inputs@, config.outputs@), true, i),
        forall|o: int|
            0 <= o < config.outputs@.len() ==> #[trigger] served_once(in_place_spec(config.inputs@, config.outputs@), false, o),
{
    let ins = config.inputs@;
    let outs = config.outputs@;
    assert(ins.len() == config.inputs.len());
    assert(outs.len() == config.outputs.len());
    lemma_lone_inputs_shape(ins, outs, ins.len() as int);
    let lone = lone_inputs(ins, outs, ins.len() as int);
    let layout = in_place_spec(ins, outs);
    let n = lone.len();
    assert forall|j: int| 0 <= j < outs.len() implies #[trigger] layout[n + j] == buffer_of(
        usable_pair(outs[j], ins),
        Some(j as usize),
        outs[j].num_channels,
    ) by {}
    assert forall|i: int| 0 <= i < ins.len() implies #[trigger] served_once(layout, true, i) by {
        assert(input_pair_ok(config, i));
        match usable_pair(ins[i], outs) {
            None => {
                let k = choose|k: int| 0 <= k < lone.len() && lone[k].input == Some(i as usize);
                assert(layout[k] == lone[k]);
                assert forall|j: int| 0 <= j < layout.len() && j != k implies bus_of(#[trigger] layout[j], true) != Some(
                    i as usize,
                ) by {
                    if j < n {
                        assert(layout[j] == lone[j]);
                    } else {
                        let q = j - n;
                        assert(layout[n + q] == layout[j]);
                        assert(output_pair_ok(config, q));
                    }
                }
            },
            Some(o) => {
                assert(output_pair_ok(config, o as int));
                assert(layout[n + o as int].input == Some(i as usize));
                assert forall|j: int| 0 <= j < layout.len() && j != n + o implies bus_of(#[trigger] layout[j], true)
                    != Some(i as usize) by {
                    if j < n {
                        assert(layout[j] == lone[j]);
                    } else {
                        let q = j - n;
                        assert(layout[n + q] == layout[j]);
                        assert(output_pair_ok(config, q));
                    }
                }
            },
        }
    }
    assert forall|o: int| 0 <= o < outs.len() implies #[trigger] served_once(layout, false, o) by {
        assert(layout[n + o].output == Some(o as usize));
        assert forall|j: int| 0 <= j < layout.len() && j != n + o implies bus_of(#[trigger] layout[j], false) != Some(
            o as usize,
        ) by {
            if j < n {
                assert(layout[j] == lone[j]);
            } else {
                assert(layout[n + (j - n)] == layout[j]);
            }
        }
    }
}

/// The input bus (or, when `inputs` is false, the output bus) a buffer serves.
pub open spec fn bus_of(buf: AudioBuffer, inputs: bool) -> Option<usize> {
    if inputs {
        buf.input
    } else {
        buf.output
    }
}

/// The number of buses the buffers make up: one more than the highest bus index a buffer serves,
/// or none when no buffer serves a bus.
pub open spec fn bus_count(layout: Seq<AudioBuffer>, inputs: bool) -> nat
    decreases layout.len(),
{
    if layout.len() == 0 {
        0
    } else {
        let before = bus_count(layout.drop_last(), inputs);
        match bus_of(layout.last(), inputs) {
            Some(i) => if i + 1 > before {
                (i + 1) as nat
            } else {
                before
            },
            None => before,
        }
    }
}

/// The index of the last of the first `n` buffers that serves bus `b`.
pub open spec fn last_server(layout: Seq<AudioBuffer>, inputs: bool, b: int, n: int) -> Option<int>
    decreases n,
{
    if n <= 0 {
        None
    } else if bus_of(layout[n - 1], inputs) is Some && bus_of(layout[n - 1], inputs)->0 == b {
        Some(n - 1)
    } else {
        last_server(layout, inputs, b, n - 1)
    }
}

/// Every bus below the highest one a buffer serves is served by some buffer.
pub open spec fn buses_complete_spec(layout: Seq<AudioBuffer>, inputs: bool) -> bool {
    forall|b: int|
        0 <= b < bus_count(layout, inputs) ==> #[trigger] last_server(layout, inputs, b, layout.len() as int) is Some
}

/// No buffer serves the highest bus index, so one past it can be counted.
pub open spec fn bus_indices_bounded(layout: Seq<AudioBuffer>, inputs: bool) -> bool {
    forall|k: int| 0 <= k < layout.len() ==> match bus_of(#[trigger] layout[k], inputs) {
        Some(i) => i < usize::MAX,
        None => true,
    }
}

/// The channel count of each bus, or `None` when some bus below the highest index is served by
/// no buffer.
fn bus_slots(layout: &Vec<AudioBuffer>, inputs: bool) -> (r: Option<Vec<u32>>)
    requires
        bus_indices_bounded(layout@, inputs),
    ensures
        r is Some <==> buses_complete_spec(layout@, inputs),
        r matches Some(v) ==> {
            &&& v@.len() == bus_count(layout@, inputs)
            &&& forall|b: int|
                0 <= b < v@.len() ==> #[trigger] v@[b] == layout@[last_server(layout@, inputs, b, layout@.len() as int)->0].channels
        },
{
    let mut slots: Vec<Option<u32>> = Vec::new();
    let mut n: usize = 0;
    while n < layout.len()
        invariant
            n <= layout@.len(),
            forall|k: int| 0 <= k < layout@.len() ==> match bus_of(#[trigger] layout@[k], inputs) {
                Some(i) => i < usize::MAX,
                None => true,
            },
            slots@.len() == bus_count(layout@.subrange(0, n as int), inputs),
            forall|b: int| 0 <= b < slots@.len() ==> #[trigger] slots@[b] == match last_server(layout@, inputs, b, n as int) {
                Some(k) => Some(layout@[k].channels),
                None => None,
            },
            forall|b: int| b >= slots@.len() ==> #[trigger] last_server(layout@, inputs, b, n as int) is None,
        decreases layout@.len() - n,
    {
        let buf = layout[n];
        let bus = if inputs { buf.input } else { buf.output };
        proof {
            assert(layout@.subrange(0, n + 1).drop_last() =~= layout@.subrange(0, n as int));
            assert(layout@.subrange(0, n + 1).last() == layout@[n as int]);
        }
        match bus {
            Some(i) => {
                let ghost old_len = slots@.len();
                while slots.len() <= i
                    invariant
                        i < usize::MAX,
                        slots@.len() >= old_len,
                        old_len > i ==> slots@.len() == old_len,
                        slots@.len() == old_len || slots@.len() <= i + 1,
                        forall|b: int| 0 <= b < slots@.len() ==> #[trigger] slots@[b] == match last_server(layout@, inputs, b, n as int) {
                            Some(k) => Some(layout@[k].channels),
                            None => None,
                        },
                        forall|b: int| b >= slots@.len() ==> #[trigger] last_server(layout@, inputs, b, n as int) is None,
                    decreases i + 1 - slots@.len(),
                {
                    slots.push(None);
                }
                slots.set(i, Some(buf.channels));
            },
            None => {},
        }
        proof {
            assert forall|b: int| b >= slots@.len() implies #[trigger] last_server(layout@, inputs, b, n + 1) is None by {
                assert(last_server(layout@, inputs, b, n as int) is None);
            }
        }
        n = n + 1;
    }
    proof {
        assert(layout@.subrange(0, layout@.len() as int) =~= layout@);
    }
    let mut counts: Vec<u32> = Vec::new();
    let mut b: usize = 0;
    while b < slots.len()
        invariant
            b <= slots@.len(),
            slots@.len() == bus_count(layout@, inputs),
            forall|c: int| 0 <= c < slots@.len() ==> #[trigger] slots@[c] == match last_server(layout@, inputs, c, layout@.len() as int) {
                Some(k) => Some(layout@[k].channels),
                None => None,
            },
            counts@.len() == b,
            forall|c: int| 0 <= c < b ==> #[trigger] last_server(layout@, inputs, c, layout@.len() as int) is Some,
            forall|c: int| 0 <= c < b ==> #[trigger] counts@[c] == layout@[last_server(layout@, inputs, c, layout@.len() as int)->0].channels,
        decreases slots@.len() - b,
    {
        match slots[b] {
            Some(c) => {
                let ghost k = last_server(layout@, inputs, b as int, layout@.len() as int);
                assert(slots@[b as int] == Some(c));
                assert(k is Some && c == layout@[k->0].channels);
                let ghost before = counts@;
                counts.push(c);
                assert forall|j: int| 0 <= j < b + 1 implies #[trigger] counts@[j] == layout@[last_server(layout@, inputs, j, layout@.len() as int)->0].channels by {
                    if j < b {
                        assert(counts@[j] == before[j]);
                    }
                }
            },
            None => {
                assert(last_server(layout@, inputs, b as int, layout@.len() as int) is None);
                return None;
            },
        }
        b = b + 1;
    }
    assert forall|c: int| 0 <= c < bus_count(layout@, inputs) implies #[trigger] last_server(
        layout@,
        inputs,
        c,
        layout@.len() as int,
    ) is Some by {
    }
    Some(counts)
}

/// Whether every bus below the highest one a buffer serves is served by some buffer, as the
/// channel counts of the buses need.
pub fn buses_complete(layout: &Vec<AudioBuffer>, inputs: bool) -> (r: bool)
    requires
        bus_indices_bounded(layout@, inputs),
    ensures
        r == buses_complete_spec(layout@, inputs),
{
    bus_slots(layout, inputs).is_some()
}

/// The channel counts the plugin sees for each bus: the buses are numbered from zero up to the
/// highest index a buffer serves, and each bus takes the channel count of the last buffer that
/// serves it. Every bus below the highest index must be served by some buffer (see
/// [`buses_complete`]); a gap is a broken layout.
pub fn bus_channel_counts(layout: &Vec<AudioBuffer>, inputs: bool) -> (r: Vec<u32>)
    requires
        bus_indices_bounded(layout@, inputs),
        buses_complete_spec(layout@, inputs),
    ensures
        r@.len() == bus_count(layout@, inputs),
        forall|b: int|
            0 <= b < r@.len() ==> #[trigger] r@[b] == layout@[last_server(layout@, inputs, b, layout@.len() as int)->0].channels,
{
    bus_slots(layout, inputs).unwrap()
}

/// The constant mask of an input bus whose every channel is silent: the bit of each channel is
/// set, for up to 64 channels.
pub fn silent_input_mask(channel_count: u32) -> (r: u64)
    ensures
        forall|i: u64| #![trigger (r >> i)] i < 64 ==> (((r >> i) & 1u64) == 1u64 <==> i < channel_count),
{
    if channel_count >= 64 {
        let r: u64 = 0xFFFF_FFFF_FFFF_FFFFu64;
        assert(forall|i: u64| #![trigger (r >> i)] i < 64 ==> ((r >> i) & 1u64) == 1u64) by (bit_vector)
            requires
                r == 0xFFFF_FFFF_FFFF_FFFFu64,
        ;
        r
    } else {
        let c: u64 = channel_count as u64;
        assert((1u64 << c) >= 1u64) by (bit_vector)
            requires
                c < 64,
        ;
        let r: u64 = (1u64 << c) - 1;
        assert(forall|i: u64| #![trigger (r >> i)] i < 64 ==> (((r >> i) & 1u64) == 1u64 <==> i < c)) by (bit_vector)
            requires
                c < 64,
                r == ((1u64 << c) - 1) as u64,
        ;
        r
    }
}

/// Whether a buffer holds 64-bit samples when double precision is asked for: every bus it serves
/// must support 64-bit samples.
pub open spec fn double_precision(buf: AudioBuffer, inputs: Seq<AudioPort>, outputs: Seq<AudioPort>, is_double: bool) -> bool {
    &&& is_double
    &&& match buf.input {
        Some(i) => inputs[i as int].supports_double_sample_size,
        None => true,
    }
    &&& match buf.output {
        Some(o) => outputs[o as int].supports_double_sample_size,
        None => true,
    }
}

/// Every bus a buffer serves is a port of the configuration.
pub open spec fn buses_in_range(layout: Seq<AudioBuffer>, config: &AudioPortConfig) -> bool {
    forall|k: int|
        0 <= k < layout.len() ==> {
            &&& (#[trigger] layout[k]).input matches Some(i) ==> i < config.inputs@.len()
            &&& layout[k].output matches Some(o) ==> o < config.outputs@.len()
        }
}

/// The layout with the sample size of each buffer chosen: 64-bit where double precision is asked
/// for and every bus the buffer serves supports it, 32-bit otherwise.
pub fn with_precision(layout: Vec<AudioBuffer>, config: &AudioPortConfig, is_double: bool) -> (r: Vec<AudioBuffer>)
    requires
        buses_in_range(layout@, config),
    ensures
        r@.len() == layout@.len(),
        forall|k: int|
            0 <= k < layout@.len() ==> #[trigger] r@[k] == (AudioBuffer {
                is_64bit: double_precision(layout@[k], config.inputs@, config.outputs@, is_double),
                ..layout@[k]
            }),
{
    let mut r: Vec<AudioBuffer> = Vec::new();
    let mut k: usize = 0;
    while k < layout.len()
        invariant
            k <= layout@.len(),
            buses_in_range(layout@, config),
            r@.len() == k,
            forall|j: int|
                0 <= j < k ==> #[trigger] r@[j] == (AudioBuffer {
                    is_64bit: double_precision(layout@[j], config.inputs@, config.outputs@, is_double),
                    ..layout@[j]
                }),
        decreases layout@.len() - k,
    {
        let buf = layout[k];
        assert(buf == layout@[k as int]);
        let input_ok = match buf.input {
            Some(i) => config.inputs[i].supports_double_sample_size,
            None => true,
        };
        let output_ok = match buf.output {
            Some(o) => config.outputs[o].supports_double_sample_size,
            None => true,
        };
        r.push(AudioBuffer { is_64bit: is_double && input_ok && output_ok, ..buf });
        k = k + 1;
    }
    r
}

proof fn lemma_lone_inputs_in_range(config: &AudioPortConfig, n: int)
    requires
        0 <= n <= config.inputs@.len(),
    ensures
        buses_in_range(lone_inputs(config.inputs@, config.outputs@, n), config),
    decreases n,
{
    if n > 0 {
        lemma_lone_inputs_in_range(config, n - 1);
    }
}

/// Law: every buffer of the out-of-place and of the in-place layout of a configuration serves only
/// ports of that configuration, so either layout can be given its sample sizes.
pub proof fn law_layouts_serve_configured_buses(config: &AudioPortConfig)
    requires
        pairs_in_range(config),
    ensures
        buses_in_range(out_of_place_spec(config.inputs@, config.outputs@), config),
        buses_in_range(in_place_spec(config.inputs@, config.outputs@), config),
{
    lemma_lone_inputs_in_range(config, config.inputs@.len() as int);
    let lone = lone_inputs(config.inputs@, config.outputs@, config.inputs@.len() as int);
    let layout = in_place_spec(config.inputs@, config.outputs@);
    assert forall|k: int| 0 <= k < layout.len() implies {
        &&& (#[trigger] layout[k]).input matches Some(i) ==> i < config.inputs@.len()
        &&& layout[k].output matches Some(o) ==> o < config.outputs@.len()
    } by {
        if k < lone.len() {
            assert(layout[k] == lone[k]);
        } else {
            let j = k - lone.len();
            let port = config.outputs@[j];
            assert(pairs_in_range(config));
            assert(layout[k] == buffer_of(usable_pair(port, config.inputs@), Some(j as usize), port.num_channels));
        }
    }
}

} // verus!
