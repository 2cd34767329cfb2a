//! The checks after a process call: the plugin must not have written to buffers that only serve
//! an input, every sample of the block in an output buffer must be a finite, normal number that
//! the plugin wrote, and its output events must be in order.
//!
//! Samples are handled as their IEEE 754 bit patterns, so that the checks on them are exact.

use vstd::prelude::*;
use vstd::string::*;
use crate::listing::{decimal, decimal_spec};
use crate::buffers::AudioBuffer;
use crate::events::{QueuedEvent, OutputEventError, check_output_events, event_error_at};

verus! {

/// The bit pattern output samples are filled with before a process call, to tell which samples
/// the plugin left unwritten: a quiet NaN with a payload that normal processing does not produce.
pub const CHECK_NAN_F32: u32 = 0x7FC0_1234u32;
/// The 64-bit counterpart of [`CHECK_NAN_F32`].
pub const CHECK_NAN_F64: u64 = 0x7FF8_1234_5678_1234u64;

/// The samples of a buffer as bit patterns, per channel: single or double precision.
#[derive(Debug, Clone)]
pub enum SampleData {
    F32(Vec<Vec<u32>>),
    F64(Vec<Vec<u64>>),
}

/// The exponent of a single precision number is all ones: an infinity or a NaN.
pub open spec fn f32_not_finite(b: u32) -> bool {
    (b >> 23u32) & 0xFFu32 == 0xFFu32
}

/// A single precision number is subnormal: a zero exponent with a nonzero mantissa.
pub open spec fn f32_subnormal(b: u32) -> bool {
    (b >> 23u32) & 0xFFu32 == 0u32 && b & 0x7F_FFFFu32 != 0u32
}

/// A single precision number is a NaN.
pub open spec fn f32_nan(b: u32) -> bool {
    f32_not_finite(b) && b & 0x7F_FFFFu32 != 0u32
}

/// Two single precision numbers compare equal: neither is a NaN, and they are the same number or
/// both zeros.
pub open spec fn f32_eq(a: u32, b: u32) -> bool {
    !f32_nan(a) && !f32_nan(b) && (a == b || (a & 0x7FFF_FFFFu32 == 0u32 && b & 0x7FFF_FFFFu32 == 0u32))
}

/// The exponent of a double precision number is all ones.
pub open spec fn f64_not_finite(b: u64) -> bool {
    (b >> 52u64) & 0x7FFu64 == 0x7FFu64
}

/// A double precision number is subnormal.
pub open spec fn f64_subnormal(b: u64) -> bool {
    (b >> 52u64) & 0x7FFu64 == 0u64 && b & 0xF_FFFF_FFFF_FFFFu64 != 0u64
}

/// A double precision number is a NaN.
pub open spec fn f64_nan(b: u64) -> bool {
    f64_not_finite(b) && b & 0xF_FFFF_FFFF_FFFFu64 != 0u64
}

/// Two double precision numbers compare equal.
pub open spec fn f64_eq(a: u64, b: u64) -> bool {
    !f64_nan(a) && !f64_nan(b) && (a == b || (a & 0x7FFF_FFFF_FFFF_FFFFu64 == 0u64 && b & 0x7FFF_FFFF_FFFF_FFFFu64
        == 0u64))
}

fn f32_bits_eq(a: u32, b: u32) -> (r: bool)
    ensures
        r == f32_eq(a, b),
{
    let a_nan = (a >> 23u32) & 0xFFu32 == 0xFFu32 && a & 0x7F_FFFFu32 != 0u32;
    let b_nan = (b >> 23u32) & 0xFFu32 == 0xFFu32 && b & 0x7F_FFFFu32 != 0u32;
    !a_nan && !b_nan && (a == b || (a & 0x7FFF_FFFFu32 == 0u32 && b & 0x7FFF_FFFFu32 == 0u32))
}

fn f64_bits_eq(a: u64, b: u64) -> (r: bool)
    ensures
        r == f64_eq(a, b),
{
    let a_nan = (a >> 52u64) & 0x7FFu64 == 0x7FFu64 && a & 0xF_FFFF_FFFF_FFFFu64 != 0u64;
    let b_nan = (b >> 52u64) & 0x7FFu64 == 0x7FFu64 && b & 0xF_FFFF_FFFF_FFFFu64 != 0u64;
    !a_nan && !b_nan && (a == b || (a & 0x7FFF_FFFF_FFFF_FFFFu64 == 0u64 && b & 0x7FFF_FFFF_FFFF_FFFFu64 == 0u64))
}

/// Two channels hold the same samples: as many, and pairwise equal as numbers.
pub open spec fn channels_eq32(a: Seq<u32>, b: Seq<u32>) -> bool {
    a.len() == b.len() && forall|i: int| 0 <= i < a.len() ==> f32_eq(#[trigger] a[i], b[i])
}

/// Two channels hold the same samples: as many, and pairwise equal as numbers.
pub open spec fn channels_eq64(a: Seq<u64>, b: Seq<u64>) -> bool {
    a.len() == b.len() && forall|i: int| 0 <= i < a.len() ==> f64_eq(#[trigger] a[i], b[i])
}

/// Two buffers hold the same samples: the same precision, as many channels, and equal channels.
pub open spec fn same_samples(a: SampleData, b: SampleData) -> bool {
    match (a, b) {
        (SampleData::F32(x), SampleData::F32(y)) => x@.len() == y@.len() && forall|c: int|
            0 <= c < x@.len() ==> channels_eq32(#[trigger] x@[c]@, y@[c]@),
        (SampleData::F64(x), SampleData::F64(y)) => x@.len() == y@.len() && forall|c: int|
            0 <= c < x@.len() ==> channels_eq64(#[trigger] x@[c]@, y@[c]@),
        _ => false,
    }
}

fn channel_eq32(a: &Vec<u32>, b: &Vec<u32>) -> (r: bool)
    ensures
        r == channels_eq32(a@, b@),
{
    if a.len() != b.len() {
        return false;
    }
    let mut i: usize = 0;
    while i < a.len()
        invariant
            i <= a@.len(),
            a@.len() == b@.len(),
            forall|j: int| 0 <= j < i ==> f32_eq(#[trigger] a@[j], b@[j]),
        decreases a@.len() - i,
    {
        if !f32_bits_eq(a[i], b[i]) {
            return false;
        }
        i = i + 1;
    }
    true
}

fn channel_eq64(a: &Vec<u64>, b: &Vec<u64>) -> (r: bool)
    ensures
        r == channels_eq64(a@, b@),
{
    if a.len() != b.len() {
        return false;
    }
    let mut i: usize = 0;
    while i < a.len()
        invariant
            i <= a@.len(),
            a@.len() == b@.len(),
            forall|j: int| 0 <= j < i ==> f64_eq(#[trigger] a@[j], b@[j]),
        decreases a@.len() - i,
    {
        if !f64_bits_eq(a[i], b[i]) {
            return false;
        }
        i = i + 1;
    }
    true
}

/// Whether two buffers hold the same samples, compared as numbers.
pub fn is_same(a: &SampleData, b: &SampleData) -> (r: bool)
    ensures
        r == same_samples(*a, *b),
{
    match (a, b) {
        (SampleData::F32(x), SampleData::F32(y)) => {
            if x.len() != y.len() {
                return false;
            }
            let mut c: usize = 0;
            while c < x.len()
                invariant
                    c <= x@.len(),
                    x@.len() == y@.len(),
                    same_samples(*a, *b) == (forall|k: int| 0 <= k < x@.len() ==> channels_eq32(#[trigger] x@[k]@, y@[k]@)),
                    forall|k: int| 0 <= k < c ==> channels_eq32(#[trigger] x@[k]@, y@[k]@),
                decreases x@.len() - c,
            {
                if !channel_eq32(&x[c], &y[c]) {
                    return false;
                }
                c = c + 1;
            }
            true
        },
        (SampleData::F64(x), SampleData::F64(y)) => {
            if x.len() != y.len() {
                return false;
            }
            let mut c: usize = 0;
            while c < x.len()
                invariant
                    c <= x@.len(),
                    x@.len() == y@.len(),
                    same_samples(*a, *b) == (forall|k: int| 0 <= k < x@.len() ==> channels_eq64(#[trigger] x@[k]@, y@[k]@)),
                    forall|k: int| 0 <= k < c ==> channels_eq64(#[trigger] x@[k]@, y@[k]@),
                decreases x@.len() - c,
            {
                if !channel_eq64(&x[c], &y[c]) {
                    return false;
                }
                c = c + 1;
            }
            true
        },
        _ => false,
    }
}

/// What is wrong with an output sample.
#[derive(Debug, Clone, Copy, PartialEq, Eq, Structural)]
pub enum SampleProblem {
    /// The sample is a subnormal number.
    Subnormal,
    /// The sample still holds the pattern the buffer was filled with: the plugin did not write it.
    Unwritten,
    /// The sample is an infinity or a NaN the plugin wrote.
    NotFinite,
}

/// What is wrong with the sample at `channel`, `sample`, if anything.
pub open spec fn sample_problem(data: SampleData, channel: int, sample: int) -> Option<SampleProblem> {
    match data {
        SampleData::F32(x) => {
            let b = x@[channel]@[sample];
            if f32_subnormal(b) {
                Some(SampleProblem::Subnormal)
            } else if !f32_not_finite(b) {
                None
            } else if b == CHECK_NAN_F32 {
                Some(SampleProblem::Unwritten)
            } else {
                Some(SampleProblem::NotFinite)
            }
        },
        SampleData::F64(x) => {
            let b = x@[channel]@[sample];
            if f64_subnormal(b) {
                Some(SampleProblem::Subnormal)
            } else if !f64_not_finite(b) {
                None
            } else if b == CHECK_NAN_F64 {
                Some(SampleProblem::Unwritten)
            } else {
                Some(SampleProblem::NotFinite)
            }
        },
    }
}

/// Law: an output sample is a problem exactly when its bits are not those of a finite, normal
/// number (or a zero): an infinity or a NaN is reported, as unwritten when it is the pattern the
/// buffer was filled with and as not finite otherwise; a subnormal is reported as subnormal;
/// every other sample passes.
pub proof fn law_sample_problems_follow_the_bits(data: SampleData, c: int, s: int)
    ensures
        data matches SampleData::F64(x) ==> {
            let b = x@[c]@[s];
            &&& (sample_problem(data, c, s) is None <==> (!f64_not_finite(b) && !f64_subnormal(b)))
            &&& (f64_subnormal(b) ==> sample_problem(data, c, s) == Some(SampleProblem::Subnormal))
            &&& (f64_not_finite(b) && b != CHECK_NAN_F64 ==> sample_problem(data, c, s) == Some(
                SampleProblem::NotFinite,
            ))
            &&& (b == CHECK_NAN_F64 ==> sample_problem(data, c, s) == Some(SampleProblem::Unwritten))
        },
        data matches SampleData::F32(x) ==> {
            let b = x@[c]@[s];
            &&& (sample_problem(data, c, s) is None <==> (!f32_not_finite(b) && !f32_subnormal(b)))
            &&& (f32_subnormal(b) ==> sample_problem(data, c, s) == Some(SampleProblem::Subnormal))
            &&& (f32_not_finite(b) && b != CHECK_NAN_F32 ==> sample_problem(data, c, s) == Some(
                SampleProblem::NotFinite,
            ))
            &&& (b == CHECK_NAN_F32 ==> sample_problem(data, c, s) == Some(SampleProblem::Unwritten))
        },
{
    assert(f64_not_finite(CHECK_NAN_F64) && !f64_subnormal(CHECK_NAN_F64)) by (bit_vector);
    assert(f32_not_finite(CHECK_NAN_F32) && !f32_subnormal(CHECK_NAN_F32)) by (bit_vector);
    assert(forall|b: u64| !(#[trigger] f64_not_finite(b) && f64_subnormal(b))) by (bit_vector);
    assert(forall|b: u32| !(#[trigger] f32_not_finite(b) && f32_subnormal(b))) by (bit_vector);
}

/// The number of channels.
pub open spec fn channel_count(data: SampleData) -> int {
    match data {
        SampleData::F32(x) => x@.len() as int,
        SampleData::F64(x) => x@.len() as int,
    }
}

/// Every channel holds at least `block_size` samples.
pub open spec fn covers_block(data: SampleData, block_size: u32) -> bool {
    match data {
        SampleData::F32(x) => forall|c: int| 0 <= c < x@.len() ==> (#[trigger] x@[c])@.len() >= block_size,
        SampleData::F64(x) => forall|c: int| 0 <= c < x@.len() ==> (#[trigger] x@[c])@.len() >= block_size,
    }
}

/// The position `(c, s)` comes before `(c2, s2)`, channel by channel.
pub open spec fn before(c: int, s: int, c2: int, s2: int) -> bool {
    c < c2 || (c == c2 && s < s2)
}

fn problem_at(data: &SampleData, channel: usize, sample: usize) -> (r: Option<SampleProblem>)
    requires
        channel < channel_count(*data),
        match *data {
            SampleData::F32(x) => sample < x@[channel as int]@.len(),
            SampleData::F64(x) => sample < x@[channel as int]@.len(),
        },
    ensures
        r == sample_problem(*data, channel as int, sample as int),
{
    match data {
        SampleData::F32(x) => {
            let b = x[channel][sample];
            if (b >> 23u32) & 0xFFu32 == 0u32 && b & 0x7F_FFFFu32 != 0u32 {
                Some(SampleProblem::Subnormal)
            } else if (b >> 23u32) & 0xFFu32 != 0xFFu32 {
                None
            } else if b == CHECK_NAN_F32 {
                Some(SampleProblem::Unwritten)
            } else {
                Some(SampleProblem::NotFinite)
            }
        },
        SampleData::F64(x) => {
            let b = x[channel][sample];
            if (b >> 52u64) & 0x7FFu64 == 0u64 && b & 0xF_FFFF_FFFF_FFFFu64 != 0u64 {
                Some(SampleProblem::Subnormal)
            } else if (b >> 52u64) & 0x7FFu64 != 0x7FFu64 {
                None
            } else if b == CHECK_NAN_F64 {
                Some(SampleProblem::Unwritten)
            } else {
                Some(SampleProblem::NotFinite)
            }
        },
    }
}

fn channels_of(data: &SampleData) -> (r: usize)
    ensures
        r == channel_count(*data),
{
    match data {
        SampleData::F32(x) => x.len(),
        SampleData::F64(x) => x.len(),
    }
}

/// The first sample of the block, channel by channel, that is not a finite, normal number the
/// plugin wrote, with what is wrong with it.
pub fn first_bad_sample(data: &SampleData, block_size: u32) -> (r: Option<(usize, usize, SampleProblem)>)
    requires
        covers_block(*data, block_size),
    ensures
        r is None <==> forall|c: int, s: int|
            0 <= c < channel_count(*data) && 0 <= s < block_size ==> #[trigger] sample_problem(*data, c, s) is None,
        r matches Some((c, s, p)) ==> {
            &&& c < channel_count(*data)
            &&& s < block_size
            &&& sample_problem(*data, c as int, s as int) == Some(p)
            &&& forall|c2: int, s2: int|
                0 <= c2 < channel_count(*data) && 0 <= s2 < block_size && before(c2, s2, c as int, s as int)
                    ==> #[trigger] sample_problem(*data, c2, s2) is None
        },
{
    let n = channels_of(data);
    let mut c: usize = 0;
    while c < n
        invariant
            n == channel_count(*data),
            c <= n,
            covers_block(*data, block_size),
            forall|c2: int, s2: int| 0 <= c2 < c && 0 <= s2 < block_size ==> #[trigger] sample_problem(*data, c2, s2) is None,
        decreases n - c,
    {
        let mut s: usize = 0;
        while s < block_size as usize
            invariant
                n == channel_count(*data),
                c < n,
                s <= block_size,
                covers_block(*data, block_size),
                forall|c2: int, s2: int| 0 <= c2 < c && 0 <= s2 < block_size ==> #[trigger] sample_problem(*data, c2, s2) is None,
                forall|s2: int| 0 <= s2 < s ==> #[trigger] sample_problem(*data, c as int, s2) is None,
            decreases block_size - s,
        {
            proof {
                let d = *data;
                match d {
                    SampleData::F32(x) => assert(x@[c as int]@.len() >= block_size),
                    SampleData::F64(x) => assert(x@[c as int]@.len() >= block_size),
                }
            }
            match problem_at(data, c, s) {
                Some(p) => {
                    return Some((c, s, p));
                },
                None => {},
            }
            s = s + 1;
        }
        c = c + 1;
    }
    None
}

/// Why the outcome of a process call is refused.
#[derive(Debug, Clone, Copy, PartialEq, Eq, Structural)]
pub enum ConsistencyError {
    /// The plugin wrote to the buffer of input `index`, which serves no output.
    InputOverwritten { index: usize },
    /// A sample of output `port` is wrong.
    BadSample { port: usize, channel: usize, sample: usize, problem: SampleProblem },
    /// The output events are out of order or outside the block.
    Events(OutputEventError),
}

/// The message of a consistency error. `sample_text` is how the offending sample prints; it
/// appears only in the messages on a subnormal or non-finite sample, since printing a floating
/// point number is left to the caller.
pub open spec fn consistency_error_text(e: ConsistencyError, sample_text: Seq<char>) -> Seq<char> {
    match e {
        ConsistencyError::InputOverwritten { index } => "The plugin has overwritten an input buffer (index "@
            + decimal_spec(index as nat) + ") during out-of-place processing."@,
        ConsistencyError::BadSample { port, channel, sample, problem } => match problem {
            SampleProblem::Subnormal => "The sample written to output port "@ + decimal_spec(port as nat)
                + ", channel "@ + decimal_spec(channel as nat) + ", and sample index "@ + decimal_spec(
                sample as nat,
            ) + " is subnormal ("@ + sample_text + ")."@,
            SampleProblem::Unwritten => "The sample at output port "@ + decimal_spec(port as nat) + ", channel "@
                + decimal_spec(channel as nat) + ", and sample index "@ + decimal_spec(sample as nat)
                + " was left unwritten."@,
            SampleProblem::NotFinite => "The sample written to output port "@ + decimal_spec(port as nat)
                + ", channel "@ + decimal_spec(channel as nat) + ", and sample index "@ + decimal_spec(
                sample as nat,
            ) + " is "@ + sample_text + "."@,
        },
        ConsistencyError::Events(OutputEventError::OutOfOrder { time, previous }) =>
            "The plugin output an event for sample "@ + decimal_spec(time as nat)
            + " after it had previously output an event for sample "@ + decimal_spec(previous as nat) + "."@,
        ConsistencyError::Events(OutputEventError::BeyondBlock { time, block_size }) =>
            "The plugin output an event for sample "@ + decimal_spec(time as nat)
            + " but the audio buffer only contains "@ + decimal_spec(block_size as nat) + " samples."@,
    }
}

impl ConsistencyError {
    /// The error's message, as in `The sample at output port 0, channel 1, and sample index 5 was
    /// left unwritten.` See [`consistency_error_text`] for `sample_text`.
    pub fn describe(&self, sample_text: &str) -> (r: String)
        ensures
            r@ == consistency_error_text(*self, sample_text@),
    {
        match self {
            ConsistencyError::InputOverwritten { index } => {
                let mut s = String::from_str("The plugin has overwritten an input buffer (index ");
                s.append(decimal(*index as u128).as_str());
                s.append(") during out-of-place processing.");
                s
            },
            ConsistencyError::BadSample { port, channel, sample, problem } => {
                let mut s = String::from_str(
                    match problem {
                        SampleProblem::Unwritten => "The sample at output port ",
                        _ => "The sample written to output port ",
                    },
                );
                s.append(decimal(*port as u128).as_str());
                s.append(", channel ");
                s.append(decimal(*channel as u128).as_str());
                s.append(", and sample index ");
                s.append(decimal(*sample as u128).as_str());
                match problem {
                    SampleProblem::Subnormal => {
                        s.append(" is subnormal (");
                        s.append(sample_text);
                        s.append(").");
                    },
                    SampleProblem::Unwritten => {
                        s.append(" was left unwritten.");
                    },
                    SampleProblem::NotFinite => {
                        s.append(" is ");
                        s.append(sample_text);
                        s.append(".");
                    },
                }
                s
            },
            ConsistencyError::Events(OutputEventError::OutOfOrder { time, previous }) => {
                let mut s = String::from_str("The plugin output an event for sample ");
                s.append(decimal(*time as u128).as_str());
                s.append(" after it had previously output an event for sample ");
                s.append(decimal(*previous as u128).as_str());
                s.append(".");
                s
            },
            ConsistencyError::Events(OutputEventError::BeyondBlock { time, block_size }) => {
                let mut s = String::from_str("The plugin output an event for sample ");
                s.append(decimal(*time as u128).as_str());
                s.append(" but the audio buffer only contains ");
                s.append(decimal(*block_size as u128).as_str());
                s.append(" samples.");
                s
            },
        }
    }
}

/// A buffer: the buses it serves and its samples.
#[derive(Debug, Clone)]
pub struct BufferContents {
    pub layout: AudioBuffer,
    pub data: SampleData,
}

/// What is wrong with a buffer after the call, given its samples before it: an input-only buffer
/// must be unchanged, and the block in a buffer serving an output must hold finite, normal
/// samples the plugin wrote.
pub open spec fn buffer_error(b: BufferContents, saved: SampleData, block_size: u32) -> Option<ConsistencyError> {
    match (b.layout.input, b.layout.output) {
        (Some(index), None) => if same_samples(b.data, saved) {
            None
        } else {
            Some(ConsistencyError::InputOverwritten { index })
        },
        (_, Some(port)) => if exists|c: int, s: int|
            0 <= c < channel_count(b.data) && 0 <= s < block_size && #[trigger] sample_problem(b.data, c, s) is Some {
            let (c, s) = choose|c: int, s: int|
                0 <= c < channel_count(b.data) && 0 <= s < block_size && #[trigger] sample_problem(b.data, c, s) is Some
                    && forall|c2: int, s2: int|
                    0 <= c2 < channel_count(b.data) && 0 <= s2 < block_size && before(c2, s2, c, s)
                        ==> #[trigger] sample_problem(b.data, c2, s2) is None;
            Some(
                ConsistencyError::BadSample {
                    port,
                    channel: c as usize,
                    sample: s as usize,
                    problem: sample_problem(b.data, c, s)->0,
                },
            )
        } else {
            None
        },
        (None, None) => None,
    }
}

/// Law: a buffer serving an output fails the check when a sample of its block is an infinity, a
/// NaN or a subnormal number, whatever the other samples hold; so the check of the process call
/// is then an error.
pub proof fn law_bad_output_sample_fails_the_check(b: BufferContents, saved: SampleData, block_size: u32, c: int, s: int)
    requires
        b.layout.output is Some,
        0 <= c < channel_count(b.data),
        0 <= s < block_size,
        match b.data {
            SampleData::F32(x) => f32_not_finite(x@[c]@[s]) || f32_subnormal(x@[c]@[s]),
            SampleData::F64(x) => f64_not_finite(x@[c]@[s]) || f64_subnormal(x@[c]@[s]),
        },
    ensures
        buffer_error(b, saved, block_size) is Some,
{
    law_sample_problems_follow_the_bits(b.data, c, s);
    assert(sample_problem(b.data, c, s) is Some);
}

/// Law: an output event is refused exactly when it lies before the event ahead of it or outside
/// the block.
pub proof fn law_output_events_in_order_and_in_block(events: Seq<QueuedEvent>, i: int, block_size: u32)
    requires
        0 <= i < events.len(),
    ensures
        event_error_at(events, i, block_size) is None <==> ((i == 0 || events[i - 1].time <= events[i].time)
            && events[i].time < block_size),
{
}

/// A sample of an input buffer whose bits changed, other than a zero turning into a zero of the
/// other sign.
pub open spec fn changed_sample(data: SampleData, saved: SampleData, c: int, s: int) -> bool {
    match (data, saved) {
        (SampleData::F32(x), SampleData::F32(y)) => {
            &&& 0 <= c < x@.len() && c < y@.len()
            &&& 0 <= s < x@[c]@.len() && s < y@[c]@.len()
            &&& x@[c]@[s] != y@[c]@[s]
            &&& (x@[c]@[s] & 0x7FFF_FFFFu32 != 0u32 || y@[c]@[s] & 0x7FFF_FFFFu32 != 0u32)
        },
        (SampleData::F64(x), SampleData::F64(y)) => {
            &&& 0 <= c < x@.len() && c < y@.len()
            &&& 0 <= s < x@[c]@.len() && s < y@[c]@.len()
            &&& x@[c]@[s] != y@[c]@[s]
            &&& (x@[c]@[s] & 0x7FFF_FFFF_FFFF_FFFFu64 != 0u64 || y@[c]@[s] & 0x7FFF_FFFF_FFFF_FFFFu64 != 0u64)
        },
        _ => false,
    }
}

/// The buffer holds exactly the bits that were saved, none of them a NaN.
pub open spec fn unchanged_without_nan(data: SampleData, saved: SampleData) -> bool {
    match (data, saved) {
        (SampleData::F32(x), SampleData::F32(y)) => x@.len() == y@.len() && forall|c: int|
            0 <= c < x@.len() ==> (#[trigger] x@[c])@ == y@[c]@ && forall|s: int|
                0 <= s < x@[c]@.len() ==> !f32_nan(#[trigger] x@[c]@[s]),
        (SampleData::F64(x), SampleData::F64(y)) => x@.len() == y@.len() && forall|c: int|
            0 <= c < x@.len() ==> (#[trigger] x@[c])@ == y@[c]@ && forall|s: int|
                0 <= s < x@[c]@.len() ==> !f64_nan(#[trigger] x@[c]@[s]),
        _ => false,
    }
}

/// Law: a buffer that only serves an input must come back as it was saved. It passes when its
/// bits are the saved ones (and none is a NaN); it is refused as overwritten when it changed
/// precision or number of channels, or when one of its samples changed other than a zero's sign.
pub proof fn law_input_buffers_stay_untouched(b: BufferContents, saved: SampleData, block_size: u32, c: int, s: int)
    requires
        b.layout.input is Some,
        b.layout.output is None,
    ensures
        unchanged_without_nan(b.data, saved) ==> buffer_error(b, saved, block_size) is None,
        (changed_sample(b.data, saved, c, s) || channel_count(b.data) != channel_count(saved) || (b.data is F32)
            != (saved is F32)) ==> buffer_error(b, saved, block_size) == Some(
            ConsistencyError::InputOverwritten { index: b.layout.input->0 },
        ),
{
    if unchanged_without_nan(b.data, saved) {
        match (b.data, saved) {
            (SampleData::F32(x), SampleData::F32(y)) => {
                assert forall|k: int| 0 <= k < x@.len() implies channels_eq32(#[trigger] x@[k]@, y@[k]@) by {
                    assert forall|i: int| 0 <= i < x@[k]@.len() implies f32_eq(#[trigger] x@[k]@[i], y@[k]@[i]) by {
                        assert(!f32_nan(x@[k]@[i]));
                    }
                }
            },
            (SampleData::F64(x), SampleData::F64(y)) => {
                assert forall|k: int| 0 <= k < x@.len() implies channels_eq64(#[trigger] x@[k]@, y@[k]@) by {
                    assert forall|i: int| 0 <= i < x@[k]@.len() implies f64_eq(#[trigger] x@[k]@[i], y@[k]@[i]) by {
                        assert(!f64_nan(x@[k]@[i]));
                    }
                }
            },
            _ => {},
        }
    }
    if changed_sample(b.data, saved, c, s) {
        match (b.data, saved) {
            (SampleData::F32(x), SampleData::F32(y)) => {
                assert(!f32_eq(x@[c]@[s], y@[c]@[s]));
                assert(!channels_eq32(x@[c]@, y@[c]@));
            },
            (SampleData::F64(x), SampleData::F64(y)) => {
                assert(!f64_eq(x@[c]@[s], y@[c]@[s]));
                assert(!channels_eq64(x@[c]@, y@[c]@));
            },
            _ => {},
        }
    }
}

proof fn lemma_first_unique(data: SampleData, block_size: u32, c: int, s: int, c1: int, s1: int)
    requires
        0 <= c < channel_count(data) && 0 <= s < block_size && sample_problem(data, c, s) is Some,
        0 <= c1 < channel_count(data) && 0 <= s1 < block_size && sample_problem(data, c1, s1) is Some,
        forall|c2: int, s2: int|
            0 <= c2 < channel_count(data) && 0 <= s2 < block_size && before(c2, s2, c, s) ==> #[trigger] sample_problem(
                data,
                c2,
                s2,
            ) is None,
        forall|c2: int, s2: int|
            0 <= c2 < channel_count(data) && 0 <= s2 < block_size && before(c2, s2, c1, s1) ==> #[trigger] sample_problem(
                data,
                c2,
                s2,
            ) is None,
    ensures
        c == c1 && s == s1,
{
    if before(c, s, c1, s1) {
        assert(sample_problem(data, c, s) is None);
    }
    if before(c1, s1, c, s) {
        assert(sample_problem(data, c1, s1) is None);
    }
}

/// Checks one buffer after the call.
fn check_buffer(b: &BufferContents, saved: &SampleData, block_size: u32) -> (r: Result<(), ConsistencyError>)
    requires
        b.layout.output is Some ==> covers_block(b.data, block_size),
    ensures
        r == match buffer_error(*b, *saved, block_size) {
            Some(e) => Err::<(), ConsistencyError>(e),
            None => Ok(()),
        },
{
    match (b.layout.input, b.layout.output) {
        (Some(index), None) => {
            if is_same(&b.data, saved) {
                Ok(())
            } else {
                Err(ConsistencyError::InputOverwritten { index })
            }
        },
        (_, Some(port)) => {
            match first_bad_sample(&b.data, block_size) {
                None => Ok(()),
                Some((c, s, problem)) => {
                    proof {
                        let data = b.data;
                        assert(sample_problem(data, c as int, s as int) is Some);
                        let (cc, ss) = choose|c1: int, s1: int|
                            0 <= c1 < channel_count(data) && 0 <= s1 < block_size && #[trigger] sample_problem(data, c1, s1)
                                is Some && forall|c2: int, s2: int|
                                0 <= c2 < channel_count(data) && 0 <= s2 < block_size && before(c2, s2, c1, s1)
                                    ==> #[trigger] sample_problem(data, c2, s2) is None;
                        lemma_first_unique(data, block_size, c as int, s as int, cc, ss);
                    }
                    Err(ConsistencyError::BadSample { port, channel: c, sample: s, problem })
                },
            }
        },
        (None, None) => Ok(()),
    }
}

/// The number of buffer pairs compared: as many as both lists hold.
pub open spec fn compared(resulting: Seq<BufferContents>, saved: Seq<SampleData>) -> int {
    if resulting.len() < saved.len() {
        resulting.len() as int
    } else {
        saved.len() as int
    }
}

/// Checks the outcome of a process call of `block_size` samples: each buffer after the call
/// against the same buffer before it, in order, as far as both lists go; then the output events.
/// The first problem found is reported.
pub fn check_process_call_consistency(resulting: &Vec<BufferContents>, saved: &Vec<SampleData>, output_events: &Vec<QueuedEvent>, block_size: u32) -> (r: Result<(), ConsistencyError>)
    requires
        forall|i: int|
            0 <= i < compared(resulting@, saved@) && (#[trigger] resulting@[i]).layout.output is Some ==> covers_block(
                resulting@[i].data,
                block_size,
            ),
    ensures
        r is Ok <==> (forall|i: int|
            0 <= i < compared(resulting@, saved@) ==> #[trigger] buffer_error(resulting@[i], saved@[i], block_size) is None)
            && (forall|i: int| 0 <= i < output_events@.len() ==> event_error_at(output_events@, i, block_size) is None),
        r matches Err(ConsistencyError::Events(e)) ==> (forall|i: int|
            0 <= i < compared(resulting@, saved@) ==> #[trigger] buffer_error(resulting@[i], saved@[i], block_size) is None)
            && exists|i: int| 0 <= i < output_events@.len() && event_error_at(output_events@, i, block_size) == Some(e)
                && forall|j: int| 0 <= j < i ==> event_error_at(output_events@, j, block_size) is None,
        r matches Err(e) ==> !(e is Events) ==> exists|i: int|
            0 <= i < compared(resulting@, saved@) && #[trigger] buffer_error(resulting@[i], saved@[i], block_size) == Some(e)
                && forall|j: int| 0 <= j < i ==> #[trigger] buffer_error(resulting@[j], saved@[j], block_size) is None,
{
    let n = if resulting.len() < saved.len() {
        resulting.len()
    } else {
        saved.len()
    };
    let mut i: usize = 0;
    while i < n
        invariant
            n == compared(resulting@, saved@),
            i <= n,
            forall|k: int|
                0 <= k < compared(resulting@, saved@) && (#[trigger] resulting@[k]).layout.output is Some ==> covers_block(
                    resulting@[k].data,
                    block_size,
                ),
            forall|k: int| 0 <= k < i ==> #[trigger] buffer_error(resulting@[k], saved@[k], block_size) is None,
        decreases n - i,
    {
        match check_buffer(&resulting[i], &saved[i], block_size) {
            Ok(()) => {},
            Err(e) => {
                assert(buffer_error(resulting@[i as int], saved@[i as int], block_size) == Some(e));
                return Err(e);
            },
        }
        i = i + 1;
    }
    match check_output_events(output_events, block_size) {
        Ok(()) => Ok(()),
        Err(e) => Err(ConsistencyError::Events(e)),
    }
}

} // verus!
