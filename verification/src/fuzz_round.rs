//! The decisions of one fuzzing chunk.
//!
//! A chunk seeds the fuzzer's generator with its seed and runs five to nine rounds. Each round
//! draws whether to process in place and in 64 bits, a sample rate, the largest and smallest
//! block size and how many blocks to process. Before each block the fuzzer polls the plugin's
//! callbacks (looking at them one time in five, and always when the plugin wants a restart), and
//! may reset the plugin, restart it, or save or load its state, each one time in twenty; then it
//! processes a block of a drawn size. A plugin that asks for a restart has the fuzzer leave the
//! audio thread, read again what the plugin asked to have read, and carry on with the blocks
//! left.
//!
//! The draws are made here from the generator, in the order the fuzzer makes them, and each
//! function that decides is a function of its arguments: the caller performs the actions and
//! hands back what the plugin answered. Drawing a sample rate outside the preset ones (a floating
//! point number) and the note, parameter and transport events are left to the caller, which
//! draws them from the same generator in between.

use vstd::prelude::*;
use crate::fuzz::{block_size, blocks_for, max_buffer_size, min_buffer_size, preset_buffer_sizes, BlockSizeChoice};
use crate::fuzz_rng::{
    bool_draw, range_draw, FuzzRng, RngState, P_FIFTH, P_FOUR_FIFTHS, P_HALF, P_QUARTER, P_TENTH, P_TWENTIETH,
};
use crate::host::FuzzFlags;
use crate::plugin_state::CallbackEvent;

verus! {

/// The sample rates a fuzzing round picks from, most of the time, in hertz.
pub open spec fn preset_sample_rates() -> Seq<u32> {
    seq![22050u32, 44100, 48000, 88200, 96000, 176400, 192000]
}

/// How a round's sample rate is chosen.
#[derive(Debug, Clone, Copy, PartialEq, Eq, Structural)]
pub enum RateChoice {
    /// The preset rate at this index.
    Preset(usize),
    /// A rate drawn between 1 kHz and 1 MHz.
    Drawn,
}

/// A round's sample rate.
#[derive(Debug, Clone, Copy, PartialEq, Eq, Structural)]
pub enum SampleRate {
    /// A preset rate, in hertz.
    Hz(u32),
    /// A rate drawn between 1 kHz and 1 MHz, which the caller draws.
    Drawn,
}

/// How a fuzzing round processes audio.
#[derive(Debug, Clone, Copy, PartialEq, Eq, Structural)]
pub struct FuzzRoundConfig {
    /// Whether buffers are processed in place where the ports allow it.
    pub in_place: bool,
    /// Whether samples are 64-bit where the ports allow it.
    pub double: bool,
    pub sample_rate: SampleRate,
    pub max_buffer_size: u32,
    pub min_buffer_size: u32,
    /// How many blocks the round processes.
    pub blocks: u32,
}

/// The largest block size the draws for it give: the drawn size, or the preset at the drawn
/// index.
pub open spec fn round_max(max: (bool, usize, u32)) -> u32 {
    if max.0 {
        max.2
    } else {
        preset_buffer_sizes()[max.1 as int]
    }
}

/// The round that the draws give. `max` holds whether the largest block size is drawn rather
/// than a preset, the preset's index and the drawn size; `min` whether the smallest size is the
/// largest, whether it is one, and the drawn size; `samples` how many samples the round covers at
/// least.
pub open spec fn fuzz_round_config_spec(
    in_place: bool,
    double: bool,
    rate: RateChoice,
    max: (bool, usize, u32),
    min: (bool, bool, u32),
    samples: u32,
) -> FuzzRoundConfig {
    let max_size = round_max(max);
    FuzzRoundConfig {
        in_place,
        double,
        sample_rate: match rate {
            RateChoice::Preset(i) => SampleRate::Hz(preset_sample_rates()[i as int]),
            RateChoice::Drawn => SampleRate::Drawn,
        },
        max_buffer_size: max_size,
        min_buffer_size: if min.0 {
            max_size
        } else if min.1 {
            1u32
        } else {
            min.2
        },
        blocks: ((samples as int + max_size as int - 1) / max_size as int) as u32,
    }
}

/// The round that the draws give; see [`fuzz_round_config_spec`].
pub fn fuzz_round_config(
    in_place: bool,
    double: bool,
    rate: RateChoice,
    max: (bool, usize, u32),
    min: (bool, bool, u32),
    samples: u32,
) -> (r: FuzzRoundConfig)
    requires
        rate matches RateChoice::Preset(i) ==> i < 7,
        !max.0 ==> max.1 < 7,
        max.0 ==> max.2 > 0,
    ensures
        r == fuzz_round_config_spec(in_place, double, rate, max, min, samples),
{
    let sample_rate = match rate {
        RateChoice::Preset(i) => {
            let presets: [u32; 7] = [22050, 44100, 48000, 88200, 96000, 176400, 192000];
            assert(presets@ =~= preset_sample_rates());
            SampleRate::Hz(presets[i])
        },
        RateChoice::Drawn => SampleRate::Drawn,
    };
    let max_size = max_buffer_size(max.0, if max.0 { 0 } else { max.1 }, max.2);
    assert(max_size == round_max(max));
    assert(max_size > 0) by {
        if !max.0 {
            assert(preset_buffer_sizes()[max.1 as int] >= 64);
        }
    }
    let min_size = min_buffer_size(max_size, min.0, min.1, min.2);
    let blocks = blocks_for(samples, max_size);
    FuzzRoundConfig { in_place, double, sample_rate, max_buffer_size: max_size, min_buffer_size: min_size, blocks }
}

/// Law: a round drawn as the fuzzer draws it is well formed: its smallest block size is at
/// least one and at most its largest, it processes at least one block, and its blocks cover the
/// drawn number of samples with less than one block to spare.
pub proof fn law_drawn_round_is_well_formed(
    in_place: bool,
    double: bool,
    rate: RateChoice,
    max: (bool, usize, u32),
    min: (bool, bool, u32),
    samples: u32,
)
    requires
        !max.0 ==> max.1 < 7,
        max.0 ==> 1 <= max.2 < 10000,
        !min.0 && !min.1 ==> 1 <= min.2 < round_max(max),
        20000 <= samples < 100000,
    ensures
        ({
            let c = fuzz_round_config_spec(in_place, double, rate, max, min, samples);
            &&& 1 <= c.min_buffer_size <= c.max_buffer_size
            &&& c.blocks >= 1
            &&& (c.blocks as int) * (c.max_buffer_size as int) >= samples
            &&& (c.blocks as int - 1) * (c.max_buffer_size as int) < samples
        }),
{
    let m = round_max(max) as int;
    if !max.0 {
        assert(preset_buffer_sizes()[max.1 as int] >= 64);
        assert(preset_buffer_sizes()[max.1 as int] <= 4096);
    }
    assert(1 <= m < 10000);
    let q = (samples as int + m - 1) / m;
    vstd::arithmetic::div_mod::lemma_fundamental_div_mod(samples as int + m - 1, m);
    let r = (samples as int + m - 1) % m;
    assert(samples as int + m - 1 == m * q + r);
    assert(0 <= r < m);
    assert(q * m >= samples) by (nonlinear_arith)
        requires
            samples as int + m - 1 == m * q + r,
            r < m,
    ;
    assert((q - 1) * m < samples) by (nonlinear_arith)
        requires
            samples as int + m - 1 == m * q + r,
            0 <= r,
    ;
    assert(q >= 1) by (nonlinear_arith)
        requires
            q * m >= samples,
            samples >= 20000,
            m >= 1,
    ;
    assert(q < 0x1_0000_0000) by (nonlinear_arith)
        requires
            (q - 1) * m < samples,
            samples < 100000,
            m >= 1,
    ;
}

/// The draw of how many rounds a chunk runs.
pub fn draw_rounds(rng: &mut FuzzRng) -> (r: u32)
    ensures
        (final(rng)@, r) == range_draw(old(rng)@, 5, 10),
        5 <= r < 10,
{
    rng.random_range(5, 10)
}

/// The first draws of a round: in place, 64 bits, and the sample rate's choice. When the rate is
/// to be drawn, the caller draws it next from the same generator.
pub open spec fn round_head_draw(s: RngState) -> (RngState, (bool, bool, RateChoice)) {
    let a = bool_draw(s, P_HALF);
    let b = bool_draw(a.0, P_HALF);
    let c = bool_draw(b.0, P_TENTH);
    if c.1 {
        (c.0, (a.1, b.1, RateChoice::Drawn))
    } else {
        let d = range_draw(c.0, 0, 7);
        (d.0, (a.1, b.1, RateChoice::Preset(d.1 as usize)))
    }
}

/// Makes the first draws of a round; see [`round_head_draw`].
pub fn draw_round_head(rng: &mut FuzzRng) -> (r: (bool, bool, RateChoice))
    ensures
        (final(rng)@, r) == round_head_draw(old(rng)@),
        r.2 matches RateChoice::Preset(i) ==> i < 7,
{
    let in_place = rng.random_bool(P_HALF);
    let double = rng.random_bool(P_HALF);
    if rng.random_bool(P_TENTH) {
        (in_place, double, RateChoice::Drawn)
    } else {
        let i = rng.random_range(0, 7);
        (in_place, double, RateChoice::Preset(i as usize))
    }
}

/// The draw of the largest block size: drawn between one and 9999 one time in ten, otherwise a
/// preset.
pub open spec fn max_draw(s: RngState) -> (RngState, (bool, usize, u32)) {
    let a = bool_draw(s, P_TENTH);
    if a.1 {
        let d = range_draw(a.0, 1, 10000);
        (d.0, (true, 0usize, d.1))
    } else {
        let d = range_draw(a.0, 0, 7);
        (d.0, (false, d.1 as usize, 0u32))
    }
}

/// The draw of the smallest block size given the largest: the largest one time in four, else
/// one one time in four, else drawn from one up to but not including the largest. `None` when
/// that range is empty, where the fuzzer stops with a panic.
pub open spec fn min_draw(s: RngState, max_size: u32) -> (RngState, Option<(bool, bool, u32)>) {
    let a = bool_draw(s, P_QUARTER);
    if a.1 {
        (a.0, Some((true, false, 0u32)))
    } else {
        let b = bool_draw(a.0, P_QUARTER);
        if b.1 {
            (b.0, Some((false, true, 0u32)))
        } else if max_size <= 1 {
            (b.0, None)
        } else {
            let d = range_draw(b.0, 1, max_size);
            (d.0, Some((false, false, d.1)))
        }
    }
}

/// The remaining draws of a round, after its sample rate: the largest block size, the smallest,
/// and the number of samples to cover, drawn from 20000 up to but not including 100000.
pub open spec fn round_sizes_draw(s: RngState) -> (RngState, Option<((bool, usize, u32), (bool, bool, u32), u32)>) {
    let mx = max_draw(s);
    let mn = min_draw(mx.0, round_max(mx.1));
    match mn.1 {
        None => (mn.0, None),
        Some(min) => {
            let n = range_draw(mn.0, 20000, 100000);
            (n.0, Some((mx.1, min, n.1)))
        },
    }
}

/// Makes the remaining draws of a round; see [`round_sizes_draw`].
pub fn draw_round_sizes(rng: &mut FuzzRng) -> (r: Option<((bool, usize, u32), (bool, bool, u32), u32)>)
    ensures
        (final(rng)@, r) == round_sizes_draw(old(rng)@),
        r matches Some((max, min, samples)) ==> {
            &&& (!max.0 ==> max.1 < 7)
            &&& (max.0 ==> 1 <= max.2 < 10000)
            &&& (!min.0 && !min.1 ==> 1 <= min.2 < round_max(max))
            &&& 20000 <= samples < 100000
        },
{
    let max = if rng.random_bool(P_TENTH) {
        let d = rng.random_range(1, 10000);
        (true, 0usize, d)
    } else {
        let i = rng.random_range(0, 7);
        (false, i as usize, 0u32)
    };
    let max_size = max_buffer_size(max.0, max.1, max.2);
    let min = if rng.random_bool(P_QUARTER) {
        (true, false, 0u32)
    } else if rng.random_bool(P_QUARTER) {
        (false, true, 0u32)
    } else if max_size <= 1 {
        return None;
    } else {
        let d = rng.random_range(1, max_size);
        (false, false, d)
    };
    let samples = rng.random_range(20000, 100000);
    Some((max, min, samples))
}

/// What the fuzzer keeps track of while a round processes its blocks.
#[derive(Debug, Clone, Copy, PartialEq, Eq, Structural)]
pub struct FuzzBlockState {
    /// The blocks the round has yet to process.
    pub blocks_to_process: u32,
    pub flags: FuzzFlags,
}

/// The state a round starts from: all its blocks to process and nothing to read again.
pub fn fuzz_round_start(config: &FuzzRoundConfig) -> (r: FuzzBlockState)
    ensures
        r == (FuzzBlockState {
            blocks_to_process: config.blocks,
            flags: FuzzFlags {
                is_sleeping: false,
                audio_config_changed: false,
                note_config_changed: false,
                params_changed: false,
            },
        }),
{
    FuzzBlockState {
        blocks_to_process: config.blocks,
        flags: FuzzFlags {
            is_sleeping: false,
            audio_config_changed: false,
            note_config_changed: false,
            params_changed: false,
        },
    }
}

/// Something the caller does to the plugin.
#[derive(Debug, Clone, Copy, PartialEq, Eq, Structural)]
pub enum FuzzAction {
    /// Read the audio port configuration again.
    ReadAudioPorts,
    /// Read the note port configuration again.
    ReadNotePorts,
    /// Read the parameter information again.
    ReadParams,
    /// Reset the plugin's processing state.
    Reset,
    /// Deactivate the plugin, to activate it again before the next block.
    Restart,
    /// Save the plugin's state from the main thread, in chunks of the given size or at once.
    SaveState(Option<u32>),
    /// Load the last saved state from the main thread, in chunks of the given size or at once.
    LoadState(Option<u32>),
    /// Process a block of this many samples.
    Process(u32),
}

/// `[a]` when `b` holds, else nothing.
pub open spec fn action_if(b: bool, a: FuzzAction) -> Seq<FuzzAction> {
    if b {
        seq![a]
    } else {
        Seq::empty()
    }
}

/// Before entering the audio thread: what has to be read again, which is then no longer pending.
pub open spec fn fuzz_reread_spec(state: FuzzBlockState) -> (FuzzBlockState, Seq<FuzzAction>) {
    (
        FuzzBlockState {
            flags: FuzzFlags {
                audio_config_changed: false,
                note_config_changed: false,
                params_changed: false,
                ..state.flags
            },
            ..state
        },
        action_if(state.flags.audio_config_changed, FuzzAction::ReadAudioPorts) + action_if(
            state.flags.note_config_changed,
            FuzzAction::ReadNotePorts,
        ) + action_if(state.flags.params_changed, FuzzAction::ReadParams),
    )
}

/// Decides what to read again before entering the audio thread; see [`fuzz_reread_spec`].
pub fn fuzz_reread(state: &FuzzBlockState) -> (r: (FuzzBlockState, Vec<FuzzAction>))
    ensures
        (r.0, r.1@) == fuzz_reread_spec(*state),
{
    let mut actions: Vec<FuzzAction> = Vec::new();
    if state.flags.audio_config_changed {
        actions.push(FuzzAction::ReadAudioPorts);
    }
    let ghost a = actions@;
    if state.flags.note_config_changed {
        actions.push(FuzzAction::ReadNotePorts);
    }
    let ghost b = actions@;
    if state.flags.params_changed {
        actions.push(FuzzAction::ReadParams);
    }
    proof {
        assert(a =~= action_if(state.flags.audio_config_changed, FuzzAction::ReadAudioPorts));
        assert(b =~= a + action_if(state.flags.note_config_changed, FuzzAction::ReadNotePorts));
        assert(actions@ =~= b + action_if(state.flags.params_changed, FuzzAction::ReadParams));
    }
    let flags = FuzzFlags {
        audio_config_changed: false,
        note_config_changed: false,
        params_changed: false,
        ..state.flags
    };
    (FuzzBlockState { flags, ..*state }, actions)
}

/// The draw of how to poll before a block: `true` to poll without looking at the callbacks,
/// drawn four times in five, and never when the plugin wants a restart.
pub open spec fn poll_draw(s: RngState, wants_restart: bool) -> (RngState, bool) {
    if wants_restart {
        (s, false)
    } else {
        bool_draw(s, P_FOUR_FIFTHS)
    }
}

/// Draws how to poll before a block; see [`poll_draw`].
pub fn draw_poll(rng: &mut FuzzRng, wants_restart: bool) -> (r: bool)
    ensures
        (final(rng)@, r) == poll_draw(old(rng)@, wants_restart),
{
    if wants_restart {
        false
    } else {
        rng.random_bool(P_FOUR_FIFTHS)
    }
}

/// The flags after one callback, as [`FuzzFlags::after_callback`] gives them.
pub open spec fn callback_flags(f: FuzzFlags, e: CallbackEvent) -> FuzzFlags {
    match e {
        CallbackEvent::RequestProcess => FuzzFlags { is_sleeping: false, ..f },
        CallbackEvent::RescanAudioPortsAll => FuzzFlags { audio_config_changed: true, ..f },
        CallbackEvent::RescanNotePortsAll => FuzzFlags { note_config_changed: true, ..f },
        CallbackEvent::RescanParamsAll | CallbackEvent::RescanParamsInfo => FuzzFlags { params_changed: true, ..f },
        _ => f,
    }
}

/// The flags after the callbacks, in the order they were made.
pub open spec fn flags_after(f: FuzzFlags, events: Seq<CallbackEvent>) -> FuzzFlags
    decreases events.len(),
{
    if events.len() == 0 {
        f
    } else {
        callback_flags(flags_after(f, events.drop_last()), events.last())
    }
}

/// After a poll that looked at the callbacks: the flags they set, and whether to leave the audio
/// thread because the plugin wants a restart.
pub open spec fn fuzz_poll_step_spec(state: FuzzBlockState, events: Seq<CallbackEvent>, wants_restart: bool) -> (FuzzBlockState, bool) {
    (FuzzBlockState { flags: flags_after(state.flags, events), ..state }, wants_restart)
}

/// Takes in the callbacks of a poll; see [`fuzz_poll_step_spec`].
pub fn fuzz_poll_step(state: &FuzzBlockState, events: &Vec<CallbackEvent>, wants_restart: bool) -> (r: (FuzzBlockState, bool))
    ensures
        r == fuzz_poll_step_spec(*state, events@, wants_restart),
{
    let mut flags = state.flags;
    let mut i: usize = 0;
    while i < events.len()
        invariant
            i <= events@.len(),
            flags == flags_after(state.flags, events@.take(i as int)),
        decreases events@.len() - i,
    {
        proof {
            assert(events@.take(i + 1).drop_last() =~= events@.take(i as int));
        }
        flags = flags.after_callback(events[i]);
        i = i + 1;
    }
    proof {
        assert(events@.take(i as int) =~= events@);
    }
    (FuzzBlockState { flags, ..*state }, wants_restart)
}

/// The draws before a block.
#[derive(Debug, Clone, Copy, PartialEq, Eq, Structural)]
pub struct BlockDraws {
    pub reset: bool,
    pub restart: bool,
    /// Whether to save the state, and in chunks of which size if not at once.
    pub save: Option<Option<u32>>,
    /// Whether to load the last saved state, and in chunks of which size if not at once.
    pub load: Option<Option<u32>>,
    /// The block's number of samples.
    pub num_samples: u32,
}

/// The draw of a state save or load: one time in twenty, then in chunks of a size from one to 64
/// one time in two.
pub open spec fn state_io_draw(s: RngState) -> (RngState, Option<Option<u32>>) {
    let a = bool_draw(s, P_TWENTIETH);
    if !a.1 {
        (a.0, None)
    } else {
        let b = bool_draw(a.0, P_HALF);
        if b.1 {
            let c = range_draw(b.0, 1, 65);
            (c.0, Some(Some(c.1)))
        } else {
            (b.0, Some(None))
        }
    }
}

/// The draws before a block: reset and restart one time in twenty each, a state save and a state
/// load, and the block size: drawn between the smallest and the largest one time in two, else the
/// largest one time in two, else the smallest.
pub open spec fn block_draw(s: RngState, min_size: u32, max_size: u32) -> (RngState, BlockDraws) {
    let r = bool_draw(s, P_TWENTIETH);
    let rs = bool_draw(r.0, P_TWENTIETH);
    let sv = state_io_draw(rs.0);
    let ld = state_io_draw(sv.0);
    let a = bool_draw(ld.0, P_HALF);
    let n = if a.1 {
        range_draw(a.0, min_size, (max_size + 1) as u32)
    } else {
        let b = bool_draw(a.0, P_HALF);
        (b.0, if b.1 {
            max_size
        } else {
            min_size
        })
    };
    (n.0, BlockDraws { reset: r.1, restart: rs.1, save: sv.1, load: ld.1, num_samples: n.1 })
}

fn draw_state_io(rng: &mut FuzzRng) -> (r: Option<Option<u32>>)
    ensures
        (final(rng)@, r) == state_io_draw(old(rng)@),
{
    if !rng.random_bool(P_TWENTIETH) {
        None
    } else if rng.random_bool(P_HALF) {
        Some(Some(rng.random_range(1, 65)))
    } else {
        Some(None)
    }
}

/// Makes the draws before a block; see [`block_draw`].
pub fn draw_block(rng: &mut FuzzRng, min_size: u32, max_size: u32) -> (r: BlockDraws)
    requires
        1 <= min_size <= max_size < u32::MAX,
    ensures
        (final(rng)@, r) == block_draw(old(rng)@, min_size, max_size),
        min_size <= r.num_samples <= max_size,
{
    let reset = rng.random_bool(P_TWENTIETH);
    let restart = rng.random_bool(P_TWENTIETH);
    let save = draw_state_io(rng);
    let load = draw_state_io(rng);
    let choice = if rng.random_bool(P_HALF) {
        BlockSizeChoice::Drawn(rng.random_range(min_size, max_size + 1))
    } else if rng.random_bool(P_HALF) {
        BlockSizeChoice::Largest
    } else {
        BlockSizeChoice::Smallest
    };
    let num_samples = block_size(choice, min_size, max_size);
    BlockDraws { reset, restart, save, load, num_samples }
}

/// The draw of whether a block runs without a transport, one time in ten.
pub fn draw_freerun(rng: &mut FuzzRng) -> (r: bool)
    ensures
        (final(rng)@, r) == bool_draw(old(rng)@, P_TENTH),
{
    rng.random_bool(P_TENTH)
}

/// The draw of a transport event in the middle of a block: one time in five, at a sample offset
/// drawn within the block.
pub open spec fn transport_event_draw(s: RngState, num_samples: u32) -> (RngState, Option<u32>) {
    let a = bool_draw(s, P_FIFTH);
    if a.1 {
        let d = range_draw(a.0, 0, num_samples);
        (d.0, Some(d.1))
    } else {
        (a.0, None)
    }
}

/// Draws a transport event in the middle of a block; see [`transport_event_draw`].
pub fn draw_transport_event(rng: &mut FuzzRng, num_samples: u32) -> (r: Option<u32>)
    requires
        num_samples > 0,
    ensures
        (final(rng)@, r) == transport_event_draw(old(rng)@, num_samples),
        r matches Some(offset) ==> offset < num_samples,
{
    if rng.random_bool(P_FIFTH) {
        Some(rng.random_range(0, num_samples))
    } else {
        None
    }
}

/// What to do for one block: the resets, restarts and state transfers drawn, in that order, then
/// the block itself; one block fewer is left.
pub open spec fn fuzz_block_step_spec(state: FuzzBlockState, draws: BlockDraws) -> (FuzzBlockState, Seq<FuzzAction>) {
    (
        FuzzBlockState { blocks_to_process: (state.blocks_to_process - 1) as u32, ..state },
        action_if(draws.reset, FuzzAction::Reset) + action_if(draws.restart, FuzzAction::Restart) + match draws.save {
            Some(size) => seq![FuzzAction::SaveState(size)],
            None => Seq::empty(),
        } + match draws.load {
            Some(size) => seq![FuzzAction::LoadState(size)],
            None => Seq::empty(),
        } + seq![FuzzAction::Process(draws.num_samples)],
    )
}

/// Decides what to do for one block; see [`fuzz_block_step_spec`].
pub fn fuzz_block_step(state: &FuzzBlockState, draws: &BlockDraws) -> (r: (FuzzBlockState, Vec<FuzzAction>))
    requires
        state.blocks_to_process > 0,
    ensures
        (r.0, r.1@) == fuzz_block_step_spec(*state, *draws),
{
    let mut actions: Vec<FuzzAction> = Vec::new();
    if draws.reset {
        actions.push(FuzzAction::Reset);
    }
    let ghost a = actions@;
    if draws.restart {
        actions.push(FuzzAction::Restart);
    }
    let ghost b = actions@;
    match draws.save {
        Some(size) => actions.push(FuzzAction::SaveState(size)),
        None => {},
    }
    let ghost c = actions@;
    match draws.load {
        Some(size) => actions.push(FuzzAction::LoadState(size)),
        None => {},
    }
    let ghost d = actions@;
    actions.push(FuzzAction::Process(draws.num_samples));
    proof {
        assert(a =~= action_if(draws.reset, FuzzAction::Reset));
        assert(b =~= a + action_if(draws.restart, FuzzAction::Restart));
        assert(c =~= b + match draws.save {
            Some(size) => seq![FuzzAction::SaveState(size)],
            None => Seq::empty(),
        });
        assert(d =~= c + match draws.load {
            Some(size) => seq![FuzzAction::LoadState(size)],
            None => Seq::empty(),
        });
        assert(actions@ =~= d + seq![FuzzAction::Process(draws.num_samples)]);
    }
    (FuzzBlockState { blocks_to_process: state.blocks_to_process - 1, ..*state }, actions)
}

/// Law: only a processed block counts down the blocks a round has left; polling and reading
/// configurations again leave the count as it is, so a round processes exactly the blocks it
/// was drawn with, whatever the plugin answers.
pub proof fn law_only_blocks_count_down(
    state: FuzzBlockState,
    draws: BlockDraws,
    events: Seq<CallbackEvent>,
    wants_restart: bool,
)
    requires
        state.blocks_to_process > 0,
    ensures
        fuzz_block_step_spec(state, draws).0.blocks_to_process == state.blocks_to_process - 1,
        fuzz_block_step_spec(state, draws).1.last() == FuzzAction::Process(draws.num_samples),
        fuzz_poll_step_spec(state, events, wants_restart).0.blocks_to_process == state.blocks_to_process,
        fuzz_reread_spec(state).0.blocks_to_process == state.blocks_to_process,
{
}

/// Law: a chunk's draws depend on its seed alone. Two generators in the same state, asked for
/// the same draws, give the same values and end in the same state; and a generator's first
/// state is a function of its seed.
pub proof fn law_same_state_same_draws(a: RngState, b: RngState, min_size: u32, max_size: u32)
    requires
        a == b,
    ensures
        round_head_draw(a) == round_head_draw(b),
        round_sizes_draw(a) == round_sizes_draw(b),
        block_draw(a, min_size, max_size) == block_draw(b, min_size, max_size),
{
}

} // verus!
