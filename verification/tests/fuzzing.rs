use clap_validator::fuzz_rng::{FuzzRng, P_FIFTH, P_FOUR_FIFTHS, P_HALF, P_QUARTER, P_TENTH, P_TWENTIETH};
use clap_validator::fuzz_round::{
    draw_block, draw_round_head, draw_round_sizes, draw_rounds, fuzz_block_step, fuzz_poll_step, fuzz_reread,
    fuzz_round_config, fuzz_round_start, BlockDraws, FuzzAction, FuzzBlockState, RateChoice, SampleRate,
};
use clap_validator::host::FuzzFlags;
use clap_validator::plugin_state::CallbackEvent;
use rand::rngs::Xoshiro128PlusPlus;
use rand::seq::IndexedRandom;
use rand::{Rng, RngExt, SeedableRng};

const SEEDS: [u64; 5] = [0, 1, 42, 0xDEAD_BEEF, u64::MAX];

#[test]
fn generator_yields_the_words_of_rand_xoshiro128plusplus() {
    for seed in SEEDS {
        let mut ours = FuzzRng::seed_from_u64(seed);
        let mut theirs = Xoshiro128PlusPlus::seed_from_u64(seed);
        for _ in 0..1000 {
            assert_eq!(ours.next_u32(), theirs.next_u32());
        }
        assert_eq!(ours.next_u64(), theirs.next_u64());
    }
}

#[test]
fn bool_draws_match_rand() {
    let probabilities = [
        (P_HALF, 0.5),
        (P_QUARTER, 0.25),
        (P_TENTH, 0.1),
        (P_FIFTH, 0.2),
        (P_FOUR_FIFTHS, 0.8),
        (P_TWENTIETH, 0.05),
    ];
    for seed in SEEDS {
        for (p_int, p) in probabilities {
            let mut ours = FuzzRng::seed_from_u64(seed);
            let mut theirs = Xoshiro128PlusPlus::seed_from_u64(seed);
            for _ in 0..500 {
                assert_eq!(ours.random_bool(p_int), theirs.random_bool(p));
            }
        }
    }
}

#[test]
fn range_draws_match_rand() {
    for seed in SEEDS {
        let mut ours = FuzzRng::seed_from_u64(seed);
        let mut theirs = Xoshiro128PlusPlus::seed_from_u64(seed);
        for _ in 0..300 {
            assert_eq!(ours.random_range(1, 10000), theirs.random_range(1..10000u32));
            assert_eq!(ours.random_range(20000, 100000), theirs.random_range(20000..100000u32));
            assert_eq!(ours.random_range(5, 10), theirs.random_range(5..10u32));
            assert_eq!(ours.random_range(3, 0xFFFF_FFFF), theirs.random_range(3..0xFFFF_FFFFu32));
            assert_eq!(ours.random_range(7, 9 + 1), theirs.random_range(7..=9u32));
            let presets = [64u32, 128, 256, 512, 1024, 2048, 4096];
            assert_eq!(presets[ours.random_range(0, 7) as usize], *presets.choose(&mut theirs).unwrap());
        }
    }
}

#[test]
fn a_chunk_draws_the_same_for_the_same_seed() {
    let mut a = FuzzRng::seed_from_u64(1234);
    let mut b = FuzzRng::seed_from_u64(1234);
    assert_eq!(draw_rounds(&mut a), draw_rounds(&mut b));
    for _ in 0..20 {
        assert_eq!(draw_round_head(&mut a), draw_round_head(&mut b));
        assert_eq!(draw_round_sizes(&mut a), draw_round_sizes(&mut b));
        assert_eq!(draw_block(&mut a, 32, 512), draw_block(&mut b, 32, 512));
    }
    let rounds = draw_rounds(&mut FuzzRng::seed_from_u64(99));
    assert!((5..10).contains(&rounds));
}

#[test]
fn round_config_from_its_draws() {
    let c = fuzz_round_config(true, false, RateChoice::Preset(2), (false, 3, 0), (false, true, 0), 20000);
    assert_eq!(c.sample_rate, SampleRate::Hz(48000));
    assert_eq!((c.max_buffer_size, c.min_buffer_size, c.blocks), (512, 1, 40));
    assert!(c.in_place && !c.double);

    let c = fuzz_round_config(false, true, RateChoice::Drawn, (true, 0, 3000), (false, false, 17), 20001);
    assert_eq!(c.sample_rate, SampleRate::Drawn);
    assert_eq!((c.max_buffer_size, c.min_buffer_size, c.blocks), (3000, 17, 7));

    let c = fuzz_round_config(false, false, RateChoice::Preset(6), (false, 6, 0), (true, false, 0), 99999);
    assert_eq!(c.sample_rate, SampleRate::Hz(192000));
    assert_eq!((c.max_buffer_size, c.min_buffer_size, c.blocks), (4096, 4096, 25));
}

fn flags() -> FuzzFlags {
    FuzzFlags { is_sleeping: true, audio_config_changed: false, note_config_changed: false, params_changed: false }
}

#[test]
fn a_block_lists_its_actions_and_counts_down() {
    let state = FuzzBlockState { blocks_to_process: 3, flags: flags() };
    let draws = BlockDraws { reset: true, restart: false, save: Some(Some(8)), load: Some(None), num_samples: 100 };
    let (next, actions) = fuzz_block_step(&state, &draws);
    assert_eq!(next.blocks_to_process, 2);
    assert_eq!(
        actions,
        vec![FuzzAction::Reset, FuzzAction::SaveState(Some(8)), FuzzAction::LoadState(None), FuzzAction::Process(100)]
    );
    let quiet = BlockDraws { reset: false, restart: true, save: None, load: None, num_samples: 1 };
    let (_, actions) = fuzz_block_step(&next, &quiet);
    assert_eq!(actions, vec![FuzzAction::Restart, FuzzAction::Process(1)]);
}

#[test]
fn callbacks_set_what_to_read_again() {
    let state = FuzzBlockState { blocks_to_process: 5, flags: flags() };
    let events = vec![CallbackEvent::RequestProcess, CallbackEvent::RescanParamsInfo, CallbackEvent::ChangedLatency];
    let (next, leave) = fuzz_poll_step(&state, &events, true);
    assert!(leave);
    assert_eq!(next.blocks_to_process, 5);
    assert!(!next.flags.is_sleeping && next.flags.params_changed && !next.flags.audio_config_changed);

    let (after, reads) = fuzz_reread(&next);
    assert_eq!(reads, vec![FuzzAction::ReadParams]);
    assert!(!after.flags.params_changed);

    let config = fuzz_round_config(false, false, RateChoice::Preset(0), (false, 0, 0), (true, false, 0), 20000);
    let start = fuzz_round_start(&config);
    assert_eq!(start.blocks_to_process, 313);
    assert!(!start.flags.is_sleeping);
}
