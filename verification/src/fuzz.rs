//! The fuzzer's decisions: which plugins it fuzzes, whether it reproduces a single chunk, and the
//! round-robin order in which chunks go to the plugins until time runs out.
//!
//! Loading the libraries, drawing seeds, timing and running the chunks is left to the caller.

use vstd::prelude::*;
use crate::settings::{FuzzSettings, SandboxedFuzzerChunk};
use crate::validate::plugin_selected;

verus! {

/// The library path and plugin ID pairs selected for fuzzing: each plugin of each library in
/// order, when no plugin ID was asked for or the plugin has that ID.
pub open spec fn selected_targets(discovered: Seq<(String, Vec<String>)>, plugin_id: Option<String>) -> Seq<(Seq<char>, Seq<char>)>
    decreases discovered.len(),
{
    if discovered.len() == 0 {
        Seq::empty()
    } else {
        let (path, ids) = discovered.last();
        selected_targets(discovered.drop_last(), plugin_id) + ids@.filter(
            |id: String| match plugin_id {
                None => true,
                Some(p) => p@ == id@,
            },
        ).map_values(|id: String| (path@, id@))
    }
}

/// The pairs as plain character sequences.
pub open spec fn pair_views(pairs: Seq<(String, String)>) -> Seq<(Seq<char>, Seq<char>)> {
    pairs.map_values(|p: (String, String)| (p.0@, p.1@))
}

/// Selects the plugins to fuzz from the plugins found in each library, in order.
pub fn discover(discovered: &Vec<(String, Vec<String>)>, plugin_id: &Option<String>) -> (r: Vec<(String, String)>)
    ensures
        pair_views(r@) == selected_targets(discovered@, *plugin_id),
{
    let mut out: Vec<(String, String)> = Vec::new();
    let mut i: usize = 0;
    while i < discovered.len()
        invariant
            i <= discovered@.len(),
            pair_views(out@) == selected_targets(discovered@.subrange(0, i as int), *plugin_id),
        decreases discovered@.len() - i,
    {
        let path = &discovered[i].0;
        let ids = &discovered[i].1;
        let ghost pred = |id: String| match *plugin_id {
            None => true,
            Some(p) => p@ == id@,
        };
        let ghost base = out@;
        let mut j: usize = 0;
        proof {
            reveal(Seq::filter);
            assert(ids@.subrange(0, 0) =~= Seq::<String>::empty());
            assert(pair_views(out@) =~= pair_views(base) + ids@.subrange(0, 0).filter(pred).map_values(
                |id: String| (path@, id@),
            ));
        }
        while j < ids.len()
            invariant
                j <= ids@.len(),
                pred == (|id: String| match *plugin_id {
                    None => true,
                    Some(p) => p@ == id@,
                }),
                pair_views(out@) == pair_views(base) + ids@.subrange(0, j as int).filter(pred).map_values(
                    |id: String| (path@, id@),
                ),
            decreases ids@.len() - j,
        {
            let ghost before = out@;
            let ghost prev = ids@.subrange(0, j as int);
            proof {
                assert(ids@.subrange(0, j + 1) =~= prev.push(ids@[j as int]));
                crate::events::lemma_filter_push(prev, ids@[j as int], pred);
            }
            if plugin_selected(plugin_id, &ids[j]) {
                out.push((path.clone(), ids[j].clone()));
                proof {
                    assert(pair_views(out@) =~= pair_views(before).push((path@, ids@[j as int]@)));
                    let f = |id: String| (path@, id@);
                    assert(prev.push(ids@[j as int]).filter(pred).map_values(f) =~= prev.filter(pred).map_values(f).push(
                        f(ids@[j as int]),
                    ));
                    assert(pair_views(out@) =~= pair_views(base) + ids@.subrange(0, j + 1).filter(pred).map_values(f));
                }
            } else {
                proof {
                    let f = |id: String| (path@, id@);
                    assert(ids@.subrange(0, j + 1).filter(pred) == prev.filter(pred));
                }
            }
            j = j + 1;
        }
        proof {
            let done = discovered@.subrange(0, i + 1);
            assert(done.drop_last() =~= discovered@.subrange(0, i as int));
            assert(done.last() == discovered@[i as int]);
            assert(ids@.subrange(0, ids@.len() as int) =~= ids@);
        }
        i = i + 1;
    }
    proof {
        assert(discovered@.subrange(0, discovered@.len() as int) =~= discovered@);
    }
    out
}

/// What the fuzzer does with the plugins it selected.
#[derive(Debug)]
pub enum FuzzPlan {
    /// Run the one chunk with this seed, in this process.
    Reproduce { library: String, plugin_id: String, seed: u64 },
    /// Hand chunks to the plugins in turn until time runs out.
    RoundRobin(FuzzSchedule),
}

/// Why the fuzzer does not start.
#[derive(Debug, Clone, Copy, PartialEq, Eq, Structural)]
pub enum FuzzError {
    /// No plugin was selected.
    NoPluginsSelected,
    /// A chunk can only be reproduced for a single plugin.
    ReproduceNeedsOnePlugin,
}

/// The round-robin order of fuzzing chunks: the plugins in turn, the first again after the last,
/// for as long as the time allows.
#[derive(Debug)]
pub struct FuzzSchedule {
    targets: Vec<(String, String)>,
    next: usize,
    duration_millis: Option<u128>,
}

impl FuzzSchedule {
    /// The plugins taking turns.
    pub closed spec fn targets_spec(&self) -> Seq<(Seq<char>, Seq<char>)> {
        pair_views(self.targets@)
    }

    /// The plugin whose turn is next.
    pub closed spec fn next_spec(&self) -> int {
        self.next as int
    }

    /// How long fuzzing may go on, in milliseconds.
    pub closed spec fn duration_spec(&self) -> Option<u128> {
        self.duration_millis
    }

    /// There is a plugin to take turns, and the next turn names one of them.
    pub closed spec fn wf(&self) -> bool {
        &&& self.targets@.len() > 0
        &&& self.next < self.targets@.len()
    }

    /// The next chunk, when `elapsed_millis` milliseconds after the start fuzzing may still go on:
    /// the plugin whose turn it is, with the seed drawn for the chunk. The turn then passes on.
    pub fn next_chunk(&mut self, seed: u64, elapsed_millis: u128) -> (r: Option<SandboxedFuzzerChunk>)
        requires
            old(self).wf(),
        ensures
            final(self).wf(),
            final(self).targets_spec() == old(self).targets_spec(),
            final(self).duration_spec() == old(self).duration_spec(),
            r is None <==> (old(self).duration_spec() matches Some(d) && elapsed_millis >= d),
            r is None ==> final(self).next_spec() == old(self).next_spec(),
            r matches Some(chunk) ==> {
                &&& (chunk.library@, chunk.plugin_id@) == old(self).targets_spec()[old(self).next_spec()]
                &&& chunk.seed == seed
                &&& final(self).next_spec() == (old(self).next_spec() + 1) % (old(self).targets_spec().len() as int)
            },
    {
        match self.duration_millis {
            Some(d) => {
                if elapsed_millis >= d {
                    return None;
                }
            },
            None => {},
        }
        let ghost k = self.next as int;
        let (library, plugin_id) = (self.targets[self.next].0.clone(), self.targets[self.next].1.clone());
        assert(pair_views(self.targets@)[k] == (self.targets@[k].0@, self.targets@[k].1@));
        let n = self.targets.len();
        self.next = if self.next + 1 == n {
            0
        } else {
            self.next + 1
        };
        assert(self.next as int == (k + 1) % (n as int)) by (nonlinear_arith)
            requires
                0 <= k < n,
                self.next as int == if k + 1 == n { 0 } else { k + 1 },
        ;
        Some(SandboxedFuzzerChunk { library, plugin_id, seed })
    }
}

/// Decides how to fuzz the plugins selected from the discovered libraries: no selected plugin is
/// an error; with a seed to reproduce there must be exactly one plugin, which gets the one chunk;
/// otherwise the plugins take turns, starting with the first, for the configured time.
pub fn fuzz(settings: &FuzzSettings, discovered: &Vec<(String, Vec<String>)>) -> (r: Result<FuzzPlan, FuzzError>)
    ensures
        ({
            let targets = selected_targets(discovered@, settings.plugin_id);
            &&& (r == Err::<FuzzPlan, FuzzError>(FuzzError::NoPluginsSelected)) <==> targets.len() == 0
            &&& (r == Err::<FuzzPlan, FuzzError>(FuzzError::ReproduceNeedsOnePlugin)) <==> (targets.len() > 1
                && settings.reproduce is Some)
            &&& r matches Ok(FuzzPlan::Reproduce { library, plugin_id, seed }) ==> targets.len() == 1
                && settings.reproduce == Some(seed) && (library@, plugin_id@) == targets[0]
            &&& r matches Ok(FuzzPlan::RoundRobin(s)) ==> {
                &&& settings.reproduce is None
                &&& s.wf()
                &&& s.targets_spec() == targets
                &&& s.next_spec() == 0
                &&& s.duration_spec() == settings.duration_millis
            }
            &&& r is Ok ==> (r->Ok_0 is Reproduce <==> settings.reproduce is Some)
        }),
{
    let targets = discover(discovered, &settings.plugin_id);
    if targets.len() == 0 {
        return Err(FuzzError::NoPluginsSelected);
    }
    match settings.reproduce {
        Some(seed) => {
            if targets.len() > 1 {
                return Err(FuzzError::ReproduceNeedsOnePlugin);
            }
            let library = targets[0].0.clone();
            let plugin_id = targets[0].1.clone();
            assert(pair_views(targets@)[0] == (targets@[0].0@, targets@[0].1@));
            Ok(FuzzPlan::Reproduce { library, plugin_id, seed })
        },
        None => Ok(FuzzPlan::RoundRobin(FuzzSchedule { targets, next: 0, duration_millis: settings.duration_millis })),
    }
}

/// The number of blocks of `max_buffer_size` samples a fuzzing round processes to cover at least
/// `samples` samples.
pub fn blocks_for(samples: u32, max_buffer_size: u32) -> (r: u32)
    requires
        max_buffer_size > 0,
    ensures
        r as int == (samples as int + max_buffer_size as int - 1) / max_buffer_size as int,
        (r as int) * (max_buffer_size as int) >= samples as int,
        r > 0 ==> ((r - 1) as int) * (max_buffer_size as int) < samples as int,
{
    let q = samples / max_buffer_size;
    let rem = samples % max_buffer_size;
    let ghost m = max_buffer_size as int;
    proof {
        vstd::arithmetic::div_mod::lemma_fundamental_div_mod(samples as int, m);
        vstd::arithmetic::mul::lemma_mul_is_commutative(m, q as int);
        assert(samples as int == (q as int) * m + rem as int);
        vstd::arithmetic::mul::lemma_mul_is_distributive_add_other_way(m, q as int, 1);
        vstd::arithmetic::mul::lemma_mul_is_distributive_sub_other_way(m, q as int, 1);
    }
    if rem == 0 {
        proof {
            vstd::arithmetic::div_mod::lemma_fundamental_div_mod_converse(
                samples as int + m - 1,
                m,
                q as int,
                m - 1,
            );
        }
        q
    } else {
        proof {
            if q as int >= 0xFFFF_FFFF {
                vstd::arithmetic::mul::lemma_mul_inequality(0xFFFF_FFFF, q as int, m);
            }
            vstd::arithmetic::div_mod::lemma_fundamental_div_mod_converse(
                samples as int + m - 1,
                m,
                q + 1,
                rem - 1,
            );
        }
        q + 1
    }
}

/// The largest block sizes a fuzzing round picks from, most of the time.
pub open spec fn preset_buffer_sizes() -> Seq<u32> {
    seq![64u32, 128, 256, 512, 1024, 2048, 4096]
}

/// The largest block size of a fuzzing round: the size drawn between one and 9999 when the
/// first draw says so, otherwise the preset size at the drawn index.
pub fn max_buffer_size(use_drawn: bool, preset_index: usize, drawn: u32) -> (r: u32)
    requires
        preset_index < preset_buffer_sizes().len(),
    ensures
        r == if use_drawn {
            drawn
        } else {
            preset_buffer_sizes()[preset_index as int]
        },
{
    if use_drawn {
        return drawn;
    }
    let presets: [u32; 7] = [64, 128, 256, 512, 1024, 2048, 4096];
    assert(presets@ =~= preset_buffer_sizes());
    presets[preset_index]
}

/// The smallest block size of a fuzzing round: the largest size when the first draw says so,
/// otherwise one when the second draw says so, otherwise the size drawn between one and the
/// largest.
pub fn min_buffer_size(max_buffer_size: u32, same_as_max: bool, one: bool, drawn: u32) -> (r: u32)
    ensures
        r == if same_as_max {
            max_buffer_size
        } else if one {
            1
        } else {
            drawn
        },
{
    if same_as_max {
        max_buffer_size
    } else if one {
        1
    } else {
        drawn
    }
}

/// How the size of the next block in a fuzzing round is chosen.
#[derive(Debug, Clone, Copy, PartialEq, Eq, Structural)]
pub enum BlockSizeChoice {
    /// A size drawn between the smallest and the largest block size.
    Drawn(u32),
    /// The largest block size.
    Largest,
    /// The smallest block size.
    Smallest,
}

/// The number of samples in the next block of a fuzzing round.
pub fn block_size(choice: BlockSizeChoice, min_buffer_size: u32, max_buffer_size: u32) -> (r: u32)
    ensures
        r == match choice {
            BlockSizeChoice::Drawn(n) => n,
            BlockSizeChoice::Largest => max_buffer_size,
            BlockSizeChoice::Smallest => min_buffer_size,
        },
{
    match choice {
        BlockSizeChoice::Drawn(n) => n,
        BlockSizeChoice::Largest => max_buffer_size,
        BlockSizeChoice::Smallest => min_buffer_size,
    }
}

} // verus!
