//! The population: all islands, ticked together, reset together at
//! generation boundaries, with cross-island migration into stagnant
//! islands.

use vstd::prelude::*;

use crate::configs::NUM_STREAMS;
use crate::configs::STREAM_REJUVENATION_PCT;
use crate::fbits::f32_lt;
use crate::game::Game;
use crate::nn::Net;
use crate::rng::RandGen;
use crate::stream::Stream;
use crate::stream::count_complete_pfx;
use crate::stream::fresh_cohort;
use crate::stream::max_score_pfx;
use crate::stream::quota;
use crate::stream::selected_cohort;

verus! {

/// How many agents are still running over the first `n` islands.
pub open spec fn alive_pfx(ss: Seq<Stream>, n: int) -> int
    decreases n,
{
    if n <= 0 {
        0
    } else {
        alive_pfx(ss, n - 1) + ss[n - 1].games@.len() - count_complete_pfx(
            ss[n - 1].games@,
            ss[n - 1].games@.len() as int,
        )
    }
}

/// The best score over the first `n` islands, or 0 of none.
pub open spec fn pop_max_pfx(ss: Seq<Stream>, n: int) -> int
    decreases n,
{
    if n <= 0 {
        0
    } else {
        let m = pop_max_pfx(ss, n - 1);
        let s = max_score_pfx(ss[n - 1].games@, ss[n - 1].games@.len() as int);
        if s > m {
            s
        } else {
            m
        }
    }
}

/// `b` is the fittest network of island `k` of the pre-reset
/// population: it is some agent's network there, and no agent of
/// that island has a fitness IEEE strictly above that agent's.
pub open spec fn island_best_net(pres: Seq<Stream>, k: int, b: Net) -> bool {
    exists|gi: int|
        0 <= gi < pres[k].games@.len() && b@ == pres[k].games@[gi].brain@ && forall|j: int|
            0 <= j < pres[k].games@.len() ==> !f32_lt(
                pres[k].games@[gi].fitness_spec(),
                (#[trigger] pres[k].games@[j]).fitness_spec(),
            )
}

/// The migration step's visible footprint on one island: its
/// rejuvenation share carries one network that was the fittest of
/// one of the pre-reset islands.
pub open spec fn migrated_cohort(pres: Seq<Stream>, post: Seq<Game>) -> bool {
    exists|src: int, gi: int|
        #![trigger pres[src].games@[gi]]
        0 <= src < pres.len() && 0 <= gi < pres[src].games@.len() && (forall|g: int|
            post.len() - quota(post.len() as int, STREAM_REJUVENATION_PCT as int) <= g < post.len()
                ==> (#[trigger] post[g]).brain@ == pres[src].games@[gi].brain@) && (forall|j: int|
            0 <= j < pres[src].games@.len() ==> !f32_lt(
                pres[src].games@[gi].fitness_spec(),
                (#[trigger] pres[src].games@[j]).fitness_spec(),
            ))
}

/// No more agents are complete than there are agents.
proof fn lemma_count_complete_bound(s: Seq<Game>, n: int)
    requires
        n >= 0,
    ensures
        0 <= count_complete_pfx(s, n) <= n,
    decreases n,
{
    if n > 0 {
        lemma_count_complete_bound(s, n - 1);
    }
}

/// The best score over islands never shrinks as more are seen.
proof fn lemma_pop_max_mono(ss: Seq<Stream>, i: int, j: int)
    requires
        0 <= i <= j,
    ensures
        pop_max_pfx(ss, i) <= pop_max_pfx(ss, j),
    decreases j - i,
{
    if i < j {
        lemma_pop_max_mono(ss, i, j - 1);
    }
}

/// One snapshot handed to the driver at a generation boundary.
pub struct GenerationSummary {
    pub time_elapsed_millis: u64,
    pub max_score: usize,
    pub best_net: Option<Net>,
}

/// All islands, with the time the running generation started.
pub struct Population {
    pub streams: Vec<Stream>,
    pub gen_start_ms: u64,
}

impl Population {
    /// Well-formed: exactly the configured number of well-formed
    /// islands.
    pub open spec fn wf(&self) -> bool {
        &&& self.streams@.len() == NUM_STREAMS
        &&& forall|i: int| 0 <= i < self.streams@.len() ==> (#[trigger] self.streams@[i]).wf()
    }

    /// A fresh population of fresh islands, none with a score
    /// recorded yet.
    pub fn new(rng: &mut RandGen, now_ms: u64) -> (r: Population)
        ensures
            r.wf(),
            r.gen_start_ms == now_ms,
            forall|i: int|
                0 <= i < r.streams@.len() ==> (#[trigger] r.streams@[i]).max_score == 0
                    && r.streams@[i].max_score_at_ms == now_ms
                    && fresh_cohort(r.streams@[i].games@),
    {
        let mut streams: Vec<Stream> = Vec::new();
        for _i in 0..NUM_STREAMS
            invariant
                streams@.len() == _i,
                forall|t: int|
                    0 <= t < streams@.len() ==> (#[trigger] streams@[t]).wf()
                        && streams@[t].max_score == 0 && streams@[t].max_score_at_ms == now_ms
                        && fresh_cohort(streams@[t].games@),
        {
            streams.push(Stream::new(rng, now_ms));
        }
        Population { streams, gen_start_ms: now_ms }
    }

    /// One tick for every island; each agent of island `i` is driven
    /// by its entry in `outputs[i]` and steps exactly once. Returns
    /// how many agents are still running, so the caller can detect
    /// the generation boundary.
    pub fn update(&mut self, outputs: &Vec<Vec<usize>>, rng: &mut RandGen, now_ms: u64) -> (r:
        usize)
        requires
            old(self).wf(),
            outputs@.len() == old(self).streams@.len(),
            forall|i: int|
                0 <= i < outputs@.len() ==> (#[trigger] outputs@[i])@.len()
                    == old(self).streams@[i].games@.len(),
        ensures
            final(self).wf(),
            final(self).gen_start_ms == old(self).gen_start_ms,
            forall|t: int|
                0 <= t < final(self).streams@.len() ==> (#[trigger] final(self).streams@[t]).games@.len()
                    == old(self).streams@[t].games@.len(),
            forall|t: int, g: int|
                0 <= t < final(self).streams@.len() && 0 <= g < final(self).streams@[t].games@.len()
                    ==> Game::tick_rel(
                    old(self).streams@[t].games@[g],
                    #[trigger] final(self).streams@[t].games@[g],
                    outputs@[t]@[g],
                ),
            r == alive_pfx(final(self).streams@, final(self).streams@.len() as int),
    {
        let n = self.streams.len();
        let mut alive: usize = 0;
        let ghost pre = *self;
        for i in 0..n
            invariant
                n == self.streams@.len(),
                pre.streams@.len() == n,
                pre.wf(),
                outputs@.len() == n,
                forall|t: int|
                    0 <= t < n ==> (#[trigger] outputs@[t])@.len() == pre.streams@[t].games@.len(),
                self.gen_start_ms == pre.gen_start_ms,
                forall|t: int| i <= t < n ==> self.streams@[t] == pre.streams@[t],
                forall|t: int| 0 <= t < i ==> (#[trigger] self.streams@[t]).wf(),
                forall|t: int|
                    0 <= t < i ==> (#[trigger] self.streams@[t]).games@.len()
                        == pre.streams@[t].games@.len(),
                forall|t: int, g: int|
                    0 <= t < i && 0 <= g < self.streams@[t].games@.len() ==> Game::tick_rel(
                        pre.streams@[t].games@[g],
                        #[trigger] self.streams@[t].games@[g],
                        outputs@[t]@[g],
                    ),
                alive == alive_pfx(self.streams@, i as int),
                alive <= i * crate::configs::NUM_GAMES_PER_STREAM,
        {
            let ghost before = self.streams@;
            proof {
                assert(self.streams@[i as int] == pre.streams@[i as int]);
                assert(pre.streams@[i as int].wf());
            }
            let c = self.streams[i].update(&outputs[i], rng, now_ms);
            proof {
                lemma_alive_congruent(before, self.streams@, i as int);
                lemma_count_complete_bound(
                    self.streams@[i as int].games@,
                    self.streams@[i as int].games@.len() as int,
                );
            }
            let total = self.streams[i].games.len();
            alive = alive + (total - c);
        }
        alive
    }

    /// The generation boundary: note which islands are stagnant
    /// against the clock that ran through the generation, reset every
    /// island — collecting each island's best network — and then, if
    /// more than one island exists, inject a uniformly chosen best
    /// network into every island that was stagnant. An island that
    /// was not (or with a single island, every island) keeps its
    /// selection cohort; an injected island's rejuvenation share
    /// carries a pre-reset best network instead.
    pub fn reset(&mut self, rng: &mut RandGen, now_ms: u64)
        requires
            old(self).wf(),
            forall|t: int|
                0 <= t < old(self).streams@.len() ==> (#[trigger] old(self).streams@[t]).max_score_at_ms
                    <= now_ms,
        ensures
            final(self).wf(),
            final(self).gen_start_ms == now_ms,
            forall|t: int|
                0 <= t < final(self).streams@.len()
                    ==> (#[trigger] final(self).streams@[t]).max_score == 0
                        && final(self).streams@[t].max_score_at_ms == now_ms
                        && fresh_cohort(final(self).streams@[t].games@),
            forall|t: int|
                0 <= t < final(self).streams@.len() && !(old(self).streams@.len() > 1
                    && old(self).streams@[t].stagnant_spec(now_ms)) ==> selected_cohort(
                    old(self).streams@[t].games@,
                    (#[trigger] final(self).streams@[t]).games@,
                ),
            forall|t: int|
                0 <= t < final(self).streams@.len() && old(self).streams@.len() > 1
                    && old(self).streams@[t].stagnant_spec(now_ms) ==> migrated_cohort(
                    old(self).streams@,
                    (#[trigger] final(self).streams@[t]).games@,
                ),
    {
        let n = self.streams.len();
        let ghost pre = *self;
        let mut stagnant: Vec<bool> = Vec::new();
        for i in 0..n
            invariant
                *self == pre,
                pre.wf(),
                n == self.streams@.len(),
                forall|t: int|
                    0 <= t < n ==> (#[trigger] pre.streams@[t]).max_score_at_ms <= now_ms,
                stagnant@.len() == i,
                forall|t: int|
                    0 <= t < i ==> #[trigger] stagnant@[t] == pre.streams@[t].stagnant_spec(now_ms),
        {
            proof {
                assert(pre.streams@[i as int].max_score_at_ms <= now_ms);
            }
            stagnant.push(self.streams[i].is_local_maximum(now_ms));
        }
        self.gen_start_ms = now_ms;
        let mut nets: Vec<Net> = Vec::new();
        for i in 0..n
            invariant
                n == self.streams@.len(),
                pre.streams@.len() == n,
                pre.wf(),
                self.gen_start_ms == now_ms,
                nets@.len() == i,
                forall|k: int|
                    0 <= k < nets@.len() ==> (#[trigger] nets@[k]).wf()
                        && nets@[k].default_topology() && island_best_net(pre.streams@, k, nets@[k]),
                forall|t: int| i <= t < n ==> self.streams@[t] == pre.streams@[t],
                forall|t: int|
                    0 <= t < i ==> (#[trigger] self.streams@[t]).wf()
                        && self.streams@[t].max_score == 0
                        && self.streams@[t].max_score_at_ms == now_ms
                        && fresh_cohort(self.streams@[t].games@)
                        && selected_cohort(pre.streams@[t].games@, self.streams@[t].games@),
        {
            proof {
                assert(self.streams@[i as int] == pre.streams@[i as int]);
                assert(pre.streams@[i as int].wf());
            }
            let best = self.streams[i].reset(rng, now_ms);
            proof {
                let gi = choose|gi: int|
                    0 <= gi < pre.streams@[i as int].games@.len() && best@ == pre.streams@[i as int].games@[gi].brain@
                        && forall|j: int|
                        0 <= j < pre.streams@[i as int].games@.len() ==> !f32_lt(
                            pre.streams@[i as int].games@[gi].fitness_spec(),
                            (#[trigger] pre.streams@[i as int].games@[j]).fitness_spec(),
                        );
                assert(island_best_net(pre.streams@, i as int, best));
            }
            nets.push(best);
        }
        if self.streams.len() <= 1 {
            return;
        }
        for i in 0..n
            invariant
                n == self.streams@.len(),
                pre.streams@.len() == n,
                n > 1,
                pre.wf(),
                self.gen_start_ms == now_ms,
                stagnant@.len() == n,
                forall|t: int|
                    0 <= t < n ==> #[trigger] stagnant@[t] == pre.streams@[t].stagnant_spec(now_ms),
                nets@.len() == n,
                forall|k: int|
                    0 <= k < nets@.len() ==> (#[trigger] nets@[k]).wf()
                        && nets@[k].default_topology() && island_best_net(pre.streams@, k, nets@[k]),
                forall|t: int|
                    0 <= t < n ==> (#[trigger] self.streams@[t]).wf()
                        && self.streams@[t].max_score == 0
                        && self.streams@[t].max_score_at_ms == now_ms
                        && fresh_cohort(self.streams@[t].games@),
                forall|t: int|
                    0 <= t < n && (i <= t || !stagnant@[t]) ==> selected_cohort(
                        pre.streams@[t].games@,
                        (#[trigger] self.streams@[t]).games@,
                    ),
                forall|t: int|
                    0 <= t < i && stagnant@[t] ==> migrated_cohort(
                        pre.streams@,
                        (#[trigger] self.streams@[t]).games@,
                    ),
        {
            if stagnant[i] {
                let k = rng.gen_index(nets.len());
                let ghost pre_inject = self.streams@[i as int];
                proof {
                    assert(nets@[k as int].wf() && nets@[k as int].default_topology());
                    assert(self.streams@[i as int].wf());
                }
                self.streams[i].inject(&nets[k], rng, now_ms);
                proof {
                    let post = self.streams@[i as int].games@;
                    let share = quota(post.len() as int, STREAM_REJUVENATION_PCT as int);
                    assert forall|g: int| 0 <= g < post.len() implies !(#[trigger] post[g]).is_complete
                        && post[g].body@.len() == 1 && post[g].steps_spec() == 0
                        && post[g].no_food_spec() == 0 by {
                        if g < post.len() - share {
                            assert(post[g] == pre_inject.games@[g + share]);
                        }
                    }
                    let gi = choose|gi: int|
                        0 <= gi < pre.streams@[k as int].games@.len() && nets@[k as int]@
                            == pre.streams@[k as int].games@[gi].brain@ && forall|j: int|
                            0 <= j < pre.streams@[k as int].games@.len() ==> !f32_lt(
                                pre.streams@[k as int].games@[gi].fitness_spec(),
                                (#[trigger] pre.streams@[k as int].games@[j]).fitness_spec(),
                            );
                    assert forall|g: int|
                        post.len() - share <= g < post.len() implies (#[trigger] post[g]).brain@
                            == pre.streams@[k as int].games@[gi].brain@ by {
                        assert(post[g].brain@ == nets@[k as int]@);
                    }
                    assert(migrated_cohort(pre.streams@, post));
                }
            }
        }
    }

    /// The snapshot for the generation that just ended: the elapsed
    /// wall-clock time, the best score over all islands, and a copy
    /// of the network that reached it.
    pub fn get_gen_summary(&self, now_ms: u64) -> (r: GenerationSummary)
        requires
            self.wf(),
            self.gen_start_ms <= now_ms,
        ensures
            r.time_elapsed_millis == now_ms - self.gen_start_ms,
            r.max_score == pop_max_pfx(self.streams@, self.streams@.len() as int),
            r.max_score >= 1,
            match r.best_net {
                Some(b) => b.wf() && b.default_topology() && exists|t: int, g: int|
                    0 <= t < self.streams@.len() && 0 <= g < self.streams@[t].games@.len()
                        && (#[trigger] self.streams@[t].games@[g]).score_spec() == r.max_score
                        && b@ == self.streams@[t].games@[g].brain@,
                None => false,
            },
    {
        let n = self.streams.len();
        let mut max_score: usize = 0;
        let mut best_net: Option<Net> = None;
        for i in 0..n
            invariant
                n == self.streams@.len(),
                self.wf(),
                max_score == pop_max_pfx(self.streams@, i as int),
                max_score > 0 ==> match best_net {
                    Some(b) => b.wf() && b.default_topology() && exists|t: int, g: int|
                        0 <= t < i && 0 <= g < self.streams@[t].games@.len()
                            && (#[trigger] self.streams@[t].games@[g]).score_spec() == max_score
                            && b@ == self.streams@[t].games@[g].brain@,
                    None => false,
                },
        {
            proof {
                assert(self.streams@[i as int].wf());
            }
            let (stream_score, stream_net) = self.streams[i].get_stream_summary();
            if stream_score > max_score {
                max_score = stream_score;
                best_net = stream_net;
            }
        }
        proof {
            assert(self.streams@[0].wf());
            assert(pop_max_pfx(self.streams@, 1) >= 1);
            lemma_pop_max_mono(self.streams@, 1, n as int);
        }
        GenerationSummary {
            time_elapsed_millis: now_ms - self.gen_start_ms,
            max_score,
            best_net,
        }
    }
}

/// Prefix congruence: the alive fold reads only the first `n` slots.
proof fn lemma_alive_congruent(s1: Seq<Stream>, s2: Seq<Stream>, n: int)
    requires
        0 <= n <= s1.len(),
        n <= s2.len(),
        forall|t: int| 0 <= t < n ==> s1[t] == s2[t],
    ensures
        alive_pfx(s1, n) == alive_pfx(s2, n),
    decreases n,
{
    if n > 0 {
        lemma_alive_congruent(s1, s2, n - 1);
    }
}

} // verus!
