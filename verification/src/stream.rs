//! One island: a fixed-size cohort of agents evolved together, with
//! a running maximum score, stagnation detection, generational
//! selection and breeding, and injection of outside networks.

use vstd::prelude::*;

use crate::configs::NUM_GAMES_PER_STREAM;
use crate::configs::POP_CHILDREN_PCT;
use crate::configs::POP_RANDOM_PCT;
use crate::configs::POP_RETAINED_MUTATED_PCT;
use crate::configs::POP_RETAINED_PCT;
use crate::configs::STREAM_LOCAL_MAX_WAIT_MILLIS;
use crate::configs::STREAM_REJUVENATION_PCT;
use crate::fbits::F32_HUNDRED_BITS;
use crate::fbits::apf32_div;
use crate::fbits::apf32_mul;
use crate::fbits::apf32_scalbn;
use crate::fbits::apf32_trunc;
use crate::fbits::f32_is_finite_bits;
use crate::fbits::f32_lt;
use crate::fbits::f32_lt_bits;
use crate::game::Game;
use crate::nn::Net;
use crate::rng::RandGen;
use crate::rng::gene_pool_new;

verus! {

/// How many of the first `n` games are complete.
pub open spec fn count_complete_pfx(s: Seq<Game>, n: int) -> int
    decreases n,
{
    if n <= 0 {
        0
    } else {
        count_complete_pfx(s, n - 1) + if s[n - 1].is_complete { 1int } else { 0int }
    }
}

/// The largest score among the first `n` games, or 0 of none.
pub open spec fn max_score_pfx(s: Seq<Game>, n: int) -> int
    decreases n,
{
    if n <= 0 {
        0
    } else {
        let m = max_score_pfx(s, n - 1);
        if s[n - 1].score_spec() > m {
            s[n - 1].score_spec()
        } else {
            m
        }
    }
}

/// The whole-number part of `pct` percent of `n`.
pub open spec fn quota(n: int, pct: int) -> int {
    n * pct / 100
}

/// Every agent of the cohort is freshly spawned: still running, a
/// body of one segment, and both step counters at zero.
pub open spec fn fresh_cohort(post: Seq<Game>) -> bool {
    forall|g: int|
        0 <= g < post.len() ==> !(#[trigger] post[g]).is_complete && post[g].body@.len() == 1
            && post[g].steps_spec() == 0 && post[g].no_food_spec() == 0
}

/// `ord` lists the cohort's indices in descending fitness order
/// under the NaN-tolerant comparison: every index appears, and no
/// entry's fitness is IEEE strictly below a later entry's.
pub open spec fn fitness_order(games: Seq<Game>, ord: Seq<usize>) -> bool {
    &&& ord.len() == games.len()
    &&& forall|k: int| 0 <= k < ord.len() ==> #[trigger] ord[k] < games.len()
    &&& forall|a: int, b: int|
        0 <= a < b < ord.len() ==> !f32_lt(
            games[ord[a] as int].fitness_spec(),
            games[ord[b] as int].fitness_spec(),
        )
    &&& forall|v: usize| v < games.len() ==> ord.contains(v)
}

/// The selection step's visible footprint: the first retained-quota
/// slots of the new cohort carry, in descending fitness order and
/// unmodified, the networks of the old cohort's fittest agents.
pub open spec fn selected_cohort(pre: Seq<Game>, post: Seq<Game>) -> bool {
    exists|ord: Seq<usize>|
        fitness_order(pre, ord) && forall|u: int|
            0 <= u < quota(pre.len() as int, POP_RETAINED_PCT as int) ==> (#[trigger] post[u]).brain@
                == pre[ord[u] as int].brain@
}

/// Exhibiting a witness order proves the selection footprint.
proof fn lemma_selected_cohort(pre: Seq<Game>, post: Seq<Game>, ord: Seq<usize>)
    requires
        fitness_order(pre, ord),
        forall|u: int|
            0 <= u < quota(pre.len() as int, POP_RETAINED_PCT as int) ==> (#[trigger] post[u]).brain@
                == pre[ord[u] as int].brain@,
    ensures
        selected_cohort(pre, post),
{
}

/// Executable mirror of `quota`.
pub fn quota_exec(n: usize, pct: usize) -> (r: usize)
    requires
        n <= 40_000,
        pct <= 100,
    ensures
        r == quota(n as int, pct as int),
        r <= n,
{
    proof {
        assert(n * pct <= n * 100 && n * pct / 100 <= n) by (nonlinear_arith)
            requires n <= 40_000 && pct <= 100;
    }
    n * pct / 100
}

/// The four generation-reset quotas fill the cohort exactly whenever
/// the cohort size is a multiple of 100: truncation loses nothing.
/// For other sizes the truncated quotas can fall short.
pub proof fn lemma_reset_quotas_fill_cohort(n: int)
    requires
        n >= 0,
        n % 100 == 0,
    ensures
        quota(n, POP_RETAINED_PCT as int) + quota(n, POP_CHILDREN_PCT as int) + quota(
            n,
            POP_RANDOM_PCT as int,
        ) + quota(n, POP_RETAINED_MUTATED_PCT as int) == n,
{
    let k = n / 100;
    assert(n == 100 * k);
    assert(100 * k * 1 / 100 == 1 * k) by (nonlinear_arith);
    assert(100 * k * 50 / 100 == 50 * k) by (nonlinear_arith);
    assert(100 * k * 20 / 100 == 20 * k) by (nonlinear_arith);
    assert(100 * k * 29 / 100 == 29 * k) by (nonlinear_arith);
}

/// Prefix congruence: the two folds read only the first `n` slots.
proof fn lemma_pfx_congruent(s1: Seq<Game>, s2: Seq<Game>, n: int)
    requires
        0 <= n <= s1.len(),
        n <= s2.len(),
        forall|t: int| 0 <= t < n ==> s1[t] == s2[t],
    ensures
        count_complete_pfx(s1, n) == count_complete_pfx(s2, n),
        max_score_pfx(s1, n) == max_score_pfx(s2, n),
    decreases n,
{
    if n > 0 {
        lemma_pfx_congruent(s1, s2, n - 1);
    }
}

/// The running maximum never shrinks as the prefix grows.
proof fn lemma_max_pfx_mono(s: Seq<Game>, i: int, j: int)
    requires
        0 <= i <= j,
    ensures
        max_score_pfx(s, i) <= max_score_pfx(s, j),
    decreases j - i,
{
    if i < j {
        lemma_max_pfx_mono(s, i, j - 1);
    }
}

/// One island of agents.
pub struct Stream {
    pub games: Vec<Game>,
    pub max_score: usize,
    pub max_score_at_ms: u64,
}

impl Stream {
    /// Well-formed: the cohort holds exactly the configured number of
    /// well-formed agents.
    pub open spec fn wf(&self) -> bool {
        &&& self.games@.len() == NUM_GAMES_PER_STREAM
        &&& forall|i: int| 0 <= i < self.games@.len() ==> (#[trigger] self.games@[i]).wf()
    }

    /// The island is stagnant at `now_ms`: the wait threshold has
    /// passed since the maximum score last improved.
    pub open spec fn stagnant_spec(&self, now_ms: u64) -> bool {
        now_ms - self.max_score_at_ms > STREAM_LOCAL_MAX_WAIT_MILLIS
    }

    /// A fresh island: a full cohort of fresh agents, with no score
    /// recorded yet.
    pub fn new(rng: &mut RandGen, now_ms: u64) -> (r: Stream)
        ensures
            r.wf(),
            r.max_score == 0,
            r.max_score_at_ms == now_ms,
            fresh_cohort(r.games@),
    {
        let mut games: Vec<Game> = Vec::new();
        for _i in 0..NUM_GAMES_PER_STREAM
            invariant
                games@.len() == _i,
                forall|t: int| 0 <= t < games@.len() ==> (#[trigger] games@[t]).wf(),
                fresh_cohort(games@),
        {
            games.push(Game::new(rng));
        }
        Stream { games, max_score: 0, max_score_at_ms: now_ms }
    }

    /// One tick for the whole cohort, each agent driven by its
    /// network output index in `outputs`; records a new running
    /// maximum score, with a fresh stagnation timestamp, whenever any
    /// agent's score exceeds it. Returns how many agents are
    /// complete.
    pub fn update(&mut self, outputs: &Vec<usize>, rng: &mut RandGen, now_ms: u64) -> (r: usize)
        requires
            old(self).wf(),
            outputs@.len() == old(self).games@.len(),
        ensures
            final(self).wf(),
            final(self).games@.len() == old(self).games@.len(),
            forall|i: int| 0 <= i < final(self).games@.len()
                ==> Game::tick_rel(old(self).games@[i], #[trigger] final(self).games@[i], outputs@[i]),
            r == count_complete_pfx(final(self).games@, final(self).games@.len() as int),
            final(self).max_score == (if max_score_pfx(
                final(self).games@,
                final(self).games@.len() as int,
            ) > old(self).max_score { max_score_pfx(
                final(self).games@,
                final(self).games@.len() as int,
            ) } else { old(self).max_score as int }),
            final(self).max_score_at_ms == (if final(self).max_score > old(self).max_score {
                now_ms
            } else {
                old(self).max_score_at_ms
            }),
    {
        let n = self.games.len();
        let mut count: usize = 0;
        let ghost pre = *self;
        for i in 0..n
            invariant
                n == self.games@.len(),
                pre.games@.len() == n,
                pre.max_score == old(self).max_score,
                pre.max_score_at_ms == old(self).max_score_at_ms,
                outputs@.len() == n,
                pre.wf(),
                forall|t: int| i <= t < n ==> self.games@[t] == pre.games@[t],
                forall|t: int| 0 <= t < i
                    ==> Game::tick_rel(pre.games@[t], #[trigger] self.games@[t], outputs@[t]),
                forall|t: int| 0 <= t < i ==> (#[trigger] self.games@[t]).wf(),
                count == count_complete_pfx(self.games@, i as int),
                count <= i,
                self.max_score == (if max_score_pfx(self.games@, i as int) > pre.max_score {
                    max_score_pfx(self.games@, i as int)
                } else {
                    pre.max_score as int
                }),
                self.max_score_at_ms == (if self.max_score > pre.max_score {
                    now_ms
                } else {
                    pre.max_score_at_ms
                }),
        {
            let ghost before = self.games@;
            proof {
                assert(self.games@[i as int] == pre.games@[i as int]);
                assert(pre.games@[i as int].wf());
            }
            self.games[i].update(outputs[i], rng);
            proof {
                lemma_pfx_congruent(before, self.games@, i as int);
            }
            let sc = self.games[i].score();
            if sc > self.max_score {
                self.max_score = sc;
                self.max_score_at_ms = now_ms;
            }
            if self.games[i].is_complete {
                count = count + 1;
            }
        }
        count
    }

    /// Whether the island has plateaued: true exactly when the time
    /// since the last improvement exceeds the configured wait.
    pub fn is_local_maximum(&self, now_ms: u64) -> (r: bool)
        requires
            self.max_score_at_ms <= now_ms,
        ensures
            r == self.stagnant_spec(now_ms),
    {
        now_ms - self.max_score_at_ms > STREAM_LOCAL_MAX_WAIT_MILLIS
    }

    /// The island is never stagnant at the very moment its timestamp
    /// was refreshed: an improvement or an injection clears the
    /// stagnation flag.
    pub proof fn lemma_fresh_timestamp_not_stagnant(&self)
        ensures
            !self.stagnant_spec(self.max_score_at_ms),
    {
    }

    /// Replace the oldest rejuvenation share of the cohort with fresh
    /// agents wired to copies of the given network, and restart the
    /// stagnation clock.
    pub fn inject(&mut self, net: &Net, rng: &mut RandGen, now_ms: u64)
        requires
            old(self).wf(),
            net.wf(),
            net.default_topology(),
        ensures
            final(self).wf(),
            final(self).max_score == 0,
            final(self).max_score_at_ms == now_ms,
            forall|i: int|
                0 <= i < old(self).games@.len() - quota(old(self).games@.len() as int, STREAM_REJUVENATION_PCT as int)
                    ==> final(self).games@[i] == old(self).games@[i + quota(
                    old(self).games@.len() as int,
                    STREAM_REJUVENATION_PCT as int,
                )],
            forall|i: int|
                old(self).games@.len() - quota(old(self).games@.len() as int, STREAM_REJUVENATION_PCT as int)
                    <= i < old(self).games@.len()
                    ==> (#[trigger] final(self).games@[i]).brain@ == net@
                        && !final(self).games@[i].is_complete
                        && final(self).games@[i].body@.len() == 1
                        && final(self).games@[i].steps_spec() == 0
                        && final(self).games@[i].no_food_spec() == 0,
    {
        let n = self.games.len();
        let num = quota_exec(n, STREAM_REJUVENATION_PCT);
        let ghost pre = *self;
        for k in 0..num
            invariant
                num == quota(pre.games@.len() as int, STREAM_REJUVENATION_PCT as int),
                num <= pre.games@.len(),
                pre.wf(),
                self.games@ =~= pre.games@.subrange(k as int, pre.games@.len() as int),
        {
            self.games.remove(0);
            proof {
                assert(self.games@ =~= pre.games@.subrange(k + 1, pre.games@.len() as int));
            }
        }
        let template = Game::with_brain(net, rng);
        for k in 0..num
            invariant
                num == quota(pre.games@.len() as int, STREAM_REJUVENATION_PCT as int),
                num <= pre.games@.len(),
                pre.wf(),
                net.wf(),
                template.wf(),
                template.brain@ == net@,
                !template.is_complete,
                self.games@.len() == pre.games@.len() - num + k,
                forall|t: int| 0 <= t < pre.games@.len() - num
                    ==> self.games@[t] == pre.games@[t + num],
                template.body@.len() == 1,
                template.steps_spec() == 0,
                template.no_food_spec() == 0,
                forall|t: int|
                    pre.games@.len() - num <= t < self.games@.len()
                        ==> (#[trigger] self.games@[t]).brain@ == net@
                            && !self.games@[t].is_complete && self.games@[t].wf()
                            && self.games@[t].body@.len() == 1
                            && self.games@[t].steps_spec() == 0
                            && self.games@[t].no_food_spec() == 0,
        {
            self.games.push(template.duplicate());
        }
        self.max_score = 0;
        self.max_score_at_ms = now_ms;
        proof {
            assert forall|i: int| 0 <= i < self.games@.len() implies (#[trigger] self.games@[i]).wf() by {
                if i < pre.games@.len() - num {
                    assert(self.games@[i] == pre.games@[i + num]);
                    assert(pre.games@[i + num].wf());
                }
            }
        }
    }

    /// The best score in the cohort right now, with a copy of the
    /// network that reached it.
    pub fn get_stream_summary(&self) -> (r: (usize, Option<Net>))
        requires
            self.wf(),
        ensures
            r.0 == max_score_pfx(self.games@, self.games@.len() as int),
            r.0 >= 1,
            match r.1 {
                Some(b) => b.wf() && b.default_topology() && exists|t: int|
                    0 <= t < self.games@.len() && (#[trigger] self.games@[t]).score_spec() == r.0
                        && b@ == self.games@[t].brain@,
                None => false,
            },
    {
        let n = self.games.len();
        let mut max_score: usize = 0;
        let mut best: Option<Net> = None;
        for i in 0..n
            invariant
                n == self.games@.len(),
                self.wf(),
                max_score == max_score_pfx(self.games@, i as int),
                max_score > 0 ==> match best {
                    Some(b) => b.wf() && b.default_topology() && exists|t: int|
                        0 <= t < i && (#[trigger] self.games@[t]).score_spec() == max_score
                            && b@ == self.games@[t].brain@,
                    None => false,
                },
        {
            let sc = self.games[i].score();
            if sc > max_score {
                max_score = sc;
                best = Some(self.games[i].brain.duplicate());
            }
        }
        proof {
            assert(self.games@[0].wf());
            assert(self.games@[0].score_spec() >= 1);
            assert(max_score_pfx(self.games@, 1) >= 1);
            lemma_max_pfx_mono(self.games@, 1, n as int);
        }
        (max_score, best)
    }
}

} // verus!

verus! {

/// Both signs of a single-precision bit pattern are one bit.
proof fn lemma_f32_parts(w: u32)
    ensures
        crate::fbits::f32_sign(w) == 0 || crate::fbits::f32_sign(w) == 1,
{
    assert(w >> 31 == 0 || w >> 31 == 1) by (bit_vector);
}

/// IEEE 754 `<` is transitive.
proof fn lemma_f32_lt_trans(a: u32, b: u32, c: u32)
    requires
        f32_lt(a, b),
        f32_lt(b, c),
    ensures
        f32_lt(a, c),
{
    lemma_f32_parts(a);
    lemma_f32_parts(b);
    lemma_f32_parts(c);
}

/// A swap keeps every value of a sequence present.
proof fn lemma_swap_contains(s1: Seq<usize>, s2: Seq<usize>, i: int, j: int)
    requires
        0 <= i < s1.len(),
        0 <= j < s1.len(),
        s2 == s1.update(i, s1[j]).update(j, s1[i]),
    ensures
        forall|v: usize| s1.contains(v) ==> s2.contains(v),
{
    assert forall|v: usize| s1.contains(v) implies s2.contains(v) by {
        let k = choose|k: int| 0 <= k < s1.len() && s1[k] == v;
        if k == i {
            assert(s2[j] == v);
        } else if k == j {
            assert(s2[i] == v);
        } else {
            assert(s2[k] == v);
        }
    }
}

/// The order of the cohort's indices by descending fitness, under
/// the NaN-tolerant total comparison: no entry's fitness is IEEE
/// strictly below a later entry's, and every index appears.
fn sort_desc_indices(fits: &Vec<u32>) -> (r: Vec<usize>)
    ensures
        r@.len() == fits@.len(),
        forall|k: int| 0 <= k < r@.len() ==> #[trigger] r@[k] < fits@.len(),
        forall|a: int, b: int|
            0 <= a < b < r@.len() ==> !f32_lt(fits@[r@[a] as int], fits@[r@[b] as int]),
        forall|v: usize| v < fits@.len() ==> r@.contains(v),
{
    let n = fits.len();
    let mut order: Vec<usize> = Vec::new();
    for i in 0..n
        invariant
            order@.len() == i,
            forall|k: int| 0 <= k < i ==> #[trigger] order@[k] == k,
    {
        order.push(i);
    }
    proof {
        assert forall|v: usize| v < n implies order@.contains(v) by {
            assert(order@[v as int] == v);
        }
    }
    for i in 0..n
        invariant
            n == fits@.len(),
            order@.len() == n,
            forall|k: int| 0 <= k < n ==> #[trigger] order@[k] < n,
            forall|v: usize| v < n ==> order@.contains(v),
            forall|a: int, b: int|
                0 <= a < i && a < b < n ==> !f32_lt(fits@[order@[a] as int], fits@[order@[b] as int]),
    {
        let mut bi = i;
        for j in (i + 1)..n
            invariant
                n == fits@.len(),
                order@.len() == n,
                forall|k: int| 0 <= k < n ==> #[trigger] order@[k] < n,
                i <= bi < n,
                i < j <= n,
                bi < j,
                forall|t: int| i <= t < j ==> !f32_lt(
                    fits@[order@[bi as int] as int],
                    fits@[order@[t] as int],
                ),
        {
            if f32_lt_bits(fits[order[bi]], fits[order[j]]) {
                proof {
                    let kb = fits@[order@[bi as int] as int];
                    let kj = fits@[order@[j as int] as int];
                    assert forall|t: int| i <= t <= j implies !f32_lt(
                        kj,
                        fits@[order@[t] as int],
                    ) by {
                        if t < j && f32_lt(kj, fits@[order@[t] as int]) {
                            lemma_f32_lt_trans(kb, kj, fits@[order@[t] as int]);
                        }
                    }
                }
                bi = j;
            }
        }
        let ghost osnap = order@;
        let tmp = order[i];
        let vb = order[bi];
        order[i] = vb;
        order[bi] = tmp;
        proof {
            assert(order@ == osnap.update(i as int, osnap[bi as int]).update(
                bi as int,
                osnap[i as int],
            ));
            lemma_swap_contains(osnap, order@, i as int, bi as int);
            assert forall|v: usize| v < n implies order@.contains(v) by {
                assert(osnap.contains(v));
            }
            assert forall|a: int, b: int| 0 <= a < i + 1 && a < b < n implies !f32_lt(
                fits@[order@[a] as int],
                fits@[order@[b] as int],
            ) by {
                if a < i {
                    assert(order@[a] == osnap[a]);
                    if b == i as int {
                        assert(order@[b] == osnap[bi as int]);
                    } else if b == bi as int {
                        assert(order@[b] == osnap[i as int]);
                    } else {
                        assert(order@[b] == osnap[b]);
                    }
                } else {
                    assert(a == i as int);
                    assert(order@[a] == osnap[bi as int]);
                    if b == bi as int {
                        assert(order@[b] == osnap[i as int]);
                    } else {
                        assert(order@[b] == osnap[b]);
                    }
                }
            }
        }
    }
    order
}

impl Stream {
    /// Selection and breeding at the generation boundary: sort the
    /// cohort by fitness, keep the elite unmodified, breed mutated
    /// crossover children whose parents are drawn
    /// fitness-proportionally from the finite-fitness agents, mutate
    /// fresh copies of the elite, fill with fresh agents, and restart
    /// the stagnation clock. Returns a copy of the fittest agent's
    /// network: no other agent's fitness is IEEE strictly above its
    /// own.
    pub fn reset(&mut self, rng: &mut RandGen, now_ms: u64) -> (r: Net)
        requires
            old(self).wf(),
        ensures
            final(self).wf(),
            final(self).max_score == 0,
            final(self).max_score_at_ms == now_ms,
            fresh_cohort(final(self).games@),
            selected_cohort(old(self).games@, final(self).games@),
            r.wf(),
            r.default_topology(),
            exists|i: int|
                0 <= i < old(self).games@.len() && r@ == old(self).games@[i].brain@
                    && forall|j: int|
                    0 <= j < old(self).games@.len() ==> !f32_lt(
                        old(self).games@[i].fitness_spec(),
                        (#[trigger] old(self).games@[j]).fitness_spec(),
                    ),
    {
        let n = self.games.len();
        let ghost pre = *self;
        let mut fits: Vec<u32> = Vec::new();
        for i in 0..n
            invariant
                *self == pre,
                pre.wf(),
                n == self.games@.len(),
                fits@.len() == i,
                forall|t: int| 0 <= t < i
                    ==> #[trigger] fits@[t] == self.games@[t].fitness_spec(),
        {
            fits.push(self.games[i].fitness());
        }
        let order = sort_desc_indices(&fits);

        let num_retained = quota_exec(n, POP_RETAINED_PCT);
        let num_children = quota_exec(n, POP_CHILDREN_PCT);
        let num_random = quota_exec(n, POP_RANDOM_PCT);
        let mut num_mutated = quota_exec(n, POP_RETAINED_MUTATED_PCT);

        let oi0 = order[0];
        let best = self.games[oi0].brain.duplicate();
        proof {
            assert(self.games@[oi0 as int].wf());
            assert forall|j: int| 0 <= j < n implies !f32_lt(
                self.games@[oi0 as int].fitness_spec(),
                (#[trigger] self.games@[j]).fitness_spec(),
            ) by {
                assert(order@.contains(j as usize));
                let k = choose|k: int| 0 <= k < order@.len() && order@[k] == j as usize;
                if k > 0 {
                    assert(!f32_lt(fits@[order@[0] as int], fits@[order@[k] as int]));
                }
                assert(fits@[j] == self.games@[j].fitness_spec());
            }
        }

        let mut max_fit: u32 = 0;
        for i in 0..n
            invariant
                *self == pre,
                pre.wf(),
                n == self.games@.len(),
                fits@.len() == n,
        {
            if f32_lt_bits(max_fit, fits[i]) {
                max_fit = fits[i];
            }
        }
        let mut weights: Vec<u64> = Vec::new();
        let mut finite_idx: Vec<usize> = Vec::new();
        for i in 0..n
            invariant
                *self == pre,
                pre.wf(),
                n == self.games@.len(),
                fits@.len() == n,
                weights@.len() <= i,
                finite_idx@.len() == weights@.len(),
                forall|t: int| 0 <= t < weights@.len() ==> #[trigger] weights@[t] <= 0xFFFF_FFFF,
                forall|t: int| 0 <= t < finite_idx@.len() ==> #[trigger] finite_idx@[t] < n,
        {
            if f32_is_finite_bits(fits[i]) {
                let s = apf32_mul(apf32_div(fits[i], max_fit), F32_HUNDRED_BITS);
                let w = apf32_trunc(apf32_scalbn(s, 20));
                weights.push(w as u64);
                finite_idx.push(i);
            }
        }
        let pool = gene_pool_new(&weights);

        let mut new_games: Vec<Game> = Vec::new();
        for i in 0..num_retained
            invariant
                *self == pre,
                pre.wf(),
                n == self.games@.len(),
                num_retained <= n,
                order@.len() == n,
                forall|k: int| 0 <= k < n ==> #[trigger] order@[k] < n,
                new_games@.len() == i,
                forall|t: int| 0 <= t < new_games@.len() ==> (#[trigger] new_games@[t]).wf(),
                fresh_cohort(new_games@),
                forall|t: int|
                    0 <= t < new_games@.len() && t < num_retained
                        ==> (#[trigger] new_games@[t]).brain@
                            == self.games@[order@[t] as int].brain@,
        {
            let oi = order[i];
            proof {
                assert(self.games@[oi as int].wf());
            }
            new_games.push(Game::with_brain(&self.games[oi].brain, rng));
        }
        match pool {
            Some(p) => {
                for c in 0..num_children
                    invariant
                        *self == pre,
                        pre.wf(),
                        n == self.games@.len(),
                        crate::rng::pool_len(p) == weights@.len(),
                        weights@.len() <= n,
                        finite_idx@.len() == weights@.len(),
                        forall|t: int| 0 <= t < finite_idx@.len() ==> #[trigger] finite_idx@[t] < n,
                        num_retained == quota(n as int, POP_RETAINED_PCT as int),
                        new_games@.len() == num_retained + c,
                        forall|t: int| 0 <= t < new_games@.len()
                            ==> (#[trigger] new_games@[t]).wf(),
                        fresh_cohort(new_games@),
                        order@.len() == n,
                        forall|k: int| 0 <= k < n ==> #[trigger] order@[k] < n,
                        forall|t: int|
                            0 <= t < num_retained ==> (#[trigger] new_games@[t]).brain@
                                == self.games@[order@[t] as int].brain@,
                {
                    let i1 = finite_idx[rng.sample_pool(&p)];
                    let i2 = finite_idx[rng.sample_pool(&p)];
                    proof {
                        assert(self.games@[i1 as int].wf());
                        assert(self.games@[i2 as int].wf());
                    }
                    proof {
                        assert(self.games@[i1 as int].brain.topo_eq(&self.games@[i2 as int].brain));
                    }
                    let mut child = self.games[i1].brain.merge(&self.games[i2].brain, rng);
                    proof {
                        assert(child.default_topology());
                    }
                    child.mutate(rng);
                    proof {
                        assert(child.default_topology());
                    }
                    new_games.push(Game::with_brain(&child, rng));
                }
            },
            None => {
                num_mutated = num_mutated + num_children;
            },
        }
        let took_children = new_games.len();
        for i in 0..num_mutated
            invariant
                *self == pre,
                pre.wf(),
                n == self.games@.len(),
                num_mutated <= n,
                order@.len() == n,
                forall|k: int| 0 <= k < n ==> #[trigger] order@[k] < n,
                num_retained == quota(n as int, POP_RETAINED_PCT as int),
                num_retained <= took_children,
                new_games@.len() == took_children + i,
                forall|t: int| 0 <= t < new_games@.len() ==> (#[trigger] new_games@[t]).wf(),
                fresh_cohort(new_games@),
                forall|t: int|
                    0 <= t < num_retained ==> (#[trigger] new_games@[t]).brain@
                        == self.games@[order@[t] as int].brain@,
        {
            let oi = order[i];
            proof {
                assert(self.games@[oi as int].wf());
            }
            let mut brain = self.games[oi].brain.duplicate();
            proof {
                assert(brain.wf() && brain.default_topology());
            }
            brain.mutate(rng);
            proof {
                assert(brain.default_topology());
            }
            new_games.push(Game::with_brain(&brain, rng));
        }
        for i in 0..num_random
            invariant
                *self == pre,
                n == self.games@.len(),
                num_retained == quota(n as int, POP_RETAINED_PCT as int),
                num_retained <= took_children,
                order@.len() == n,
                forall|k: int| 0 <= k < n ==> #[trigger] order@[k] < n,
                new_games@.len() == took_children + num_mutated + i,
                forall|t: int| 0 <= t < new_games@.len() ==> (#[trigger] new_games@[t]).wf(),
                fresh_cohort(new_games@),
                forall|t: int|
                    0 <= t < num_retained ==> (#[trigger] new_games@[t]).brain@
                        == self.games@[order@[t] as int].brain@,
        {
            new_games.push(Game::new(rng));
        }
        self.games = new_games;
        self.max_score = 0;
        self.max_score_at_ms = now_ms;
        proof {
            assert forall|a: int, b: int| 0 <= a < b < order@.len() implies !f32_lt(
                pre.games@[order@[a] as int].fitness_spec(),
                pre.games@[order@[b] as int].fitness_spec(),
            ) by {
                assert(fits@[order@[a] as int] == pre.games@[order@[a] as int].fitness_spec());
                assert(fits@[order@[b] as int] == pre.games@[order@[b] as int].fitness_spec());
            }
            assert(fitness_order(pre.games@, order@));
            lemma_selected_cohort(pre.games@, self.games@, order@);
        }
        best
    }
}

} // verus!
