//! One agent's game: the snake state, the ray-cast vision features
//! its network reads, the per-tick transition, and the fitness score.
//!
//! The tick takes the index of the network's strongest output as an
//! argument: evaluating the network itself needs the exponential
//! function and is done by the driver; everything the game decides
//! from that output is specified and verified here.

use vstd::prelude::*;

use crate::configs::GRID_H;
use crate::configs::GRID_W;
use crate::configs::NUM_SIM_STEPS;
use crate::fbits::F32_ONE_BITS;
use crate::fbits::F32_INF_BITS;
use crate::fbits::apf32_div;
use crate::fbits::apf32_from_u64;
use crate::fbits::apf32_mul;
use crate::fbits::apf32_widen;
use crate::fbits::div32_bits;
use crate::fbits::f32_of_u64;
use crate::fbits::mul32_bits;
use crate::fbits::widen32_bits;
use crate::nn::Net;
use crate::rng::RandGen;
use crate::utils::FourDirs;
use crate::utils::Point;

verus! {

/// The cell lies on or beyond the boundary walls.
pub open spec fn is_wall_spec(pt: Point) -> bool {
    pt.x >= GRID_W || pt.x <= 0 || pt.y >= GRID_H || pt.y <= 0
}

/// The cell is occupied by a body segment other than the head slot.
pub open spec fn in_body_tail(body: Seq<Point>, pt: Point) -> bool {
    exists|i: int| 1 <= i < body.len() && body[i] == pt
}

/// The cell one unit step from `pt` along `d`.
pub open spec fn step_point(pt: Point, d: (i32, i32)) -> Point {
    Point { x: (pt.x + d.0) as i32, y: (pt.y + d.1) as i32 }
}

/// A cell the random placement of food can produce.
pub open spec fn food_cell(pt: Point) -> bool {
    1 <= pt.x < GRID_W - 1 && 1 <= pt.y < GRID_H - 1
}

/// The counter bumped by one, saturating at the type's end.
pub open spec fn inc64(x: u64) -> u64 {
    if x < u64::MAX { (x + 1) as u64 } else { x }
}

/// How many steps without food the agent is allowed at this score:
/// the base allowance, scaled up as the score passes 10, 20, 30, 80.
pub open spec fn step_limit(score: int) -> u64 {
    if score > 80 { (8 * NUM_SIM_STEPS) as u64 }
    else if score > 30 { (5 * NUM_SIM_STEPS) as u64 }
    else if score > 20 { (3 * NUM_SIM_STEPS) as u64 }
    else if score > 10 { (2 * NUM_SIM_STEPS) as u64 }
    else { NUM_SIM_STEPS }
}

/// The heading the agent takes when its network's strongest output
/// has the given index: 0 left, 1 right, 2 bottom, anything else
/// top — except that a straight reversal on the current axis is
/// rejected and the current heading kept.
pub open spec fn decide_dir(cur: FourDirs, idx: usize) -> FourDirs {
    let proposed = if idx == 0 { FourDirs::Left }
        else if idx == 1 { FourDirs::Right }
        else if idx == 2 { FourDirs::Bottom }
        else { FourDirs::Top };
    if (cur is Left || cur is Right) && (proposed is Left || proposed is Right) && cur != proposed {
        cur
    } else if (cur is Top || cur is Bottom) && (proposed is Top || proposed is Bottom) && cur
        != proposed {
        cur
    } else {
        proposed
    }
}

/// How many cells a ray from `pt` along `d` crosses before a wall or
/// a tail segment stops it, walking at most `fuel` cells.
pub open spec fn ray_steps(body: Seq<Point>, pt: Point, d: (i32, i32), fuel: nat) -> nat
    decreases fuel,
{
    if fuel == 0 {
        0
    } else if is_wall_spec(pt) || in_body_tail(body, pt) {
        0
    } else {
        1 + ray_steps(body, step_point(pt, d), d, (fuel - 1) as nat)
    }
}

/// Whether the same ray passes the food cell before it stops.
pub open spec fn ray_food(body: Seq<Point>, food: Point, pt: Point, d: (i32, i32), fuel: nat) -> bool
    decreases fuel,
{
    if fuel == 0 {
        false
    } else if is_wall_spec(pt) {
        false
    } else if pt == food {
        true
    } else if in_body_tail(body, pt) {
        false
    } else {
        ray_food(body, food, step_point(pt, d), d, (fuel - 1) as nat)
    }
}

/// The inverse-distance feature for a ray of `dist` cells, as the
/// double widened from the single-precision quotient 1.0 / dist.
pub open spec fn dist_feature(dist: nat) -> u64 {
    widen32_bits(div32_bits(F32_ONE_BITS, f32_of_u64(dist as u64)))
}

/// The three features one direction contributes: obstacle distance,
/// food seen, and the obstacle distance once more — the third slot
/// deliberately repeats the first, a quirk of the feature layout
/// that the networks are trained against and that must stay.
pub open spec fn dir_features(body: Seq<Point>, food: Point, head: Point, d: (i32, i32)) -> Seq<u64> {
    let dist = ray_steps(body, head, d, 1001);
    let feat = dist_feature(dist);
    let fd: u64 = if ray_food(body, food, head, d, 1001) { crate::fbits::F64_ONE_BITS } else { 0 };
    seq![feat, fd, feat]
}

/// The 12 vision features: three per direction, in the fixed order
/// left, right, bottom, top.
pub open spec fn vision_spec(body: Seq<Point>, food: Point, head: Point) -> Seq<u64> {
    dir_features(body, food, head, (-1i32, 0i32)) + dir_features(body, food, head, (1i32, 0i32))
        + dir_features(body, food, head, (0i32, 1i32)) + dir_features(
        body,
        food,
        head,
        (0i32, -1i32),
    )
}

/// Power of two in single precision: exact up to 2^127, infinity
/// beyond, exactly as the single-precision power overflows.
pub open spec fn pow2_f32_bits(s: u64) -> u32 {
    if s <= 127 { (((127 + s) * 0x80_0000) as u32) } else { F32_INF_BITS }
}

/// The fitness formula over (score, steps), computed in single
/// precision: 1.0 up to score 1; steps * 0.1 * 2^score * score below
/// score 5; 2^score * score * steps from score 5 on. The exponential
/// term overflows single precision to infinity for large scores; the
/// formula is kept exactly as stated, that known defect included.
pub open spec fn fitness_bits(score: u64, steps: u64) -> u32 {
    if score <= 1 {
        F32_ONE_BITS
    } else if score < 5 {
        mul32_bits(
            mul32_bits(mul32_bits(f32_of_u64(steps), crate::fbits::F32_TENTH_BITS), pow2_f32_bits(score)),
            f32_of_u64(score),
        )
    } else {
        mul32_bits(mul32_bits(pow2_f32_bits(score), f32_of_u64(score)), f32_of_u64(steps))
    }
}

/// One simulated game: the snake, its food, its heading, its network,
/// and the two step counters.
pub struct Game {
    pub head: Point,
    pub body: Vec<Point>,
    pub food: Point,
    pub dir: FourDirs,
    pub brain: Net,
    pub is_complete: bool,
    pub no_food_steps: u64,
    pub num_steps: u64,
}

impl Game {
    /// Total steps taken.
    pub open spec fn steps_spec(&self) -> u64 {
        self.num_steps
    }

    /// Steps since food was last eaten.
    pub open spec fn no_food_spec(&self) -> u64 {
        self.no_food_steps
    }

    /// Well-formed: the head fills the first body slot, the body is
    /// never empty, a running agent's head is on the playable grid,
    /// and the network is well-formed.
    pub open spec fn wf(&self) -> bool {
        &&& self.body@.len() >= 1
        &&& self.body@[0] == self.head
        &&& 0 <= self.head.x <= GRID_W
        &&& 0 <= self.head.y <= GRID_H
        &&& !self.is_complete ==> !is_wall_spec(self.head)
        &&& self.brain.wf()
        &&& self.brain.default_topology()
    }

    /// The agent's score: its body length.
    pub open spec fn score_spec(&self) -> int {
        self.body@.len() as int
    }

    /// The agent's fitness, as single-precision bits.
    pub open spec fn fitness_spec(&self) -> u32 {
        fitness_bits(self.body@.len() as u64, self.steps_spec())
    }

    /// How one tick on the network output `idx` relates the state
    /// before to the state after.
    pub open spec fn tick_rel(pre: Game, post: Game, idx: usize) -> bool {
        if pre.is_complete {
            &&& post.is_complete == pre.is_complete
            &&& post.head == pre.head
            &&& post.body@ == pre.body@
            &&& post.food == pre.food
            &&& post.dir == pre.dir
            &&& post.brain@ == pre.brain@
            &&& post.steps_spec() == pre.steps_spec()
            &&& post.no_food_spec() == pre.no_food_spec()
        } else {
            let d = decide_dir(pre.dir, idx);
            let h = step_point(pre.head, d.value_spec());
            let ate = h == pre.food;
            &&& post.dir == d
            &&& post.head == h
            &&& post.brain@ == pre.brain@
            &&& post.steps_spec() == inc64(pre.steps_spec())
            &&& ate ==> {
                &&& post.body@ == seq![h] + pre.body@
                &&& post.no_food_spec() == 0
                &&& food_cell(post.food)
            }
            &&& !ate ==> {
                &&& post.body@ == seq![h] + pre.body@.take(pre.body@.len() - 1)
                &&& post.no_food_spec() == inc64(pre.no_food_spec())
                &&& post.food == pre.food
            }
            &&& post.is_complete == (post.no_food_spec() >= step_limit(post.body@.len() as int)
                || is_wall_spec(h) || in_body_tail(post.body@, h))
        }
    }

    /// A fresh agent: spawned at the grid's centre with a body of
    /// one segment, food and heading random, and a fresh random
    /// network of the default topology.
    pub fn new(rng: &mut RandGen) -> (r: Game)
        ensures
            r.wf(),
            r.brain.default_topology(),
            r.head == (Point { x: (GRID_W / 2) as i32, y: (GRID_H / 2) as i32 }),
            r.body@ =~= seq![r.head],
            food_cell(r.food),
            !r.is_complete,
            r.steps_spec() == 0,
            r.no_food_spec() == 0,
    {
        let head = Point::new(GRID_W / 2, GRID_H / 2);
        let mut body: Vec<Point> = Vec::new();
        body.push(head);
        Game {
            head,
            body,
            food: Point::rand(rng),
            dir: FourDirs::get_rand_dir(rng),
            brain: Net::new(rng),
            is_complete: false,
            no_food_steps: 0,
            num_steps: 0,
        }
    }

    /// A fresh agent wired to a copy of the given network.
    pub fn with_brain(new_brain: &Net, rng: &mut RandGen) -> (r: Game)
        requires
            new_brain.wf(),
            new_brain.default_topology(),
        ensures
            r.wf(),
            r.brain@ == new_brain@,
            r.brain.inputs_spec() == new_brain.inputs_spec(),
            r.head == (Point { x: (GRID_W / 2) as i32, y: (GRID_H / 2) as i32 }),
            r.body@ =~= seq![r.head],
            food_cell(r.food),
            !r.is_complete,
            r.steps_spec() == 0,
            r.no_food_spec() == 0,
    {
        let head = Point::new(GRID_W / 2, GRID_H / 2);
        let mut body: Vec<Point> = Vec::new();
        body.push(head);
        Game {
            head,
            body,
            food: Point::rand(rng),
            dir: FourDirs::get_rand_dir(rng),
            brain: new_brain.duplicate(),
            is_complete: false,
            no_food_steps: 0,
            num_steps: 0,
        }
    }

    /// The agent's score: its body length.
    pub fn score(&self) -> (r: usize)
        ensures
            r == self.score_spec(),
    {
        self.body.len()
    }

    /// Whether the cell lies on or beyond the boundary walls.
    pub fn is_wall(&self, pt: Point) -> (r: bool)
        ensures
            r == is_wall_spec(pt),
    {
        pt.x >= GRID_W || pt.x <= 0 || pt.y >= GRID_H || pt.y <= 0
    }

    /// Whether the cell is occupied by a body segment other than the
    /// head slot.
    pub fn is_snake_body(&self, pt: Point) -> (r: bool)
        ensures
            r == in_body_tail(self.body@, pt),
    {
        let n = self.body.len();
        let mut i: usize = 1;
        while i < n
            invariant
                n == self.body@.len(),
                1 <= i,
                forall|t: int| 1 <= t < i ==> self.body@[t] != pt,
            decreases n - i,
        {
            if self.body[i].x == pt.x && self.body[i].y == pt.y {
                return true;
            }
            i = i + 1;
        }
        false
    }

    /// The fitness of this agent, as single-precision bits. A score
    /// of at most 1 always gives exactly 1.0, whatever the step
    /// count.
    pub fn fitness(&self) -> (r: u32)
        ensures
            r == self.fitness_spec(),
            self.body@.len() <= 1 ==> r == F32_ONE_BITS,
    {
        let score: u64 = self.body.len() as u64;
        let steps: u64 = self.num_steps;
        if score <= 1 {
            F32_ONE_BITS
        } else if score < 5 {
            let p = pow2_exec(score);
            apf32_mul(
                apf32_mul(apf32_mul(apf32_from_u64(steps), crate::fbits::F32_TENTH_BITS), p),
                apf32_from_u64(score),
            )
        } else {
            let p = pow2_exec(score);
            apf32_mul(apf32_mul(p, apf32_from_u64(score)), apf32_from_u64(steps))
        }
    }

    /// Ray-cast from `st` along `d`: how far the first obstacle is
    /// (as the inverse-distance feature), whether food lies on the
    /// way, and the obstacle distance repeated.
    pub fn look_in_dir(&self, st: Point, d: (i32, i32)) -> (r: (u64, bool, u64))
        requires
            -1 <= d.0 <= 1,
            -1 <= d.1 <= 1,
            -1000 <= st.x <= 1000,
            -1000 <= st.y <= 1000,
        ensures
            r.0 == dist_feature(ray_steps(self.body@, st, d, 1001)),
            r.1 == ray_food(self.body@, self.food, st, d, 1001),
            r.2 == r.0,
    {
        let mut food = false;
        let mut temp_pt = st;
        let mut dist: u64 = 0;
        let ghost body = self.body@;
        let ghost fd = self.food;
        while dist <= 1000
            invariant
                -1 <= d.0 <= 1,
                -1 <= d.1 <= 1,
                body == self.body@,
                fd == self.food,
                dist <= 1001,
                -1000 - dist <= temp_pt.x <= 1000 + dist,
                -1000 - dist <= temp_pt.y <= 1000 + dist,
                ray_steps(body, st, d, 1001) == dist + ray_steps(body, temp_pt, d, (1001 - dist) as nat),
                ray_food(body, fd, st, d, 1001) == (food || ray_food(body, fd, temp_pt, d, (1001 - dist) as nat)),
            ensures
                ray_steps(body, st, d, 1001) == dist,
                ray_food(body, fd, st, d, 1001) == food,
            decreases 1001 - dist,
        {
            let ghost fuel = (1001 - dist) as nat;
            proof {
                assert(fuel >= 1);
            }
            if self.is_wall(temp_pt) {
                proof {
                    assert(ray_steps(body, temp_pt, d, fuel) == 0);
                    assert(ray_food(body, fd, temp_pt, d, fuel) == false);
                }
                break;
            }
            if self.food.x == temp_pt.x && self.food.y == temp_pt.y {
                assert(temp_pt == fd);
                assert(ray_food(body, fd, temp_pt, d, fuel) == true);
                food = true;
            }
            if self.is_snake_body(temp_pt) {
                proof {
                    assert(ray_steps(body, temp_pt, d, fuel) == 0);
                    if temp_pt != fd {
                        assert(ray_food(body, fd, temp_pt, d, fuel) == false);
                    }
                }
                break;
            }
            proof {
                assert(ray_steps(body, temp_pt, d, fuel)
                    == 1 + ray_steps(body, step_point(temp_pt, d), d, (fuel - 1) as nat));
                if temp_pt != fd {
                    assert(ray_food(body, fd, temp_pt, d, fuel)
                        == ray_food(body, fd, step_point(temp_pt, d), d, (fuel - 1) as nat));
                } else {
                    assert(ray_food(body, fd, st, d, 1001));
                }
            }
            temp_pt = Point::new(temp_pt.x + d.0, temp_pt.y + d.1);
            dist = dist + 1;
        }
        proof {
            if dist == 1001 {
                assert(ray_steps(body, temp_pt, d, 0) == 0);
                assert(ray_food(body, fd, temp_pt, d, 0) == false);
            }
        }
        let feat = apf32_widen(apf32_div(F32_ONE_BITS, apf32_from_u64(dist)));
        (feat, food, feat)
    }

    /// The 12 vision features the network reads, three per cardinal
    /// direction.
    pub fn get_snake_vision(&self) -> (r: Vec<u64>)
        requires
            self.wf(),
        ensures
            r@ == vision_spec(self.body@, self.food, self.head),
    {
        let mut vision: Vec<u64> = Vec::new();
        let ghost gdirs = seq![(-1i32, 0i32), (1i32, 0i32), (0i32, 1i32), (0i32, -1i32)];
        let ghost target = vision_spec(self.body@, self.food, self.head);
        for k in 0..4usize
            invariant
                self.wf(),
                gdirs =~= seq![(-1i32, 0i32), (1i32, 0i32), (0i32, 1i32), (0i32, -1i32)],
                target == vision_spec(self.body@, self.food, self.head),
                vision@.len() == 3 * k,
                vision@ =~= dir_features(self.body@, self.food, self.head, gdirs[0]).take(
                    if k >= 1 { 3 } else { 0 },
                ) + dir_features(self.body@, self.food, self.head, gdirs[1]).take(
                    if k >= 2 { 3 } else { 0 },
                ) + dir_features(self.body@, self.food, self.head, gdirs[2]).take(
                    if k >= 3 { 3 } else { 0 },
                ) + dir_features(self.body@, self.food, self.head, gdirs[3]).take(
                    if k >= 4 { 3 } else { 0 },
                ),
        {
            let d: (i32, i32) = if k == 0 {
                (-1, 0)
            } else if k == 1 {
                (1, 0)
            } else if k == 2 {
                (0, 1)
            } else {
                (0, -1)
            };
            proof {
                assert(gdirs[0] == (-1i32, 0i32));
                assert(gdirs[1] == (1i32, 0i32));
                assert(gdirs[2] == (0i32, 1i32));
                assert(gdirs[3] == (0i32, -1i32));
                assert(d == gdirs[k as int]);
            }
            let (wall, fseen, body_feat) = self.look_in_dir(self.head, d);
            vision.push(wall);
            if fseen {
                vision.push(crate::fbits::F64_ONE_BITS);
            } else {
                vision.push(0);
            }
            vision.push(body_feat);
            proof {
                assert(dir_features(self.body@, self.food, self.head, gdirs[k as int]).take(3)
                    =~= dir_features(self.body@, self.food, self.head, gdirs[k as int]));
            }
        }
        proof {
            assert(vision@ =~= target);
        }
        vision
    }

    /// A random cell for fresh food: up to five uniform draws,
    /// stopping at the first not on the body; the fifth draw is kept
    /// even if it is.
    fn get_random_empty_pos(&self, rng: &mut RandGen) -> (r: Point)
        ensures
            food_cell(r),
    {
        let mut pt = Point::rand(rng);
        let mut tries: u32 = 1;
        while tries < 5
            invariant
                food_cell(pt),
            decreases 5 - tries,
        {
            if !self.body_contains(pt) {
                break;
            }
            pt = Point::rand(rng);
            tries = tries + 1;
        }
        pt
    }

    /// Whether any body segment, the head slot included, holds `pt`.
    fn body_contains(&self, pt: Point) -> (r: bool)
        ensures
            r == self.body@.contains(pt),
    {
        let n = self.body.len();
        let mut i: usize = 0;
        while i < n
            invariant
                n == self.body@.len(),
                forall|t: int| 0 <= t < i ==> self.body@[t] != pt,
            decreases n - i,
        {
            if self.body[i].x == pt.x && self.body[i].y == pt.y {
                assert(self.body@[i as int] == pt);
                return true;
            }
            i = i + 1;
        }
        false
    }

    /// An identical copy, its network included.
    pub fn duplicate(&self) -> (r: Game)
        ensures
            r.head == self.head,
            r.body@ == self.body@,
            r.food == self.food,
            r.dir == self.dir,
            r.brain@ == self.brain@,
            r.brain.inputs_spec() == self.brain.inputs_spec(),
            r.is_complete == self.is_complete,
            r.no_food_steps == self.no_food_steps,
            r.num_steps == self.num_steps,
            self.wf() ==> r.wf(),
    {
        let mut body: Vec<Point> = Vec::new();
        for i in 0..self.body.len()
            invariant
                body@.len() == i,
                forall|t: int| 0 <= t < i ==> #[trigger] body@[t] == self.body@[t],
        {
            body.push(self.body[i]);
        }
        proof {
            assert(body@ =~= self.body@);
        }
        Game {
            head: self.head,
            body,
            food: self.food,
            dir: self.dir,
            brain: self.brain.duplicate(),
            is_complete: self.is_complete,
            no_food_steps: self.no_food_steps,
            num_steps: self.num_steps,
        }
    }

    /// One tick, driven by the index of the network's strongest
    /// output: decide the heading, advance the snake, handle food,
    /// then apply the step-limit and collision checks. A completed
    /// agent never changes again.
    pub fn update(&mut self, out_index: usize, rng: &mut RandGen)
        requires
            old(self).wf(),
        ensures
            final(self).wf(),
            Game::tick_rel(*old(self), *final(self), out_index),
    {
        if self.is_complete {
            return;
        }
        if self.num_steps < u64::MAX {
            self.num_steps = self.num_steps + 1;
        }
        let d = apply_dir(self.dir, out_index);
        self.dir = d;
        let step = d.value();
        let h = Point::new(self.head.x + step.0, self.head.y + step.1);
        let ate = h.x == self.food.x && h.y == self.food.y;
        let mut nb: Vec<Point> = Vec::new();
        nb.push(h);
        let keep = if ate { self.body.len() } else { self.body.len() - 1 };
        for i in 0..keep
            invariant
                keep <= self.body@.len(),
                nb@.len() == i + 1,
                nb@[0] == h,
                forall|t: int| 0 <= t < i ==> nb@[t + 1] == self.body@[t],
        {
            nb.push(self.body[i]);
        }
        proof {
            if ate {
                assert(nb@ =~= seq![h] + self.body@);
            } else {
                assert(nb@ =~= seq![h] + self.body@.take(self.body@.len() - 1));
            }
        }
        self.body = nb;
        self.head = h;
        if ate {
            self.food = self.get_random_empty_pos(rng);
            self.no_food_steps = 0;
        } else {
            if self.no_food_steps < u64::MAX {
                self.no_food_steps = self.no_food_steps + 1;
            }
        }
        let limit = step_limit_exec(self.body.len());
        if self.no_food_steps >= limit {
            self.is_complete = true;
        }
        if self.is_wall(h) || self.is_snake_body(h) {
            self.is_complete = true;
        }
    }
}

/// Executable mirror of `pow2_f32_bits`.
fn pow2_exec(s: u64) -> (r: u32)
    ensures
        r == pow2_f32_bits(s),
{
    if s <= 127 {
        ((127 + s) as u32) * 0x80_0000
    } else {
        F32_INF_BITS
    }
}

/// Executable mirror of `step_limit`.
fn step_limit_exec(score: usize) -> (r: u64)
    ensures
        r == step_limit(score as int),
{
    if score > 80 {
        8 * NUM_SIM_STEPS
    } else if score > 30 {
        5 * NUM_SIM_STEPS
    } else if score > 20 {
        3 * NUM_SIM_STEPS
    } else if score > 10 {
        2 * NUM_SIM_STEPS
    } else {
        NUM_SIM_STEPS
    }
}

/// Executable mirror of `decide_dir`.
fn apply_dir(cur: FourDirs, idx: usize) -> (r: FourDirs)
    ensures
        r == decide_dir(cur, idx),
{
    let proposed = match idx {
        0 => FourDirs::Left,
        1 => FourDirs::Right,
        2 => FourDirs::Bottom,
        _ => FourDirs::Top,
    };
    let mut dir = proposed;
    if cur.is_horizontal() {
        if dir.is_horizontal() && !dirs_eq(cur, dir) {
            dir = cur;
        }
    }
    if cur.is_vertical() {
        if dir.is_vertical() && !dirs_eq(cur, dir) {
            dir = cur;
        }
    }
    dir
}

/// Structural equality of two headings.
fn dirs_eq(a: FourDirs, b: FourDirs) -> (r: bool)
    ensures
        r == (a == b),
{
    match (a, b) {
        (FourDirs::Left, FourDirs::Left) => true,
        (FourDirs::Right, FourDirs::Right) => true,
        (FourDirs::Bottom, FourDirs::Bottom) => true,
        (FourDirs::Top, FourDirs::Top) => true,
        _ => false,
    }
}

} // verus!
