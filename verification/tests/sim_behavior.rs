//! Behaviour of the game tick, fitness, vision, islands and the
//! population.

use snake::configs::{GRID_H, GRID_W, NUM_GAMES_PER_STREAM};
use snake::game::Game;
use snake::nn::Net;
use snake::pop::Population;
use snake::rng::RandGen;
use snake::stream::{quota_exec, Stream};
use snake::utils::{FourDirs, Point};

const LEFT: usize = 0;
const RIGHT: usize = 1;
const BOTTOM: usize = 2;
const TOP: usize = 3;

/// Drives the agent around a two-by-two square so it never eats,
/// never hits a wall and never hits itself.
fn square_walk_step(k: usize) -> usize {
    match k % 4 {
        0 => LEFT,
        1 => TOP,
        2 => RIGHT,
        _ => BOTTOM,
    }
}

#[test]
fn fresh_agent_spawns_at_centre() {
    let mut rng = RandGen::from_seed(20);
    let g = Game::new(&mut rng);
    assert_eq!(g.head, Point::new(GRID_W / 2, GRID_H / 2));
    assert_eq!(g.body.len(), 1);
    assert_eq!(g.body[0], g.head);
    assert!(!g.is_complete);
    assert!(g.food.x >= 1 && g.food.x < GRID_W - 1);
    assert!(g.food.y >= 1 && g.food.y < GRID_H - 1);
}

#[test]
fn reversal_is_rejected_and_head_keeps_moving() {
    let mut rng = RandGen::from_seed(21);
    let mut g = Game::new(&mut rng);
    g.dir = FourDirs::Left;
    g.food = Point::new(1, 1);
    g.update(RIGHT, &mut rng);
    assert!(g.dir.is_horizontal());
    assert_eq!(g.dir, FourDirs::Left);
    assert_eq!(g.head, Point::new(11, 12));
    assert!(!g.is_complete);
}

#[test]
fn perpendicular_turn_is_taken() {
    let mut rng = RandGen::from_seed(22);
    let mut g = Game::new(&mut rng);
    g.dir = FourDirs::Left;
    g.food = Point::new(1, 1);
    g.update(TOP, &mut rng);
    assert_eq!(g.dir, FourDirs::Top);
    assert_eq!(g.head, Point::new(12, 11));
}

#[test]
fn vertical_reversal_is_rejected() {
    let mut rng = RandGen::from_seed(23);
    let mut g = Game::new(&mut rng);
    g.dir = FourDirs::Top;
    g.food = Point::new(1, 1);
    g.update(BOTTOM, &mut rng);
    assert_eq!(g.dir, FourDirs::Top);
    assert_eq!(g.head, Point::new(12, 11));
}

#[test]
fn walking_into_the_wall_completes_the_game() {
    let mut rng = RandGen::from_seed(24);
    let mut g = Game::new(&mut rng);
    g.dir = FourDirs::Left;
    g.food = Point::new(1, 1);
    for _ in 0..11 {
        g.update(LEFT, &mut rng);
        assert!(!g.is_complete);
    }
    g.update(LEFT, &mut rng);
    assert_eq!(g.head, Point::new(0, 12));
    assert!(g.is_complete);
}

#[test]
fn starvation_completes_the_game_at_the_base_limit() {
    let mut rng = RandGen::from_seed(25);
    let mut g = Game::new(&mut rng);
    g.dir = FourDirs::Left;
    g.food = Point::new(1, 1);
    for k in 0..99 {
        g.update(square_walk_step(k), &mut rng);
        assert!(!g.is_complete);
    }
    g.update(square_walk_step(99), &mut rng);
    assert!(g.is_complete);
}

#[test]
fn eating_grows_the_body_and_moves_the_food() {
    let mut rng = RandGen::from_seed(26);
    let mut g = Game::new(&mut rng);
    g.dir = FourDirs::Left;
    g.food = Point::new(11, 12);
    g.update(LEFT, &mut rng);
    assert_eq!(g.score(), 2);
    assert_eq!(g.head, Point::new(11, 12));
    assert_eq!(g.body[0], Point::new(11, 12));
    assert_eq!(g.body[1], Point::new(12, 12));
    assert!(g.food.x >= 1 && g.food.x < GRID_W - 1);
    assert!(g.food.y >= 1 && g.food.y < GRID_H - 1);
    assert!(!g.is_complete);
}

#[test]
fn fitness_is_one_for_score_one_at_fifty_steps() {
    let mut rng = RandGen::from_seed(27);
    let mut g = Game::new(&mut rng);
    g.dir = FourDirs::Left;
    g.food = Point::new(1, 1);
    for k in 0..50 {
        g.update(square_walk_step(k), &mut rng);
    }
    assert!(!g.is_complete);
    assert_eq!(g.score(), 1);
    assert_eq!(g.fitness(), 1.0f32.to_bits());
}

#[test]
fn fitness_is_one_for_a_fresh_agent() {
    let mut rng = RandGen::from_seed(28);
    let g = Game::new(&mut rng);
    assert_eq!(g.fitness(), 1.0f32.to_bits());
}

#[test]
fn fitness_matches_the_midrange_formula() {
    let mut rng = RandGen::from_seed(29);
    let mut g = Game::new(&mut rng);
    g.dir = FourDirs::Left;
    g.food = Point::new(11, 12);
    g.update(LEFT, &mut rng);
    g.food = Point::new(10, 12);
    g.update(LEFT, &mut rng);
    assert_eq!(g.score(), 3);
    let expected = (2.0f32 * 0.1) * (2.0f32).powf(3.0) * 3.0;
    assert_eq!(g.fitness(), expected.to_bits());
}

#[test]
fn fitness_matches_the_high_score_formula() {
    let mut rng = RandGen::from_seed(30);
    let mut g = Game::new(&mut rng);
    g.dir = FourDirs::Left;
    let mut x = 11;
    for _ in 0..4 {
        g.food = Point::new(x, 12);
        g.update(LEFT, &mut rng);
        x -= 1;
    }
    assert_eq!(g.score(), 5);
    assert!(!g.is_complete);
    let mut expected = 1.0f32;
    expected *= (2.0f32).powf(5.0) * 5.0;
    expected *= 4.0;
    assert_eq!(g.fitness(), expected.to_bits());
}

#[test]
fn vision_reports_inverse_distances_and_food() {
    let mut rng = RandGen::from_seed(31);
    let mut g = Game::new(&mut rng);
    g.food = Point::new(10, 12);
    let v = g.get_snake_vision();
    assert_eq!(v.len(), 12);
    let left = ((1.0f32 / 12.0) as f64).to_bits();
    let right = ((1.0f32 / 13.0) as f64).to_bits();
    let bottom = ((1.0f32 / 13.0) as f64).to_bits();
    let top = ((1.0f32 / 12.0) as f64).to_bits();
    assert_eq!(v[0], left);
    assert_eq!(v[1], 1.0f64.to_bits());
    assert_eq!(v[2], v[0]);
    assert_eq!(v[3], right);
    assert_eq!(v[4], 0);
    assert_eq!(v[5], v[3]);
    assert_eq!(v[6], bottom);
    assert_eq!(v[7], 0);
    assert_eq!(v[8], v[6]);
    assert_eq!(v[9], top);
    assert_eq!(v[10], 0);
    assert_eq!(v[11], v[9]);
}

#[test]
fn walls_are_the_grid_boundary() {
    let mut rng = RandGen::from_seed(32);
    let g = Game::new(&mut rng);
    assert!(g.is_wall(Point::new(0, 5)));
    assert!(g.is_wall(Point::new(25, 5)));
    assert!(g.is_wall(Point::new(5, 0)));
    assert!(g.is_wall(Point::new(5, 25)));
    assert!(!g.is_wall(Point::new(1, 1)));
    assert!(!g.is_wall(Point::new(24, 24)));
}

#[test]
fn reset_quotas_match_the_configured_percentages() {
    assert_eq!(quota_exec(1000, 1), 10);
    assert_eq!(quota_exec(1000, 50), 500);
    assert_eq!(quota_exec(1000, 20), 200);
    assert_eq!(quota_exec(1000, 29), 290);
    assert_eq!(10 + 500 + 200 + 290, 1000);
}

#[test]
fn island_reset_refills_the_whole_cohort() {
    let mut rng = RandGen::from_seed(33);
    let mut s = Stream::new(&mut rng, 0);
    assert_eq!(s.games.len(), NUM_GAMES_PER_STREAM);
    let best = s.reset(&mut rng, 5);
    assert_eq!(s.games.len(), NUM_GAMES_PER_STREAM);
    assert_eq!(s.max_score, 0);
    assert_eq!(s.max_score_at_ms, 5);
    assert_eq!(best.get_n_inputs(), 12);
    for g in &s.games {
        assert!(!g.is_complete);
        assert_eq!(g.score(), 1);
    }
}

fn brain_weights(net: &Net) -> Vec<u64> {
    let mut out = Vec::new();
    for layer in net.get_layers() {
        for node in layer.get_nodes() {
            for &w in node {
                out.push(w);
            }
        }
    }
    out
}

#[test]
fn island_reset_retains_the_fittest_network_first() {
    let mut rng = RandGen::from_seed(41);
    let mut s = Stream::new(&mut rng, 0);
    // Feed one agent four times: score 5 makes it the unique fittest.
    for _ in 0..4 {
        let head = s.games[7].head;
        s.games[7].dir = FourDirs::Left;
        s.games[7].food = Point::new(head.x - 1, head.y);
        let outputs = vec![LEFT; NUM_GAMES_PER_STREAM];
        s.update(&outputs, &mut rng, 1);
    }
    assert_eq!(s.games[7].score(), 5);
    let expected = brain_weights(&s.games[7].brain);
    let best = s.reset(&mut rng, 2);
    assert_eq!(brain_weights(&best), expected);
    assert_eq!(brain_weights(&s.games[0].brain), expected);
}

#[test]
fn population_islands_start_clean() {
    let mut rng = RandGen::from_seed(42);
    let p = Population::new(&mut rng, 3);
    for s in &p.streams {
        assert_eq!(s.max_score, 0);
        assert_eq!(s.max_score_at_ms, 3);
        for g in &s.games {
            assert!(!g.is_complete);
            assert_eq!(g.score(), 1);
        }
    }
}

#[test]
fn island_update_counts_completed_games() {
    let mut rng = RandGen::from_seed(34);
    let mut s = Stream::new(&mut rng, 0);
    let outputs = vec![LEFT; NUM_GAMES_PER_STREAM];
    let complete = s.update(&outputs, &mut rng, 1);
    let counted = s.games.iter().filter(|g| g.is_complete).count();
    assert_eq!(complete, counted);
}

#[test]
fn stagnation_flips_exactly_past_the_wait_threshold() {
    let mut rng = RandGen::from_seed(35);
    let mut s = Stream::new(&mut rng, 0);
    s.max_score_at_ms = 0;
    assert!(!s.is_local_maximum(90_000));
    assert!(s.is_local_maximum(90_001));
}

#[test]
fn injection_clears_stagnation_and_replaces_a_share() {
    let mut rng = RandGen::from_seed(36);
    let mut s = Stream::new(&mut rng, 0);
    let net = Net::new(&mut rng);
    s.inject(&net, &mut rng, 200_000);
    assert!(!s.is_local_maximum(200_000));
    assert_eq!(s.max_score, 0);
    assert_eq!(s.games.len(), NUM_GAMES_PER_STREAM);
    let share = quota_exec(NUM_GAMES_PER_STREAM, 10);
    let donor: Vec<Vec<Vec<u64>>> = net
        .get_layers()
        .iter()
        .map(|l| l.get_nodes().clone())
        .collect();
    for g in &s.games[NUM_GAMES_PER_STREAM - share..] {
        let got: Vec<Vec<Vec<u64>>> = g
            .brain
            .get_layers()
            .iter()
            .map(|l| l.get_nodes().clone())
            .collect();
        assert_eq!(got, donor);
        assert!(!g.is_complete);
    }
}

#[test]
fn population_reports_alive_agents() {
    let mut rng = RandGen::from_seed(37);
    let mut p = Population::new(&mut rng, 0);
    let outputs: Vec<Vec<usize>> = p
        .streams
        .iter()
        .map(|s| vec![LEFT; s.games.len()])
        .collect();
    let alive = p.update(&outputs, &mut rng, 1);
    let expected: usize = p
        .streams
        .iter()
        .map(|s| s.games.iter().filter(|g| !g.is_complete).count())
        .sum();
    assert_eq!(alive, expected);
}

#[test]
fn generation_summary_reports_elapsed_time_and_a_best_net() {
    let mut rng = RandGen::from_seed(38);
    let p = Population::new(&mut rng, 40);
    let summary = p.get_gen_summary(100);
    assert_eq!(summary.time_elapsed_millis, 60);
    assert!(summary.max_score >= 1);
    assert!(summary.best_net.is_some());
}

#[test]
fn population_reset_restarts_the_generation_clock() {
    let mut rng = RandGen::from_seed(39);
    let mut p = Population::new(&mut rng, 0);
    p.reset(&mut rng, 7);
    assert_eq!(p.gen_start_ms, 7);
    for s in &p.streams {
        assert_eq!(s.games.len(), NUM_GAMES_PER_STREAM);
    }
}

#[test]
fn random_points_and_directions_stay_in_range() {
    let mut rng = RandGen::from_seed(40);
    for _ in 0..500 {
        let pt = Point::rand(&mut rng);
        assert!(pt.x >= 1 && pt.x < GRID_W - 1);
        assert!(pt.y >= 1 && pt.y < GRID_H - 1);
        let h = FourDirs::get_rand_horizontal(&mut rng);
        assert!(h.is_horizontal());
        let v = FourDirs::get_rand_vertical(&mut rng);
        assert!(v.is_vertical());
        let d = FourDirs::get_rand_dir(&mut rng);
        assert!(d.is_horizontal() || d.is_vertical());
    }
}

#[test]
fn direction_values_are_unit_steps() {
    assert_eq!(FourDirs::Left.value(), (-1, 0));
    assert_eq!(FourDirs::Right.value(), (1, 0));
    assert_eq!(FourDirs::Bottom.value(), (0, 1));
    assert_eq!(FourDirs::Top.value(), (0, -1));
    assert_eq!(
        FourDirs::get_all_dirs(),
        [(-1, 0), (1, 0), (0, 1), (0, -1)]
    );
}
