use smart_rockets::geom::{Environment, Rect, Vec2};
use smart_rockets::rocket::RocketState;
use smart_rockets::world::{Actions, Config, World};

// A 1000 x 650 pixel world in milli-pixels, the start near the bottom
// middle, the target far away at the top left.
fn small_config(rocket_count: usize, genome_len: usize) -> Config {
    Config {
        env: Environment {
            width: 1000000,
            height: 650000,
            walls: vec![],
            target: Vec2 { x: 100000, y: 100000 },
            target_radius: 30000,
        },
        rocket_count,
        genome_len,
        speed: 3000,
        max_turn: 10000,
        mutation_ppm: 30000,
        start: Vec2 { x: 500000, y: 575000 },
    }
}

#[test]
fn fresh_world_starts_at_generation_zero() {
    let w = World::new(small_config(10, 5));
    assert_eq!(w.generation, 0);
    assert_eq!(w.clock.ticks, 0);
    assert_eq!(w.clock.budget, 5);
    assert_eq!(w.rockets.len(), 10);
    assert_eq!(w.alive_count, 10);
    assert!(w.mating_pool.is_empty());
    for r in &w.rockets {
        assert_eq!(r.pos, Vec2 { x: 500000, y: 575000 });
        assert_eq!(r.angle, 270000);
        assert!(matches!(r.state, RocketState::Alive));
        assert_eq!(r.dna.genes.len(), 5);
        assert_eq!(r.dna.curr_gene, 0);
        for g in &r.dna.genes {
            assert!(-10000 <= *g && *g <= 10000);
        }
    }
}

#[test]
fn unreachable_target_rolls_over_after_budget() {
    // Ten rockets, a five-tick budget, the target unreachably far: every
    // agent stays active through the budget, then one update performs the
    // generation rollover.
    let mut w = World::new(small_config(10, 5));
    for tick in 1..=5u64 {
        w.update();
        assert_eq!(w.generation, 0);
        assert_eq!(w.clock.ticks, tick);
        assert_eq!(w.alive_count, 10);
        for r in &w.rockets {
            assert!(matches!(r.state, RocketState::Alive));
        }
    }
    w.update();
    assert_eq!(w.generation, 1);
    assert_eq!(w.clock.ticks, 0);
    assert_eq!(w.rockets.len(), 10);
    assert_eq!(w.alive_count, 10);
    assert!(w.mating_pool.is_empty());
    for r in &w.rockets {
        assert_eq!(r.pos, Vec2 { x: 500000, y: 575000 });
        assert!(matches!(r.state, RocketState::Alive));
        assert_eq!(r.dna.curr_gene, 0);
    }
}

#[test]
fn straight_rocket_fails_on_first_tick_inside_the_wall() {
    // One wall straight above the start; a constant-zero genome keeps the
    // rocket headed straight up at 3000 milli-pixels per tick from
    // y = 575000. Its position first lies strictly inside the wall
    // (y in (500000, 520000)) after 19 moves, at y = 518000, so the
    // twentieth update -- which checks before moving -- kills it.
    let mut cfg = small_config(1, 30);
    cfg.env.walls = vec![Rect { x: 400000, y: 500000, width: 200000, height: 20000 }];
    let mut w = World::new(cfg);
    w.rockets[0].dna.genes = vec![0; 30];
    for _ in 0..19 {
        w.update();
        assert!(matches!(w.rockets[0].state, RocketState::Alive));
    }
    assert_eq!(w.rockets[0].pos, Vec2 { x: 500000, y: 518000 });
    w.update();
    assert!(matches!(w.rockets[0].state, RocketState::Dead));
    assert_eq!(w.rockets[0].pos, Vec2 { x: 500000, y: 518000 });
    assert_eq!(w.alive_count, 0);
    // The state is sticky: later ticks change nothing.
    w.update();
    assert!(matches!(w.rockets[0].state, RocketState::Dead));
    assert_eq!(w.rockets[0].pos, Vec2 { x: 500000, y: 518000 });
    assert_eq!(w.alive_count, 0);
}

#[test]
fn straight_rocket_succeeds_at_the_target() {
    // The target straight above the start: the rocket flies up and stops
    // as Successful once strictly inside the target disc.
    let mut cfg = small_config(1, 40);
    cfg.env.target = Vec2 { x: 500000, y: 500000 };
    let mut w = World::new(cfg);
    w.rockets[0].dna.genes = vec![0; 40];
    let mut succeeded = false;
    for _ in 0..40 {
        w.update();
        if matches!(w.rockets[0].state, RocketState::Successful) {
            succeeded = true;
            break;
        }
    }
    assert!(succeeded);
    // dist < 30000 first at y = 527000 after 16 moves.
    assert_eq!(w.rockets[0].pos, Vec2 { x: 500000, y: 527000 });
    // Success does not lower the alive count.
    assert_eq!(w.alive_count, 1);
}

#[test]
fn manual_reset_mid_generation_rolls_over_immediately() {
    let mut w = World::new(small_config(10, 5));
    w.update();
    w.update();
    assert_eq!(w.clock.ticks, 2);
    let paused = w.apply_action(Actions::Reset, false);
    assert!(!paused);
    assert_eq!(w.generation, 1);
    assert_eq!(w.clock.ticks, 0);
    assert_eq!(w.rockets.len(), 10);
    for r in &w.rockets {
        assert_eq!(r.pos, Vec2 { x: 500000, y: 575000 });
        assert!(matches!(r.state, RocketState::Alive));
    }
}

#[test]
fn pause_and_nothing_leave_the_world_alone() {
    let mut w = World::new(small_config(3, 5));
    let p = w.apply_action(Actions::Pause, false);
    assert!(p);
    let p = w.apply_action(Actions::Pause, p);
    assert!(!p);
    let p = w.apply_action(Actions::Nothing, true);
    assert!(p);
    assert_eq!(w.generation, 0);
    assert_eq!(w.clock.ticks, 0);
}

#[test]
fn fitness_is_relative_to_the_distance_sum() {
    // Two rockets at distances 3000 and 1000 from the target: the sum is
    // 4000, so the fitnesses are 1 - 3/4 and 1 - 1/4 in scaled units,
    // and the closer rocket scores higher.
    let mut cfg = small_config(2, 5);
    cfg.env.target = Vec2 { x: 0, y: 0 };
    let mut w = World::new(cfg);
    w.rockets[0].pos = Vec2 { x: 3000, y: 0 };
    w.rockets[1].pos = Vec2 { x: 0, y: 1000 };
    w.calc_fitness();
    assert_eq!(w.rockets[0].dist_from_target, 3000);
    assert_eq!(w.rockets[1].dist_from_target, 1000);
    assert_eq!(w.rockets[0].dna.fitness, 250000);
    assert_eq!(w.rockets[1].dna.fitness, 750000);
}

#[test]
fn fitness_with_zero_distance_sum_is_full() {
    // Every rocket exactly on the target center: all are equally perfect.
    let mut cfg = small_config(2, 5);
    cfg.env.target = Vec2 { x: 500000, y: 575000 };
    let mut w = World::new(cfg);
    w.calc_fitness();
    assert_eq!(w.rockets[0].dna.fitness, 1000000);
    assert_eq!(w.rockets[1].dna.fitness, 1000000);
}

#[test]
fn mating_pool_counts_follow_the_weights() {
    // Weights: floor(fitness * 100 * multiplier), with multiplier 1 for
    // Alive, 0.6 for Dead, 2 for Successful.
    let mut w = World::new(small_config(4, 5));
    w.rockets[0].dna.fitness = 500000;
    w.rockets[0].state = RocketState::Alive;
    w.rockets[1].dna.fitness = 500000;
    w.rockets[1].state = RocketState::Dead;
    w.rockets[2].dna.fitness = 500000;
    w.rockets[2].state = RocketState::Successful;
    w.rockets[3].dna.fitness = 5000; // floors to zero entries
    w.rockets[3].state = RocketState::Alive;
    w.alive_count = 3;
    w.gen_mating_pool();
    let count = |v: usize| w.mating_pool.iter().filter(|x| **x == v).count();
    assert_eq!(count(0), 50);
    assert_eq!(count(1), 30);
    assert_eq!(count(2), 100);
    assert_eq!(count(3), 0);
    assert_eq!(w.mating_pool.len(), 180);
    // Indices appear in order, so the pool is exactly the expected shape.
    for (j, v) in w.mating_pool.iter().enumerate() {
        let expect = if j < 50 { 0 } else if j < 80 { 1 } else { 2 };
        assert_eq!(*v, expect);
    }
}

#[test]
fn selection_size_survives_an_empty_pool() {
    // A lone rocket always has relative fitness zero, so every weight
    // floors to zero and the pool is empty; selection falls back to
    // uniform parents and still emits the configured population size.
    let mut w = World::new(small_config(1, 5));
    w.update(); // move once so the distance is nonzero
    let ticks = w.clock.ticks;
    assert_eq!(ticks, 1);
    w.apply_action(Actions::Reset, false);
    assert_eq!(w.generation, 1);
    assert_eq!(w.rockets.len(), 1);
    assert!(matches!(w.rockets[0].state, RocketState::Alive));
}

#[test]
fn selection_output_matches_rocket_count() {
    let mut w = World::new(small_config(17, 5));
    for _ in 0..6 {
        w.update();
    }
    assert_eq!(w.generation, 1);
    assert_eq!(w.rockets.len(), 17);
    assert_eq!(w.alive_count, 17);
}

#[test]
fn collision_queries_match_the_environment() {
    let mut cfg = small_config(1, 5);
    cfg.env.walls = vec![Rect { x: 490000, y: 560000, width: 20000, height: 30000 }];
    let mut w = World::new(cfg);
    // The start lies strictly inside that wall.
    assert!(w.collision_rocket(0));
    assert!(!w.collision_target(0));
    w.rockets[0].pos = Vec2 { x: 100000, y: 110000 };
    assert!(!w.collision_rocket(0));
    assert!(w.collision_target(0));
    w.rockets[0].pos = Vec2 { x: -1, y: 0 };
    assert!(w.collision_rocket(0));
}
