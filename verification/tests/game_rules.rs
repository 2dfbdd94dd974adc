use fruit_catch::fruit::{Fruit, FruitKind, DESPAWN_Y, SPAWN_X_MAX, SPAWN_X_MIN, SPAWN_Y};
use fruit_catch::game::{Game, SPAWN_INTERVAL_MS};
use fruit_catch::geometry::aabb_overlap;
use fruit_catch::player::{player_new_x, PLAYER_CLAMP, PLAYER_START_X};

fn fruit_at(x: i64, y: i64) -> Fruit {
    Fruit { kind: FruitKind::Banana, x, y }
}

fn game_with(player_x: i64, fruits: Vec<Fruit>) -> Game {
    Game { score: 0, player_x, fruits, spawn_elapsed: 0 }
}

#[test]
fn player_moves_right_scaled_by_time() {
    // 400 units/s for 500 ms moves 200 units = 200_000 thousandths.
    assert_eq!(player_new_x(0, false, true, 500), 200_000);
    assert_eq!(player_new_x(-100_000, false, true, 500), 100_000);
}

#[test]
fn player_moves_left_scaled_by_time() {
    assert_eq!(player_new_x(0, true, false, 500), -200_000);
}

#[test]
fn player_position_always_clamped() {
    // One second to the right from the centre lands exactly on the bound.
    assert_eq!(player_new_x(0, false, true, 1000), PLAYER_CLAMP);
    // Any longer stays on the bound.
    assert_eq!(player_new_x(0, false, true, 60_000), PLAYER_CLAMP);
    assert_eq!(player_new_x(0, true, false, 60_000), -PLAYER_CLAMP);
    // Even from a wild starting point the result is inside the bound.
    let r = player_new_x(i64::MAX, false, true, i64::MAX);
    assert!(-PLAYER_CLAMP <= r && r <= PLAYER_CLAMP);
    let r = player_new_x(i64::MIN, true, false, i64::MAX);
    assert!(-PLAYER_CLAMP <= r && r <= PLAYER_CLAMP);
}

#[test]
fn both_directions_cancel() {
    // Scenario: holding left and right together leaves the paddle alone.
    assert_eq!(player_new_x(123_000, true, true, 700), 123_000);
    assert_eq!(player_new_x(123_000, false, false, 700), 123_000);
}

#[test]
fn touching_edges_do_not_overlap() {
    // Paddle of extent 50 at x=0 has its right edge at 25; a fruit of
    // extent 30 centred at x=40 has its left edge at 25: no catch.
    assert!(!aabb_overlap(0, -350_000, 50_000, 50_000, 40_000, -350_000, 30_000, 30_000));
    // One thousandth closer and the boxes overlap.
    assert!(aabb_overlap(0, -350_000, 50_000, 50_000, 39_999, -350_000, 30_000, 30_000));
}

#[test]
fn overlap_is_symmetric() {
    let cases = [
        (0i64, -350_000i64, 40_000i64, -350_000i64),
        (0, -350_000, 39_999, -350_000),
        (10_000, -350_000, -20_000, -340_000),
    ];
    for (px, py, qx, qy) in cases {
        assert_eq!(
            aabb_overlap(px, py, 50_000, 50_000, qx, qy, 30_000, 30_000),
            aabb_overlap(qx, qy, 30_000, 30_000, px, py, 50_000, 50_000),
        );
    }
}

#[test]
fn scenario_catch_overhead_fruit() {
    // Paddle at x=0, fruit at (0, -350): overlap, score 0 -> 1, fruit gone.
    let mut g = game_with(0, vec![fruit_at(0, -350_000)]);
    g.fruits_catch();
    assert_eq!(g.score, 1);
    assert!(g.fruits.is_empty());
}

#[test]
fn scenario_fruit_falls_out_uncaught() {
    // Spawned at y=350 and falling at 300 units/s, a fruit reaches the
    // despawn line y=-400 after exactly 2.5 s; it leaves the moment it
    // sinks past the line, with no score.
    let mut g = game_with(-400_000, vec![fruit_at(0, SPAWN_Y)]);
    g.move_fruits(2500);
    assert_eq!(g.fruits.len(), 1);
    assert_eq!(g.fruits[0].y, DESPAWN_Y);
    g.move_fruits(1);
    assert!(g.fruits.is_empty());
    assert_eq!(g.score, 0);
}

#[test]
fn falling_keeps_kind_and_column() {
    let mut g = game_with(0, vec![Fruit { kind: FruitKind::Grape, x: 77_000, y: 100_000 }]);
    g.move_fruits(1000);
    assert_eq!(g.fruits.len(), 1);
    assert_eq!(g.fruits[0].kind, FruitKind::Grape);
    assert_eq!(g.fruits[0].x, 77_000);
    assert_eq!(g.fruits[0].y, -200_000);
}

#[test]
fn catch_order_does_not_matter() {
    // Two caught fruit and two survivors, arranged two ways.
    let a = fruit_at(0, -350_000);
    let b = Fruit { kind: FruitKind::Grape, x: 10_000, y: -360_000 };
    let c = fruit_at(200_000, -350_000);
    let d = Fruit { kind: FruitKind::Grape, x: -300_000, y: 0 };
    let mut g1 = game_with(0, vec![a, b, c, d]);
    let mut g2 = game_with(0, vec![d, c, b, a]);
    g1.fruits_catch();
    g2.fruits_catch();
    assert_eq!(g1.score, 2);
    assert_eq!(g2.score, g1.score);
    let mut s1 = g1.fruits.clone();
    let mut s2 = g2.fruits.clone();
    s1.sort_by_key(|f| (f.x, f.y));
    s2.sort_by_key(|f| (f.x, f.y));
    assert_eq!(s1, s2);
}

#[test]
fn several_fruit_caught_in_one_frame() {
    let mut g = game_with(0, vec![fruit_at(0, -350_000), fruit_at(-30_000, -340_000), fruit_at(300_000, -350_000)]);
    g.fruits_catch();
    assert_eq!(g.score, 2);
    assert_eq!(g.fruits.len(), 1);
    assert_eq!(g.fruits[0].x, 300_000);
}

#[test]
fn score_never_decreases_over_a_run() {
    let mut g = Game::new();
    let mut last = g.score;
    for frame in 0..300u32 {
        let left = frame % 3 == 0;
        let right = frame % 5 == 0;
        g.update(left, right, 16 + (frame as i64 % 7));
        assert!(g.score >= last);
        last = g.score;
    }
}

#[test]
fn spawner_fires_once_per_full_interval() {
    let mut g = Game::new();
    g.tick_spawner(SPAWN_INTERVAL_MS - 1);
    assert_eq!(g.fruits.len(), 0);
    assert_eq!(g.spawn_elapsed, SPAWN_INTERVAL_MS - 1);
    g.tick_spawner(1);
    assert_eq!(g.fruits.len(), 1);
    assert_eq!(g.spawn_elapsed, 0);
    // A long frame spanning two intervals fires exactly twice.
    g.tick_spawner(2 * SPAWN_INTERVAL_MS);
    assert_eq!(g.fruits.len(), 3);
    assert_eq!(g.spawn_elapsed, 0);
    // Frame-rate jitter does not change the cadence: many odd frames give
    // one fruit per two seconds of accumulated time.
    let mut h = Game::new();
    let mut total: i64 = 0;
    for i in 0..500i64 {
        let dt = 13 + (i * 7) % 29;
        total += dt;
        h.tick_spawner(dt);
        assert_eq!(h.fruits.len() as i64, total / SPAWN_INTERVAL_MS);
    }
}

#[test]
fn spawned_fruit_sit_on_the_top_line_inside_the_band() {
    let mut g = Game::new();
    let mut seen_banana = false;
    let mut seen_grape = false;
    for _ in 0..200 {
        g.create_fruits();
    }
    for f in &g.fruits {
        assert_eq!(f.y, SPAWN_Y);
        assert!(SPAWN_X_MIN <= f.x && f.x < SPAWN_X_MAX);
        match f.kind {
            FruitKind::Banana => seen_banana = true,
            FruitKind::Grape => seen_grape = true,
        }
    }
    // Both kinds are drawn; 200 uniform draws miss one only with
    // vanishing probability.
    assert!(seen_banana && seen_grape);
}

#[test]
fn fresh_game_is_empty_and_centred() {
    let g = Game::new();
    assert_eq!(g.score, 0);
    assert_eq!(g.player_x, PLAYER_START_X);
    assert!(g.fruits.is_empty());
    assert_eq!(g.spawn_elapsed, 0);
}

#[test]
fn one_frame_composes_all_four_rules() {
    // A fruit overhead is caught on its old position, the paddle then
    // moves right, the remaining fruit falls, and the spawner fires once.
    let far = Fruit { kind: FruitKind::Grape, x: -300_000, y: 100_000 };
    let mut g = Game {
        score: 5,
        player_x: 0,
        fruits: vec![fruit_at(0, -350_000), far],
        spawn_elapsed: SPAWN_INTERVAL_MS - 100,
    };
    g.update(false, true, 100);
    assert_eq!(g.score, 6);
    assert_eq!(g.player_x, 40_000);
    assert_eq!(g.spawn_elapsed, 0);
    assert_eq!(g.fruits.len(), 2);
    // The survivor fell 30 units during the 100 ms frame.
    assert_eq!(g.fruits[0].kind, FruitKind::Grape);
    assert_eq!(g.fruits[0].x, -300_000);
    assert_eq!(g.fruits[0].y, 70_000);
    // The newly spawned fruit sits on the top line.
    assert_eq!(g.fruits[1].y, SPAWN_Y);
}
