use ball_player::math::{isqrt, normalize, scaled_step};
use ball_player::sim::{
    confine_movement, enemy_movement, enemy_update_direction, inset_bounds, normalize_dir,
    player_movement, spawn_enemies, spawn_player, Bounds, Confined, Enemy, Game, InputState,
    Player, Vec2i,
};
use ball_player::{ENEMY_MAX_COUNT, MILLI, SPRITE_SIZE};

fn no_keys() -> InputState {
    InputState {
        key_w: false,
        key_s: false,
        key_a: false,
        key_d: false,
        key_up: false,
        key_down: false,
        key_left: false,
        key_right: false,
    }
}

fn wide_bounds() -> Bounds {
    // A 1000 x 1000 unit window: the inset rectangle is +/- 468 units.
    inset_bounds(1_000_000, 1_000_000)
}

fn assert_unit_or_zero(d: Vec2i) {
    let mag2 = d.x * d.x + d.y * d.y;
    assert!(
        (d.x == 0 && d.y == 0) || (995_999..=1_002_002).contains(&mag2),
        "direction {:?} has squared magnitude {}",
        d,
        mag2
    );
}

#[test]
fn isqrt_exact_values() {
    assert_eq!(isqrt(0), 0);
    assert_eq!(isqrt(1), 1);
    assert_eq!(isqrt(2), 1);
    assert_eq!(isqrt(999_999), 999);
    assert_eq!(isqrt(1_000_000), 1_000);
    assert_eq!(isqrt(2_000_000), 1_414);
    assert_eq!(isqrt(9_000_000_000_000), 3_000_000);
}

#[test]
fn normalize_axis_and_zero() {
    assert_eq!(normalize(0, 0), (0, 0));
    assert_eq!(normalize(1000, 0), (1000, 0));
    assert_eq!(normalize(-1000, 0), (-1000, 0));
    assert_eq!(normalize(0, -1000), (0, -1000));
}

#[test]
fn normalize_diagonal() {
    assert_eq!(normalize(1000, 1000), (707, 707));
    assert_eq!(normalize(-1000, 1000), (-707, 707));
}

#[test]
fn normalize_pythagorean_exact() {
    // A 3-4-5 style vector is already unit length and is reproduced exactly.
    assert_eq!(normalize(600, -800), (600, -800));
}

#[test]
fn normalize_magnitude_band() {
    for x in [-2000i64, -999, -1, 0, 3, 707, 1000, 1999] {
        for y in [-1500i64, -707, 0, 1, 600, 2000] {
            let (nx, ny) = normalize(x, y);
            assert_unit_or_zero(Vec2i { x: nx, y: ny });
        }
    }
}

#[test]
fn scaled_step_exact() {
    // One second at 500 units/s along a full axis: 500 units.
    assert_eq!(scaled_step(1000, 500_000, 1000), 500_000);
    // Half a second at 200 units/s: 100 units.
    assert_eq!(scaled_step(1000, 200_000, 500), 100_000);
    assert_eq!(scaled_step(-1000, 200_000, 500), -100_000);
    assert_eq!(scaled_step(0, 500_000, 3_600_000), 0);
}

#[test]
fn player_zero_input_is_idempotent() {
    let mut player = spawn_player();
    player.pos = Vec2i { x: 123_456, y: -789 };
    player_movement(&mut player, no_keys(), 54_321);
    assert_eq!(player.pos, Vec2i { x: 123_456, y: -789 });
}

#[test]
fn player_opposing_keys_cancel() {
    let mut player = spawn_player();
    let mut input = no_keys();
    input.key_w = true;
    input.key_s = true;
    input.key_d = true;
    player_movement(&mut player, input, 1000);
    // Vertical input cancels; one second to the right at 500 units/s.
    assert_eq!(player.pos, Vec2i { x: 500_000, y: 0 });
}

#[test]
fn player_diagonal_input_is_normalized() {
    let mut player = spawn_player();
    let mut input = no_keys();
    input.key_up = true;
    input.key_right = true;
    player_movement(&mut player, input, 1000);
    // One second up-right at 500 units/s moves 500/sqrt(2) = 353.55 units on
    // each axis, not 500: in milli-units 353_500 exactly for this fixed point.
    assert_eq!(player.pos, Vec2i { x: 353_500, y: 353_500 });
    assert!((player.pos.x - 353_553).abs() < 1000);
    assert!((player.pos.y - 353_553).abs() < 1000);
}

#[test]
fn enemy_moves_along_direction() {
    let mut enemy = Enemy {
        pos: Vec2i { x: 10_000, y: -5_000 },
        direction: Vec2i { x: -600, y: 800 },
        confined: Confined,
    };
    enemy_movement(&mut enemy, 500);
    // 0.5 s at 200 units/s: 100 units times the direction coordinates.
    assert_eq!(enemy.pos, Vec2i { x: 10_000 - 60_000, y: -5_000 + 80_000 });
    assert_eq!(enemy.direction, Vec2i { x: -600, y: 800 });
}

#[test]
fn enemy_bounces_off_left_edge() {
    let b = wide_bounds();
    let mut enemy = Enemy {
        pos: Vec2i { x: b.x_min, y: 0 },
        direction: Vec2i { x: -600, y: 800 },
        confined: Confined,
    };
    enemy_update_direction(&mut enemy, b);
    // The horizontal coordinate is negated, the vertical one keeps its sign,
    // and the vector stays unit length.
    assert_eq!(enemy.direction, Vec2i { x: 600, y: 800 });
    assert_eq!(enemy.pos, Vec2i { x: b.x_min, y: 0 });
}

#[test]
fn enemy_bounces_off_right_and_top_edges() {
    let b = wide_bounds();
    let mut enemy = Enemy {
        pos: Vec2i { x: b.x_max + 5_000, y: b.y_max },
        direction: Vec2i { x: 600, y: 800 },
        confined: Confined,
    };
    enemy_update_direction(&mut enemy, b);
    assert_eq!(enemy.direction, Vec2i { x: -600, y: -800 });
}

#[test]
fn enemy_away_from_edges_keeps_direction() {
    let b = wide_bounds();
    let mut enemy = Enemy {
        pos: Vec2i { x: 0, y: 0 },
        direction: Vec2i { x: 707, y: 707 },
        confined: Confined,
    };
    enemy_update_direction(&mut enemy, b);
    assert_eq!(enemy.direction, Vec2i { x: 707, y: 707 });
}

#[test]
fn enemy_at_edge_moving_inward_keeps_direction() {
    let b = wide_bounds();
    let mut enemy = Enemy {
        pos: Vec2i { x: b.x_min, y: 0 },
        direction: Vec2i { x: 600, y: 800 },
        confined: Confined,
    };
    enemy_update_direction(&mut enemy, b);
    assert_eq!(enemy.direction, Vec2i { x: 600, y: 800 });
}

#[test]
fn stationary_enemy_stays_stationary() {
    let b = wide_bounds();
    let mut enemy = Enemy {
        pos: Vec2i { x: b.x_min, y: b.y_min },
        direction: Vec2i { x: 0, y: 0 },
        confined: Confined,
    };
    enemy_update_direction(&mut enemy, b);
    assert_eq!(enemy.direction, Vec2i { x: 0, y: 0 });
    enemy_movement(&mut enemy, 3_600_000);
    assert_eq!(enemy.pos, Vec2i { x: b.x_min, y: b.y_min });
}

#[test]
fn normalize_dir_zero_draw_stays_zero() {
    let d = normalize_dir(Vec2i { x: 0, y: 0 });
    assert_eq!(d, Vec2i { x: 0, y: 0 });
}

#[test]
fn inset_bounds_exact() {
    let b = inset_bounds(1_000_000, 600_000);
    assert_eq!(b.x_min, -468_000);
    assert_eq!(b.x_max, 468_000);
    assert_eq!(b.y_min, -268_000);
    assert_eq!(b.y_max, 268_000);
}

#[test]
fn confinement_clamps_into_bounds() {
    let b = wide_bounds();
    let mut pos = Vec2i { x: 1_000_000_000, y: -1_000_000_000 };
    confine_movement(&mut pos, b);
    assert_eq!(pos, Vec2i { x: b.x_max, y: b.y_min });

    let mut inside = Vec2i { x: 1234, y: -4321 };
    confine_movement(&mut inside, b);
    assert_eq!(inside, Vec2i { x: 1234, y: -4321 });
}

#[test]
fn spawn_player_at_origin() {
    let p: Player = spawn_player();
    assert_eq!(p.pos, Vec2i { x: 0, y: 0 });
}

#[test]
fn spawned_enemies_lie_in_spawn_rect() {
    // Spawn legality, over several runs of the unseeded generator.
    for _ in 0..20 {
        let enemies = spawn_enemies(1_000_000, 600_000);
        assert_eq!(enemies.len(), ENEMY_MAX_COUNT);
        let b = inset_bounds(1_000_000, 600_000);
        for e in &enemies {
            assert!(b.x_min <= e.pos.x && e.pos.x < b.x_max);
            assert!(b.y_min <= e.pos.y && e.pos.y < b.y_max);
            assert_unit_or_zero(e.direction);
        }
    }
}

#[test]
fn spawn_in_smallest_window() {
    let w = SPRITE_SIZE + 2;
    let enemies = spawn_enemies(w, w);
    assert_eq!(enemies.len(), ENEMY_MAX_COUNT);
    let b = inset_bounds(w, w);
    for e in &enemies {
        assert!(b.x_min <= e.pos.x && e.pos.x < b.x_max);
        assert!(b.y_min <= e.pos.y && e.pos.y < b.y_max);
    }
}

#[test]
fn game_startup_counts() {
    let game = Game::new(1_000_000, 1_000_000);
    assert_eq!(game.player.pos, Vec2i { x: 0, y: 0 });
    assert_eq!(game.enemies.len(), ENEMY_MAX_COUNT);
}

#[test]
fn game_update_keeps_enemy_count() {
    let mut game = Game::new(1_000_000, 1_000_000);
    for _ in 0..50 {
        game.update(no_keys(), 16, 1_000_000, 1_000_000);
        assert_eq!(game.enemies.len(), ENEMY_MAX_COUNT);
    }
}

#[test]
fn game_update_confines_all_entities() {
    let mut game = Game::new(1_000_000, 1_000_000);
    let b = wide_bounds();
    // A huge frame time sends every moving entity far past the window; the
    // confinement pass must clamp every position back into the inset bounds.
    for _ in 0..3 {
        game.update(no_keys(), 3_600_000, 1_000_000, 1_000_000);
        assert!(b.x_min <= game.player.pos.x && game.player.pos.x <= b.x_max);
        assert!(b.y_min <= game.player.pos.y && game.player.pos.y <= b.y_max);
        for e in &game.enemies {
            assert!(b.x_min <= e.pos.x && e.pos.x <= b.x_max);
            assert!(b.y_min <= e.pos.y && e.pos.y <= b.y_max);
            assert_unit_or_zero(e.direction);
        }
    }
}

#[test]
fn game_update_player_runs_into_wall() {
    let mut game = Game::new(1_000_000, 1_000_000);
    let mut input = no_keys();
    input.key_d = true;
    // One second to the right at 500 units/s would reach x = 500 units, but
    // the inset rectangle ends at 468 units: the player is clamped there.
    game.update(input, 1000, 1_000_000, 1_000_000);
    assert_eq!(game.player.pos, Vec2i { x: 468_000, y: 0 });
}

#[test]
fn game_update_zero_input_keeps_player_still() {
    let mut game = Game::new(1_000_000, 1_000_000);
    for dt in [0u64, 1, 16, 1000, 3_600_000] {
        game.update(no_keys(), dt, 1_000_000, 1_000_000);
        assert_eq!(game.player.pos, Vec2i { x: 0, y: 0 });
    }
}

#[test]
fn milli_constant_is_the_fixed_point_scale() {
    assert_eq!(MILLI, 1000);
    assert_eq!(SPRITE_SIZE, 64 * MILLI);
}
