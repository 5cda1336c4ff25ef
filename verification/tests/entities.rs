use space_invaders::{Enemy, InputState, MovementPattern, Player, Projectile, Team};

fn no_keys() -> InputState {
    InputState { left: false, right: false, up: false, down: false }
}

fn left_held() -> InputState {
    InputState { left: true, right: false, up: false, down: false }
}

#[test]
fn enemy_pattern_walks_left_descends_and_reverses() {
    let pattern = MovementPattern::BackForth { going_left: true, down: 0 };
    let mut e = Enemy::new(3, 0, pattern, 10);
    let w = 50;

    // Three ticks of walking left, one cell per tick.
    for step in 1..=3u16 {
        MovementPattern::update(&mut e, w);
        assert_eq!(e.pos.0, 3 - step);
    }
    assert_eq!(e.pos, (0, 0));
    assert_eq!(
        e.movement_pattern,
        MovementPattern::BackForth { going_left: false, down: 4 },
    );

    // Exactly four descend ticks (the sprite is four rows tall), with no
    // horizontal movement.
    for step in 1..=4u16 {
        MovementPattern::update(&mut e, w);
        assert_eq!(e.pos, (0, step));
    }
    assert_eq!(
        e.movement_pattern,
        MovementPattern::BackForth { going_left: false, down: 0 },
    );

    // Then the direction has reversed: the next tick moves right.
    MovementPattern::update(&mut e, w);
    assert_eq!(e.pos, (1, 4));
}

#[test]
fn enemy_turns_at_right_edge() {
    let pattern = MovementPattern::BackForth { going_left: false, down: 0 };
    // Viewport 20 wide, sprite 7 wide: the walking range ends at x = 13.
    let mut e = Enemy::new(12, 0, pattern, 10);
    MovementPattern::update(&mut e, 20);
    assert_eq!(e.pos, (13, 0));
    assert_eq!(
        e.movement_pattern,
        MovementPattern::BackForth { going_left: true, down: 4 },
    );
}

#[test]
fn enemy_damage_floors_at_zero_and_marks_hurt() {
    let pattern = MovementPattern::BackForth { going_left: true, down: 0 };
    let mut e = Enemy::new(0, 0, pattern, 1);
    e.take_damage();
    assert_eq!(e.hp, 0);
    assert!(e.hurt);
    e.hurt = false;
    e.take_damage();
    assert_eq!(e.hp, 0);
    assert!(e.hurt);
}

#[test]
fn enemy_batch_removes_dead_and_still_steps_shifted_slot() {
    let pattern = MovementPattern::BackForth { going_left: true, down: 0 };
    let mut enemies = vec![
        Enemy::new(5, 0, pattern, 0),
        Enemy::new(7, 0, pattern, 5),
    ];
    Enemy::update(&mut enemies, 50);
    assert_eq!(enemies.len(), 1);
    // The survivor shifted into the freed slot and was still stepped.
    assert_eq!(enemies[0].pos, (6, 0));
    assert_eq!(enemies[0].hp, 5);
}

#[test]
fn player_damage_floors_at_zero_and_marks_hurt() {
    let mut p = Player::new((0, 0));
    assert!(p.is_alive());
    p.take_damage();
    p.take_damage();
    p.take_damage();
    assert_eq!(p.hp, 0);
    assert!(!p.is_alive());
    assert!(p.hurt);
    p.hurt = false;
    p.take_damage();
    assert_eq!(p.hp, 0);
    assert!(p.hurt);
}

#[test]
fn player_left_held_matches_recurrence() {
    // From rest at (10.0, 10.0) cells with the left flag held, the stated
    // recurrence gives: acceleration is derived at the end of each tick,
    // velocity integrates under the +/-3.0 cells/tick clamp, and movement
    // applies the previous velocity.  Positions in tenths of a cell:
    // 100, 100, 90, 70, 40.
    let mut p = Player::new((100, 100));
    let enemies = vec![];
    let expected_x = [100, 100, 90, 70, 40];
    for x in expected_x {
        p.update(left_held(), &enemies, 100, 50);
        assert_eq!(p.pos.0, x);
        assert_eq!(p.pos.1, 100);
    }
}

#[test]
fn player_stays_clamped_at_wall_for_any_ticks() {
    let mut p = Player::new((0, 100));
    let enemies = vec![];
    for _ in 0..10 {
        p.update(left_held(), &enemies, 100, 50);
        assert_eq!(p.pos.0, 0);
        assert!(p.pos.1 >= 0 && p.pos.1 <= (50 - 4) * 10);
    }
    // Hitting the wall killed the horizontal momentum.
    assert_eq!(p.vel.0, 0);
}

#[test]
fn player_damps_to_rest_without_input() {
    let mut p = Player::new((300, 300));
    p.vel = (30, 0);
    let enemies = vec![];
    for _ in 0..40 {
        p.update(no_keys(), &enemies, 100, 50);
    }
    // Damping by 9/10 with the snap threshold brings the ship to rest.
    assert_eq!(p.vel, (0, 0));
}

#[test]
fn player_fires_fan_of_three_every_fourth_tick() {
    let mut p = Player::new((100, 100));
    let enemies = vec![];
    for _ in 0..3 {
        let spawned = p.update(no_keys(), &enemies, 100, 50);
        assert_eq!(spawned.len(), 0);
    }
    let spawned = p.update(no_keys(), &enemies, 100, 50);
    assert_eq!(spawned.len(), 3);
    // Fired from the horizontal center of the 6-cell-wide sprite.
    for q in &spawned {
        assert_eq!(q.pos, (130, 100));
        assert_eq!(q.team, Team::Player);
    }
    assert_eq!(spawned[0].vel, (0, -10));
    assert_eq!(spawned[1].vel, (-5, -10));
    assert_eq!(spawned[2].vel, (5, -10));
    // The countdown wrapped: the next three ticks are quiet again.
    for _ in 0..3 {
        let spawned = p.update(no_keys(), &enemies, 100, 50);
        assert_eq!(spawned.len(), 0);
    }
    assert_eq!(p.update(no_keys(), &enemies, 100, 50).len(), 3);
}

#[test]
fn player_overlapping_enemy_takes_damage_and_stays() {
    let pattern = MovementPattern::BackForth { going_left: true, down: 0 };
    let enemies = vec![Enemy::new(0, 0, pattern, 10)];
    let mut p = Player::new((0, 0));
    p.update(no_keys(), &enemies, 100, 50);
    // Standing still inside an enemy: every retry fraction overlaps, so
    // the move is fully refused and one damage lands.
    assert_eq!(p.pos, (0, 0));
    assert_eq!(p.hp, 2);
    assert!(p.hurt);
}

#[test]
fn projectile_at_last_column_is_removed() {
    let mut projectiles = vec![Projectile::new(((10 - 1) * 10, 50), (0, 0), Team::Player)];
    let mut enemies = vec![];
    let mut player = Player::new((0, 0));
    Projectile::update(&mut projectiles, &mut enemies, &mut player, 10, 10);
    assert_eq!(projectiles.len(), 0);
}

#[test]
fn projectile_inside_bounds_moves_and_stays() {
    let mut projectiles = vec![Projectile::new((50, 50), (10, -10), Team::Player)];
    let mut enemies = vec![];
    let mut player = Player::new((0, 0));
    Projectile::update(&mut projectiles, &mut enemies, &mut player, 20, 20);
    assert_eq!(projectiles.len(), 1);
    assert_eq!(projectiles[0].pos, (60, 40));
}

#[test]
fn projectile_leaving_top_is_removed() {
    let mut projectiles = vec![Projectile::new((50, 5), (0, -10), Team::Player)];
    let mut enemies = vec![];
    let mut player = Player::new((0, 0));
    Projectile::update(&mut projectiles, &mut enemies, &mut player, 20, 20);
    assert_eq!(projectiles.len(), 0);
}

#[test]
fn player_projectile_damages_overlapped_enemy() {
    let pattern = MovementPattern::BackForth { going_left: true, down: 0 };
    // Cell (1, 0) of the enemy sprite is solid.
    let mut projectiles = vec![Projectile::new((10, 0), (0, 0), Team::Player)];
    let mut enemies = vec![Enemy::new(0, 0, pattern, 5)];
    let mut player = Player::new((500, 500));
    Projectile::update(&mut projectiles, &mut enemies, &mut player, 100, 100);
    assert_eq!(enemies[0].hp, 4);
    assert!(enemies[0].hurt);
    assert_eq!(player.hp, 3);
    // Landing the hit destroyed the projectile.
    assert_eq!(projectiles.len(), 0);
}

#[test]
fn projectile_deals_one_damage_and_is_gone() {
    let pattern = MovementPattern::BackForth { going_left: true, down: 0 };
    // Stationary projectile parked on a solid cell of the enemy: it lands
    // exactly one damage, not one per tick of overlap.
    let mut projectiles = vec![Projectile::new((10, 0), (0, 0), Team::Player)];
    let mut enemies = vec![Enemy::new(0, 0, pattern, 5)];
    let mut player = Player::new((500, 500));
    Projectile::update(&mut projectiles, &mut enemies, &mut player, 100, 100);
    assert_eq!(enemies[0].hp, 4);
    assert_eq!(projectiles.len(), 0);
    Projectile::update(&mut projectiles, &mut enemies, &mut player, 100, 100);
    assert_eq!(enemies[0].hp, 4);
}

#[test]
fn enemy_projectile_damages_overlapped_player() {
    // Cell (2, 0) of the player sprite is solid.
    let mut projectiles = vec![Projectile::new((20, 0), (0, 0), Team::Enemy)];
    let mut enemies = vec![];
    let mut player = Player::new((0, 0));
    Projectile::update(&mut projectiles, &mut enemies, &mut player, 100, 100);
    assert_eq!(player.hp, 2);
    assert!(player.hurt);
    // Landing the hit destroyed the projectile.
    assert_eq!(projectiles.len(), 0);
}

#[test]
fn projectile_never_damages_its_own_team() {
    let pattern = MovementPattern::BackForth { going_left: true, down: 0 };
    let mut projectiles = vec![
        Projectile::new((10, 0), (0, 0), Team::Enemy),
        Projectile::new((40, 50), (0, 0), Team::Player),
    ];
    let mut enemies = vec![Enemy::new(0, 0, pattern, 5)];
    // The player sits at cell (2, 5), under the second projectile.
    let mut player = Player::new((20, 50));
    Projectile::update(&mut projectiles, &mut enemies, &mut player, 100, 100);
    assert_eq!(enemies[0].hp, 5);
    assert!(!enemies[0].hurt);
    assert_eq!(player.hp, 3);
    assert!(!player.hurt);
    // An overlap that damages nobody is no hit: both projectiles live on.
    assert_eq!(projectiles.len(), 2);
}

#[test]
fn projectile_glyph_follows_slope() {
    // Purely vertical motion, including at rest, is a pipe.
    assert_eq!(Projectile::new((0, 0), (0, -10), Team::Player).glyph(), '|');
    assert_eq!(Projectile::new((0, 0), (0, 0), Team::Player).glyph(), '|');
    // Slope -1 falls in the backslash band.
    assert_eq!(Projectile::new((0, 0), (10, -10), Team::Player).glyph(), '\\');
    // Shallow slopes are a dash.
    assert_eq!(Projectile::new((0, 0), (10, 0), Team::Player).glyph(), '-');
    assert_eq!(Projectile::new((0, 0), (-10, 4), Team::Player).glyph(), '-');
    // Slope 1 falls in the slash band.
    assert_eq!(Projectile::new((0, 0), (10, 10), Team::Player).glyph(), '/');
    assert_eq!(Projectile::new((0, 0), (-5, -5), Team::Player).glyph(), '/');
    // Steep slopes are a pipe again.
    assert_eq!(Projectile::new((0, 0), (1, 10), Team::Player).glyph(), '|');
}
