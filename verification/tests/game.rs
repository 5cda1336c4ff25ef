use space_invaders::input::{InputEvent, Key};
use space_invaders::render::{Cell, Style};
use space_invaders::render::u16_to_digits;
use space_invaders::{GameState, InputState, MovementPattern, RenderBuffer, Team};

fn cell(frame: &RenderBuffer, x: u16, y: u16) -> Cell {
    frame.get(x, y).unwrap()
}

#[test]
fn new_world_matches_initial_state() {
    let g = GameState::new();
    assert!(!g.running);
    assert_eq!(g.player.pos, (0, 0));
    assert_eq!(g.player.vel, (0, 0));
    assert_eq!(g.player.hp, 3);
    assert_eq!(g.player.reload_time, 4);
    assert_eq!(g.projectiles.len(), 0);
    assert_eq!(g.enemies.len(), 1);
    assert_eq!(g.enemies[0].pos, (10, 0));
    assert_eq!(g.enemies[0].hp, 100);
    assert_eq!(
        g.enemies[0].movement_pattern,
        MovementPattern::BackForth { going_left: true, down: 0 },
    );
    assert!(!g.input.left && !g.input.right && !g.input.up && !g.input.down);
}

#[test]
fn tick_moves_enemy_and_counts_reload_down() {
    let mut g = GameState::new();
    g.running = true;
    g.update(50, 30);
    assert_eq!(g.enemies[0].pos, (9, 0));
    assert_eq!(g.player.reload_time, 3);
    assert!(g.running);
}

#[test]
fn fourth_tick_spawns_volley_into_world() {
    let mut g = GameState::new();
    // Keep the player clear of the enemy: park it bottom-left.
    g.player.pos = (0, 200);
    for _ in 0..3 {
        g.update(50, 30);
        assert_eq!(g.projectiles.len(), 0);
    }
    g.update(50, 30);
    // The volley is spawned by the player phase and already integrated
    // once by the same tick's projectile phase.
    assert_eq!(g.projectiles.len(), 3);
    assert_eq!(g.projectiles[0].pos, (30, 190));
    assert_eq!(g.projectiles[0].vel, (0, -10));
    assert_eq!(g.projectiles[0].team, Team::Player);
}

#[test]
fn quit_event_stops_the_run() {
    let mut g = GameState::new();
    g.running = true;
    let quit = g.handle_input(InputEvent::Quit);
    assert!(quit);
    assert!(!g.running);
}

#[test]
fn key_events_update_intent_snapshot() {
    let mut g = GameState::new();
    g.running = true;
    assert!(!g.handle_input(InputEvent::Press(Key::Left)));
    assert!(g.input.left);
    assert!(g.running);
    assert!(!g.handle_input(InputEvent::Press(Key::Up)));
    assert!(g.input.up && g.input.left);
    assert!(!g.handle_input(InputEvent::Release(Key::Left)));
    assert!(!g.input.left && g.input.up);
    assert!(!g.handle_input(InputEvent::Other));
}

#[test]
fn input_state_reports_held_keys() {
    let mut s = InputState::new();
    assert!(!s.is_pressed(Key::Right));
    assert!(s.accept(InputEvent::Press(Key::Right)));
    assert!(s.is_pressed(Key::Right));
    // Pressing an already-held key changes nothing.
    assert!(!s.accept(InputEvent::Press(Key::Right)));
    assert!(s.accept(InputEvent::Release(Key::Right)));
    assert!(!s.is_pressed(Key::Right));
    assert!(!s.accept(InputEvent::Other));
}

#[test]
fn run_stops_when_player_health_exhausted() {
    let mut g = GameState::new();
    g.running = true;
    g.player.hp = 0;
    g.update(50, 30);
    assert!(!g.running);
}

#[test]
fn render_composites_player_enemy_and_hud() {
    let mut g = GameState::new();
    let frame = g.render(20, 10);
    assert_eq!(frame.width(), 20);
    assert_eq!(frame.height(), 10);
    // Player nose at cell (2, 0), white.
    assert_eq!(cell(&frame, 2, 0), Cell { glyph: '/', style: Style::White });
    // Enemy at cell (10, 0): its sprite row 0, column 1 is solid and the
    // enemy is unhurt, so plain.
    assert_eq!(cell(&frame, 11, 0), Cell { glyph: '▄', style: Style::Plain });
    // Health readout: "3", red, in the bottom-right corner.
    assert_eq!(cell(&frame, 19, 9), Cell { glyph: '3', style: Style::Red });
    // An untouched cell stays blank.
    assert_eq!(cell(&frame, 5, 5), Cell { glyph: ' ', style: Style::Plain });
}

#[test]
fn render_draws_projectile_glyph() {
    let mut g = GameState::new();
    g.player.pos = (0, 200);
    g.projectiles.push(space_invaders::Projectile::new((55, 52), (0, -10), Team::Player));
    let frame = g.render(30, 30);
    assert_eq!(cell(&frame, 5, 5), Cell { glyph: '|', style: Style::Plain });
}

#[test]
fn render_clears_hurt_flags_and_flashes_red() {
    let mut g = GameState::new();
    g.player.hurt = true;
    g.enemies[0].hurt = true;
    let frame = g.render(30, 20);
    // The hurt enemy is drawn red for this one frame.
    assert_eq!(cell(&frame, 11, 0), Cell { glyph: '▄', style: Style::Red });
    assert!(!g.player.hurt);
    assert!(!g.enemies[0].hurt);
    // The next frame is plain again.
    let frame = g.render(30, 20);
    assert_eq!(cell(&frame, 11, 0), Cell { glyph: '▄', style: Style::Plain });
}

#[test]
fn later_render_passes_overwrite_earlier_ones() {
    let mut g = GameState::new();
    // Park the enemy on top of the player: the player pass runs later and
    // wins the shared cells.
    g.enemies[0].pos = (0, 0);
    let frame = g.render(30, 20);
    assert_eq!(cell(&frame, 2, 0), Cell { glyph: '/', style: Style::White });
}

#[test]
fn hud_prints_all_digits() {
    let mut g = GameState::new();
    g.player.hp = 105;
    g.player.pos = (0, 50);
    let frame = g.render(20, 10);
    assert_eq!(cell(&frame, 17, 9), Cell { glyph: '1', style: Style::Red });
    assert_eq!(cell(&frame, 18, 9), Cell { glyph: '0', style: Style::Red });
    assert_eq!(cell(&frame, 19, 9), Cell { glyph: '5', style: Style::Red });
}

#[test]
fn hud_clips_on_a_narrow_viewport() {
    let mut g = GameState::new();
    g.player.hp = 105;
    let frame = g.render(2, 40);
    // Only the last two digits fit; the leading one is clipped away.
    assert_eq!(cell(&frame, 0, 39), Cell { glyph: '0', style: Style::Red });
    assert_eq!(cell(&frame, 1, 39), Cell { glyph: '5', style: Style::Red });
}

#[test]
fn enemy_survives_viewport_narrower_than_sprite() {
    // A 5-cell viewport is narrower than the 7-cell sprite: the walking
    // range degrades to the single cell x = 0 and nothing underflows.
    let pattern = MovementPattern::BackForth { going_left: false, down: 0 };
    let mut e = space_invaders::Enemy::new(0, 0, pattern, 10);
    MovementPattern::update(&mut e, 5);
    assert_eq!(e.pos.0, 0);
    assert_eq!(
        e.movement_pattern,
        MovementPattern::BackForth { going_left: true, down: 4 },
    );
}

#[test]
fn digits_of_bounds() {
    assert_eq!(u16_to_digits(0), vec!['0']);
    assert_eq!(u16_to_digits(7), vec!['7']);
    assert_eq!(u16_to_digits(40), vec!['4', '0']);
    assert_eq!(u16_to_digits(65535), vec!['6', '5', '5', '3', '5']);
}

#[test]
fn dead_enemy_leaves_before_next_collision_pass() {
    let mut g = GameState::new();
    g.enemies[0].hp = 1;
    g.player.pos = (0, 200);
    // A stationary player-team projectile parked where the enemy will be
    // after its first step: the enemy walks from (10, 0) to (9, 0), and
    // cell (10, 0) lies on its sprite's solid top row.
    g.projectiles.push(space_invaders::Projectile::new((100, 0), (0, 0), Team::Player));
    g.update(50, 30);
    // The hit landed this tick; the projectile died with it, and the
    // corpse is still in the world.
    assert_eq!(g.projectiles.len(), 0);
    assert_eq!(g.enemies.len(), 1);
    assert_eq!(g.enemies[0].hp, 0);
    // The next tick's enemy pass removes it, before any collision runs.
    g.update(50, 30);
    assert_eq!(g.enemies.len(), 0);
}

#[test]
fn damping_snaps_small_speeds_to_zero() {
    let mut p = space_invaders::Player::new((300, 300));
    let enemies = vec![];
    let idle = InputState::new();
    // Nine tenths of 6 truncates to 5, at the snap threshold: kept.
    p.vel = (6, 0);
    p.update(idle, &enemies, 100, 50);
    assert_eq!(p.vel.0, 5);
    // Nine tenths of 5 truncates to 4, below the threshold: snapped.
    p.update(idle, &enemies, 100, 50);
    assert_eq!(p.vel.0, 0);
}

#[test]
fn buffer_get_mut_writes_through() {
    let mut b = RenderBuffer::new(4, 3);
    *b.get_mut(2, 1) = Cell { glyph: 'x', style: Style::White };
    assert_eq!(b.get(2, 1).unwrap(), Cell { glyph: 'x', style: Style::White });
    assert_eq!(b.get(1, 1).unwrap(), Cell { glyph: ' ', style: Style::Plain });
}

#[test]
fn fresh_buffer_is_blank() {
    let b = RenderBuffer::new(4, 3);
    for x in 0..4 {
        for y in 0..3 {
            assert_eq!(b.get(x, y).unwrap(), Cell { glyph: ' ', style: Style::Plain });
        }
    }
    assert_eq!(b.get(0, 3), None);
}
