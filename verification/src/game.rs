//! The world aggregate and the per-tick orchestration.
//!
//! A [`GameState`] owns the whole world for one run.  Each tick updates
//! the player, then the enemies, then the projectiles, in that fixed
//! order -- the player's newly spawned projectiles are consumed by the
//! same tick's projectile phase.  The render pass composites projectiles,
//! then enemies, then the player, then the health readout, into a fresh
//! frame; the loop that paces ticks and flushes frames lives outside the
//! library.

use vstd::prelude::*;
use crate::enemy::{enemies_step, enemy_views, Enemy, EnemyV, MovementPattern};
use crate::input::{InputEvent, InputState};
use crate::player::{player_spawn, player_tick, player_wf, Player, PlayerV};
use crate::projectile::{glyph_of, proj_pass, proj_views, proj_wf, Projectile, ProjectileV};
use crate::render::{blank_cell, dec_digits, u16_to_digits, Cell, RenderBuffer, Style};
use crate::shape::{covers, enemy_shape_spec, player_shape_spec};
use crate::units::cell_of;

verus! {

/// The mutable world: the run flag, the player, and the live enemies and
/// projectiles in world order, plus the input intent snapshot.
pub struct GameState {
    pub running: bool,
    pub player: Player,
    pub projectiles: Vec<Projectile>,
    pub enemies: Vec<Enemy>,
    pub input: InputState,
}

/// Mathematical model of the whole world.
#[verifier::ext_equal]
pub struct GameV {
    pub running: bool,
    pub player: PlayerV,
    pub enemies: Seq<EnemyV>,
    pub projectiles: Seq<ProjectileV>,
    pub input: InputState,
}

impl View for GameState {
    type V = GameV;

    open spec fn view(&self) -> GameV {
        GameV {
            running: self.running,
            player: self.player@,
            enemies: enemy_views(self.enemies@),
            projectiles: proj_views(self.projectiles@),
            input: self.input,
        }
    }
}

/// Well-formedness of the world: the player and every projectile within
/// the library's working ranges.
pub open spec fn game_wf(g: GameV) -> bool {
    &&& player_wf(g.player)
    &&& forall|i: int| 0 <= i < g.projectiles.len() ==> proj_wf(#[trigger] g.projectiles[i])
}

/// The world a run starts from: stopped, the player at rest in the
/// top-left corner, one enemy at cell (10, 0) walking left, no
/// projectiles, no keys held.
pub open spec fn initial_game() -> GameV {
    GameV {
        running: false,
        player: PlayerV {
            x: 0,
            y: 0,
            vx: 0,
            vy: 0,
            ax: 0,
            ay: 0,
            hp: crate::player::PLAYER_START_HP as int,
            reload: crate::player::RELOAD_TICKS as int,
            hurt: false,
        },
        enemies: seq![
            EnemyV { x: 10, y: 0, hp: 100, going_left: true, down: 0, hurt: false },
        ],
        projectiles: Seq::empty(),
        input: InputState { left: false, right: false, up: false, down: false },
    }
}

/// One whole simulation tick on a viewport of `w` by `h` cells: the
/// player updates against the current enemies and spawns its volley; the
/// run flag drops if the player's health is exhausted; the enemies step
/// and the dead ones leave; then every projectile -- the new volley
/// included -- integrates, damages what it hits, and despawns out of
/// bounds.
pub open spec fn game_tick(g: GameV, w: int, h: int) -> GameV {
    let pv = player_tick(g.player, g.input, g.enemies, w, h);
    let sp = player_spawn(g.player, pv);
    let running1 = if pv.hp == 0 {
        false
    } else {
        g.running
    };
    let es1 = enemies_step(g.enemies, w);
    let pp = proj_pass(g.projectiles + sp, es1, pv, w, h);
    GameV {
        running: running1,
        player: pp.player,
        enemies: pp.enemies,
        projectiles: pp.kept,
        input: g.input,
    }
}

/// Health never increases: across a whole simulation tick the player's
/// health can only stay or fall, and it never goes below zero.
pub proof fn lemma_game_tick_hp(g: GameV, w: int, h: int)
    requires
        g.player.hp >= 0,
    ensures
        0 <= game_tick(g, w, h).player.hp <= g.player.hp,
{
    let pv = player_tick(g.player, g.input, g.enemies, w, h);
    crate::player::lemma_player_tick_hp(g.player, g.input, g.enemies, w, h);
    crate::projectile::lemma_proj_pass_hp(
        g.projectiles + player_spawn(g.player, pv),
        enemies_step(g.enemies, w),
        pv,
        w,
        h,
    );
}

/// What the projectile pass leaves on grid cell `(gx, gy)`: the glyph of
/// the last projectile in world order whose cell that is, later writers
/// overwriting earlier ones.
pub open spec fn proj_layer(ps: Seq<ProjectileV>, gx: int, gy: int) -> Option<Cell>
    decreases ps.len(),
{
    if ps.len() == 0 {
        None
    } else {
        let p = ps.last();
        if cell_of(p.x) == gx && cell_of(p.y) == gy {
            Some(Cell { glyph: glyph_of(p.vx, p.vy), style: Style::Plain })
        } else {
            proj_layer(ps.drop_last(), gx, gy)
        }
    }
}

/// What the enemy pass leaves on grid cell `(gx, gy)`: the sprite glyph
/// of the last enemy in world order covering it, red while that enemy's
/// hurt flag is set.
pub open spec fn enemy_layer(es: Seq<EnemyV>, gx: int, gy: int) -> Option<Cell>
    decreases es.len(),
{
    if es.len() == 0 {
        None
    } else {
        let e = es.last();
        if covers(enemy_shape_spec(), e.x, e.y, gx, gy) {
            Some(
                Cell {
                    glyph: enemy_shape_spec()[gy - e.y][gx - e.x],
                    style: if e.hurt {
                        Style::Red
                    } else {
                        Style::Plain
                    },
                },
            )
        } else {
            enemy_layer(es.drop_last(), gx, gy)
        }
    }
}

/// What the player pass leaves on grid cell `(gx, gy)`: the white sprite
/// glyph where the player's sprite covers it.
pub open spec fn player_layer(p: PlayerV, gx: int, gy: int) -> Option<Cell> {
    if covers(player_shape_spec(), cell_of(p.x), cell_of(p.y), gx, gy) {
        Some(
            Cell {
                glyph: player_shape_spec()[gy - cell_of(p.y)][gx - cell_of(p.x)],
                style: Style::White,
            },
        )
    } else {
        None
    }
}

/// What the health readout leaves on grid cell `(gx, gy)`: the decimal
/// digits of `hp`, red, on the bottom row, right-aligned so the last
/// digit sits in the last column.
pub open spec fn hud_layer(hp: int, w: int, h: int, gx: int, gy: int) -> Option<Cell> {
    let ds = dec_digits(hp);
    if gy == h - 1 && w - ds.len() <= gx < w {
        Some(Cell { glyph: ds[gx - (w - ds.len())], style: Style::Red })
    } else {
        None
    }
}

/// The finished frame, cell by cell: the health readout over the player
/// over the enemies over the projectiles over blank.
pub open spec fn frame_cell(g: GameV, w: int, h: int, gx: int, gy: int) -> Cell {
    match hud_layer(g.player.hp, w, h, gx, gy) {
        Some(c) => c,
        None => match player_layer(g.player, gx, gy) {
            Some(c) => c,
            None => match enemy_layer(g.enemies, gx, gy) {
                Some(c) => c,
                None => match proj_layer(g.projectiles, gx, gy) {
                    Some(c) => c,
                    None => blank_cell(),
                },
            },
        },
    }
}

impl GameState {
    /// A fresh world, in the initial state.
    pub fn new() -> (g: GameState)
        ensures
            g@ == initial_game(),
            game_wf(g@),
    {
        let movement_pattern = MovementPattern::BackForth { going_left: true, down: 0 };
        let g = GameState {
            running: false,
            player: Player::new((0, 0)),
            projectiles: Vec::new(),
            enemies: vec![Enemy::new(10, 0, movement_pattern, 100)],
            input: InputState::new(),
        };
        proof {
            assert(g@ =~~= initial_game());
        }
        g
    }

    /// One simulation tick on a viewport of `w` by `h` cells.
    pub fn update(&mut self, w: u16, h: u16)
        requires
            game_wf(old(self)@),
        ensures
            final(self)@ == game_tick(old(self)@, w as int, h as int),
            game_wf(final(self)@),
    {
        let input = self.input;
        let mut spawned = self.player.update(input, &self.enemies, w, h);
        let ghost spv: Seq<Projectile> = spawned@;
        proof {
            let sp = player_spawn(old(self).player@, self.player@);
            assert(proj_views(spv) == sp);
            if old(self).player@.reload == 1 {
                assert(sp.len() == 3);
                assert(proj_wf(sp[0]));
                assert(proj_wf(sp[1]));
                assert(proj_wf(sp[2]));
            }
            assert forall|i: int| 0 <= i < spv.len() implies proj_wf(#[trigger] spv[i]@) by {
                assert(spv[i]@ == proj_views(spv)[i]);
                assert(spv.len() == sp.len());
                if i == 0 {
                    assert(spv[i]@ == sp[0]);
                } else if i == 1 {
                    assert(spv[i]@ == sp[1]);
                } else {
                    assert(i == 2);
                    assert(spv[i]@ == sp[2]);
                }
            }
        }
        self.projectiles.append(&mut spawned);
        proof {
            assert forall|i: int| 0 <= i < self.projectiles@.len() implies proj_wf(
                #[trigger] self.projectiles@[i]@,
            ) by {
                if i < old(self).projectiles@.len() {
                    assert(self.projectiles@[i] == old(self).projectiles@[i]);
                    assert(old(self)@.projectiles[i] == old(self).projectiles@[i]@);
                } else {
                    assert(self.projectiles@[i] == spv[i - old(self).projectiles@.len()]);
                }
            }
        }
        if !self.player.is_alive() {
            self.running = false;
        }
        crate::enemy::Enemy::update(&mut self.enemies, w);
        proof {
            assert(proj_views(self.projectiles@) =~= proj_views(old(self).projectiles@)
                + player_spawn(
                old(self).player@,
                player_tick(
                    old(self).player@,
                    old(self).input,
                    enemy_views(old(self).enemies@),
                    w as int,
                    h as int,
                ),
            ));
        }
        Projectile::update(&mut self.projectiles, &mut self.enemies, &mut self.player, w, h);
        proof {
            assert(self@ =~~= game_tick(old(self)@, w as int, h as int));
        }
    }

    /// The render pass: composites the world into a fresh frame of `w`
    /// by `h` cells -- projectiles, then enemies, then the player, then
    /// the health readout, later writers overwriting earlier ones -- and
    /// clears every hurt flag, so a damage flash lasts one frame.
    #[verifier::rlimit(100)]
    pub fn render(&mut self, w: u16, h: u16) -> (frame: RenderBuffer)
        requires
            game_wf(old(self)@),
        ensures
            frame.wf(),
            frame.width == w,
            frame.height == h,
            forall|gx: int, gy: int|
                0 <= gx < w && 0 <= gy < h ==> #[trigger] frame.cell_at(gx, gy) == frame_cell(
                    old(self)@,
                    w as int,
                    h as int,
                    gx,
                    gy,
                ),
            final(self).running == old(self).running,
            final(self).input == old(self).input,
            final(self).projectiles == old(self).projectiles,
            final(self).player == (Player { hurt: false, ..old(self).player }),
            final(self).enemies@.len() == old(self).enemies@.len(),
            forall|i: int|
                0 <= i < old(self).enemies@.len() ==> #[trigger] final(self).enemies@[i] == (Enemy {
                    hurt: false,
                    ..old(self).enemies@[i]
                }),
            game_wf(final(self)@),
    {
        let mut frame = RenderBuffer::new(w, h);

        let ghost pv_all: Seq<ProjectileV> = proj_views(self.projectiles@);
        let mut i: usize = 0;
        while i < self.projectiles.len()
            invariant
                game_wf(old(self)@),
                *self == *old(self),
                pv_all == proj_views(self.projectiles@),
                i <= self.projectiles@.len(),
                frame.wf(),
                frame.width == w,
                frame.height == h,
                forall|gx: int, gy: int|
                    0 <= gx < w && 0 <= gy < h ==> #[trigger] frame.cell_at(gx, gy) == (match
                        proj_layer(pv_all.take(i as int), gx, gy) {
                        Some(c) => c,
                        None => blank_cell(),
                    }),
            decreases self.projectiles@.len() - i,
        {
            let p = self.projectiles[i];
            assert(proj_wf(old(self)@.projectiles[i as int]));
            p.render(&mut frame);
            i = i + 1;
            proof {
                assert(pv_all.take(i as int).drop_last() =~= pv_all.take(i as int - 1));
                assert(pv_all.take(i as int).last() == p@);
            }
        }
        proof {
            assert(pv_all.take(self.projectiles@.len() as int) =~= pv_all);
        }

        let ghost ev_all: Seq<EnemyV> = enemy_views(self.enemies@);
        let mut j: usize = 0;
        while j < self.enemies.len()
            invariant
                game_wf(old(self)@),
                self.running == old(self).running,
                self.input == old(self).input,
                self.player == old(self).player,
                self.projectiles == old(self).projectiles,
                pv_all == proj_views(self.projectiles@),
                ev_all == enemy_views(old(self).enemies@),
                self.enemies@.len() == old(self).enemies@.len(),
                forall|jj: int|
                    0 <= jj < j ==> #[trigger] self.enemies@[jj] == (Enemy {
                        hurt: false,
                        ..old(self).enemies@[jj]
                    }),
                forall|jj: int|
                    j <= jj < self.enemies@.len() ==> #[trigger] self.enemies@[jj] == old(
                        self,
                    ).enemies@[jj],
                j <= self.enemies@.len(),
                frame.wf(),
                frame.width == w,
                frame.height == h,
                forall|gx: int, gy: int|
                    0 <= gx < w && 0 <= gy < h ==> #[trigger] frame.cell_at(gx, gy) == (match
                        enemy_layer(ev_all.take(j as int), gx, gy) {
                        Some(c) => c,
                        None => match proj_layer(pv_all, gx, gy) {
                            Some(c) => c,
                            None => blank_cell(),
                        },
                    }),
            decreases self.enemies@.len() - j,
        {
            let mut e = self.enemies[j];
            assert(e == old(self).enemies@[j as int]);
            e.render(&mut frame);
            self.enemies.set(j, e);
            j = j + 1;
            proof {
                assert(ev_all.take(j as int).drop_last() =~= ev_all.take(j as int - 1));
                assert(ev_all.take(j as int).last() == old(self).enemies@[j as int - 1]@);
            }
        }
        proof {
            assert(ev_all.take(self.enemies@.len() as int) =~= ev_all);
        }

        self.player.render(&mut frame);

        let ds = u16_to_digits(self.player.hp);
        let ghost base: RenderBuffer = frame;
        let mut t: usize = 0;
        while t < ds.len()
            invariant
                ds@ == dec_digits(old(self).player@.hp),
                1 <= ds@.len() <= 5,
                t <= ds@.len(),
                frame.wf(),
                frame.width == w,
                frame.height == h,
                base.wf(),
                base.width == w,
                base.height == h,
                forall|gx: int, gy: int|
                    0 <= gx < w && 0 <= gy < h ==> #[trigger] frame.cell_at(gx, gy) == (if gy == (
                    h as int) - 1 && (w as int) - ds@.len() <= gx < (w as int) - ds@.len()
                        + t as int {
                        Cell { glyph: ds@[gx - ((w as int) - ds@.len())], style: Style::Red }
                    } else {
                        base.cell_at(gx, gy)
                    }),
            decreases ds@.len() - t,
        {
            let x: i64 = w as i64 - ds.len() as i64 + t as i64;
            if 0 <= x && x < w as i64 && h >= 1 {
                frame.set(x as u16, h - 1, Cell { glyph: ds[t], style: Style::Red });
            }
            t = t + 1;
        }

        proof {
            assert forall|gx: int, gy: int| 0 <= gx < w && 0 <= gy < h implies #[trigger] frame
                .cell_at(gx, gy) == frame_cell(old(self)@, w as int, h as int, gx, gy) by {
                assert(old(self)@.player.hp == old(self).player@.hp);
            }
        }
        frame
    }

    /// Folds one input event into the world: the quit event stops the
    /// run and reports true; every other event goes to the intent
    /// snapshot and reports false.
    pub fn handle_input(&mut self, event: InputEvent) -> (quit: bool)
        ensures
            match event {
                InputEvent::Quit => quit && !final(self).running && final(self).player
                    == old(self).player && final(self).projectiles == old(self).projectiles
                    && final(self).enemies == old(self).enemies && final(self).input
                    == old(self).input,
                InputEvent::Press(k) => !quit && final(self).input == old(self).input.with_key(
                    k,
                    true,
                ) && final(self).running == old(self).running && final(self).player
                    == old(self).player && final(self).projectiles == old(self).projectiles
                    && final(self).enemies == old(self).enemies,
                InputEvent::Release(k) => !quit && final(self).input == old(self).input.with_key(
                    k,
                    false,
                ) && final(self).running == old(self).running && final(self).player
                    == old(self).player && final(self).projectiles == old(self).projectiles
                    && final(self).enemies == old(self).enemies,
                InputEvent::Other => !quit && *final(self) == *old(self),
            },
    {
        match event {
            InputEvent::Quit => {
                self.running = false;
                true
            },
            _ => {
                self.input.accept(event);
                false
            },
        }
    }
}

} // verus!
