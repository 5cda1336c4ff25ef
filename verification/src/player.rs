//! The player ship.
//!
//! Per tick the player attempts to move by its velocity, backing off in
//! ten discrete fractions when the move would overlap an enemy (a
//! discretized stand-in for a continuous sweep) and taking one damage if
//! any backing-off was needed; integrates acceleration into velocity with
//! a per-axis speed clamp; derives the next acceleration from the held
//! direction flags, damping the velocity when no single direction wins;
//! clamps its position into the viewport, killing momentum on the axis
//! that hit a wall; and counts its reload down, firing a fan of three
//! projectiles each time the counter wraps.

use vstd::prelude::*;
use crate::collision::masks_overlap;
use crate::enemy::{enemy_views, Enemy, EnemyV};
use crate::projectile::{proj_views, Projectile, ProjectileV, Team};
use crate::shape::{covers, enemy_shape, enemy_shape_spec, player_shape, player_shape_spec,
    ShapeMask};
use crate::units::{cell_of, cell_of_exec, clamp_spec, clamp_i32, frac_of, frac_of_exec,
    lemma_frac_of_bound, SCALE};

verus! {

/// Width of the player sprite in cells.
pub const PLAYER_W: u16 = 6;

/// Height of the player sprite in rows.
pub const PLAYER_H: u16 = 4;

/// Hit points a fresh player starts with.
pub const PLAYER_START_HP: u16 = 3;

/// Ticks between two volleys; the reload counter wraps back to this value
/// whenever it reaches zero.
pub const RELOAD_TICKS: u16 = 4;

/// Largest speed magnitude per axis, in tenths of a cell per tick.
pub const MAX_SPEED: i32 = 30;

/// Horizontal acceleration while a single left or right flag is held.
pub const ACCEL_X: i32 = 10;

/// Upward acceleration while only the up flag is held; climbing is
/// stronger than diving.
pub const ACCEL_UP: i32 = 15;

/// Downward acceleration while only the down flag is held.
pub const ACCEL_DOWN: i32 = 10;

/// Speeds strictly below this magnitude snap to zero after damping.
pub const SNAP_SPEED: i32 = 5;

/// Largest sub-cell position coordinate the player can reach: the clamp
/// bound for the widest possible viewport.
pub const PLAYER_POS_LIMIT: i32 = 655350;

/// The player ship: sub-cell position, velocity and acceleration, hit
/// points, the reload countdown, and a visual hurt flag cleared by the
/// render pass.
#[derive(Clone, Copy, Debug)]
pub struct Player {
    pub pos: (i32, i32),
    pub vel: (i32, i32),
    pub acc: (i32, i32),
    pub hp: u16,
    pub reload_time: u16,
    pub hurt: bool,
}

/// Mathematical model of the player.
pub struct PlayerV {
    pub x: int,
    pub y: int,
    pub vx: int,
    pub vy: int,
    pub ax: int,
    pub ay: int,
    pub hp: int,
    pub reload: int,
    pub hurt: bool,
}

impl View for Player {
    type V = PlayerV;

    open spec fn view(&self) -> PlayerV {
        PlayerV {
            x: self.pos.0 as int,
            y: self.pos.1 as int,
            vx: self.vel.0 as int,
            vy: self.vel.1 as int,
            ax: self.acc.0 as int,
            ay: self.acc.1 as int,
            hp: self.hp as int,
            reload: self.reload_time as int,
            hurt: self.hurt,
        }
    }
}

/// Well-formedness of the player model: position within the widest
/// possible viewport, speed within the per-axis clamp, acceleration one of
/// the constants, and the reload counter live.
pub open spec fn player_wf(p: PlayerV) -> bool {
    &&& 0 <= p.x <= PLAYER_POS_LIMIT as int
    &&& 0 <= p.y <= PLAYER_POS_LIMIT as int
    &&& -MAX_SPEED as int <= p.vx <= MAX_SPEED as int
    &&& -MAX_SPEED as int <= p.vy <= MAX_SPEED as int
    &&& -ACCEL_UP as int <= p.ax <= ACCEL_UP as int
    &&& -ACCEL_UP as int <= p.ay <= ACCEL_UP as int
    &&& 0 <= p.hp
    &&& 1 <= p.reload <= RELOAD_TICKS as int
}

/// The model after one damaging event: one hit point lost, floored at
/// zero, and the hurt flag set.
pub open spec fn player_damaged(p: PlayerV) -> PlayerV {
    PlayerV { hp: if p.hp > 0 { p.hp - 1 } else { 0 }, hurt: true, ..p }
}

/// Velocity after damping: scaled by nine tenths (truncated toward zero)
/// and snapped to zero strictly below [`SNAP_SPEED`].
pub open spec fn damp_snap(v: int) -> int {
    let d = if v >= 0 {
        (v * 9) / 10
    } else {
        -(((-v) * 9) / 10)
    };
    if -(SNAP_SPEED as int) < d < SNAP_SPEED as int {
        0
    } else {
        d
    }
}

/// One axis of the flag rule: a single held flag yields a constant
/// acceleration toward it and leaves the velocity alone; opposing or no
/// flags damp the velocity and zero the acceleration.  The result is the
/// pair (velocity, acceleration).
pub open spec fn axis_flags(v: int, neg: bool, pos: bool, neg_mag: int, pos_mag: int) -> (
    int,
    int,
) {
    if neg && !pos {
        (v, -neg_mag)
    } else if pos && !neg {
        (v, pos_mag)
    } else {
        (damp_snap(v), 0)
    }
}

/// Largest sub-cell x position on a viewport `w` cells wide; a viewport
/// narrower than the sprite degrades to a zero-width range.
pub open spec fn max_x(w: int) -> int {
    if w >= PLAYER_W as int {
        (w - PLAYER_W as int) * 10
    } else {
        0
    }
}

/// Largest sub-cell y position on a viewport `h` cells tall.
pub open spec fn max_y(h: int) -> int {
    if h >= PLAYER_H as int {
        (h - PLAYER_H as int) * 10
    } else {
        0
    }
}

/// Whether the player sprite, at sub-cell position `(px, py)`, overlaps
/// any enemy's sprite.  The sprite is laid at the cell its position falls
/// in.
pub open spec fn player_hits_enemies(px: int, py: int, es: Seq<EnemyV>) -> bool {
    exists|i: int|
        0 <= i < es.len() && masks_overlap(
            player_shape_spec(),
            cell_of(px),
            cell_of(py),
            enemy_shape_spec(),
            es[i].x,
            es[i].y,
        )
}

/// The retry rule of the move step: the largest fraction `k/10` of the
/// velocity, for `k` counting down from `k0`, whose destination is free of
/// enemies; zero when even standing still overlaps.
pub open spec fn retry_k(px: int, py: int, vx: int, vy: int, es: Seq<EnemyV>, k0: int) -> int
    decreases k0,
{
    if k0 <= 0 {
        0
    } else if !player_hits_enemies(px + frac_of(vx, k0), py + frac_of(vy, k0), es) {
        k0
    } else {
        retry_k(px, py, vx, vy, es, k0 - 1)
    }
}

/// The whole per-tick update rule of the player, in order: fractional
/// move with one damage if any backing-off was needed, acceleration
/// integrated into the velocity under the speed clamp, next acceleration
/// derived from the held flags, position clamped into the viewport with
/// momentum killed on a clamped axis, and the reload countdown stepped
/// with wrap-around.
pub open spec fn player_tick(p: PlayerV, inp: crate::input::InputState, es: Seq<EnemyV>, w: int,
    h: int) -> PlayerV {
    let k = retry_k(p.x, p.y, p.vx, p.vy, es, 10);
    let mx = p.x + frac_of(p.vx, k);
    let my = p.y + frac_of(p.vy, k);
    let reduced = k < 10;
    let hp1 = if reduced {
        if p.hp > 0 {
            p.hp - 1
        } else {
            0
        }
    } else {
        p.hp
    };
    let hurt1 = p.hurt || reduced;
    let vx1 = clamp_spec(p.vx + p.ax, -MAX_SPEED as int, MAX_SPEED as int);
    let vy1 = clamp_spec(p.vy + p.ay, -MAX_SPEED as int, MAX_SPEED as int);
    let (vx2, ax2) = axis_flags(vx1, inp.left, inp.right, ACCEL_X as int, ACCEL_X as int);
    let (vy2, ay2) = axis_flags(vy1, inp.up, inp.down, ACCEL_UP as int, ACCEL_DOWN as int);
    let cx = clamp_spec(mx, 0, max_x(w));
    let cy = clamp_spec(my, 0, max_y(h));
    let (vx3, ax3) = if cx != mx {
        (0, 0)
    } else {
        (vx2, ax2)
    };
    let (vy3, ay3) = if cy != my {
        (0, 0)
    } else {
        (vy2, ay2)
    };
    let reload1 = if p.reload - 1 == 0 {
        RELOAD_TICKS as int
    } else {
        p.reload - 1
    };
    PlayerV {
        x: cx,
        y: cy,
        vx: vx3,
        vy: vy3,
        ax: ax3,
        ay: ay3,
        hp: hp1,
        reload: reload1,
        hurt: hurt1,
    }
}

/// The volley spawned by the tick: empty unless the reload counter
/// wrapped, else a fan of three player-team projectiles -- straight up,
/// up-left, up-right -- fired from the horizontal center of the sprite at
/// the post-move position.
pub open spec fn player_spawn(p: PlayerV, after: PlayerV) -> Seq<ProjectileV> {
    if p.reload == 1 {
        let mx = after.x + (PLAYER_W as int) * 10 / 2;
        seq![
            ProjectileV { x: mx, y: after.y, vx: 0, vy: -10, team: Team::Player },
            ProjectileV { x: mx, y: after.y, vx: -5, vy: -10, team: Team::Player },
            ProjectileV { x: mx, y: after.y, vx: 5, vy: -10, team: Team::Player },
        ]
    } else {
        Seq::empty()
    }
}

/// The movement clamp: whatever the starting state, the held flags, the
/// enemies and the tick count, every tick lands the player's position
/// inside `[0, max_x(w)]` by `[0, max_y(h)]` -- so by induction the
/// position stays there for any number of ticks.
pub proof fn lemma_player_clamp(
    p: PlayerV,
    inp: crate::input::InputState,
    es: Seq<EnemyV>,
    w: int,
    h: int,
)
    ensures
        0 <= player_tick(p, inp, es, w, h).x <= max_x(w),
        0 <= player_tick(p, inp, es, w, h).y <= max_y(h),
{
}

/// Damage through the player's own tick never raises health, and health
/// never goes below zero.
pub proof fn lemma_player_tick_hp(
    p: PlayerV,
    inp: crate::input::InputState,
    es: Seq<EnemyV>,
    w: int,
    h: int,
)
    requires
        p.hp >= 0,
    ensures
        0 <= player_tick(p, inp, es, w, h).hp <= p.hp,
{
}

/// Whether the player sprite laid at the cell of `(px, py)` overlaps any
/// enemy in the row.
fn hits_any_enemy(pm: &ShapeMask, em: &ShapeMask, px: i32, py: i32, enemies: &Vec<Enemy>) -> (r:
    bool)
    requires
        pm@ == player_shape_spec(),
        em@ == enemy_shape_spec(),
        -0x0100_0000 <= px <= 0x0100_0000,
        -0x0100_0000 <= py <= 0x0100_0000,
    ensures
        r == player_hits_enemies(px as int, py as int, enemy_views(enemies@)),
{
    let cx = cell_of_exec(px);
    let cy = cell_of_exec(py);
    let ghost es = enemy_views(enemies@);
    let mut i: usize = 0;
    while i < enemies.len()
        invariant
            pm@ == player_shape_spec(),
            em@ == enemy_shape_spec(),
            es == enemy_views(enemies@),
            i <= enemies.len(),
            cx == cell_of(px as int),
            cy == cell_of(py as int),
            -0x0100_0000 <= cx <= 0x0100_0000,
            -0x0100_0000 <= cy <= 0x0100_0000,
            forall|j: int|
                0 <= j < i ==> !masks_overlap(
                    player_shape_spec(),
                    cell_of(px as int),
                    cell_of(py as int),
                    enemy_shape_spec(),
                    es[j].x,
                    es[j].y,
                ),
        decreases enemies.len() - i,
    {
        let e = &enemies[i];
        if crate::collision::collide_at(
            pm,
            cx as i64,
            cy as i64,
            em,
            e.pos.0 as i64,
            e.pos.1 as i64,
        ) {
            assert(es[i as int].x == e.pos.0 as int && es[i as int].y == e.pos.1 as int);
            return true;
        }
        assert(es[i as int].x == e.pos.0 as int && es[i as int].y == e.pos.1 as int);
        i = i + 1;
    }
    false
}

/// Velocity after damping, exec counterpart of [`damp_snap`].
fn damp_snap_exec(v: i32) -> (r: i32)
    requires
        -MAX_SPEED <= v <= MAX_SPEED,
    ensures
        r == damp_snap(v as int),
        -MAX_SPEED <= r <= MAX_SPEED,
{
    let d: i32 = if v >= 0 {
        (v * 9) / 10
    } else {
        -(((-v) * 9) / 10)
    };
    if -SNAP_SPEED < d && d < SNAP_SPEED {
        0
    } else {
        d
    }
}

impl Player {
    /// A fresh player at the given sub-cell position: at rest, fully
    /// loaded, unhurt.
    pub fn new(pos: (i32, i32)) -> (p: Player)
        requires
            0 <= pos.0 <= PLAYER_POS_LIMIT,
            0 <= pos.1 <= PLAYER_POS_LIMIT,
        ensures
            p.pos == pos,
            p.vel == (0i32, 0i32),
            p.acc == (0i32, 0i32),
            p.hp == PLAYER_START_HP,
            p.reload_time == RELOAD_TICKS,
            !p.hurt,
            player_wf(p@),
    {
        Player {
            pos,
            vel: (0, 0),
            acc: (0, 0),
            hp: PLAYER_START_HP,
            reload_time: RELOAD_TICKS,
            hurt: false,
        }
    }

    /// Whether the run goes on: true iff any hit points are left.
    pub fn is_alive(&self) -> (r: bool)
        ensures
            r == (self.hp > 0),
    {
        self.hp > 0
    }

    /// One damaging event: hit points go down by one but never below
    /// zero, and the hurt flag is set even at zero health.  Health never
    /// increases.
    pub fn take_damage(&mut self)
        ensures
            final(self).hp as int == if old(self).hp > 0 {
                old(self).hp - 1
            } else {
                0
            },
            final(self).hp <= old(self).hp,
            final(self).hurt,
            final(self).pos == old(self).pos,
            final(self).vel == old(self).vel,
            final(self).acc == old(self).acc,
            final(self).reload_time == old(self).reload_time,
    {
        if self.hp > 0 {
            self.hp = self.hp - 1;
        }
        self.hurt = true;
    }

    /// Draws the player sprite into the frame, white, at the cell its
    /// position falls in, and clears the hurt flag: the flash lasts for
    /// one rendered frame.
    pub fn render(&mut self, buf: &mut crate::render::RenderBuffer)
        requires
            old(buf).wf(),
            player_wf(old(self)@),
        ensures
            final(buf).wf(),
            final(buf).width == old(buf).width,
            final(buf).height == old(buf).height,
            forall|gx: int, gy: int|
                0 <= gx < old(buf).width && 0 <= gy < old(buf).height ==> #[trigger] final(buf).cell_at(gx, gy) == (if covers(
                    player_shape_spec(),
                    cell_of(old(self)@.x),
                    cell_of(old(self)@.y),
                    gx,
                    gy,
                ) {
                    crate::render::Cell {
                        glyph: player_shape_spec()[gy - cell_of(old(self)@.y)][gx - cell_of(
                            old(self)@.x,
                        )],
                        style: crate::render::Style::White,
                    }
                } else {
                    old(buf).cell_at(gx, gy)
                }),
            *final(self) == (Player { hurt: false, ..*old(self) }),
    {
        let m = player_shape();
        let cx = cell_of_exec(self.pos.0);
        let cy = cell_of_exec(self.pos.1);
        buf.blit_mask(&m, cx as u16, cy as u16, crate::render::Style::White);
        self.hurt = false;
    }

    /// The player's per-tick update against the current enemy row on a
    /// viewport of `w` by `h` cells.  Returns the projectiles spawned
    /// this tick.  The position always lands inside
    /// `[0, max_x(w)]` by `[0, max_y(h)]`, and health never increases.
    #[verifier::rlimit(60)]
    pub fn update(&mut self, input: crate::input::InputState, enemies: &Vec<Enemy>, w: u16,
        h: u16) -> (spawned: Vec<Projectile>)
        requires
            player_wf(old(self)@),
        ensures
            final(self)@ == player_tick(
                old(self)@,
                input,
                enemy_views(enemies@),
                w as int,
                h as int,
            ),
            proj_views(spawned@) == player_spawn(old(self)@, final(self)@),
            player_wf(final(self)@),
            0 <= final(self)@.x <= max_x(w as int),
            0 <= final(self)@.y <= max_y(h as int),
            final(self).hp <= old(self).hp,
    {
        let ghost es = enemy_views(enemies@);
        let pm = player_shape();
        let em = enemy_shape();
        let px = self.pos.0;
        let py = self.pos.1;
        let vx = self.vel.0;
        let vy = self.vel.1;

        // Step 1: fractional move with back-off.
        let mut k: i32 = 10;
        while k > 0
            invariant_except_break
                0 <= k <= 10,
                pm@ == player_shape_spec(),
                em@ == enemy_shape_spec(),
                es == enemy_views(enemies@),
                0 <= px <= PLAYER_POS_LIMIT,
                0 <= py <= PLAYER_POS_LIMIT,
                -MAX_SPEED <= vx <= MAX_SPEED,
                -MAX_SPEED <= vy <= MAX_SPEED,
                retry_k(px as int, py as int, vx as int, vy as int, es, 10) == retry_k(
                    px as int,
                    py as int,
                    vx as int,
                    vy as int,
                    es,
                    k as int,
                ),
            ensures
                0 <= k <= 10,
                pm@ == player_shape_spec(),
                em@ == enemy_shape_spec(),
                k as int == retry_k(px as int, py as int, vx as int, vy as int, es, 10),
            decreases k,
        {
            proof {
                lemma_frac_of_bound(vx as int, k as int);
                lemma_frac_of_bound(vy as int, k as int);
            }
            let cand_x = px + frac_of_exec(vx, k);
            let cand_y = py + frac_of_exec(vy, k);
            if !hits_any_enemy(&pm, &em, cand_x, cand_y, enemies) {
                break ;
            }
            k = k - 1;
        }
        proof {
            if k == 0 {
                assert(retry_k(px as int, py as int, vx as int, vy as int, es, 0) == 0);
            }
            lemma_frac_of_bound(vx as int, k as int);
            lemma_frac_of_bound(vy as int, k as int);
        }
        let mx = px + frac_of_exec(vx, k);
        let my = py + frac_of_exec(vy, k);
        if k < 10 {
            self.take_damage();
        }

        // Step 2: integrate acceleration into velocity under the clamp.
        let vx1 = clamp_i32(vx + self.acc.0, -MAX_SPEED, MAX_SPEED);
        let vy1 = clamp_i32(vy + self.acc.1, -MAX_SPEED, MAX_SPEED);

        // Step 3: derive the next acceleration from the held flags.
        let (vx2, ax2): (i32, i32) = if input.left && !input.right {
            (vx1, -ACCEL_X)
        } else if input.right && !input.left {
            (vx1, ACCEL_X)
        } else {
            (damp_snap_exec(vx1), 0)
        };
        let (vy2, ay2): (i32, i32) = if input.up && !input.down {
            (vy1, -ACCEL_UP)
        } else if input.down && !input.up {
            (vy1, ACCEL_DOWN)
        } else {
            (damp_snap_exec(vy1), 0)
        };

        // Step 4: clamp into the viewport; a wall kills momentum.
        let hi_x: i32 = if w >= PLAYER_W {
            (w - PLAYER_W) as i32 * SCALE
        } else {
            0
        };
        let hi_y: i32 = if h >= PLAYER_H {
            (h - PLAYER_H) as i32 * SCALE
        } else {
            0
        };
        let cx = clamp_i32(mx, 0, hi_x);
        let cy = clamp_i32(my, 0, hi_y);
        self.pos = (cx, cy);
        if cx != mx {
            self.vel = (0, self.vel.1);
            self.acc = (0, self.acc.1);
        } else {
            self.vel = (vx2, self.vel.1);
            self.acc = (ax2, self.acc.1);
        }
        if cy != my {
            self.vel = (self.vel.0, 0);
            self.acc = (self.acc.0, 0);
        } else {
            self.vel = (self.vel.0, vy2);
            self.acc = (self.acc.0, ay2);
        }

        // Step 5: reload countdown and volley.
        let fired = self.reload_time == 1;
        if fired {
            self.reload_time = RELOAD_TICKS;
        } else {
            self.reload_time = self.reload_time - 1;
        }
        let mut spawned: Vec<Projectile> = Vec::new();
        if fired {
            let middle = cx + (PLAYER_W as i32) * SCALE / 2;
            spawned.push(Projectile::new((middle, cy), (0, -10), Team::Player));
            spawned.push(Projectile::new((middle, cy), (-5, -10), Team::Player));
            spawned.push(Projectile::new((middle, cy), (5, -10), Team::Player));
        }
        proof {
            assert(proj_views(spawned@) =~= player_spawn(
                old(self)@,
                player_tick(old(self)@, input, es, w as int, h as int),
            ));
        }
        spawned
    }
}

} // verus!
