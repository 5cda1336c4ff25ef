//! Projectiles.
//!
//! A projectile is a sub-cell position, a velocity, and a team tag that
//! decides whom it may damage.  For collision it counts as a single solid
//! cell.  Each tick it integrates its velocity and runs hit detection; it
//! is destroyed on landing a hit, and on leaving `[0, width-1)`
//! horizontally or `[0, height-1)` vertically (half-open on purpose: the
//! last column and row are out of range even though the player clamp may
//! use them).

use vstd::prelude::*;
use crate::collision::covers_point;
use crate::enemy::{enemy_damaged, enemy_views, Enemy, EnemyV};
use crate::player::{player_damaged, player_wf, Player, PlayerV};
use crate::shape::{covers, enemy_shape, enemy_shape_spec, player_shape, player_shape_spec};
use crate::units::{cell_of, cell_of_exec, UNIT_LIMIT};

verus! {

/// Largest projectile speed magnitude per axis, in tenths of a cell per
/// tick.
pub const PROJ_SPEED_LIMIT: i32 = 100;

/// Who fired a projectile, and hence whom it can damage: a player-team
/// projectile damages enemies and never the player, an enemy-team
/// projectile damages the player and never an enemy.
#[derive(Clone, Copy, PartialEq, Eq, Structural, Debug)]
pub enum Team {
    Player,
    Enemy,
}

/// A projectile in flight.
#[derive(Clone, Copy, Debug)]
pub struct Projectile {
    pub pos: (i32, i32),
    pub vel: (i32, i32),
    pub team: Team,
}

/// Mathematical model of one projectile.
pub struct ProjectileV {
    pub x: int,
    pub y: int,
    pub vx: int,
    pub vy: int,
    pub team: Team,
}

impl View for Projectile {
    type V = ProjectileV;

    open spec fn view(&self) -> ProjectileV {
        ProjectileV {
            x: self.pos.0 as int,
            y: self.pos.1 as int,
            vx: self.vel.0 as int,
            vy: self.vel.1 as int,
            team: self.team,
        }
    }
}

/// The models of a row of projectiles, in world order.
pub open spec fn proj_views(s: Seq<Projectile>) -> Seq<ProjectileV> {
    s.map_values(|p: Projectile| p@)
}

/// Well-formedness of a projectile model: position and speed within the
/// library's working range.
pub open spec fn proj_wf(p: ProjectileV) -> bool {
    &&& -UNIT_LIMIT < p.x < UNIT_LIMIT
    &&& -UNIT_LIMIT < p.y < UNIT_LIMIT
    &&& -PROJ_SPEED_LIMIT <= p.vx <= PROJ_SPEED_LIMIT
    &&& -PROJ_SPEED_LIMIT <= p.vy <= PROJ_SPEED_LIMIT
}

/// Whether a projectile position is still inside the despawn bounds
/// `[0, w-1)` by `[0, h-1)`, stated on sub-cell coordinates.
pub open spec fn proj_in_bounds(x: int, y: int, w: int, h: int) -> bool {
    &&& 0 <= x < (w - 1) * 10
    &&& 0 <= y < (h - 1) * 10
}

/// The glyph a projectile is drawn with, decided by the slope of its
/// velocity.  The cases are ordered so that every velocity, including one
/// with zero horizontal component, resolves to a defined glyph: with
/// horizontal speed `d > 0` and signed vertical speed `n` (downward
/// positive), slope `n/d` in `[-4, -1/2]` gives a backslash, in
/// `[-1/2, 1/2]` a dash, in `[1/2, 4)` a slash, and anything else -- steep
/// slopes and purely vertical motion -- a pipe.  Earlier cases win on the
/// shared boundaries.
pub open spec fn glyph_of(vx: int, vy: int) -> char {
    if vx == 0 {
        '|'
    } else {
        let d = if vx > 0 { vx } else { -vx };
        let n = if vx > 0 { vy } else { -vy };
        if -4 * d <= n && 2 * n <= -d {
            '\\'
        } else if -d <= 2 * n && 2 * n <= d {
            '-'
        } else if d <= 2 * n && n < 4 * d {
            '/'
        } else {
            '|'
        }
    }
}

impl Projectile {
    /// A fresh projectile.
    pub fn new(pos: (i32, i32), vel: (i32, i32), team: Team) -> (p: Projectile)
        ensures
            p.pos == pos,
            p.vel == vel,
            p.team == team,
    {
        Projectile { pos, vel, team }
    }

    /// The glyph this projectile is drawn with.
    pub fn glyph(&self) -> (c: char)
        requires
            proj_wf(self@),
        ensures
            c == glyph_of(self@.vx, self@.vy),
    {
        let vx = self.vel.0 as i64;
        let vy = self.vel.1 as i64;
        if vx == 0 {
            '|'
        } else {
            let d: i64 = if vx > 0 { vx } else { -vx };
            let n: i64 = if vx > 0 { vy } else { -vy };
            let quad: i64 = 4 * d;
            let twice: i64 = 2 * n;
            if -quad <= n && twice <= -d {
                '\\'
            } else if -d <= twice && twice <= d {
                '-'
            } else if d <= twice && n < quad {
                '/'
            } else {
                '|'
            }
        }
    }

    /// Draws the projectile's glyph into the frame at the cell its
    /// position falls in; a projectile outside the frame is clipped.
    pub fn render(&self, buf: &mut crate::render::RenderBuffer)
        requires
            old(buf).wf(),
            proj_wf(self@),
        ensures
            final(buf).wf(),
            final(buf).width == old(buf).width,
            final(buf).height == old(buf).height,
            forall|gx: int, gy: int|
                0 <= gx < old(buf).width && 0 <= gy < old(buf).height ==> #[trigger] final(buf).cell_at(gx, gy) == (if gx == cell_of(self@.x) && gy == cell_of(self@.y) {
                    crate::render::Cell {
                        glyph: crate::projectile::glyph_of(self@.vx, self@.vy),
                        style: crate::render::Style::Plain,
                    }
                } else {
                    old(buf).cell_at(gx, gy)
                }),
    {
        let cx = cell_of_exec(self.pos.0);
        let cy = cell_of_exec(self.pos.1);
        let g = self.glyph();
        if 0 <= cx && cx < buf.width() as i32 && 0 <= cy && cy < buf.height() as i32 {
            buf.set(
                cx as u16,
                cy as u16,
                crate::render::Cell { glyph: g, style: crate::render::Style::Plain },
            );
        }
    }
}

/// A projectile after integrating its velocity for one tick.
pub open spec fn proj_integrate(p: ProjectileV) -> ProjectileV {
    ProjectileV { x: p.x + p.vx, y: p.y + p.vy, ..p }
}

/// Whether projectile `p` hits enemy `e`: only a player-team projectile
/// damages enemies, and it counts as the single solid cell its position
/// falls in.
pub open spec fn proj_hits_enemy(p: ProjectileV, e: EnemyV) -> bool {
    p.team == Team::Player && covers(enemy_shape_spec(), e.x, e.y, cell_of(p.x), cell_of(p.y))
}

/// The enemy row after projectile `p`'s hit detection: every overlapping
/// enemy takes one damage; a projectile never damages its own team.
pub open spec fn hit_enemies(p: ProjectileV, es: Seq<EnemyV>) -> Seq<EnemyV> {
    es.map_values(
        |e: EnemyV|
            if proj_hits_enemy(p, e) {
                enemy_damaged(e)
            } else {
                e
            },
    )
}

/// Whether projectile `p` hits the player: only an enemy-team projectile
/// damages the player.
pub open spec fn proj_hits_player(p: ProjectileV, pl: PlayerV) -> bool {
    p.team == Team::Enemy && covers(
        player_shape_spec(),
        cell_of(pl.x),
        cell_of(pl.y),
        cell_of(p.x),
        cell_of(p.y),
    )
}

/// The player after projectile `p`'s hit detection.
pub open spec fn hit_player(p: ProjectileV, pl: PlayerV) -> PlayerV {
    if proj_hits_player(p, pl) {
        player_damaged(pl)
    } else {
        pl
    }
}

/// Whether projectile `p` lands any hit at all this tick: a player-team
/// projectile on some enemy, or an enemy-team projectile on the player.
/// Landing a hit destroys the projectile.
pub open spec fn proj_hit_any(p: ProjectileV, es: Seq<EnemyV>, pl: PlayerV) -> bool {
    (exists|i: int| 0 <= i < es.len() && proj_hits_enemy(p, #[trigger] es[i])) || proj_hits_player(
        p,
        pl,
    )
}

/// The joint result of one projectile batch update.
pub struct ProjPassState {
    pub kept: Seq<ProjectileV>,
    pub enemies: Seq<EnemyV>,
    pub player: PlayerV,
}

/// The whole batch pass over the projectiles in world order.  Each
/// projectile in turn integrates its velocity, runs hit detection against
/// the world state left by its predecessors, and survives iff its new
/// position is inside the despawn bounds and it landed no hit: a
/// projectile is destroyed on leaving bounds or on landing a hit.
pub open spec fn proj_pass(ps: Seq<ProjectileV>, es: Seq<EnemyV>, pl: PlayerV, w: int,
    h: int) -> ProjPassState
    decreases ps.len(),
{
    if ps.len() == 0 {
        ProjPassState { kept: Seq::empty(), enemies: es, player: pl }
    } else {
        let p1 = proj_integrate(ps[0]);
        let es1 = hit_enemies(p1, es);
        let pl1 = hit_player(p1, pl);
        let rest = proj_pass(ps.skip(1), es1, pl1, w, h);
        ProjPassState {
            kept: if proj_in_bounds(p1.x, p1.y, w, h) && !proj_hit_any(p1, es, pl) {
                seq![p1] + rest.kept
            } else {
                rest.kept
            },
            enemies: rest.enemies,
            player: rest.player,
        }
    }
}

/// The despawn boundary is exclusive: a projectile sitting at
/// `x = width - 1` with zero horizontal velocity is removed by the next
/// batch update, wherever it sits vertically and whatever else is in the
/// world.
pub proof fn lemma_boundary_removed(p: ProjectileV, es: Seq<EnemyV>, pl: PlayerV, w: int, h: int)
    requires
        p.x == (w - 1) * 10,
        p.vx == 0,
    ensures
        proj_pass(seq![p], es, pl, w, h).kept == Seq::<ProjectileV>::empty(),
{
    let ps = seq![p];
    assert(ps[0] == p);
    let p1 = proj_integrate(p);
    assert(p1.x == (w - 1) * 10);
    assert(!proj_in_bounds(p1.x, p1.y, w, h));
    assert(ps.skip(1) =~= Seq::<ProjectileV>::empty());
    assert(proj_pass(
        Seq::<ProjectileV>::empty(),
        hit_enemies(p1, es),
        hit_player(p1, pl),
        w,
        h,
    ).kept == Seq::<ProjectileV>::empty());
}

/// A projectile batch pass never raises the player's health, and never
/// drops it below zero.
pub proof fn lemma_proj_pass_hp(ps: Seq<ProjectileV>, es: Seq<EnemyV>, pl: PlayerV, w: int, h: int)
    requires
        pl.hp >= 0,
    ensures
        0 <= proj_pass(ps, es, pl, w, h).player.hp <= pl.hp,
    decreases ps.len(),
{
    if ps.len() > 0 {
        let p1 = proj_integrate(ps[0]);
        let es1 = hit_enemies(p1, es);
        let pl1 = hit_player(p1, pl);
        lemma_proj_pass_hp(ps.skip(1), es1, pl1, w, h);
    }
}

/// A projectile batch pass never raises any enemy's health either: the
/// pass keeps the enemy row's length and order, and each enemy's health
/// can only stay or fall.
pub proof fn lemma_proj_pass_enemy_hp(
    ps: Seq<ProjectileV>,
    es: Seq<EnemyV>,
    pl: PlayerV,
    w: int,
    h: int,
)
    requires
        forall|i: int| 0 <= i < es.len() ==> (#[trigger] es[i]).hp >= 0,
    ensures
        proj_pass(ps, es, pl, w, h).enemies.len() == es.len(),
        forall|i: int|
            0 <= i < es.len() ==> #[trigger] proj_pass(ps, es, pl, w, h).enemies[i].hp <= es[i].hp,
    decreases ps.len(),
{
    if ps.len() > 0 {
        let p1 = proj_integrate(ps[0]);
        let es1 = hit_enemies(p1, es);
        let pl1 = hit_player(p1, pl);
        assert forall|i: int| 0 <= i < es1.len() implies (#[trigger] es1[i]).hp >= 0 by {
            assert(es1[i] == (if proj_hits_enemy(p1, es[i]) {
                enemy_damaged(es[i])
            } else {
                es[i]
            }));
        }
        lemma_proj_pass_enemy_hp(ps.skip(1), es1, pl1, w, h);
        assert forall|i: int| 0 <= i < es.len() implies #[trigger] proj_pass(
            ps,
            es,
            pl,
            w,
            h,
        ).enemies[i].hp <= es[i].hp by {
            assert(es1[i] == (if proj_hits_enemy(p1, es[i]) {
                enemy_damaged(es[i])
            } else {
                es[i]
            }));
            assert(es1[i].hp <= es[i].hp);
            assert(proj_pass(ps.skip(1), es1, pl1, w, h).enemies[i].hp <= es1[i].hp);
        }
    }
}

/// Damages every enemy the cell `(cx, cy)` lands on, and reports whether
/// any was hit.
fn damage_enemies_at(enemies: &mut Vec<Enemy>, em: &crate::shape::ShapeMask, cx: i32, cy: i32,
    Ghost(pv): Ghost<ProjectileV>) -> (hit: bool)
    requires
        em@ == enemy_shape_spec(),
        pv.team == Team::Player,
        cx == cell_of(pv.x),
        cy == cell_of(pv.y),
        -0x0200_0000 <= cx <= 0x0200_0000,
        -0x0200_0000 <= cy <= 0x0200_0000,
    ensures
        enemy_views(final(enemies)@) == hit_enemies(pv, enemy_views(old(enemies)@)),
        hit == exists|i: int|
            0 <= i < old(enemies)@.len() && proj_hits_enemy(
                pv,
                #[trigger] enemy_views(old(enemies)@)[i],
            ),
{
    let ghost pre: Seq<EnemyV> = enemy_views(enemies@);
    let mut hit = false;
    let mut j: usize = 0;
    while j < enemies.len()
        invariant
            em@ == enemy_shape_spec(),
            cx == cell_of(pv.x),
            cy == cell_of(pv.y),
            -0x0200_0000 <= cx <= 0x0200_0000,
            -0x0200_0000 <= cy <= 0x0200_0000,
            pv.team == Team::Player,
            j <= enemies.len(),
            enemies@.len() == pre.len(),
            hit == exists|jj: int| 0 <= jj < j && proj_hits_enemy(pv, #[trigger] pre[jj]),
            forall|jj: int|
                0 <= jj < j ==> #[trigger] enemies@[jj]@ == (if proj_hits_enemy(pv, pre[jj]) {
                    enemy_damaged(pre[jj])
                } else {
                    pre[jj]
                }),
            forall|jj: int| j <= jj < pre.len() ==> #[trigger] enemies@[jj]@ == pre[jj],
        decreases enemies@.len() - j,
    {
        let e = enemies[j];
        assert(enemy_views(enemies@)[j as int] == e@);
        if covers_point(em, e.pos.0 as i64, e.pos.1 as i64, cx as i64, cy as i64) {
            assert(proj_hits_enemy(pv, pre[j as int]));
            let mut e2 = e;
            e2.take_damage();
            enemies.set(j, e2);
            assert(e2@ == enemy_damaged(pre[j as int]));
            assert(enemies@[j as int]@ == e2@);
            hit = true;
        } else {
            assert(!proj_hits_enemy(pv, pre[j as int]));
        }
        j = j + 1;
    }
    assert(enemy_views(enemies@) =~= hit_enemies(pv, pre));
    hit
}

impl Projectile {
    /// Batch update over the world's projectiles, in world order: each
    /// integrates its velocity, damages what it hits, and is removed in
    /// place once it lands a hit or falls outside the despawn bounds.
    /// The entity that shifts into a freed slot is still evaluated on
    /// the same tick.
    #[verifier::rlimit(60)]
    pub fn update(projectiles: &mut Vec<Projectile>, enemies: &mut Vec<Enemy>,
        player: &mut Player, w: u16, h: u16)
        requires
            forall|i: int|
                0 <= i < old(projectiles)@.len() ==> proj_wf(#[trigger] old(projectiles)@[i]@),
            player_wf(old(player)@),
        ensures
            ({
                let r = proj_pass(
                    proj_views(old(projectiles)@),
                    enemy_views(old(enemies)@),
                    old(player)@,
                    w as int,
                    h as int,
                );
                &&& proj_views(final(projectiles)@) == r.kept
                &&& enemy_views(final(enemies)@) == r.enemies
                &&& final(player)@ == r.player
            }),
            forall|i: int|
                0 <= i < final(projectiles)@.len() ==> proj_wf(#[trigger] final(projectiles)@[i]@),
            final(player).pos == old(player).pos,
            final(player).vel == old(player).vel,
            final(player).acc == old(player).acc,
            final(player).reload_time == old(player).reload_time,
            final(player).hp <= old(player).hp,
            player_wf(final(player)@),
    {
        let pm = player_shape();
        let em = enemy_shape();
        let ghost ps0: Seq<ProjectileV> = proj_views(projectiles@);
        let ghost goal: ProjPassState = proj_pass(
            ps0,
            enemy_views(enemies@),
            player@,
            w as int,
            h as int,
        );
        let mut i: usize = 0;
        let ghost mut k: int = 0;
        proof {
            assert(ps0.len() == projectiles@.len());
            assert(ps0.skip(0) =~= ps0);
            assert(projectiles@.skip(0) =~= projectiles@);
            assert(proj_views(projectiles@.take(0)) =~= Seq::<ProjectileV>::empty());
            assert(goal.kept =~= proj_views(projectiles@.take(0)) + goal.kept);
        }
        while i < projectiles.len()
            invariant
                pm@ == player_shape_spec(),
                em@ == enemy_shape_spec(),
                ps0 == proj_views(old(projectiles)@),
                ps0.len() == old(projectiles)@.len(),
                0 <= k <= ps0.len(),
                i <= projectiles.len(),
                projectiles@.len() == i as int + (ps0.len() - k),
                projectiles@.skip(i as int) =~= old(projectiles)@.skip(k),
                forall|j: int| 0 <= j < projectiles@.len() ==> proj_wf(#[trigger] projectiles@[j]@),
                goal == proj_pass(
                    ps0,
                    enemy_views(old(enemies)@),
                    old(player)@,
                    w as int,
                    h as int,
                ),
                goal.kept == proj_views(projectiles@.take(i as int)) + proj_pass(
                    ps0.skip(k),
                    enemy_views(enemies@),
                    player@,
                    w as int,
                    h as int,
                ).kept,
                goal.enemies == proj_pass(
                    ps0.skip(k),
                    enemy_views(enemies@),
                    player@,
                    w as int,
                    h as int,
                ).enemies,
                goal.player == proj_pass(
                    ps0.skip(k),
                    enemy_views(enemies@),
                    player@,
                    w as int,
                    h as int,
                ).player,
                player.pos == old(player).pos,
                player.vel == old(player).vel,
                player.acc == old(player).acc,
                player.reload_time == old(player).reload_time,
                player.hp <= old(player).hp,
                player_wf(player@),
            decreases projectiles@.len() - i,
        {
            proof {
                assert(ps0.len() == old(projectiles)@.len());
                assert(projectiles@.skip(i as int)[0] == projectiles@[i as int]);
                assert(old(projectiles)@.skip(k)[0] == old(projectiles)@[k]);
                assert(projectiles@[i as int] == old(projectiles)@[k]);
            }
            let p = projectiles[i];
            assert(proj_wf(projectiles@[i as int]@));
            let np = Projectile {
                pos: (p.pos.0 + p.vel.0, p.pos.1 + p.vel.1),
                vel: p.vel,
                team: p.team,
            };
            proof {
                assert(ps0.skip(k)[0] == ps0[k]);
                assert(np@ == proj_integrate(ps0[k]));
            }
            let cx = cell_of_exec(np.pos.0);
            let cy = cell_of_exec(np.pos.1);
            let ghost pre_es: Seq<EnemyV> = enemy_views(enemies@);
            let ghost pre_pl: PlayerV = player@;
            let hit: bool = match np.team {
                Team::Player => {
                    let hit = damage_enemies_at(enemies, &em, cx, cy, Ghost(np@));
                    assert(player@ == hit_player(np@, pre_pl));
                    assert(!proj_hits_player(np@, pre_pl));
                    assert(hit == proj_hit_any(np@, pre_es, pre_pl));
                    hit
                },
                Team::Enemy => {
                    let pcx = cell_of_exec(player.pos.0);
                    let pcy = cell_of_exec(player.pos.1);
                    let hit = covers_point(&pm, pcx as i64, pcy as i64, cx as i64, cy as i64);
                    if hit {
                        player.take_damage();
                        assert(player@ == player_damaged(pre_pl));
                    }
                    assert(player@ == hit_player(np@, pre_pl));
                    assert(enemy_views(enemies@) =~= hit_enemies(np@, pre_es));
                    proof {
                        assert(forall|jj: int|
                            0 <= jj < pre_es.len() ==> !proj_hits_enemy(np@, #[trigger] pre_es[jj]));
                        assert(hit == proj_hit_any(np@, pre_es, pre_pl));
                    }
                    hit
                },
            };
            let bx: i64 = (w as i64 - 1) * 10;
            let by: i64 = (h as i64 - 1) * 10;
            let inside = 0 <= np.pos.0 && (np.pos.0 as i64) < bx && 0 <= np.pos.1 && (np.pos.1
                as i64) < by;
            assert(inside == proj_in_bounds(np@.x, np@.y, w as int, h as int));
            let keep = inside && !hit;
            assert(keep == (proj_in_bounds(np@.x, np@.y, w as int, h as int) && !proj_hit_any(
                np@,
                pre_es,
                pre_pl,
            )));
            proof {
                assert(ps0.skip(k).skip(1) =~= ps0.skip(k + 1));
            }
            let ghost pre_vec: Seq<Projectile> = projectiles@;
            let ghost rest: ProjPassState = proj_pass(
                ps0.skip(k + 1),
                enemy_views(enemies@),
                player@,
                w as int,
                h as int,
            );
            if keep {
                projectiles.set(i, np);
                i = i + 1;
                proof {
                    k = k + 1;
                    assert forall|m: int| 0 <= m < projectiles@.len() - i as int implies
                        projectiles@.skip(i as int)[m] == old(projectiles)@.skip(k)[m] by {
                        assert(projectiles@[i as int + m] == pre_vec[i as int + m]);
                        assert(pre_vec.skip(i as int - 1)[m + 1] == old(projectiles)@.skip(
                            k - 1,
                        )[m + 1]);
                    }
                    assert(projectiles@.skip(i as int) =~= old(projectiles)@.skip(k));
                    assert(projectiles@.take(i as int) =~= pre_vec.take(i as int - 1).push(np));
                    assert(proj_views(projectiles@.take(i as int)) =~= proj_views(
                        pre_vec.take(i as int - 1),
                    ).push(np@));
                    assert(goal.kept =~= proj_views(projectiles@.take(i as int)) + rest.kept);
                }
            } else {
                projectiles.remove(i);
                proof {
                    k = k + 1;
                    assert forall|m: int| 0 <= m < projectiles@.len() - i as int implies
                        projectiles@.skip(i as int)[m] == old(projectiles)@.skip(k)[m] by {
                        assert(projectiles@[i as int + m] == pre_vec[i as int + m + 1]);
                        assert(pre_vec.skip(i as int)[m + 1] == old(projectiles)@.skip(
                            k - 1,
                        )[m + 1]);
                    }
                    assert(projectiles@.skip(i as int) =~= old(projectiles)@.skip(k));
                    assert(projectiles@.take(i as int) =~= pre_vec.take(i as int));
                    assert(goal.kept =~= proj_views(projectiles@.take(i as int)) + rest.kept);
                }
            }
        }
        proof {
            assert(ps0.skip(k) =~= Seq::<ProjectileV>::empty());
            assert(proj_views(projectiles@.take(i as int)) =~= proj_views(projectiles@));
        }
    }
}

} // verus!
