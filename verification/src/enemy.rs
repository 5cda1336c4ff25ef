//! Enemies and their movement pattern.
//!
//! An enemy walks back and forth across the viewport in whole-cell steps;
//! whenever it reaches a horizontal edge it turns around and first descends
//! by one cell per tick for as many ticks as its sprite has rows.  The
//! batch update steps every enemy once and compacts away the dead ones in
//! place, never skipping the entity that shifts into a freed slot.

use vstd::prelude::*;
use crate::shape::{covers, enemy_shape, enemy_shape_spec};

verus! {

/// Width of the enemy sprite in cells.
pub const ENEMY_W: u16 = 7;

/// Height of the enemy sprite in rows; also the number of descend ticks
/// charged when the pattern turns around.
pub const ENEMY_H: u8 = 4;

/// The movement state machine an enemy follows.
#[derive(Clone, Copy, PartialEq, Eq, Structural, Debug)]
pub enum MovementPattern {
    BackForth { going_left: bool, down: u8 },
}

/// An enemy: a whole-cell position, hit points, its movement state, and a
/// visual hurt flag cleared by the render pass.
#[derive(Clone, Copy, Debug)]
pub struct Enemy {
    pub pos: (u16, u16),
    pub hp: u16,
    pub movement_pattern: MovementPattern,
    pub hurt: bool,
}

/// Mathematical model of one enemy.
pub struct EnemyV {
    pub x: int,
    pub y: int,
    pub hp: int,
    pub going_left: bool,
    pub down: int,
    pub hurt: bool,
}

impl View for Enemy {
    type V = EnemyV;

    open spec fn view(&self) -> EnemyV {
        match self.movement_pattern {
            MovementPattern::BackForth { going_left, down } => EnemyV {
                x: self.pos.0 as int,
                y: self.pos.1 as int,
                hp: self.hp as int,
                going_left,
                down: down as int,
                hurt: self.hurt,
            },
        }
    }
}

/// The models of a row of enemies, in world order.
pub open spec fn enemy_views(s: Seq<Enemy>) -> Seq<EnemyV> {
    s.map_values(|e: Enemy| e@)
}

/// One movement transition of the back-and-forth pattern, on a viewport
/// `w` cells wide.  While descend ticks remain the enemy moves down one
/// cell (stopping at the largest cell coordinate rather than wrapping);
/// otherwise it moves one cell toward the current horizontal direction,
/// and on reaching that side's limit turns around and charges
/// [`ENEMY_H`] descend ticks.  A viewport narrower than the sprite
/// degrades to a zero-width walking range instead of underflowing.
pub open spec fn enemy_step(e: EnemyV, w: int) -> EnemyV {
    if e.down > 0 {
        EnemyV { y: if e.y < 0xffff { e.y + 1 } else { e.y }, down: e.down - 1, ..e }
    } else if e.going_left {
        let x2 = if e.x >= 1 { e.x - 1 } else { 0 };
        if x2 == 0 {
            EnemyV { x: x2, going_left: false, down: ENEMY_H as int, ..e }
        } else {
            EnemyV { x: x2, ..e }
        }
    } else {
        let limit = if w >= ENEMY_W as int { w - ENEMY_W as int } else { 0 };
        let x2 = if e.x < limit { e.x + 1 } else { limit };
        if x2 == limit {
            EnemyV { x: x2, going_left: true, down: ENEMY_H as int, ..e }
        } else {
            EnemyV { x: x2, ..e }
        }
    }
}

/// The surviving enemies after one batch update: every enemy stepped once,
/// the dead ones dropped, world order kept.
pub open spec fn enemies_step(s: Seq<EnemyV>, w: int) -> Seq<EnemyV>
    decreases s.len(),
{
    if s.len() == 0 {
        Seq::empty()
    } else {
        let rest = enemies_step(s.drop_last(), w);
        let e2 = enemy_step(s.last(), w);
        if e2.hp > 0 {
            rest.push(e2)
        } else {
            rest
        }
    }
}

/// The model after one damaging event: one hit point lost, floored at
/// zero, and the hurt flag set.
pub open spec fn enemy_damaged(e: EnemyV) -> EnemyV {
    EnemyV { hp: if e.hp > 0 { e.hp - 1 } else { 0 }, hurt: true, ..e }
}

/// The model after `n` movement transitions.
pub open spec fn enemy_steps(e: EnemyV, w: int, n: int) -> EnemyV
    decreases n,
{
    if n <= 0 {
        e
    } else {
        enemy_step(enemy_steps(e, w, n - 1), w)
    }
}

proof fn lemma_walk_left(e: EnemyV, w: int, i: int)
    requires
        e.going_left,
        e.down == 0,
        1 <= e.x,
        0 <= i < e.x,
    ensures
        enemy_steps(e, w, i) == (EnemyV { x: e.x - i, ..e }),
    decreases i,
{
    if i == 0 {
        assert(enemy_steps(e, w, 0) =~= EnemyV { x: e.x - 0, ..e });
    } else {
        lemma_walk_left(e, w, i - 1);
    }
}

proof fn lemma_descend(f: EnemyV, w: int, j: int)
    requires
        !f.going_left,
        f.down == ENEMY_H as int,
        f.x == 0,
        f.y + ENEMY_H as int <= 0xffff,
        0 <= f.y,
        1 <= j <= ENEMY_H as int,
    ensures
        enemy_steps(f, w, j) == (EnemyV { y: f.y + j, down: ENEMY_H as int - j, ..f }),
    decreases j,
{
    if j == 1 {
        assert(enemy_steps(f, w, 0) == f);
        assert(enemy_steps(f, w, 1) == enemy_step(f, w));
    } else {
        lemma_descend(f, w, j - 1);
        assert(enemy_steps(f, w, j) == enemy_step(enemy_steps(f, w, j - 1), w));
    }
}

/// The full back-and-forth cycle of the movement pattern.  From a state
/// that is walking left with no descend ticks pending, at horizontal cell
/// `e.x >= 1`, the enemy reaches cell 0 after exactly `e.x` ticks (walking
/// one cell left per tick), turns around there, then descends one cell per
/// tick for exactly [`ENEMY_H`] ticks with no horizontal movement, and then
/// resumes walking in the reversed direction.
pub proof fn lemma_back_forth_cycle(e: EnemyV, w: int)
    requires
        e.going_left,
        e.down == 0,
        1 <= e.x,
        0 <= e.y,
        e.y + ENEMY_H as int <= 0xffff,
        w >= ENEMY_W as int + 2,
    ensures
        forall|i: int|
            0 <= i < e.x ==> #[trigger] enemy_steps(e, w, i) == (EnemyV { x: e.x - i, ..e }),
        enemy_steps(e, w, e.x) == (EnemyV { x: 0, going_left: false, down: ENEMY_H as int, ..e }),
        forall|j: int|
            1 <= j <= ENEMY_H as int ==> #[trigger] enemy_steps(e, w, e.x + j) == (EnemyV {
                x: 0,
                y: e.y + j,
                going_left: false,
                down: ENEMY_H as int - j,
                ..e
            }),
        enemy_steps(e, w, e.x + ENEMY_H as int + 1) == (EnemyV {
            x: 1,
            y: e.y + ENEMY_H as int,
            going_left: false,
            down: 0,
            ..e
        }),
{
    assert forall|i: int| 0 <= i < e.x implies #[trigger] enemy_steps(e, w, i) == (EnemyV {
        x: e.x - i,
        ..e
    }) by {
        lemma_walk_left(e, w, i);
    }
    lemma_walk_left(e, w, e.x - 1);
    assert(enemy_steps(e, w, e.x) == enemy_step(enemy_steps(e, w, e.x - 1), w));
    let f = enemy_steps(e, w, e.x);
    assert(f == (EnemyV { x: 0, going_left: false, down: ENEMY_H as int, ..e }));
    assert forall|j: int| 1 <= j <= ENEMY_H as int implies #[trigger] enemy_steps(e, w, e.x + j)
        == (EnemyV { x: 0, y: e.y + j, going_left: false, down: ENEMY_H as int - j, ..e }) by {
        lemma_descend(f, w, j);
        lemma_steps_add(e, w, e.x, j);
    }
    lemma_descend(f, w, ENEMY_H as int);
    lemma_steps_add(e, w, e.x, ENEMY_H as int);
    lemma_steps_add(e, w, e.x + ENEMY_H as int, 1);
}

/// Running `m + n` transitions is running `m`, then `n` more.
pub proof fn lemma_steps_add(e: EnemyV, w: int, m: int, n: int)
    requires
        0 <= m,
        0 <= n,
    ensures
        enemy_steps(e, w, m + n) == enemy_steps(enemy_steps(e, w, m), w, n),
    decreases n,
{
    if n > 0 {
        lemma_steps_add(e, w, m, n - 1);
    }
}

/// The batch update leaves only live enemies behind: an enemy whose
/// health reaches zero is out of the world before the next tick's
/// collision pass can see it.
pub proof fn lemma_enemies_step_live(s: Seq<EnemyV>, w: int)
    ensures
        forall|i: int|
            0 <= i < enemies_step(s, w).len() ==> (#[trigger] enemies_step(s, w)[i]).hp > 0,
    decreases s.len(),
{
    if s.len() > 0 {
        lemma_enemies_step_live(s.drop_last(), w);
        let rest = enemies_step(s.drop_last(), w);
        let e2 = enemy_step(s.last(), w);
        assert forall|i: int| 0 <= i < enemies_step(s, w).len() implies (#[trigger] enemies_step(
            s,
            w,
        )[i]).hp > 0 by {
            if e2.hp > 0 && i == rest.len() {
                assert(enemies_step(s, w)[i] == e2);
            } else {
                assert(enemies_step(s, w)[i] == rest[i]);
            }
        }
    }
}

impl MovementPattern {
    /// Runs one movement transition on `e`; the viewport is `w` cells
    /// wide.  Movement never changes hit points or the hurt flag.
    pub fn update(e: &mut Enemy, w: u16)
        ensures
            final(e)@ == enemy_step(old(e)@, w as int),
    {
        let MovementPattern::BackForth { going_left, down } = e.movement_pattern;
        if down > 0 {
            e.movement_pattern = MovementPattern::BackForth { going_left, down: down - 1 };
            if e.pos.1 < u16::MAX {
                e.pos = (e.pos.0, e.pos.1 + 1);
            }
        } else if going_left {
            let x2: u16 = if e.pos.0 >= 1 {
                e.pos.0 - 1
            } else {
                0
            };
            e.pos = (x2, e.pos.1);
            if x2 == 0 {
                e.movement_pattern = MovementPattern::BackForth {
                    going_left: false,
                    down: ENEMY_H,
                };
            }
        } else {
            let limit: u16 = if w >= ENEMY_W {
                w - ENEMY_W
            } else {
                0
            };
            let x2: u16 = if e.pos.0 < limit {
                e.pos.0 + 1
            } else {
                limit
            };
            e.pos = (x2, e.pos.1);
            if x2 == limit {
                e.movement_pattern = MovementPattern::BackForth {
                    going_left: true,
                    down: ENEMY_H,
                };
            }
        }
    }
}

impl Enemy {
    /// A fresh enemy at cell `(x, y)` with the given movement state and
    /// hit points, not hurt.
    pub fn new(x: u16, y: u16, movement_pattern: MovementPattern, hp: u16) -> (e: Enemy)
        ensures
            e.pos == (x, y),
            e.hp == hp,
            e.movement_pattern == movement_pattern,
            !e.hurt,
    {
        Enemy { pos: (x, y), hp, movement_pattern, hurt: false }
    }

    /// One damaging event: hit points go down by one but never below
    /// zero, and the hurt flag is set even at zero health.  Health never
    /// increases.
    pub fn take_damage(&mut self)
        ensures
            final(self).hp as int == if old(self).hp > 0 {
                old(self).hp - 1
            } else {
                0
            },
            final(self).hp <= old(self).hp,
            final(self).hurt,
            final(self).pos == old(self).pos,
            final(self).movement_pattern == old(self).movement_pattern,
    {
        if self.hp > 0 {
            self.hp = self.hp - 1;
        }
        self.hurt = true;
    }

    /// Draws the enemy sprite into the frame at the enemy's cell, red
    /// while the hurt flag is set, and clears the flag: the flash lasts
    /// for one rendered frame.
    pub fn render(&mut self, buffer: &mut crate::render::RenderBuffer)
        requires
            old(buffer).wf(),
        ensures
            final(buffer).wf(),
            final(buffer).width == old(buffer).width,
            final(buffer).height == old(buffer).height,
            forall|gx: int, gy: int|
                0 <= gx < old(buffer).width && 0 <= gy < old(buffer).height ==> #[trigger] final(buffer).cell_at(gx, gy) == (if covers(
                    enemy_shape_spec(),
                    old(self)@.x,
                    old(self)@.y,
                    gx,
                    gy,
                ) {
                    crate::render::Cell {
                        glyph: enemy_shape_spec()[gy - old(self)@.y][gx - old(self)@.x],
                        style: if old(self).hurt {
                            crate::render::Style::Red
                        } else {
                            crate::render::Style::Plain
                        },
                    }
                } else {
                    old(buffer).cell_at(gx, gy)
                }),
            *final(self) == (Enemy { hurt: false, ..*old(self) }),
    {
        let m = enemy_shape();
        let style = if self.hurt {
            crate::render::Style::Red
        } else {
            crate::render::Style::Plain
        };
        buffer.blit_mask(&m, self.pos.0, self.pos.1, style);
        self.hurt = false;
    }

    /// Batch update over the world's enemies, in world order: each enemy
    /// runs its movement transition, then is removed if its health is
    /// zero.  Removal compacts in place; the entity that shifts into a
    /// freed slot is still evaluated on the same tick.
    pub fn update(enemies: &mut Vec<Enemy>, w: u16)
        ensures
            enemy_views(final(enemies)@) == enemies_step(enemy_views(old(enemies)@), w as int),
    {
        let ghost orig: Seq<Enemy> = enemies@;
        let mut i: usize = 0;
        let ghost mut k: int = 0;
        while i < enemies.len()
            invariant
                0 <= k <= orig.len(),
                i as int == enemies_step(enemy_views(orig.take(k)), w as int).len(),
                enemies@.len() == i as int + (orig.len() - k),
                enemy_views(enemies@).take(i as int) == enemies_step(
                    enemy_views(orig.take(k)),
                    w as int,
                ),
                enemies@.skip(i as int) == orig.skip(k),
            decreases enemies@.len() - i,
        {
            assert(enemies@[i as int] == orig[k]) by {
                assert(enemies@.skip(i as int)[0] == orig.skip(k)[0]);
            }
            let mut e = enemies[i];
            MovementPattern::update(&mut e, w);
            proof {
                assert(enemy_views(orig.take(k + 1)).drop_last() =~= enemy_views(orig.take(k)));
                assert(enemy_views(orig.take(k + 1)).last() == orig[k]@);
            }
            let ghost pre: Seq<Enemy> = enemies@;
            if e.hp == 0 {
                enemies.remove(i);
                proof {
                    k = k + 1;
                    assert forall|j: int| 0 <= j < enemies@.len() - i as int implies enemies@.skip(
                        i as int,
                    )[j] == orig.skip(k)[j] by {
                        assert(enemies@[i as int + j] == pre[i as int + j + 1]);
                        assert(pre.skip(i as int)[j + 1] == orig.skip(k - 1)[j + 1]);
                    }
                    assert(enemies@.skip(i as int) =~= orig.skip(k));
                    assert forall|j: int| 0 <= j < i as int implies enemy_views(enemies@).take(
                        i as int,
                    )[j] == enemies_step(enemy_views(orig.take(k)), w as int)[j] by {
                        assert(enemies@[j] == pre[j]);
                        assert(enemy_views(pre).take(i as int)[j] == enemies_step(
                            enemy_views(orig.take(k - 1)),
                            w as int,
                        )[j]);
                    }
                    assert(enemy_views(enemies@).take(i as int) =~= enemies_step(
                        enemy_views(orig.take(k)),
                        w as int,
                    ));
                }
            } else {
                enemies.set(i, e);
                i = i + 1;
                proof {
                    k = k + 1;
                    assert forall|j: int| 0 <= j < enemies@.len() - i as int implies enemies@.skip(
                        i as int,
                    )[j] == orig.skip(k)[j] by {
                        assert(enemies@[i as int + j] == pre[i as int + j]);
                        assert(pre.skip(i as int - 1)[j + 1] == orig.skip(k - 1)[j + 1]);
                    }
                    assert(enemies@.skip(i as int) =~= orig.skip(k));
                    assert forall|j: int| 0 <= j < i as int implies enemy_views(enemies@).take(
                        i as int,
                    )[j] == enemies_step(enemy_views(orig.take(k)), w as int)[j] by {
                        if j < i as int - 1 {
                            assert(enemies@[j] == pre[j]);
                            assert(enemy_views(pre).take(i as int - 1)[j] == enemies_step(
                                enemy_views(orig.take(k - 1)),
                                w as int,
                            )[j]);
                        } else {
                            assert(enemies@[j] == e);
                        }
                    }
                    assert(enemy_views(enemies@).take(i as int) =~= enemies_step(
                        enemy_views(orig.take(k)),
                        w as int,
                    ));
                }
            }
        }
        proof {
            assert(orig.take(k) =~= orig);
            assert(enemy_views(enemies@).take(i as int) =~= enemy_views(enemies@));
        }
    }
}

} // verus!
