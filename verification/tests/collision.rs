use space_invaders::shape::{enemy_shape, player_shape};
use space_invaders::shapes_collide;
use space_invaders::ShapeMask;

fn single(ch: char) -> ShapeMask {
    ShapeMask::new(vec![vec![ch]])
}

#[test]
fn single_cells_overlap_iff_same_coordinate() {
    let a = single('x');
    let b = single('y');
    assert!(shapes_collide(&a, (3, 4), &b, (3, 4)));
    assert!(!shapes_collide(&a, (3, 4), &b, (4, 4)));
    assert!(!shapes_collide(&a, (3, 4), &b, (3, 5)));
    assert!(!shapes_collide(&a, (0, 0), &b, (1, 1)));
}

#[test]
fn space_cells_never_collide() {
    let a = single(' ');
    let b = single('y');
    assert!(!shapes_collide(&a, (3, 4), &b, (3, 4)));
}

#[test]
fn translation_preserves_overlap() {
    let a = single('x');
    let b = single('y');
    for dx in [0usize, 1, 7, 100] {
        for dy in [0usize, 2, 31] {
            assert_eq!(
                shapes_collide(&a, (3 + dx, 4 + dy), &b, (3 + dx, 4 + dy)),
                shapes_collide(&a, (3, 4), &b, (3, 4)),
            );
            assert_eq!(
                shapes_collide(&a, (3 + dx, 4 + dy), &b, (5 + dx, 4 + dy)),
                shapes_collide(&a, (3, 4), &b, (5, 4)),
            );
        }
    }
}

#[test]
fn sprites_collide_when_stacked() {
    let p = player_shape();
    let e = enemy_shape();
    assert!(shapes_collide(&p, (0, 0), &e, (0, 0)));
    assert!(!shapes_collide(&p, (0, 0), &e, (20, 20)));
    // The enemy sprite is 7 cells wide: placed 7 cells to the right of the
    // player's origin it cannot share a column with the 6-wide player.
    assert!(!shapes_collide(&p, (0, 0), &e, (7, 0)));
}

#[test]
fn sprite_gaps_do_not_collide() {
    // The player's nose occupies columns 2-3 of row 0; a single solid cell
    // at column 0 of that row sits in the blank corner.
    let p = player_shape();
    let dot = single('*');
    assert!(!shapes_collide(&p, (0, 0), &dot, (0, 0)));
    assert!(shapes_collide(&p, (0, 0), &dot, (2, 0)));
}
