//! Glyph-grid silhouettes.
//!
//! A [`ShapeMask`] is an immutable rectangular grid of characters.  A cell
//! is *solid* iff its character is not the space character; solid cells are
//! what collides and what gets drawn.

use vstd::prelude::*;

verus! {

/// Largest mask height and width the library accepts.  Sprites are small
/// constant-size tables; the bound keeps all coordinate arithmetic far away
/// from machine limits.
pub const MAX_MASK_DIM: usize = 64;

/// An immutable glyph-grid silhouette: equal-width rows of characters.
pub struct ShapeMask {
    rows: Vec<Vec<char>>,
}

/// Well-formedness of a mask's contents: at least one row, all rows of one
/// width, and both dimensions within [`MAX_MASK_DIM`].
pub open spec fn mask_wf(m: Seq<Seq<char>>) -> bool {
    &&& 1 <= m.len() <= MAX_MASK_DIM
    &&& 1 <= m[0].len() <= MAX_MASK_DIM
    &&& forall|i: int| 0 <= i < m.len() ==> (#[trigger] m[i]).len() == m[0].len()
}

/// Whether row `r`, column `c` of mask `m` holds a solid (non-space) glyph.
pub open spec fn solid(m: Seq<Seq<char>>, r: int, c: int) -> bool {
    &&& 0 <= r < m.len()
    &&& 0 <= c < m[r].len()
    &&& m[r][c] != ' '
}

/// Whether mask `m`, translated so that its top-left cell sits at grid
/// coordinates `(ox, oy)`, puts a solid glyph on the absolute grid cell
/// `(gx, gy)`.
pub open spec fn covers(m: Seq<Seq<char>>, ox: int, oy: int, gx: int, gy: int) -> bool {
    solid(m, gy - oy, gx - ox)
}

impl View for ShapeMask {
    type V = Seq<Seq<char>>;

    closed spec fn view(&self) -> Seq<Seq<char>> {
        self.rows@.map_values(|r: Vec<char>| r@)
    }
}

impl ShapeMask {
    /// Builds a mask from its rows.  The rows must already form a
    /// well-formed rectangle.
    pub fn new(rows: Vec<Vec<char>>) -> (m: ShapeMask)
        requires
            mask_wf(rows@.map_values(|r: Vec<char>| r@)),
        ensures
            m@ == rows@.map_values(|r: Vec<char>| r@),
            mask_wf(m@),
    {
        ShapeMask { rows }
    }

    pub open spec fn wf(&self) -> bool {
        mask_wf(self@)
    }

    /// Number of rows.
    pub fn height(&self) -> (h: usize)
        ensures
            h == self@.len(),
    {
        self.rows.len()
    }

    /// Width shared by every row.
    pub fn width(&self) -> (w: usize)
        requires
            self.wf(),
        ensures
            w == self@[0].len(),
    {
        self.rows[0].len()
    }

    /// The character at row `r`, column `c`.
    pub fn char_at(&self, r: usize, c: usize) -> (ch: char)
        requires
            self.wf(),
            r < self@.len(),
            c < self@[r as int].len(),
        ensures
            ch == self@[r as int][c as int],
    {
        self.rows[r][c]
    }

    /// Whether the cell at row `r`, column `c` is solid.
    pub fn is_solid(&self, r: usize, c: usize) -> (b: bool)
        requires
            self.wf(),
            r < self@.len(),
            c < self@[r as int].len(),
        ensures
            b == solid(self@, r as int, c as int),
    {
        self.rows[r][c] != ' '
    }
}

/// The player ship's silhouette, 6 columns by 4 rows.
pub open spec fn player_shape_spec() -> Seq<Seq<char>> {
    seq![
        seq![' ', ' ', '/', '\\', ' ', ' '],
        seq![' ', '/', '_', '_', '\\', ' '],
        seq!['|', ' ', '_', '_', ' ', '|'],
        seq!['|', '/', ' ', ' ', '\\', '|'],
    ]
}

/// The enemy saucer's silhouette, 7 columns by 4 rows.
pub open spec fn enemy_shape_spec() -> Seq<Seq<char>> {
    seq![
        seq![' ', '▄', '▄', '▄', '▄', '▄', ' '],
        seq!['█', ' ', ' ', ' ', ' ', ' ', '█'],
        seq!['█', '▄', '█', ' ', '█', '▄', '█'],
        seq![' ', '▀', '▀', ' ', '▀', '▀', ' '],
    ]
}

/// Builds the player ship's mask.
pub fn player_shape() -> (m: ShapeMask)
    ensures
        m@ == player_shape_spec(),
        mask_wf(m@),
{
    let rows: Vec<Vec<char>> = vec![
        vec![' ', ' ', '/', '\\', ' ', ' '],
        vec![' ', '/', '_', '_', '\\', ' '],
        vec!['|', ' ', '_', '_', ' ', '|'],
        vec!['|', '/', ' ', ' ', '\\', '|'],
    ];
    proof {
        assert(rows@.map_values(|r: Vec<char>| r@) =~~= player_shape_spec());
    }
    ShapeMask::new(rows)
}

/// Builds the enemy saucer's mask.
pub fn enemy_shape() -> (m: ShapeMask)
    ensures
        m@ == enemy_shape_spec(),
        mask_wf(m@),
{
    let rows: Vec<Vec<char>> = vec![
        vec![' ', '▄', '▄', '▄', '▄', '▄', ' '],
        vec!['█', ' ', ' ', ' ', ' ', ' ', '█'],
        vec!['█', '▄', '█', ' ', '█', '▄', '█'],
        vec![' ', '▀', '▀', ' ', '▀', '▀', ' '],
    ];
    proof {
        assert(rows@.map_values(|r: Vec<char>| r@) =~~= enemy_shape_spec());
    }
    ShapeMask::new(rows)
}

} // verus!
