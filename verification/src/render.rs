//! Frame-buffer compositing.
//!
//! A [`RenderBuffer`] is a width-by-height grid of styled glyph cells,
//! recreated blank every render tick, composited into by the render
//! passes, and flushed to the terminal outside the library.  Writers that
//! reach outside the grid are silently clipped; later writers overwrite
//! earlier ones at shared cells.

use vstd::prelude::*;
use crate::shape::{covers, ShapeMask};

verus! {

/// How a glyph is styled when flushed.
#[derive(Clone, Copy, PartialEq, Eq, Structural, Debug)]
pub enum Style {
    Plain,
    White,
    Red,
}

/// One styled glyph cell of the frame.
#[derive(Clone, Copy, PartialEq, Eq, Structural, Debug)]
pub struct Cell {
    pub glyph: char,
    pub style: Style,
}

/// The cell every buffer starts from: a plain space.
pub open spec fn blank_cell() -> Cell {
    Cell { glyph: ' ', style: Style::Plain }
}

/// A frame: `width * height` cells stored row-major, cell `(x, y)` at
/// index `x + y * width`.
pub struct RenderBuffer {
    pub buf: Vec<Cell>,
    pub width: u16,
    pub height: u16,
}

impl RenderBuffer {
    /// The buffer holds exactly one cell per grid position.
    pub open spec fn wf(&self) -> bool {
        self.buf@.len() == (self.width as int) * (self.height as int)
    }

    /// The cell at grid position `(x, y)`.
    pub open spec fn cell_at(&self, x: int, y: int) -> Cell {
        self.buf@[x + y * (self.width as int)]
    }

    /// A fresh frame of the given size, every cell blank.
    pub fn new(width: u16, height: u16) -> (r: RenderBuffer)
        ensures
            r.wf(),
            r.width == width,
            r.height == height,
            forall|x: int, y: int|
                0 <= x < width && 0 <= y < height ==> #[trigger] r.cell_at(x, y) == blank_cell(),
    {
        proof {
            assert((width as int) * (height as int) < 0x1_0000_0000) by (nonlinear_arith)
                requires
                    0 <= width && width < 0x1_0000,
                    0 <= height && height < 0x1_0000,
            ;
        }
        let len: u32 = width as u32 * height as u32;
        let mut buf: Vec<Cell> = Vec::new();
        let mut i: u32 = 0;
        while i < len
            invariant
                i <= len,
                buf@.len() == i as int,
                forall|j: int| 0 <= j < i ==> buf@[j] == blank_cell(),
            decreases len - i,
        {
            buf.push(Cell { glyph: ' ', style: Style::Plain });
            i = i + 1;
        }
        let r = RenderBuffer { buf, width, height };
        proof {
            assert forall|x: int, y: int| 0 <= x < width && 0 <= y < height implies #[trigger] r
                .cell_at(x, y) == blank_cell() by {
                assert(0 <= x + y * (width as int) < (width as int) * (height as int))
                    by (nonlinear_arith)
                    requires
                        0 <= x && x < (width as int),
                        0 <= y && y < (height as int),
                ;
            }
        }
        r
    }

    /// Width of the frame in cells.
    pub fn width(&self) -> (w: u16)
        ensures
            w == self.width,
    {
        self.width
    }

    /// Height of the frame in cells.
    pub fn height(&self) -> (h: u16)
        ensures
            h == self.height,
    {
        self.height
    }

    /// The cell at grid position `(x, y)`, or nothing outside the frame.
    pub fn get(&self, x: u16, y: u16) -> (r: Option<Cell>)
        requires
            self.wf(),
        ensures
            r == if x < self.width && y < self.height {
                Some(self.cell_at(x as int, y as int))
            } else {
                None::<Cell>
            },
    {
        if x < self.width && y < self.height {
            proof {
                assert(0 <= (y as int) * (self.width as int) && (x as int) + (y as int) * (
                self.width as int) < (self.width as int) * (self.height as int) <= 0xfffe_0001)
                    by (nonlinear_arith)
                    requires
                        0 <= (x as int) && (x as int) < (self.width as int),
                        0 <= (y as int) && (y as int) < (self.height as int),
                        0 <= (self.width as int) && (self.width as int) < 0x1_0000,
                        0 <= (self.height as int) && (self.height as int) < 0x1_0000,
                ;
            }
            let idx: usize = x as usize + y as usize * self.width as usize;
            Some(self.buf[idx])
        } else {
            None
        }
    }

    /// A mutable borrow of the cell at grid position `(x, y)`.
    pub fn get_mut(&mut self, x: u16, y: u16) -> (cell: &mut Cell)
        requires
            old(self).wf(),
            x < old(self).width,
            y < old(self).height,
        ensures
            *cell == old(self).cell_at(x as int, y as int),
            final(self).wf(),
            final(self).width == old(self).width,
            final(self).height == old(self).height,
            final(self).buf@ == old(self).buf@.update(
                (x as int) + (y as int) * (old(self).width as int),
                *final(cell),
            ),
    {
        proof {
            assert(0 <= (self.width as int) * (self.height as int) <= 0xfffe_0001)
                by (nonlinear_arith)
                requires
                    0 <= (self.width as int) && (self.width as int) < 0x1_0000,
                    0 <= (self.height as int) && (self.height as int) < 0x1_0000,
            ;
            assert(0 <= (x as int) + (y as int) * (self.width as int) < (self.width as int) * (
            self.height as int)) by (nonlinear_arith)
                requires
                    0 <= (x as int) && (x as int) < (self.width as int),
                    0 <= (y as int) && (y as int) < (self.height as int),
            ;
        }
        let idx: usize = x as usize + y as usize * self.width as usize;
        &mut self.buf[idx]
    }

    /// Writes one cell at grid position `(x, y)`.
    pub fn set(&mut self, x: u16, y: u16, c: Cell)
        requires
            old(self).wf(),
            x < old(self).width,
            y < old(self).height,
        ensures
            final(self).wf(),
            final(self).width == old(self).width,
            final(self).height == old(self).height,
            final(self).cell_at(x as int, y as int) == c,
            forall|gx: int, gy: int|
                0 <= gx < old(self).width && 0 <= gy < old(self).height && !(gx == x as int && gy
                    == y as int) ==> #[trigger] final(self).cell_at(gx, gy) == old(self).cell_at(
                    gx,
                    gy,
                ),
    {
        proof {
            assert(0 <= (self.width as int) * (self.height as int) <= 0xfffe_0001)
                by (nonlinear_arith)
                requires
                    0 <= (self.width as int) && (self.width as int) < 0x1_0000,
                    0 <= (self.height as int) && (self.height as int) < 0x1_0000,
            ;
            assert(0 <= (x as int) + (y as int) * (self.width as int) < (self.width as int) * (
            self.height as int)) by (nonlinear_arith)
                requires
                    0 <= (x as int) && (x as int) < (self.width as int),
                    0 <= (y as int) && (y as int) < (self.height as int),
                    (self.width as int) < 0x1_0000,
                    (self.height as int) < 0x1_0000,
            ;
        }
        let idx: usize = x as usize + y as usize * self.width as usize;
        self.buf.set(idx, c);
        proof {
            assert forall|gx: int, gy: int|
                0 <= gx < old(self).width && 0 <= gy < old(self).height && !(gx == x as int && gy
                    == y as int) implies #[trigger] self.cell_at(gx, gy) == old(self).cell_at(
                gx,
                gy,
            ) by {
                assert(gx + gy * (self.width as int) != (x as int) + (y as int) * (
                self.width as int)) by (nonlinear_arith)
                    requires
                        0 <= gx && gx < (self.width as int),
                        0 <= gy && gy < (self.height as int),
                        0 <= (x as int) && (x as int) < (self.width as int),
                        0 <= (y as int) && (y as int) < (self.height as int),
                        !(gx == x as int && gy == y as int),
                ;
                assert(0 <= gx + gy * (self.width as int) < (self.width as int) * (
                self.height as int)) by (nonlinear_arith)
                    requires
                        0 <= gx && gx < (self.width as int),
                        0 <= gy && gy < (self.height as int),
                ;
            }
        }
    }

    /// Composites a mask into the frame: every solid (non-space) glyph of
    /// the mask lands at the mask's origin plus its row and column, with
    /// the given style; cells outside the frame are silently clipped, and
    /// cells the mask does not cover keep their contents.
    pub fn blit_mask(&mut self, m: &ShapeMask, ox: u16, oy: u16, style: Style)
        requires
            old(self).wf(),
            m.wf(),
        ensures
            final(self).wf(),
            final(self).width == old(self).width,
            final(self).height == old(self).height,
            forall|gx: int, gy: int|
                0 <= gx < old(self).width && 0 <= gy < old(self).height ==> #[trigger] final(self).cell_at(gx, gy) == (if covers(m@, ox as int, oy as int, gx, gy) {
                    Cell { glyph: m@[gy - oy as int][gx - ox as int], style }
                } else {
                    old(self).cell_at(gx, gy)
                }),
    {
        let mh = m.height();
        let mw = m.width();
        let mut r: usize = 0;
        while r < mh
            invariant
                self.wf(),
                m.wf(),
                mh == m@.len(),
                mw == m@[0].len(),
                r <= mh,
                self.width == old(self).width,
                self.height == old(self).height,
                forall|gx: int, gy: int|
                    0 <= gx < self.width && 0 <= gy < self.height ==> #[trigger] self.cell_at(
                        gx,
                        gy,
                    ) == (if covers(m@, ox as int, oy as int, gx, gy) && gy - oy < r {
                        Cell { glyph: m@[gy - oy as int][gx - ox as int], style }
                    } else {
                        old(self).cell_at(gx, gy)
                    }),
            decreases mh - r,
        {
            let mut c: usize = 0;
            while c < mw
                invariant
                    self.wf(),
                    m.wf(),
                    mh == m@.len(),
                    mw == m@[0].len(),
                    r < mh,
                    c <= mw,
                    self.width == old(self).width,
                    self.height == old(self).height,
                    forall|gx: int, gy: int|
                        0 <= gx < self.width && 0 <= gy < self.height ==> #[trigger] self.cell_at(
                            gx,
                            gy,
                        ) == (if covers(m@, ox as int, oy as int, gx, gy) && (gy - oy < r || (gy
                            - oy == r && gx - ox < c)) {
                            Cell { glyph: m@[gy - oy as int][gx - ox as int], style }
                        } else {
                            old(self).cell_at(gx, gy)
                        }),
                decreases mw - c,
            {
                assert(m@[r as int].len() == mw);
                let ch = m.char_at(r, c);
                let px: u32 = ox as u32 + c as u32;
                let py: u32 = oy as u32 + r as u32;
                if ch != ' ' && px < self.width as u32 && py < self.height as u32 {
                    self.set(px as u16, py as u16, Cell { glyph: ch, style });
                }
                c = c + 1;
            }
            r = r + 1;
        }
    }
}

/// The decimal digits of `n`, most significant first.
pub open spec fn dec_digits(n: int) -> Seq<char>
    decreases n,
{
    if n < 10 {
        seq![digit_char(n)]
    } else {
        dec_digits(n / 10).push(digit_char(n % 10))
    }
}

/// The character for one decimal digit.
pub open spec fn digit_char(d: int) -> char {
    if d == 0 {
        '0'
    } else if d == 1 {
        '1'
    } else if d == 2 {
        '2'
    } else if d == 3 {
        '3'
    } else if d == 4 {
        '4'
    } else if d == 5 {
        '5'
    } else if d == 6 {
        '6'
    } else if d == 7 {
        '7'
    } else if d == 8 {
        '8'
    } else {
        '9'
    }
}

fn digit_char_exec(d: u16) -> (c: char)
    requires
        d < 10,
    ensures
        c == digit_char(d as int),
{
    if d == 0 {
        '0'
    } else if d == 1 {
        '1'
    } else if d == 2 {
        '2'
    } else if d == 3 {
        '3'
    } else if d == 4 {
        '4'
    } else if d == 5 {
        '5'
    } else if d == 6 {
        '6'
    } else if d == 7 {
        '7'
    } else if d == 8 {
        '8'
    } else {
        '9'
    }
}

fn push_digits(n: u16, out: &mut Vec<char>)
    ensures
        final(out)@ == old(out)@ + dec_digits(n as int),
    decreases n,
{
    if n >= 10 {
        push_digits(n / 10, out);
    }
    out.push(digit_char_exec(n % 10));
    proof {
        assert(out@ =~= old(out)@ + dec_digits(n as int));
    }
}

/// The decimal digit characters of `n`, most significant first.
pub fn u16_to_digits(n: u16) -> (v: Vec<char>)
    ensures
        v@ == dec_digits(n as int),
        1 <= v@.len() <= 5,
{
    let mut v: Vec<char> = Vec::new();
    push_digits(n, &mut v);
    proof {
        assert(v@ =~= dec_digits(n as int));
        lemma_dec_digits_len(n as int);
    }
    v
}

/// A `u16`'s decimal expansion has one to five digits.
proof fn lemma_dec_digits_len(n: int)
    requires
        0 <= n < 0x1_0000,
    ensures
        1 <= dec_digits(n).len() <= 5,
        dec_digits(n).len() <= (if n < 10 {
            1int
        } else if n < 100 {
            2
        } else if n < 1000 {
            3
        } else if n < 10000 {
            4
        } else {
            5
        }),
    decreases n,
{
    if n >= 10 {
        lemma_dec_digits_len(n / 10);
        assert(dec_digits(n) == dec_digits(n / 10).push(digit_char(n % 10)));
    } else {
        assert(dec_digits(n) == seq![digit_char(n)]);
    }
}

} // verus!
