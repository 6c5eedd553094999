use vstd::arithmetic::div_mod::{lemma_fundamental_div_mod, lemma_fundamental_div_mod_converse};
use vstd::math::{max, min};
use vstd::prelude::*;

use crate::cell::{char_of, reduce, PixelState};

verus! {

/// `v` moved into `[lo, hi]` the way `v.max(lo).min(hi)` does it (`hi` wins
/// when the range is empty).
pub open spec fn clamp(v: int, lo: int, hi: int) -> int {
    let up = if v < lo { lo } else { v };
    if up > hi { hi } else { up }
}

/// `cells`, a grid `w` cells wide in row-major order, after `mark` has been
/// drawn over every cell of columns `x0..=x1` and rows `y0..=y1`.
pub open spec fn painted(
    cells: Seq<PixelState>,
    w: int,
    x0: int,
    x1: int,
    y0: int,
    y1: int,
    mark: PixelState,
) -> Seq<PixelState> {
    Seq::new(
        cells.len(),
        |i: int|
            if x0 <= i % w <= x1 && y0 <= i / w <= y1 {
                reduce(cells[i], mark)
            } else {
                cells[i]
            },
    )
}

/// `v` moved into `[lo, hi]`, as `clamp` says.
fn clamp_i64(v: i64, lo: i64, hi: i64) -> (r: i64)
    ensures
        r == clamp(v as int, lo as int, hi as int),
{
    let up: i64 = if v < lo { lo } else { v };
    if up > hi {
        hi
    } else {
        up
    }
}

/// Where a text's drawing position lies along the text, left to right.
#[derive(Copy, Clone, Debug, PartialEq, Eq, Structural)]
pub enum HPos {
    Left,
    Right,
    Center,
}

/// Where a text's drawing position lies along the text, top to bottom.
#[derive(Copy, Clone, Debug, PartialEq, Eq, Structural)]
pub enum VPos {
    Top,
    Center,
    Bottom,
}

/// The space a text takes up, as (columns, rows): one column per character,
/// counted in `u32`, and always a single row.
pub open spec fn text_extent(text: Seq<char>) -> (u32, u32) {
    (text.len() as u32, 1u32)
}

/// How far a text of `width` columns starts left of its drawing position.
pub open spec fn anchor_dx(h_pos: HPos, width: int) -> int {
    match h_pos {
        HPos::Left => 0,
        HPos::Right => -width,
        HPos::Center => -(width / 2),
    }
}

/// How far a text of `height` rows starts above its drawing position.
pub open spec fn anchor_dy(v_pos: VPos, height: int) -> int {
    match v_pos {
        VPos::Top => 0,
        VPos::Center => -(height / 2),
        VPos::Bottom => -height,
    }
}

/// `after` is `before` with the characters of `text` drawn over the cells
/// from index `start` on, one each; those that fall past the last cell are
/// dropped.
pub open spec fn text_drawn(
    before: Seq<PixelState>,
    after: Seq<PixelState>,
    start: int,
    text: Seq<char>,
) -> bool {
    &&& after.len() == before.len()
    &&& forall|i: int|
        0 <= i < before.len() ==> #[trigger] after[i] == if start <= i < start + text.len() {
            reduce(before[i], PixelState::Text(text[i - start]))
        } else {
            before[i]
        }
}

/// Relies on `String::push`: `c` is appended to the end of `s`.
#[verifier::external_body]
fn push_char(s: &mut String, c: char)
    ensures
        final(s)@ == old(s)@.push(c),
{
    s.push(c);
}

/// A character grid that a chart is drawn on, one mark per cell.
pub struct TextDrawingBackend {
    size: (u32, u32),
    data: Vec<PixelState>,
}

impl TextDrawingBackend {
    /// Number of columns.
    pub closed spec fn width(&self) -> int {
        self.size.0 as int
    }

    /// Number of rows.
    pub closed spec fn height(&self) -> int {
        self.size.1 as int
    }

    /// The marks of all cells, row after row.
    pub closed spec fn cells(&self) -> Seq<PixelState> {
        self.data@
    }

    /// One mark for every cell of the grid.
    pub closed spec fn wf(&self) -> bool {
        self.data@.len() == self.size.0 as int * self.size.1 as int
    }

    /// The mark at column `x` of row `y`.
    pub open spec fn cell(&self, x: int, y: int) -> PixelState {
        self.cells()[y * self.width() + x]
    }

    /// `self.cells()` after `mark` is drawn over the block of columns
    /// `x0..=x1` and rows `y0..=y1`.
    pub open spec fn painted_block(
        &self,
        x0: int,
        x1: int,
        y0: int,
        y1: int,
        mark: PixelState,
    ) -> Seq<PixelState> {
        painted(self.cells(), self.width(), x0, x1, y0, y1, mark)
    }

    /// Creates a `width` by `height` grid with every cell empty.
    pub fn new(width: u32, height: u32) -> (r: TextDrawingBackend)
        requires
            width as int * height as int <= usize::MAX,
        ensures
            r.wf(),
            r.width() == width,
            r.height() == height,
            r.cells().len() == width * height,
            r.is_blank(),
    {
        let n: usize = (width as usize) * (height as usize);
        let mut data: Vec<PixelState> = Vec::with_capacity(n);
        let mut i: usize = 0;
        while i < n
            invariant
                i <= n,
                data@ == Seq::new(i as nat, |k: int| PixelState::Empty),
            decreases n - i,
        {
            data.push(PixelState::Empty);
            i += 1;
        }
        TextDrawingBackend { size: (width, height), data }
    }

    /// The grid's size as (columns, rows).
    pub fn get_size(&self) -> (r: (u32, u32))
        ensures
            r.0 == self.width(),
            r.1 == self.height(),
    {
        self.size
    }

    /// The mark at column `x` of row `y`, if that cell is on the grid.
    pub fn cell_at(&self, x: u32, y: u32) -> (r: Option<PixelState>)
        requires
            self.wf(),
        ensures
            r == if x < self.width() && y < self.height() {
                Some(self.cell(x as int, y as int))
            } else {
                None::<PixelState>
            },
    {
        if x >= self.size.0 || y >= self.size.1 {
            return None;
        }
        let ghost w = self.width();
        let ghost h = self.height();
        let len: usize = self.data.len();
        proof {
            assert((y + 1) * w <= w * h) by (nonlinear_arith)
                requires
                    y + 1 <= h,
                    0 <= w,
            ;
            assert(y * w + x < (y + 1) * w) by (nonlinear_arith)
                requires
                    x < w,
            ;
            assert(y * w >= 0) by (nonlinear_arith)
                requires
                    y >= 0,
                    w >= 0,
            ;
            assert(y * w + x < self.data@.len());
        }
        let yu: usize = y as usize;
        let xu: usize = x as usize;
        let wu: usize = self.size.0 as usize;
        assert(yu == y);
        assert(xu == x);
        assert(wu == w);
        assert(yu * wu + xu < self.data@.len()) by (nonlinear_arith)
            requires
                yu == y,
                wu == w,
                xu == x,
                y * w + x < self.data@.len(),
        ;
        let idx: usize = yu * wu + xu;
        Some(self.data[idx])
    }

    /// Draws `mark` over every cell of columns `x0..=x1` and rows `y0..=y1`.
    fn fill_block(&mut self, x0: u32, x1: i64, y0: u32, y1: i64, mark: PixelState)
        requires
            old(self).wf(),
            x1 < old(self).width(),
            y1 < old(self).height(),
        ensures
            final(self).wf(),
            final(self).size == old(self).size,
            final(self).cells() == old(self).painted_block(
                x0 as int,
                x1 as int,
                y0 as int,
                y1 as int,
                mark,
            ),
    {
        let ghost orig = self.data@;
        let ghost w = self.size.0 as int;
        let ghost h = self.size.1 as int;
        let width: u32 = self.size.0;
        let len: usize = self.data.len();
        let mut y: i64 = y0 as i64;
        while y <= y1
            invariant
                self.wf(),
                self.size == old(self).size,
                w == self.size.0,
                h == self.size.1,
                orig == old(self).data@,
                width == w,
                len == orig.len(),
                self.data@.len() == len,
                x1 < w,
                y1 < h,
                y0 <= y,
                y <= y1 + 1 || y == y0,
                forall|i: int|
                    0 <= i < orig.len() ==> #[trigger] self.data@[i] == if x0 <= i % w <= x1 && y0
                        <= i / w < y {
                        reduce(orig[i], mark)
                    } else {
                        orig[i]
                    },
            decreases y1 + 1 - y,
        {
            let mut x: i64 = x0 as i64;
            while x <= x1
                invariant
                    self.wf(),
                    self.size == old(self).size,
                    w == self.size.0,
                    h == self.size.1,
                    orig == old(self).data@,
                    width == w,
                    len == orig.len(),
                self.data@.len() == len,
                    x1 < w,
                    y1 < h,
                    y0 <= y <= y1,
                    x0 <= x,
                    x <= x1 + 1 || x == x0,
                    forall|i: int|
                        0 <= i < orig.len() ==> #[trigger] self.data@[i] == if (x0 <= i % w <= x1
                            && y0 <= i / w < y) || (i / w == y && x0 <= i % w < x) {
                            reduce(orig[i], mark)
                        } else {
                            orig[i]
                        },
                decreases x1 + 1 - x,
            {
                proof {
                    assert((y + 1) * w <= w * h) by (nonlinear_arith)
                        requires
                            y + 1 <= h,
                            0 <= w,
                    ;
                    assert(y * w + x < (y + 1) * w) by (nonlinear_arith)
                        requires
                            x < w,
                    ;
                    assert(y * w >= 0) by (nonlinear_arith)
                        requires
                            y >= 0,
                            w >= 0,
                    ;
                    assert(y * w + x < len);
                    lemma_fundamental_div_mod_converse(y * w + x, w, y as int, x as int);
                }
                let yu: usize = y as usize;
                let xu: usize = x as usize;
                let wu: usize = width as usize;
                assert(yu == y);
                assert(xu == x);
                assert(wu == w);
                assert(yu * wu + xu < len) by (nonlinear_arith)
                    requires
                        yu == y,
                        wu == w,
                        xu == x,
                        y * w + x < len,
                ;
                let idx: usize = yu * wu + xu;
                let mut c = self.data[idx];
                c.update(mark);
                self.data.set(idx, c);
                proof {
                    assert forall|i: int| 0 <= i < orig.len() && i != idx && #[trigger] self.data@[i] == self.data@[i] implies !(i / w == y
                        && i % w == x) by {
                        lemma_fundamental_div_mod(i, w);
                        if i / w == y && i % w == x {
                            assert(w * y == y * w) by (nonlinear_arith);
                        }
                    }
                }
                x += 1;
            }
            y += 1;
        }
        proof {
            assert(self.data@ =~= old(self).painted_block(
                x0 as int,
                x1 as int,
                y0 as int,
                y1 as int,
                mark,
            ));
        }
    }

    /// Draws a point at `pos`, moved onto the nearest cell of the grid.
    /// Nothing is drawn unless `visible` (the point's colour is opaque enough
    /// to show).
    pub fn draw_pixel(&mut self, pos: (i32, i32), visible: bool)
        requires
            old(self).wf(),
        ensures
            final(self).wf(),
            final(self).width() == old(self).width(),
            final(self).height() == old(self).height(),
            final(self).cells() == if visible {
                let x = clamp(pos.0 as int, 0, old(self).width() - 1);
                let y = clamp(pos.1 as int, 0, old(self).height() - 1);
                old(self).painted_block(x, x, y, y, PixelState::Pixel)
            } else {
                old(self).cells()
            },
    {
        if !visible {
            return;
        }
        if self.size.0 == 0 || self.size.1 == 0 {
            proof {
                self.lemma_empty_grid_unchanged();
            }
            return;
        }
        let x: i64 = clamp_i64(pos.0 as i64, 0, self.size.0 as i64 - 1);
        let y: i64 = clamp_i64(pos.1 as i64, 0, self.size.1 as i64 - 1);
        self.fill_block(x as u32, x, y as u32, y, PixelState::Pixel);
    }

    /// Fills the block from `upper_left` to `bottom_right`, both corners
    /// included. The upper-left corner is moved into `[0, width] x [0,
    /// height]` and the bottom-right one onto the nearest cell of the grid.
    /// Outlined and filled rectangles look the same at this resolution.
    pub fn draw_rect(&mut self, upper_left: (i32, i32), bottom_right: (i32, i32))
        requires
            old(self).wf(),
        ensures
            final(self).wf(),
            final(self).width() == old(self).width(),
            final(self).height() == old(self).height(),
            final(self).cells() == old(self).painted_block(
                clamp(upper_left.0 as int, 0, old(self).width()),
                clamp(bottom_right.0 as int, 0, old(self).width() - 1),
                clamp(upper_left.1 as int, 0, old(self).height()),
                clamp(bottom_right.1 as int, 0, old(self).height() - 1),
                PixelState::Filled,
            ),
    {
        let w: i64 = self.size.0 as i64;
        let h: i64 = self.size.1 as i64;
        let x0: i64 = clamp_i64(upper_left.0 as i64, 0, w);
        let y0: i64 = clamp_i64(upper_left.1 as i64, 0, h);
        let x1: i64 = clamp_i64(bottom_right.0 as i64, 0, w - 1);
        let y1: i64 = clamp_i64(bottom_right.1 as i64, 0, h - 1);
        self.fill_block(x0 as u32, x1, y0 as u32, y1, PixelState::Filled);
    }

    /// Draws a vertical or horizontal line from `from` to `to`, the end with
    /// the larger coordinate left out; returns whether the line was one of
    /// the two. A vertical line keeps to the nearest column of the grid and
    /// its rows are moved into `[0, height]`; a horizontal one likewise. Any
    /// other line leaves the grid as it is and is for the caller to rasterize
    /// point by point with `draw_pixel`.
    pub fn draw_line(&mut self, from: (i32, i32), to: (i32, i32)) -> (handled: bool)
        requires
            old(self).wf(),
        ensures
            final(self).wf(),
            final(self).width() == old(self).width(),
            final(self).height() == old(self).height(),
            handled == (from.0 == to.0 || from.1 == to.1),
            final(self).cells() == if from.0 == to.0 {
                let x = clamp(from.0 as int, 0, old(self).width() - 1);
                let y0 = clamp(min(from.1 as int, to.1 as int), 0, old(self).height());
                let y1 = clamp(max(from.1 as int, to.1 as int), 0, old(self).height());
                old(self).painted_block(x, x, y0, y1 - 1, PixelState::VLine)
            } else if from.1 == to.1 {
                let y = clamp(from.1 as int, 0, old(self).height() - 1);
                let x0 = clamp(min(from.0 as int, to.0 as int), 0, old(self).width());
                let x1 = clamp(max(from.0 as int, to.0 as int), 0, old(self).width());
                old(self).painted_block(x0, x1 - 1, y, y, PixelState::HLine)
            } else {
                old(self).cells()
            },
    {
        if from.0 != to.0 && from.1 != to.1 {
            return false;
        }
        if self.size.0 == 0 || self.size.1 == 0 {
            proof {
                self.lemma_empty_grid_unchanged();
            }
            return true;
        }
        let w: i64 = self.size.0 as i64;
        let h: i64 = self.size.1 as i64;
        if from.0 == to.0 {
            let x: i64 = clamp_i64(from.0 as i64, 0, w - 1);
            let lo: i32 = if from.1 < to.1 { from.1 } else { to.1 };
            let hi: i32 = if from.1 < to.1 { to.1 } else { from.1 };
            let y0: i64 = clamp_i64(lo as i64, 0, h);
            let y1: i64 = clamp_i64(hi as i64, 0, h);
            self.fill_block(x as u32, x, y0 as u32, y1 - 1, PixelState::VLine);
        } else {
            let y: i64 = clamp_i64(from.1 as i64, 0, h - 1);
            let lo: i32 = if from.0 < to.0 { from.0 } else { to.0 };
            let hi: i32 = if from.0 < to.0 { to.0 } else { from.0 };
            let x0: i64 = clamp_i64(lo as i64, 0, w);
            let x1: i64 = clamp_i64(hi as i64, 0, w);
            self.fill_block(x0 as u32, x1 - 1, y as u32, y, PixelState::HLine);
        }
        true
    }

    /// The space `text` takes up on the grid, as (columns, rows).
    pub fn estimate_text_size(&self, text: &str) -> (r: (u32, u32))
        ensures
            r == text_extent(text@),
    {
        (text.unicode_len() as u32, 1)
    }

    /// The index of the cell where `text`, drawn at `pos` with the given
    /// anchor, starts: the anchored position with negative coordinates
    /// raised to zero, in row-major order. It may lie past the grid.
    pub open spec fn text_start(&self, text: Seq<char>, h_pos: HPos, v_pos: VPos, pos: (i32, i32)) -> int {
        let col = max(0, pos.0 + anchor_dx(h_pos, text_extent(text).0 as int));
        let row = max(0, pos.1 + anchor_dy(v_pos, text_extent(text).1 as int));
        row * self.width() + col
    }

    /// Draws `text` at `pos`, anchored as `h_pos` and `v_pos` say: one
    /// character per cell, from the start cell on in row-major order (a text
    /// that runs past the right edge goes on in the next row). Characters
    /// that fall past the last cell are dropped.
    pub fn draw_text(&mut self, text: &str, h_pos: HPos, v_pos: VPos, pos: (i32, i32))
        requires
            old(self).wf(),
        ensures
            final(self).wf(),
            final(self).width() == old(self).width(),
            final(self).height() == old(self).height(),
            text_drawn(
                old(self).cells(),
                final(self).cells(),
                old(self).text_start(text@, h_pos, v_pos, pos),
                text@,
            ),
    {
        let (tw, th) = self.estimate_text_size(text);
        let dx: i64 = match h_pos {
            HPos::Left => 0,
            HPos::Right => -(tw as i64),
            HPos::Center => -((tw / 2) as i64),
        };
        let dy: i64 = match v_pos {
            VPos::Top => 0,
            VPos::Center => -((th / 2) as i64),
            VPos::Bottom => -(th as i64),
        };
        let col: i64 = if pos.0 as i64 + dx > 0 { pos.0 as i64 + dx } else { 0 };
        let row: i64 = if pos.1 as i64 + dy > 0 { pos.1 as i64 + dy } else { 0 };
        assert(row * self.size.0 <= 0x8000_0000 * 0x1_0000_0000) by (nonlinear_arith)
            requires
                0 <= row < 0x8000_0000,
                0 <= self.size.0 < 0x1_0000_0000,
        ;
        let start: u64 = (row as u64) * (self.size.0 as u64) + (col as u64);
        self.write_text_from(start, text);
    }

    /// Draws the characters of `text` over the cells from index `start` on,
    /// one each, dropping those that fall past the last cell.
    fn write_text_from(&mut self, start: u64, text: &str)
        requires
            old(self).wf(),
        ensures
            final(self).wf(),
            final(self).size == old(self).size,
            text_drawn(old(self).cells(), final(self).cells(), start as int, text@),
    {
        let len: usize = self.data.len();
        if start >= len as u64 {
            return;
        }
        let n: usize = text.unicode_len();
        let ghost orig = self.data@;
        let mut i: usize = start as usize;
        let mut k: usize = 0;
        while k < n && i < len
            invariant
                self.wf(),
                self.size == old(self).size,
                orig == old(self).data@,
                self.data@.len() == len,
                orig.len() == len,
                n == text@.len(),
                i == start + k,
                k <= n,
                i <= len,
                forall|j: int|
                    0 <= j < len ==> #[trigger] self.data@[j] == if start <= j < start + k {
                        reduce(orig[j], PixelState::Text(text@[j - start]))
                    } else {
                        orig[j]
                    },
            decreases n - k,
        {
            let mut c = self.data[i];
            c.update(PixelState::Text(text.get_char(k)));
            self.data.set(i, c);
            i += 1;
            k += 1;
        }
    }

    /// The grid as text: one line per row, top to bottom, one character per
    /// cell, left to right.
    pub open spec fn rendered(&self) -> Seq<Seq<char>> {
        Seq::new(
            self.height() as nat,
            |y: int| Seq::new(self.width() as nat, |x: int| char_of(self.cell(x, y))),
        )
    }

    /// Renders the grid as lines of text, top row first. The grid is not
    /// changed, so repeated calls give the same lines.
    pub fn render_lines(&self) -> (r: Vec<String>)
        requires
            self.wf(),
        ensures
            r@.len() == self.height(),
            forall|y: int| 0 <= y < self.height() ==> #[trigger] r@[y]@ == self.rendered()[y],
    {
        let ghost w = self.size.0 as int;
        let ghost h = self.size.1 as int;
        let width: u32 = self.size.0;
        let height: u32 = self.size.1;
        let len: usize = self.data.len();
        let mut lines: Vec<String> = Vec::new();
        let mut y: u32 = 0;
        while y < height
            invariant
                self.wf(),
                w == width,
                h == height,
                w == self.width(),
                h == self.height(),
                len == self.data@.len(),
                y <= height,
                lines@.len() == y,
                forall|r: int| 0 <= r < y ==> #[trigger] lines@[r]@ == self.rendered()[r],
            decreases height - y,
        {
            let mut line = String::new();
            let mut x: u32 = 0;
            while x < width
                invariant
                    self.wf(),
                    w == width,
                    h == height,
                    w == self.width(),
                    h == self.height(),
                    len == self.data@.len(),
                    y < height,
                    x <= width,
                    line@ == Seq::new(x as nat, |c: int| char_of(self.cell(c, y as int))),
                decreases width - x,
            {
                proof {
                    assert((y + 1) * w <= w * h) by (nonlinear_arith)
                        requires
                            y + 1 <= h,
                            0 <= w,
                    ;
                    assert(y * w + x < (y + 1) * w) by (nonlinear_arith)
                        requires
                            x < w,
                    ;
                    assert(y * w >= 0) by (nonlinear_arith)
                        requires
                            y >= 0,
                            w >= 0,
                    ;
                    assert(y * w + x < len);
                }
                let yu: usize = y as usize;
                let xu: usize = x as usize;
                let wu: usize = width as usize;
                assert(yu * wu + xu < len) by (nonlinear_arith)
                    requires
                        yu == y,
                        wu == w,
                        xu == x,
                        y * w + x < len,
                ;
                let idx: usize = yu * wu + xu;
                push_char(&mut line, self.data[idx].to_char());
                x += 1;
                assert(line@ =~= Seq::new(x as nat, |c: int| char_of(self.cell(c, y as int))));
            }
            lines.push(line);
            y += 1;
        }
        lines
    }

    /// Every cell of the grid is empty, as `new` leaves it.
    pub open spec fn is_blank(&self) -> bool {
        forall|i: int| 0 <= i < self.cells().len() ==> #[trigger] self.cells()[i] == PixelState::Empty
    }

    /// A grid with every cell empty renders as `height` lines of `width`
    /// spaces each.
    pub proof fn lemma_blank_renders_spaces(&self)
        requires
            self.wf(),
            self.is_blank(),
        ensures
            self.rendered() == Seq::new(
                self.height() as nat,
                |y: int| Seq::new(self.width() as nat, |x: int| ' '),
            ),
    {
        let w = self.width();
        let h = self.height();
        assert forall|y: int, x: int| 0 <= y < h && 0 <= x < w implies #[trigger] self.cell(x, y)
            == PixelState::Empty by {
            assert(y * w + x < w * h) by (nonlinear_arith)
                requires
                    0 <= y < h,
                    0 <= x < w,
            ;
            assert(0 <= y * w) by (nonlinear_arith)
                requires
                    0 <= y,
                    0 <= w,
            ;
        }
        assert forall|y: int| 0 <= y < h implies #[trigger] self.rendered()[y] == Seq::new(
            w as nat,
            |x: int| ' ',
        ) by {
            assert(self.rendered()[y] =~= Seq::new(w as nat, |x: int| ' '));
        }
        assert(self.rendered() =~= Seq::new(h as nat, |y: int| Seq::new(w as nat, |x: int| ' ')));
    }

    /// A grid without cells is left as it is by any drawing.
    proof fn lemma_empty_grid_unchanged(&self)
        requires
            self.wf(),
            self.width() == 0 || self.height() == 0,
        ensures
            forall|x0: int, x1: int, y0: int, y1: int, mark: PixelState|
                #[trigger] self.painted_block(x0, x1, y0, y1, mark) == self.cells(),
    {
        assert(self.cells().len() == 0) by (nonlinear_arith)
            requires
                self.cells().len() == self.width() * self.height(),
                self.width() == 0 || self.height() == 0,
        ;
        assert forall|x0: int, x1: int, y0: int, y1: int, mark: PixelState|
            #[trigger] self.painted_block(x0, x1, y0, y1, mark) == self.cells() by {
            assert(self.painted_block(x0, x1, y0, y1, mark) =~= self.cells());
        }
    }
}

} // verus!
