//! The frame buffer, the XOR blit and the rendering of a frame.
//!
//! The grid has 64 columns and 32 rows and is stored row by row. A sprite row
//! covers eight consecutive cells. Drawing combines the sprite with what is
//! there by exclusive or, so drawing the same sprite twice erases it.

use crate::bits::{
    bit_at, byte_bits, byte_to_pixels, lemma_and_nonzero, lemma_pack_keeps_pixels, lemma_xor_bits,
    pixels_to_byte,
};
use vstd::prelude::*;
use vstd::slice::slice_subrange;

verus! {

/// Number of columns of the grid.
pub const COLS: usize = 64;

/// Number of rows of the grid.
pub const ROWS: usize = 32;

/// Number of cells of the grid.
pub const CELLS: usize = 2048;

/// The two colours a render target can fill with.
#[derive(Clone, Copy, Debug, PartialEq, Eq)]
pub enum Color {
    Black,
    White,
}

/// One call made on a render target.
#[derive(Clone, Copy, Debug, PartialEq, Eq)]
pub enum DrawOp {
    /// `clear()`
    Clear,
    /// `fill_rect(x, y, w, h, color)`
    FillRect { x: usize, y: usize, w: usize, h: usize, color: Color },
    /// `present()`
    Present,
}

/// A surface that frames are drawn on: a window, an image buffer, or
/// nothing at all. A target that reports a size of zero is handed empty
/// rectangles and has nothing to draw.
pub trait RenderTarget {
    /// Starts a new frame.
    fn clear(&mut self)
    ;

    /// Width and height of the surface, in its own units.
    fn size(&self) -> (usize, usize)
    ;

    /// Fills the rectangle with corner (`x`, `y`), width `w` and height `h`.
    fn fill_rect(&mut self, x: usize, y: usize, w: usize, h: usize, color: Color)
    ;

    /// Shows the frame drawn since the last `clear`.
    fn present(&mut self)
    ;
}

/// The grid with every cell dark.
pub open spec fn blank() -> Seq<bool> {
    Seq::new(CELLS as nat, |k: int| false)
}

/// Index of the leftmost cell that row `row` of a sprite drawn at (`x`, `y`)
/// covers.
pub open spec fn row_start(x: u8, y: u8, row: int) -> int {
    x as int + COLS as int * (y as int + row)
}

/// Whether the eight cells of sprite row `row` lie within the grid. A row
/// that does not fit is not drawn at all.
pub open spec fn row_fits(x: u8, y: u8, row: int) -> bool {
    row_start(x, y, row) + 8 <= CELLS as int
}

/// Whether one of the first `rows` rows of a sprite drawn at (`x`, `y`) has
/// a set bit on cell `k`. Rows lie 64 cells apart and are 8 cells wide, so
/// at most one row reaches a cell: the one `(k - x) / 64 - y` rows down.
pub open spec fn paints_within(x: u8, y: u8, sprite: Seq<u8>, rows: int, k: int) -> bool {
    let row = (k - x) / 64 - y;
    let column = (k - x) % 64;
    &&& k >= x
    &&& column < 8
    &&& 0 <= row < rows
    &&& row_fits(x, y, row)
    &&& bit_at(sprite[row], column)
}

/// Whether a sprite drawn at (`x`, `y`) has a set bit on cell `k`.
pub open spec fn sprite_paints(x: u8, y: u8, sprite: Seq<u8>, k: int) -> bool {
    paints_within(x, y, sprite, sprite.len() as int, k)
}

/// The grid after `sprite` is drawn at (`x`, `y`): every cell that the
/// sprite has a set bit on is flipped.
pub open spec fn blit(pixels: Seq<bool>, x: u8, y: u8, sprite: Seq<u8>) -> Seq<bool> {
    Seq::new(pixels.len(), |k: int| pixels[k] ^ sprite_paints(x, y, sprite, k))
}

/// Whether drawing `sprite` at (`x`, `y`) turns a lit cell dark: whether
/// the sprite has a set bit on a lit cell.
pub open spec fn blit_collides(pixels: Seq<bool>, x: u8, y: u8, sprite: Seq<u8>) -> bool {
    exists|k: int| 0 <= k < pixels.len() && pixels[k] && #[trigger] sprite_paints(x, y, sprite, k)
}

/// The grid after one sprite row is combined, by exclusive or, with the
/// eight cells from `start` on.
pub open spec fn blit_row(pixels: Seq<bool>, start: int, byte: u8) -> Seq<bool> {
    Seq::new(
        pixels.len(),
        |k: int|
            if start <= k < start + 8 {
                pixels[k] ^ bit_at(byte, k - start)
            } else {
                pixels[k]
            },
    )
}

/// Whether a sprite row has a set bit on a lit cell.
pub open spec fn row_collides(pixels: Seq<bool>, start: int, byte: u8) -> bool {
    exists|i: int| 0 <= i < 8 && #[trigger] bit_at(byte, i) && pixels[start + i]
}

/// The grid after the first `rows` rows of `sprite` are drawn at (`x`, `y`)
/// one after the other, top row first.
pub open spec fn blit_rows(pixels: Seq<bool>, x: u8, y: u8, sprite: Seq<u8>, rows: int) -> Seq<bool>
    decreases rows,
{
    if rows <= 0 {
        pixels
    } else {
        let above = blit_rows(pixels, x, y, sprite, rows - 1);
        if row_fits(x, y, rows - 1) {
            blit_row(above, row_start(x, y, rows - 1), sprite[rows - 1])
        } else {
            above
        }
    }
}

/// Whether any of the first `rows` rows of `sprite`, drawn at (`x`, `y`)
/// one after the other, collides with what the grid holds when that row is
/// drawn.
pub open spec fn blit_rows_collide(
    pixels: Seq<bool>,
    x: u8,
    y: u8,
    sprite: Seq<u8>,
    rows: int,
) -> bool
    decreases rows,
{
    if rows <= 0 {
        false
    } else {
        blit_rows_collide(pixels, x, y, sprite, rows - 1) || (row_fits(x, y, rows - 1)
            && row_collides(
            blit_rows(pixels, x, y, sprite, rows - 1),
            row_start(x, y, rows - 1),
            sprite[rows - 1],
        ))
    }
}

/// Drawing rows keeps the number of cells.
pub proof fn lemma_blit_rows_len(pixels: Seq<bool>, x: u8, y: u8, sprite: Seq<u8>, rows: int)
    ensures
        blit_rows(pixels, x, y, sprite, rows).len() == pixels.len(),
    decreases rows,
{
    if rows > 0 {
        lemma_blit_rows_len(pixels, x, y, sprite, rows - 1);
    }
}

/// Drawing the rows of a sprite one after the other flips exactly the
/// cells that those rows have a set bit on.
pub proof fn lemma_rows_flip_painted_cells(
    pixels: Seq<bool>,
    x: u8,
    y: u8,
    sprite: Seq<u8>,
    rows: int,
    k: int,
)
    requires
        pixels.len() == CELLS,
        0 <= rows <= sprite.len(),
        0 <= k < CELLS,
    ensures
        blit_rows(pixels, x, y, sprite, rows).len() == CELLS,
        blit_rows(pixels, x, y, sprite, rows)[k] == (pixels[k] ^ paints_within(
            x,
            y,
            sprite,
            rows,
            k,
        )),
    decreases rows,
{
    lemma_blit_rows_len(pixels, x, y, sprite, rows);
    if rows > 0 {
        lemma_rows_flip_painted_cells(pixels, x, y, sprite, rows - 1, k);
        lemma_blit_rows_len(pixels, x, y, sprite, rows - 1);
        let start = row_start(x, y, rows - 1);
        if row_fits(x, y, rows - 1) && start <= k < start + 8 {
            assert((k - x) == 64 * (y + rows - 1) + (k - start));
            assert((k - x) / 64 == y + rows - 1 && (k - x) % 64 == k - start);
        } else {
            if paints_within(x, y, sprite, rows, k) && !paints_within(x, y, sprite, rows - 1, k) {
                assert((k - x) == 64 * ((k - x) / 64) + (k - x) % 64);
                assert(false);
            }
        }
    }
}

/// Drawing the rows of a sprite one after the other meets a collision in
/// some row exactly when one of those rows has a set bit on a cell that
/// was lit before the first row was drawn.
pub proof fn lemma_rows_collide_on_lit_cells(
    pixels: Seq<bool>,
    x: u8,
    y: u8,
    sprite: Seq<u8>,
    rows: int,
)
    requires
        pixels.len() == CELLS,
        0 <= rows <= sprite.len(),
    ensures
        blit_rows_collide(pixels, x, y, sprite, rows) <==> exists|k: int|
            0 <= k < CELLS && pixels[k] && #[trigger] paints_within(x, y, sprite, rows, k),
    decreases rows,
{
    if rows > 0 {
        lemma_rows_collide_on_lit_cells(pixels, x, y, sprite, rows - 1);
        let above = blit_rows(pixels, x, y, sprite, rows - 1);
        let start = row_start(x, y, rows - 1);
        let byte = sprite[rows - 1];
        if blit_rows_collide(pixels, x, y, sprite, rows) {
            if blit_rows_collide(pixels, x, y, sprite, rows - 1) {
                let k = choose|k: int|
                    0 <= k < CELLS && pixels[k] && #[trigger] paints_within(
                        x,
                        y,
                        sprite,
                        rows - 1,
                        k,
                    );
                assert(paints_within(x, y, sprite, rows, k));
            } else {
                let i = choose|i: int| 0 <= i < 8 && #[trigger] bit_at(byte, i) && above[start + i];
                let k = start + i;
                lemma_rows_flip_painted_cells(pixels, x, y, sprite, rows - 1, k);
                assert((k - x) == 64 * (y + rows - 1) + i);
                assert((k - x) / 64 == y + rows - 1 && (k - x) % 64 == i);
                assert(pixels[k] && paints_within(x, y, sprite, rows, k));
            }
        }
        if exists|k: int|
            0 <= k < CELLS && pixels[k] && #[trigger] paints_within(x, y, sprite, rows, k) {
            let k = choose|k: int|
                0 <= k < CELLS && pixels[k] && #[trigger] paints_within(x, y, sprite, rows, k);
            if paints_within(x, y, sprite, rows - 1, k) {
                assert(blit_rows_collide(pixels, x, y, sprite, rows - 1));
            } else {
                let i = (k - x) % 64;
                assert((k - x) == 64 * ((k - x) / 64) + (k - x) % 64);
                assert(k == start + i);
                lemma_rows_flip_painted_cells(pixels, x, y, sprite, rows - 1, k);
                assert(0 <= i < 8 && bit_at(byte, i) && above[start + i]);
                assert(row_collides(above, start, byte));
            }
        }
    }
}

/// On a grid of 2048 cells, the effect of a blit is that of drawing the
/// rows of the sprite one after the other, each combined by exclusive or
/// with the eight cells under it and compared with them for a collision.
pub proof fn lemma_blit_row_by_row(pixels: Seq<bool>, x: u8, y: u8, sprite: Seq<u8>)
    requires
        pixels.len() == CELLS,
    ensures
        blit(pixels, x, y, sprite) == blit_rows(pixels, x, y, sprite, sprite.len() as int),
        blit_collides(pixels, x, y, sprite) == blit_rows_collide(
            pixels,
            x,
            y,
            sprite,
            sprite.len() as int,
        ),
{
    let rows = sprite.len() as int;
    assert forall|k: int| 0 <= k < CELLS implies blit(pixels, x, y, sprite)[k] == blit_rows(
        pixels,
        x,
        y,
        sprite,
        rows,
    )[k] by {
        lemma_rows_flip_painted_cells(pixels, x, y, sprite, rows, k);
    }
    lemma_blit_rows_len(pixels, x, y, sprite, rows);
    assert(blit(pixels, x, y, sprite) =~= blit_rows(pixels, x, y, sprite, rows));
    lemma_rows_collide_on_lit_cells(pixels, x, y, sprite, rows);
    if blit_rows_collide(pixels, x, y, sprite, rows) {
        let k = choose|k: int|
            0 <= k < CELLS && pixels[k] && #[trigger] paints_within(x, y, sprite, rows, k);
        assert(sprite_paints(x, y, sprite, k));
    }
    if blit_collides(pixels, x, y, sprite) {
        let k = choose|k: int|
            0 <= k < pixels.len() && pixels[k] && #[trigger] sprite_paints(x, y, sprite, k);
        assert(paints_within(x, y, sprite, rows, k));
    }
}

/// The colour a cell is drawn in.
pub open spec fn cell_color(lit: bool) -> Color {
    if lit {
        Color::White
    } else {
        Color::Black
    }
}

/// The rectangle that stands for cell `k` on a surface of `width` by
/// `height`: each cell is `width / 64` wide and `height / 32` high.
pub open spec fn cell_op(pixels: Seq<bool>, width: usize, height: usize, k: int) -> DrawOp {
    DrawOp::FillRect {
        x: ((k % COLS as int) * (width as int / COLS as int)) as usize,
        y: ((k / COLS as int) * (height as int / ROWS as int)) as usize,
        w: (width as int / COLS as int) as usize,
        h: (height as int / ROWS as int) as usize,
        color: cell_color(pixels[k]),
    }
}

/// The rectangles of the first `count` cells, row by row.
pub open spec fn cell_ops(pixels: Seq<bool>, width: usize, height: usize, count: int) -> Seq<
    DrawOp,
> {
    Seq::new(count as nat, |k: int| cell_op(pixels, width, height, k))
}

/// The calls that draw one frame on a surface of `width` by `height`:
/// a clear, one rectangle per cell, a present.
pub open spec fn frame_ops(pixels: Seq<bool>, width: usize, height: usize) -> Seq<DrawOp> {
    seq![DrawOp::Clear] + cell_ops(pixels, width, height, CELLS as int) + seq![DrawOp::Present]
}

/// Whether the calls in `after` are those in `before` followed by one frame
/// showing `pixels`, for a surface of some size.
pub open spec fn frame_drawn(before: Seq<DrawOp>, after: Seq<DrawOp>, pixels: Seq<bool>) -> bool {
    exists|width: usize, height: usize| after == before + #[trigger] frame_ops(pixels, width, height)
}

/// The pixel grid together with the surface it is rendered on.
///
/// The display keeps, as ghost state, the list of the calls it has made on
/// its target. The list grows in `send_clear`, `send_fill_rect` and
/// `send_present`, each of which makes the call it notes down, and nowhere
/// else.
pub struct Display<T> where T: RenderTarget {
    target: T,
    pixels: [bool; 2048],
    drawn: Ghost<Seq<DrawOp>>,
}

impl<T> View for Display<T> where T: RenderTarget {
    type V = Seq<bool>;

    /// The 2048 cells, row by row; `true` is lit.
    closed spec fn view(&self) -> Seq<bool> {
        self.pixels@
    }
}

impl<T> Display<T> where T: RenderTarget {
    /// The surface this display renders on.
    pub closed spec fn spec_target(&self) -> &T {
        &self.target
    }

    /// The calls this display has made on its target, oldest first.
    pub closed spec fn drawn(&self) -> Seq<DrawOp> {
        self.drawn@
    }

    /// The grid always has 2048 cells.
    pub proof fn lemma_cells(&self)
        ensures
            self@.len() == CELLS,
    {
    }

    /// A blank display on `target`.
    pub fn new(target: T) -> (display: Self)
        ensures
            display@ == blank(),
            *display.target() == target,
            display.drawn() == Seq::<DrawOp>::empty(),
    {
        let display = Self { target, pixels: [false; 2048], drawn: Ghost(Seq::empty()) };
        assert(display@ =~= blank());
        display
    }

    /// The surface this display renders on.
    #[verifier::when_used_as_spec(spec_target)]
    pub fn target(&self) -> (target: &T)
        ensures
            target == self.target(),
    {
        &self.target
    }

    /// Whether the cell in column `x` of row `y` is lit.
    pub fn pixel(&self, x: usize, y: usize) -> (lit: bool)
        requires
            x < COLS,
            y < ROWS,
        ensures
            lit == self@[y * COLS + x],
    {
        self.pixels[y * COLS + x]
    }

    /// Blits a sprite to location (`x`, `y`) and tells whether any lit cell
    /// was turned dark. Rows that do not fit into the grid are left out.
    pub fn blit_sprite(&mut self, x: u8, y: u8, sprite: &[u8]) -> (collision: bool)
        ensures
            final(self)@ == blit(old(self)@, x, y, sprite@),
            collision == blit_collides(old(self)@, x, y, sprite@),
            final(self).target() == old(self).target(),
            final(self).drawn() == old(self).drawn(),
    {
        let mut collision: bool = false;
        let mut idx: usize = 0;
        while idx < sprite.len()
            invariant
                idx <= sprite@.len(),
                self@ == blit_rows(old(self)@, x, y, sprite@, idx as int),
                collision == blit_rows_collide(old(self)@, x, y, sprite@, idx as int),
                self.target() == old(self).target(),
                self.drawn() == old(self).drawn(),
            decreases sprite@.len() - idx,
        {
            let row: u8 = sprite[idx];
            if idx < ROWS {
                let start: usize = x as usize + COLS * (y as usize + idx);
                if start + 8 <= CELLS {
                    let collide: bool = self.blit_byte(start, row);
                    collision = collision || collide;
                }
            }
            idx = idx + 1;
        }
        proof {
            lemma_blit_row_by_row(old(self)@, x, y, sprite@);
        }
        collision
    }

    /// Combines one sprite row with the eight cells from `start` on.
    fn blit_byte(&mut self, start: usize, row: u8) -> (collide: bool)
        requires
            start + 8 <= CELLS,
        ensures
            final(self)@ == blit_row(old(self)@, start as int, row),
            collide == row_collides(old(self)@, start as int, row),
            final(self).target() == old(self).target(),
            final(self).drawn() == old(self).drawn(),
    {
        let existing: u8 = pixels_to_byte(slice_subrange(self.pixels.as_slice(), start, start + 8));
        let merged: [bool; 8] = byte_to_pixels(row ^ existing);
        proof {
            let under = old(self)@.subrange(start as int, start + 8);
            lemma_pack_keeps_pixels(under);
            assert(byte_bits(existing) == under);
            assert forall|i: int| 0 <= i < 8 implies #[trigger] merged@[i] == (old(self)@[start + i]
                ^ bit_at(row, i)) by {
                lemma_xor_bits(row, existing, i);
                assert(byte_bits(existing)[i] == under[i]);
            }
            lemma_and_nonzero(row, existing);
            assert((row & existing != 0) == row_collides(old(self)@, start as int, row)) by {
                if row & existing != 0 {
                    let i = choose|i: int| 0 <= i < 8 && #[trigger] bit_at(row, i) && bit_at(existing, i);
                    assert(byte_bits(existing)[i] == under[i]);
                }
                if row_collides(old(self)@, start as int, row) {
                    let i = choose|i: int|
                        0 <= i < 8 && #[trigger] bit_at(row, i) && old(self)@[start + i];
                    assert(byte_bits(existing)[i] == under[i]);
                    assert(bit_at(row, i) && bit_at(existing, i));
                }
            }
        }
        let mut k: usize = 0;
        while k < 8
            invariant
                k <= 8,
                start + 8 <= CELLS,
                self.target() == old(self).target(),
                self.drawn() == old(self).drawn(),
                self@.len() == CELLS,
                forall|j: int| 0 <= j < CELLS && !(start <= j < start + k) ==> self@[j] == old(self)@[j],
                forall|j: int| start <= j < start + k ==> self@[j] == merged@[j - start],
            decreases 8 - k,
        {
            self.pixels[start + k] = merged[k];
            k = k + 1;
        }
        assert(self@ =~= blit_row(old(self)@, start as int, row));
        (row & existing) != 0
    }

    /// Reset display to blank state.
    pub fn clear(&mut self)
        ensures
            final(self)@ == blank(),
            final(self).target() == old(self).target(),
            final(self).drawn() == old(self).drawn(),
    {
        self.pixels = [false; 2048];
        assert(self@ =~= blank());
    }

    /// Calls `clear` on the target.
    fn send_clear(&mut self)
        ensures
            final(self)@ == old(self)@,
            final(self).drawn() == old(self).drawn().push(DrawOp::Clear),
    {
        self.target.clear();
        self.drawn = Ghost(self.drawn@.push(DrawOp::Clear));
    }

    /// Calls `fill_rect` on the target.
    fn send_fill_rect(&mut self, x: usize, y: usize, w: usize, h: usize, color: Color)
        ensures
            final(self)@ == old(self)@,
            final(self).drawn() == old(self).drawn().push((DrawOp::FillRect { x, y, w, h, color })),
    {
        self.target.fill_rect(x, y, w, h, color);
        self.drawn = Ghost(self.drawn@.push(DrawOp::FillRect { x, y, w, h, color }));
    }

    /// Calls `present` on the target.
    fn send_present(&mut self)
        ensures
            final(self)@ == old(self)@,
            final(self).drawn() == old(self).drawn().push(DrawOp::Present),
    {
        self.target.present();
        self.drawn = Ghost(self.drawn@.push(DrawOp::Present));
    }

    /// Render current pixel buffer to screen: a clear, one filled rectangle
    /// per cell in row-major order, a present, for the size that the target
    /// reports after the clear. The grid itself is unchanged.
    pub fn render(&mut self)
        ensures
            final(self)@ == old(self)@,
            frame_drawn(old(self).drawn(), final(self).drawn(), old(self)@),
    {
        self.send_clear();
        let (width, height): (usize, usize) = self.target.size();
        let pixel_width: usize = width / COLS;
        let pixel_height: usize = height / ROWS;
        let ghost before = old(self).drawn().push(DrawOp::Clear);
        assert(cell_ops(self@, width, height, 0) =~= Seq::<DrawOp>::empty());
        let mut y: usize = 0;
        while y < ROWS
            invariant
                y <= ROWS,
                self@ == old(self)@,
                pixel_width == width / COLS,
                pixel_height == height / ROWS,
                self.drawn() == before + cell_ops(self@, width, height, y * COLS),
            decreases ROWS - y,
        {
            let mut x: usize = 0;
            while x < COLS
                invariant
                    x <= COLS,
                    y < ROWS,
                    self@ == old(self)@,
                    pixel_width == width / COLS,
                    pixel_height == height / ROWS,
                    self.drawn() == before + cell_ops(self@, width, height, y * COLS + x),
                decreases COLS - x,
            {
                let draw_color: Color = if self.pixels[y * COLS + x] {
                    Color::White
                } else {
                    Color::Black
                };
                proof {
                    lemma_cell_within(x as int, 64, width as int);
                    lemma_cell_within(y as int, 32, height as int);
                }
                self.send_fill_rect(
                    x * pixel_width,
                    y * pixel_height,
                    pixel_width,
                    pixel_height,
                    draw_color,
                );
                proof {
                    let k = y * COLS + x;
                    assert(k % 64 == x && k / 64 == y);
                    assert(cell_ops(self@, width, height, k).push(cell_op(self@, width, height, k))
                        =~= cell_ops(self@, width, height, k + 1));
                }
                x = x + 1;
            }
            y = y + 1;
        }
        self.send_present();
        assert(self.drawn() =~= old(self).drawn() + frame_ops(old(self)@, width, height));
    }
}

/// The corner of the `i`-th of `count` equal cells lies within `extent`.
proof fn lemma_cell_within(i: int, count: int, extent: int)
    requires
        0 <= i < count,
        0 <= extent,
    ensures
        0 <= i * (extent / count) <= extent,
{
    assert(0 <= i * (extent / count) <= extent) by (nonlinear_arith)
        requires
            0 <= i < count,
            0 <= extent,
    {
        let q = extent / count;
        assert(q * count <= extent);
        assert(i * q <= count * q);
    }
}

} // verus!
