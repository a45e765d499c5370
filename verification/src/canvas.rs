//! A fixed-size grid of colours, and its projection into a framebuffer.

use crate::binary64::ZERO;
use crate::channel::{is_above_one, is_below_zero, lemma_level_saturates};
use crate::color::{blue_of, green_of, lemma_packed_channels_saturate, red_of, Color};
use vstd::arithmetic::div_mod::lemma_fundamental_div_mod_converse;
use vstd::prelude::*;

verus! {

/// Why a pixel could not be read or written.
#[derive(Clone, Copy, Debug, PartialEq, Eq, Structural)]
pub enum CanvasError {
    /// The coordinates lie outside the grid.
    OutOfBounds,
}

/// A grid of colours, `width` wide and `height` high, stored row by row.
/// Every cell always holds a colour.
pub struct Canvas {
    pixels: Vec<Vec<Color>>,
}

/// A row of black cells.
pub open spec fn blank_row(width: nat) -> Seq<Color> {
    Seq::new(width, |x: int| Color::spec_black())
}

/// The rows of a grid in which every cell is black.
pub open spec fn blank_rows(width: nat, height: nat) -> Seq<Seq<Color>> {
    Seq::new(height, |y: int| blank_row(width))
}

/// The rows of a grid after the cell in column `x` of row `y` has been
/// replaced by `color`.
pub open spec fn rows_with_pixel(rows: Seq<Seq<Color>>, x: int, y: int, color: Color) -> Seq<
    Seq<Color>,
> {
    rows.update(y, rows[y].update(x, color))
}

impl View for Canvas {
    type V = Seq<Seq<Color>>;

    /// The rows of the grid, top row first, each from left to right.
    closed spec fn view(&self) -> Seq<Seq<Color>> {
        Seq::new(self.pixels@.len(), |y: int| self.pixels@[y]@)
    }
}

impl Canvas {
    /// The number of rows.
    pub open spec fn spec_height(&self) -> nat {
        self@.len()
    }

    /// The length of the rows; 0 where there is no row.
    pub open spec fn spec_width(&self) -> nat {
        if self@.len() == 0 {
            0
        } else {
            self@[0].len()
        }
    }

    /// All rows have the same length.
    pub open spec fn wf(&self) -> bool {
        forall|y: int| 0 <= y < self@.len() ==> (#[trigger] self@[y]).len() == self.spec_width()
    }

    /// The column and the row lie inside the grid.
    pub open spec fn in_bounds(&self, x: int, y: int) -> bool {
        0 <= x < self.spec_width() && 0 <= y < self.spec_height()
    }

    /// The framebuffer of the grid: one packed pixel per cell, row 0 first,
    /// each row from left to right.
    pub open spec fn spec_framebuffer(&self) -> Seq<u32> {
        Seq::new(self.spec_width() * self.spec_height(), |i: int| self.packed_cell(i))
    }

    /// The packed pixel of the cell that stands at index `i` when the rows
    /// are laid end to end.
    pub open spec fn packed_cell(&self, i: int) -> u32 {
        self@[i / (self.spec_width() as int)][i % (self.spec_width() as int)].argb()
    }

    /// A grid of `height` rows of `width` cells, all black.
    pub fn new(width: usize, height: usize) -> (canvas: Canvas)
        ensures
            canvas@ == blank_rows(width as nat, height as nat),
            canvas.wf(),
            canvas.spec_height() == height,
            canvas.spec_width() == if height == 0 { 0 } else { width },
    {
        let mut pixels: Vec<Vec<Color>> = Vec::new();
        let mut y: usize = 0;
        while y < height
            invariant
                y <= height,
                pixels@.len() == y,
                forall|j: int| 0 <= j < y ==> (#[trigger] pixels@[j])@ == blank_row(width as nat),
            decreases height - y,
        {
            let mut row: Vec<Color> = Vec::new();
            let mut x: usize = 0;
            while x < width
                invariant
                    x <= width,
                    row@.len() == x,
                    forall|i: int| 0 <= i < x ==> #[trigger] row@[i] == Color::spec_black(),
                decreases width - x,
            {
                row.push(Color::black());
                x += 1;
            }
            assert(row@ =~= blank_row(width as nat));
            pixels.push(row);
            y += 1;
        }
        let canvas = Canvas { pixels };
        assert(canvas@ =~~= blank_rows(width as nat, height as nat));
        canvas
    }

    /// The width of the grid; 0 for a grid without rows.
    pub fn width(&self) -> (width: usize)
        ensures
            width == self.spec_width(),
    {
        if self.pixels.len() == 0 {
            0
        } else {
            assert(self@[0] == self.pixels@[0]@);
            self.pixels[0].len()
        }
    }

    /// The height of the grid.
    pub fn height(&self) -> (height: usize)
        ensures
            height == self.spec_height(),
    {
        self.pixels.len()
    }

    /// Replaces the colour of the cell in column `x` of row `y`. Outside the
    /// grid nothing is written and the error says so.
    pub fn write_pixel(&mut self, x: usize, y: usize, new_color: Color) -> (done: Result<
        (),
        CanvasError,
    >)
        requires
            old(self).wf(),
        ensures
            old(self).in_bounds(x as int, y as int) ==> done == Ok::<(), CanvasError>(())
                && final(self)@ == rows_with_pixel(old(self)@, x as int, y as int, new_color),
            !old(self).in_bounds(x as int, y as int) ==> done == Err::<(), CanvasError>(
                CanvasError::OutOfBounds,
            ) && final(self)@ == old(self)@,
            final(self).wf(),
            final(self).spec_width() == old(self).spec_width(),
            final(self).spec_height() == old(self).spec_height(),
    {
        if y >= self.height() || x >= self.width() {
            return Err(CanvasError::OutOfBounds);
        }
        assert(self@[y as int] == self.pixels@[y as int]@);
        self.pixels[y][x] = new_color;
        assert(self@ =~~= rows_with_pixel(old(self)@, x as int, y as int, new_color));
        Ok(())
    }

    /// The colour of the cell in column `x` of row `y`, or the error where
    /// the coordinates lie outside the grid.
    pub fn pixel_at(&self, x: usize, y: usize) -> (found: Result<Color, CanvasError>)
        requires
            self.wf(),
        ensures
            self.in_bounds(x as int, y as int) ==> found == Ok::<Color, CanvasError>(
                self@[y as int][x as int],
            ),
            !self.in_bounds(x as int, y as int) ==> found == Err::<Color, CanvasError>(
                CanvasError::OutOfBounds,
            ),
    {
        if y >= self.height() || x >= self.width() {
            return Err(CanvasError::OutOfBounds);
        }
        assert(self@[y as int] == self.pixels@[y as int]@);
        Ok(self.pixels[y][x])
    }

    /// Packs the grid for display: one pixel per cell, row 0 first, each row
    /// from left to right.
    pub fn to_framebuffer(&self) -> (buffer: Vec<u32>)
        requires
            self.wf(),
        ensures
            buffer@ == self.spec_framebuffer(),
            buffer@.len() == self.spec_width() * self.spec_height(),
    {
        let width: usize = self.width();
        let height: usize = self.height();
        let mut buffer: Vec<u32> = Vec::new();
        let mut y: usize = 0;
        while y < height
            invariant
                self.wf(),
                width == self.spec_width(),
                height == self.spec_height(),
                y <= height,
                buffer@.len() == y * width,
                forall|i: int| 0 <= i < buffer@.len() ==> #[trigger] buffer@[i] == self.packed_cell(i),
            decreases height - y,
        {
            let mut x: usize = 0;
            while x < width
                invariant
                    self.wf(),
                    width == self.spec_width(),
                    height == self.spec_height(),
                    y < height,
                    x <= width,
                    buffer@.len() == y * width + x,
                    forall|i: int|
                        0 <= i < buffer@.len() ==> #[trigger] buffer@[i] == self.packed_cell(i),
                decreases width - x,
            {
                proof {
                    lemma_cell_index(width as int, height as int, x as int, y as int);
                }
                assert(self@[y as int] == self.pixels@[y as int]@);
                let pixel: u32 = self.pixels[y][x].to_argb_32();
                buffer.push(pixel);
                x += 1;
            }
            assert((y + 1) * width == y * width + width) by (nonlinear_arith);
            y += 1;
        }
        assert(height * width == width * height) by (nonlinear_arith);
        assert(buffer@ =~= self.spec_framebuffer());
        buffer
    }
}

/// In a grid stored row by row, the cell in column `x` of row `y` has the
/// index `y * width + x`, and that index gives back the row and the column.
pub proof fn lemma_cell_index(width: int, height: int, x: int, y: int)
    requires
        0 <= x < width,
        0 <= y < height,
    ensures
        0 <= y * width + x < width * height,
        (y * width + x) / width == y,
        (y * width + x) % width == x,
{
    lemma_fundamental_div_mod_converse(y * width + x, width, y, x);
    assert(0 <= y * width && y * width + width <= height * width) by (nonlinear_arith)
        requires
            0 <= y < height,
            0 < width,
    ;
    assert(height * width == width * height) by (nonlinear_arith);
}

/// A pixel that was written is the pixel that is read: after a write inside
/// the grid the cell holds the new colour, every other cell holds what it
/// held, and the grid keeps its size.
pub proof fn lemma_write_then_read(before: Canvas, after: Canvas, x: int, y: int, color: Color)
    requires
        before.wf(),
        before.in_bounds(x, y),
        after@ == rows_with_pixel(before@, x, y, color),
    ensures
        after.wf(),
        after.spec_width() == before.spec_width(),
        after.spec_height() == before.spec_height(),
        after@[y][x] == color,
        forall|i: int, j: int|
            before.in_bounds(i, j) && (i != x || j != y) ==> after@[j][i] == before@[j][i],
{
    assert(before@[y].len() == before.spec_width());
    assert forall|j: int| 0 <= j < after@.len() implies (#[trigger] after@[j]).len()
        == after.spec_width() by {
        assert(before@[j].len() == before.spec_width());
        assert(before@[0].len() == before.spec_width());
    }
    assert forall|i: int, j: int| before.in_bounds(i, j) && (i != x || j != y) implies after@[j][i]
        == before@[j][i] by {
        assert(before@[j].len() == before.spec_width());
    }
}

/// In the framebuffer, the cell in column `x` of row `y` stands at index
/// `y * width + x`, as the packed form of its colour.
pub proof fn lemma_framebuffer_cell(canvas: Canvas, x: int, y: int)
    requires
        canvas.wf(),
        canvas.in_bounds(x, y),
    ensures
        0 <= y * canvas.spec_width() + x < canvas.spec_framebuffer().len(),
        canvas.spec_framebuffer()[y * canvas.spec_width() + x] == canvas@[y][x].argb(),
{
    lemma_cell_index(canvas.spec_width() as int, canvas.spec_height() as int, x, y);
}

/// A written channel saturates in the framebuffer: after a write inside the
/// grid, the pixel at the cell's index holds 255 for each channel of the
/// colour above 1.0 and 0 for each channel below 0.0.
pub proof fn lemma_written_pixel_saturates(
    before: Canvas,
    after: Canvas,
    x: int,
    y: int,
    color: Color,
)
    requires
        before.wf(),
        before.in_bounds(x, y),
        after@ == rows_with_pixel(before@, x, y, color),
    ensures
        0 <= y * after.spec_width() + x < after.spec_framebuffer().len(),
        after.spec_framebuffer()[y * after.spec_width() + x] == color.argb(),
        is_above_one(color.red) ==> red_of(after.spec_framebuffer()[y * after.spec_width() + x])
            == 255,
        is_above_one(color.green) ==> green_of(
            after.spec_framebuffer()[y * after.spec_width() + x],
        ) == 255,
        is_above_one(color.blue) ==> blue_of(after.spec_framebuffer()[y * after.spec_width() + x])
            == 255,
        is_below_zero(color.red) ==> red_of(after.spec_framebuffer()[y * after.spec_width() + x])
            == 0,
        is_below_zero(color.green) ==> green_of(
            after.spec_framebuffer()[y * after.spec_width() + x],
        ) == 0,
        is_below_zero(color.blue) ==> blue_of(after.spec_framebuffer()[y * after.spec_width() + x])
            == 0,
{
    lemma_write_then_read(before, after, x, y, color);
    lemma_framebuffer_cell(after, x, y);
    lemma_packed_channels_saturate(color);
}

/// A new canvas is black all over: every cell is black, and its framebuffer
/// holds one opaque black pixel for each of its `width * height` cells.
pub proof fn lemma_new_canvas_is_black(canvas: Canvas, width: nat, height: nat)
    requires
        canvas@ == blank_rows(width, height),
    ensures
        canvas.wf(),
        forall|x: int, y: int|
            0 <= x < width && 0 <= y < height ==> canvas@[y][x] == Color::spec_black(),
        canvas.spec_framebuffer().len() == width * height,
        forall|i: int|
            0 <= i < width * height ==> #[trigger] canvas.spec_framebuffer()[i] == 0xFF00_0000u32,
{
    lemma_level_saturates(ZERO);
    assert(Color::spec_black().argb() == 0xFF00_0000u32);
    if height > 0 {
        assert(canvas@[0].len() == width);
    }
    assert(canvas.spec_width() * canvas.spec_height() == width * height) by (nonlinear_arith)
        requires
            canvas.spec_height() == height,
            canvas.spec_width() == if height == 0 { 0 } else { width },
    ;
    assert forall|i: int| 0 <= i < width * height implies #[trigger] canvas.spec_framebuffer()[i]
        == 0xFF00_0000u32 by {
        let w = canvas.spec_width() as int;
        assert(height > 0 && w == width && w > 0) by (nonlinear_arith)
            requires
                0 <= i < width * height,
                w == if height == 0 { 0 } else { width as int },
        ;
        assert(0 <= i / w < height && 0 <= i % w < w) by (nonlinear_arith)
            requires
                0 <= i < w * height,
                w > 0,
        ;
    }
}

} // verus!
