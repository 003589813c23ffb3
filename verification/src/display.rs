//! The display state: a grid of pixels and a grid of tile brightness values,
//! both held in the grids of the `servicepoint2` crate.

use crate::protocol::{PIXEL_HEIGHT, PIXEL_WIDTH, TILE_HEIGHT, TILE_WIDTH};
use servicepoint2::{ByteGrid, Grid, PixelGrid};
use vstd::prelude::*;

verus! {

/// `servicepoint2::PixelGrid`, a grid of bits. Nothing of its inside is
/// known here but what the wrappers below state.
#[verifier::external_type_specification]
#[verifier::external_body]
pub struct ExPixelGrid(servicepoint2::PixelGrid);

/// `servicepoint2::ByteGrid`, a grid of bytes. Nothing of its inside is
/// known here but what the wrappers below state.
#[verifier::external_type_specification]
#[verifier::external_body]
pub struct ExByteGrid(servicepoint2::ByteGrid);

/// The cells of a pixel grid, row by row from the top, each row from the
/// left: the cell that `get(x, y)` reads is `pixel_rows(grid)[y][x]`.
pub uninterp spec fn pixel_rows(grid: PixelGrid) -> Seq<Seq<bool>>;

/// The cells of a byte grid, row by row from the top, each row from the
/// left: the cell that `get(x, y)` reads is `byte_rows(grid)[y][x]`.
pub uninterp spec fn byte_rows(grid: ByteGrid) -> Seq<Seq<u8>>;

/// A grid of `height` rows of `width` cells that all hold `value`.
pub open spec fn uniform<T>(width: nat, height: nat, value: T) -> Seq<Seq<T>> {
    Seq::new(height, |y: int| Seq::new(width, |x: int| value))
}

/// Whether every one of the `height` rows of a grid has `width` cells.
pub open spec fn has_size<T>(rows: Seq<Seq<T>>, width: nat, height: nat) -> bool {
    &&& rows.len() == height
    &&& forall|y: int| 0 <= y < height ==> (#[trigger] rows[y]).len() == width
}

/// The grid with the cell in column `x` of row `y` replaced.
pub open spec fn with_cell<T>(rows: Seq<Seq<T>>, x: int, y: int, value: T) -> Seq<Seq<T>> {
    rows.update(y, rows[y].update(x, value))
}

/// Calls `PixelGrid::new` (of the crate's trait `Grid`). The crate makes a
/// grid of the given size with every pixel off; it panics where the width
/// is no multiple of eight, which `requires` leaves out together with a
/// number of cells that no `usize` holds.
#[verifier::external_body]
fn pixel_grid_new(width: usize, height: usize) -> (grid: PixelGrid)
    requires
        width % 8 == 0,
        width * height <= usize::MAX,
    ensures
        pixel_rows(grid) == uniform(width as nat, height as nat, false),
{
    PixelGrid::new(width, height)
}

/// Calls `PixelGrid::get`, which reads one pixel. The crate panics on a
/// cell outside the grid, which `requires` leaves out.
#[verifier::external_body]
fn pixel_grid_get(grid: &PixelGrid, x: usize, y: usize) -> (value: bool)
    requires
        y < pixel_rows(*grid).len(),
        x < pixel_rows(*grid)[y as int].len(),
    ensures
        value == pixel_rows(*grid)[y as int][x as int],
{
    grid.get(x, y)
}

/// Calls `PixelGrid::set`, which writes one pixel, leaves every other as
/// it is and returns what the pixel held before. The crate panics on a cell
/// outside the grid, which `requires` leaves out.
#[verifier::external_body]
fn pixel_grid_set(grid: &mut PixelGrid, x: usize, y: usize, value: bool) -> (previous: bool)
    requires
        y < pixel_rows(*old(grid)).len(),
        x < pixel_rows(*old(grid))[y as int].len(),
    ensures
        pixel_rows(*final(grid)) == with_cell(pixel_rows(*old(grid)), x as int, y as int, value),
        previous == pixel_rows(*old(grid))[y as int][x as int],
{
    grid.set(x, y, value)
}

/// Calls `PixelGrid::fill`, which sets every pixel to the value given and
/// keeps the size of the grid.
#[verifier::external_body]
fn pixel_grid_fill(grid: &mut PixelGrid, value: bool)
    ensures
        pixel_rows(*final(grid)).len() == pixel_rows(*old(grid)).len(),
        forall|y: int|
            0 <= y < pixel_rows(*old(grid)).len() ==> #[trigger] pixel_rows(*final(grid))[y]
                == Seq::new(pixel_rows(*old(grid))[y].len(), |x: int| value),
{
    grid.fill(value)
}

/// Calls `ByteGrid::new` (of the crate's trait `Grid`). The crate makes a
/// grid of the given size with every cell zero; `requires` leaves out a
/// number of cells that no `usize` holds.
#[verifier::external_body]
fn byte_grid_new(width: usize, height: usize) -> (grid: ByteGrid)
    requires
        width * height <= usize::MAX,
    ensures
        byte_rows(grid) == uniform(width as nat, height as nat, 0u8),
{
    ByteGrid::new(width, height)
}

/// Calls `ByteGrid::get`, which reads one cell. The crate panics on a cell
/// outside the grid, which `requires` leaves out.
#[verifier::external_body]
fn byte_grid_get(grid: &ByteGrid, x: usize, y: usize) -> (value: u8)
    requires
        y < byte_rows(*grid).len(),
        x < byte_rows(*grid)[y as int].len(),
    ensures
        value == byte_rows(*grid)[y as int][x as int],
{
    grid.get(x, y)
}

/// Calls `ByteGrid::set`, which writes one cell, leaves every other as it
/// is and returns what the cell held before. The crate panics on a cell
/// outside the grid, which `requires` leaves out.
#[verifier::external_body]
fn byte_grid_set(grid: &mut ByteGrid, x: usize, y: usize, value: u8) -> (previous: u8)
    requires
        y < byte_rows(*old(grid)).len(),
        x < byte_rows(*old(grid))[y as int].len(),
    ensures
        byte_rows(*final(grid)) == with_cell(byte_rows(*old(grid)), x as int, y as int, value),
        previous == byte_rows(*old(grid))[y as int][x as int],
{
    grid.set(x, y, value)
}

/// Calls `ByteGrid::fill`, which sets every cell to the value given and
/// keeps the size of the grid.
#[verifier::external_body]
fn byte_grid_fill(grid: &mut ByteGrid, value: u8)
    ensures
        byte_rows(*final(grid)).len() == byte_rows(*old(grid)).len(),
        forall|y: int|
            0 <= y < byte_rows(*old(grid)).len() ==> #[trigger] byte_rows(*final(grid))[y]
                == Seq::new(byte_rows(*old(grid))[y].len(), |x: int| value),
{
    grid.fill(value)
}

/// What the display shows: the pixels, row by row, and the brightness of
/// the tiles, row by row.
pub struct DisplayView {
    pub pixels: Seq<Seq<bool>>,
    pub luma: Seq<Seq<u8>>,
}

impl DisplayView {
    /// Whether the two grids have the fixed size of the display.
    pub open spec fn wf(self) -> bool {
        &&& has_size(self.pixels, PIXEL_WIDTH as nat, PIXEL_HEIGHT as nat)
        &&& has_size(self.luma, TILE_WIDTH as nat, TILE_HEIGHT as nat)
    }

    /// The display as it is at start: every pixel off, every tile at full
    /// brightness.
    pub open spec fn initial() -> DisplayView {
        DisplayView {
            pixels: uniform(PIXEL_WIDTH as nat, PIXEL_HEIGHT as nat, false),
            luma: uniform(TILE_WIDTH as nat, TILE_HEIGHT as nat, 0xffu8),
        }
    }
}

/// The state of the display, changed by the commands that are applied and
/// read by whoever presents it.
pub struct SharedDisplayState {
    pixels: PixelGrid,
    luma: ByteGrid,
}

impl View for SharedDisplayState {
    type V = DisplayView;

    closed spec fn view(&self) -> DisplayView {
        DisplayView { pixels: pixel_rows(self.pixels), luma: byte_rows(self.luma) }
    }
}

impl SharedDisplayState {
    /// Whether the state has the fixed size of the display. Every state
    /// that this library hands out has.
    pub open spec fn wf(&self) -> bool {
        self@.wf()
    }

    /// Makes the state of a display at start.
    pub fn new() -> (state: SharedDisplayState)
        ensures
            state.wf(),
            state@ == DisplayView::initial(),
    {
        let pixels = pixel_grid_new(PIXEL_WIDTH as usize, PIXEL_HEIGHT as usize);
        let mut luma = byte_grid_new(TILE_WIDTH as usize, TILE_HEIGHT as usize);
        byte_grid_fill(&mut luma, u8::MAX);
        let state = SharedDisplayState { pixels, luma };
        proof {
            assert(state@.luma =~~= DisplayView::initial().luma);
            assert(state@.pixels =~~= DisplayView::initial().pixels);
        }
        state
    }

    /// Reads the pixel in column `x` of row `y`.
    pub fn pixel(&self, x: usize, y: usize) -> (value: bool)
        requires
            self.wf(),
            x < PIXEL_WIDTH,
            y < PIXEL_HEIGHT,
        ensures
            value == self@.pixels[y as int][x as int],
    {
        pixel_grid_get(&self.pixels, x, y)
    }

    /// Reads the brightness of the tile in column `x` of row `y`.
    pub fn brightness(&self, x: usize, y: usize) -> (value: u8)
        requires
            self.wf(),
            x < TILE_WIDTH,
            y < TILE_HEIGHT,
        ensures
            value == self@.luma[y as int][x as int],
    {
        byte_grid_get(&self.luma, x, y)
    }

    /// Writes the pixel in column `x` of row `y` and leaves the rest.
    pub fn set_pixel(&mut self, x: usize, y: usize, value: bool)
        requires
            old(self).wf(),
            x < PIXEL_WIDTH,
            y < PIXEL_HEIGHT,
        ensures
            final(self).wf(),
            final(self)@.pixels == with_cell(old(self)@.pixels, x as int, y as int, value),
            final(self)@.luma == old(self)@.luma,
    {
        pixel_grid_set(&mut self.pixels, x, y, value);
    }

    /// Switches every pixel off and leaves the brightness of the tiles.
    pub fn clear_pixels(&mut self)
        requires
            old(self).wf(),
        ensures
            final(self).wf(),
            final(self)@.pixels == uniform(PIXEL_WIDTH as nat, PIXEL_HEIGHT as nat, false),
            final(self)@.luma == old(self)@.luma,
    {
        pixel_grid_fill(&mut self.pixels, false);
        assert(self@.pixels =~~= uniform(PIXEL_WIDTH as nat, PIXEL_HEIGHT as nat, false));
    }

    /// Writes the brightness of the tile in column `x` of row `y` and
    /// leaves the rest.
    pub fn set_brightness(&mut self, x: usize, y: usize, value: u8)
        requires
            old(self).wf(),
            x < TILE_WIDTH,
            y < TILE_HEIGHT,
        ensures
            final(self).wf(),
            final(self)@.luma == with_cell(old(self)@.luma, x as int, y as int, value),
            final(self)@.pixels == old(self)@.pixels,
    {
        byte_grid_set(&mut self.luma, x, y, value);
    }

    /// Gives every tile the same brightness and leaves the pixels.
    pub fn fill_brightness(&mut self, value: u8)
        requires
            old(self).wf(),
        ensures
            final(self).wf(),
            final(self)@.luma == uniform(TILE_WIDTH as nat, TILE_HEIGHT as nat, value),
            final(self)@.pixels == old(self)@.pixels,
    {
        byte_grid_fill(&mut self.luma, value);
        assert(self@.luma =~~= uniform(TILE_WIDTH as nat, TILE_HEIGHT as nat, value));
    }
}

} // verus!
