//! Applying a decoded command to the display state.

use crate::display::{has_size, uniform, DisplayView, SharedDisplayState};
use crate::protocol::{
    DisplayCommand, DisplaySubcommand, HdrWindow, PIXEL_HEIGHT, PIXEL_WIDTH, TILE_HEIGHT,
    TILE_SIZE, TILE_WIDTH,
};
use vstd::prelude::*;

verus! {

/// How a bit of the payload is combined with the pixel that is there.
#[derive(Debug, Clone, Copy, PartialEq, Eq, Structural)]
pub enum BitOp {
    Overwrite,
    And,
    Or,
    Xor,
}

impl BitOp {
    /// The pixel that results from the pixel that is there and the bit that
    /// comes in.
    pub open spec fn combined(self, current: bool, incoming: bool) -> bool {
        match self {
            BitOp::Overwrite => incoming,
            BitOp::And => current && incoming,
            BitOp::Or => current || incoming,
            BitOp::Xor => current != incoming,
        }
    }

    /// Combines the pixel that is there with the bit that comes in.
    pub fn combine(&self, current: bool, incoming: bool) -> (result: bool)
        ensures
            result == self.combined(current, incoming),
    {
        match self {
            BitOp::Overwrite => incoming,
            BitOp::And => current && incoming,
            BitOp::Or => current || incoming,
            BitOp::Xor => current != incoming,
        }
    }
}

/// Bit `index` of a byte, counted from the most significant bit.
pub open spec fn bit_of(byte: u8, index: int) -> bool {
    (byte >> ((7 - index) as u8)) & 1 == 1
}

/// Bit `k` of a payload: the bits of its bytes in order, each byte from its
/// most significant bit.
pub open spec fn payload_bit(payload: Seq<u8>, k: int) -> bool {
    bit_of(payload[k / 8], k % 8)
}

/// Reads bit `index` of a byte, counted from the most significant bit.
pub fn bit_at(byte: u8, index: usize) -> (bit: bool)
    requires
        index < 8,
    ensures
        bit == bit_of(byte, index as int),
{
    let shift: u8 = (7 - index) as u8;
    (byte >> shift) & 1 == 1
}

/// A rectangle of cells of a grid: its left column, its top row, its width
/// and its height.
#[derive(Debug, Clone, Copy, PartialEq, Eq, Structural)]
pub struct Window {
    pub x: usize,
    pub y: usize,
    pub w: usize,
    pub h: usize,
}

impl Window {
    /// Whether the cell in column `c` of row `r` lies in the window.
    pub open spec fn contains(self, c: int, r: int) -> bool {
        self.x <= c < self.x + self.w && self.y <= r < self.y + self.h
    }

    /// The place of a cell among the cells of the window, counted row by
    /// row from the top left.
    pub open spec fn index_of(self, c: int, r: int) -> int {
        (r - self.y) * self.w + (c - self.x)
    }

    /// Whether the cell lies in the window and before the cell in column
    /// `i` of row `j` of the window, row by row.
    pub open spec fn contains_before(self, c: int, r: int, i: int, j: int) -> bool {
        self.contains(c, r) && (r - self.y < j || (r - self.y == j && c - self.x < i))
    }

    /// Whether the window lies within a grid of the given size.
    pub open spec fn fits(self, width: int, height: int) -> bool {
        self.x + self.w <= width && self.y + self.h <= height
    }
}

/// The pixels after the first cells of a window, up to the cell in column
/// `i` of its row `j`, took the bits of a payload.
pub open spec fn blitted_before(
    pixels: Seq<Seq<bool>>,
    window: Window,
    payload: Seq<u8>,
    op: BitOp,
    i: int,
    j: int,
) -> Seq<Seq<bool>> {
    Seq::new(
        pixels.len(),
        |r: int|
            Seq::new(
                pixels[r].len(),
                |c: int|
                    if window.contains_before(c, r, i, j) {
                        op.combined(pixels[r][c], payload_bit(payload, window.index_of(c, r)))
                    } else {
                        pixels[r][c]
                    },
            ),
    )
}

/// The pixels after a window took the bits of a payload: the cell at place
/// `k` of the window is combined with bit `k` of the payload, every cell
/// outside the window stays.
pub open spec fn blitted(
    pixels: Seq<Seq<bool>>,
    window: Window,
    payload: Seq<u8>,
    op: BitOp,
) -> Seq<Seq<bool>> {
    Seq::new(
        pixels.len(),
        |r: int|
            Seq::new(
                pixels[r].len(),
                |c: int|
                    if window.contains(c, r) {
                        op.combined(pixels[r][c], payload_bit(payload, window.index_of(c, r)))
                    } else {
                        pixels[r][c]
                    },
            ),
    )
}

/// Writes the bits of a payload into a window of the pixel grid.
pub fn blit(state: &mut SharedDisplayState, window: &Window, payload: &[u8], op: BitOp)
    requires
        old(state).wf(),
        window.fits(PIXEL_WIDTH as int, PIXEL_HEIGHT as int),
        window.w * window.h <= payload@.len() * 8,
    ensures
        final(state).wf(),
        final(state)@.pixels == blitted(old(state)@.pixels, *window, payload@, op),
        final(state)@.luma == old(state)@.luma,
{
    let ghost before = state@.pixels;
    let mut j: usize = 0;
    assert(state@.pixels =~~= blitted_before(before, *window, payload@, op, 0, 0));
    while j < window.h
        invariant
            state.wf(),
            j <= window.h,
            window.fits(PIXEL_WIDTH as int, PIXEL_HEIGHT as int),
            window.w * window.h <= payload@.len() * 8,
            has_size(before, PIXEL_WIDTH as nat, PIXEL_HEIGHT as nat),
            state@.luma == old(state)@.luma,
            state@.pixels == blitted_before(before, *window, payload@, op, 0, j as int),
        decreases window.h - j,
    {
        let mut i: usize = 0;
        while i < window.w
            invariant
                state.wf(),
                j < window.h,
                i <= window.w,
                window.fits(PIXEL_WIDTH as int, PIXEL_HEIGHT as int),
                window.w * window.h <= payload@.len() * 8,
                has_size(before, PIXEL_WIDTH as nat, PIXEL_HEIGHT as nat),
                state@.luma == old(state)@.luma,
                state@.pixels == blitted_before(before, *window, payload@, op, i as int, j as int),
            decreases window.w - i,
        {
            assert(j * window.w + i < window.w * window.h) by (nonlinear_arith)
                requires
                    j < window.h,
                    i < window.w,
            ;
            assert(j * window.w <= 160 * 448) by (nonlinear_arith)
                requires
                    j < 160,
                    window.w <= 448,
            ;
            let k: usize = j * window.w + i;
            let incoming = bit_at(payload[k / 8], k % 8);
            let current = state.pixel(window.x + i, window.y + j);
            state.set_pixel(window.x + i, window.y + j, op.combine(current, incoming));
            i = i + 1;
            assert(state@.pixels =~~= blitted_before(
                before,
                *window,
                payload@,
                op,
                i as int,
                j as int,
            ));
        }
        j = j + 1;
        assert(state@.pixels =~~= blitted_before(before, *window, payload@, op, 0, j as int));
    }
    assert(state@.pixels =~~= blitted(before, *window, payload@, op));
}

/// Number of glyphs of a font: one for each code of the code page.
pub const GLYPH_COUNT: usize = 256;

/// Number of bytes of a whole font: eight rows of eight pixels a glyph.
pub const FONT_SIZE: usize = 2048;

/// The glyphs of code page 437 as bitmaps of eight by eight pixels. The
/// eight bytes of a glyph are its rows from the top, each from its most
/// significant bit at the left.
pub struct BitmapFont {
    rows: Vec<u8>,
}

impl View for BitmapFont {
    type V = Seq<u8>;

    closed spec fn view(&self) -> Seq<u8> {
        self.rows@
    }
}

impl BitmapFont {
    /// Whether the font holds all its glyphs. Every font that this library
    /// hands out does.
    pub open spec fn wf(&self) -> bool {
        self@.len() == FONT_SIZE
    }

    /// Makes a font of the rows of its glyphs, where there are as many as a
    /// font has.
    pub fn from_rows(rows: Vec<u8>) -> (font: Option<BitmapFont>)
        ensures
            font is Some <==> rows@.len() == FONT_SIZE,
            font matches Some(f) ==> f.wf() && f@ == rows@,
    {
        if rows.len() == FONT_SIZE {
            Some(BitmapFont { rows })
        } else {
            None
        }
    }

    /// The eight rows of the glyph of a code.
    pub fn glyph(&self, code: u8) -> (rows: &[u8])
        requires
            self.wf(),
        ensures
            rows@ == self@.subrange(code as int * 8, code as int * 8 + 8),
    {
        let start: usize = code as usize * 8;
        vstd::slice::slice_subrange(self.rows.as_slice(), start, start + 8)
    }
}

/// The brightness values after the first cells of a window, up to the cell
/// in column `i` of its row `j`, took the bytes of a payload.
pub open spec fn stamped_before(
    luma: Seq<Seq<u8>>,
    window: Window,
    payload: Seq<u8>,
    i: int,
    j: int,
) -> Seq<Seq<u8>> {
    Seq::new(
        luma.len(),
        |r: int|
            Seq::new(
                luma[r].len(),
                |c: int|
                    if window.contains_before(c, r, i, j) {
                        payload[window.index_of(c, r)]
                    } else {
                        luma[r][c]
                    },
            ),
    )
}

/// The brightness values after a window took the bytes of a payload: the
/// tile at place `k` of the window gets byte `k`, every tile outside the
/// window stays.
pub open spec fn stamped(luma: Seq<Seq<u8>>, window: Window, payload: Seq<u8>) -> Seq<Seq<u8>> {
    Seq::new(
        luma.len(),
        |r: int|
            Seq::new(
                luma[r].len(),
                |c: int|
                    if window.contains(c, r) {
                        payload[window.index_of(c, r)]
                    } else {
                        luma[r][c]
                    },
            ),
    )
}

/// Writes the bytes of a payload into a window of the brightness grid.
pub fn stamp(state: &mut SharedDisplayState, window: &Window, payload: &[u8])
    requires
        old(state).wf(),
        window.fits(TILE_WIDTH as int, TILE_HEIGHT as int),
        window.w * window.h <= payload@.len(),
    ensures
        final(state).wf(),
        final(state)@.luma == stamped(old(state)@.luma, *window, payload@),
        final(state)@.pixels == old(state)@.pixels,
{
    let ghost before = state@.luma;
    let mut j: usize = 0;
    assert(state@.luma =~~= stamped_before(before, *window, payload@, 0, 0));
    while j < window.h
        invariant
            state.wf(),
            j <= window.h,
            window.fits(TILE_WIDTH as int, TILE_HEIGHT as int),
            window.w * window.h <= payload@.len(),
            has_size(before, TILE_WIDTH as nat, TILE_HEIGHT as nat),
            state@.pixels == old(state)@.pixels,
            state@.luma == stamped_before(before, *window, payload@, 0, j as int),
        decreases window.h - j,
    {
        let mut i: usize = 0;
        while i < window.w
            invariant
                state.wf(),
                j < window.h,
                i <= window.w,
                window.fits(TILE_WIDTH as int, TILE_HEIGHT as int),
                window.w * window.h <= payload@.len(),
                has_size(before, TILE_WIDTH as nat, TILE_HEIGHT as nat),
                state@.pixels == old(state)@.pixels,
                state@.luma == stamped_before(before, *window, payload@, i as int, j as int),
            decreases window.w - i,
        {
            assert(j * window.w + i < window.w * window.h) by (nonlinear_arith)
                requires
                    j < window.h,
                    i < window.w,
            ;
            assert(j * window.w <= 20 * 56) by (nonlinear_arith)
                requires
                    j < 20,
                    window.w <= 56,
            ;
            let k: usize = j * window.w + i;
            state.set_brightness(window.x + i, window.y + j, payload[k]);
            i = i + 1;
            assert(state@.luma =~~= stamped_before(before, *window, payload@, i as int, j as int));
        }
        j = j + 1;
        assert(state@.luma =~~= stamped_before(before, *window, payload@, 0, j as int));
    }
    assert(state@.luma =~~= stamped(before, *window, payload@));
}

/// The pixel in column `c` of row `r` of the glyph of a code.
pub open spec fn glyph_pixel(font: Seq<u8>, code: u8, c: int, r: int) -> bool {
    bit_of(font[code as int * 8 + r], c)
}

/// The pixels after the first tiles of a window of tiles, up to the tile in
/// column `i` of its row `j`, took the glyphs of the codes of a payload.
pub open spec fn typed_before(
    pixels: Seq<Seq<bool>>,
    window: Window,
    payload: Seq<u8>,
    font: Seq<u8>,
    i: int,
    j: int,
) -> Seq<Seq<bool>> {
    Seq::new(
        pixels.len(),
        |r: int|
            Seq::new(
                pixels[r].len(),
                |c: int|
                    if window.contains_before(c / 8, r / 8, i, j) {
                        glyph_pixel(font, payload[window.index_of(c / 8, r / 8)], c % 8, r % 8)
                    } else {
                        pixels[r][c]
                    },
            ),
    )
}

/// The pixels after a window of tiles took the glyphs of the codes of a
/// payload: the tile at place `k` of the window shows the glyph of byte
/// `k`, every pixel outside the window stays.
pub open spec fn typed(
    pixels: Seq<Seq<bool>>,
    window: Window,
    payload: Seq<u8>,
    font: Seq<u8>,
) -> Seq<Seq<bool>> {
    Seq::new(
        pixels.len(),
        |r: int|
            Seq::new(
                pixels[r].len(),
                |c: int|
                    if window.contains(c / 8, r / 8) {
                        glyph_pixel(font, payload[window.index_of(c / 8, r / 8)], c % 8, r % 8)
                    } else {
                        pixels[r][c]
                    },
            ),
    )
}

/// Draws the glyphs of the codes of a payload into a window of tiles.
pub fn type_text(
    state: &mut SharedDisplayState,
    window: &Window,
    payload: &[u8],
    font: &BitmapFont,
)
    requires
        old(state).wf(),
        font.wf(),
        window.fits(TILE_WIDTH as int, TILE_HEIGHT as int),
        window.w * window.h <= payload@.len(),
    ensures
        final(state).wf(),
        final(state)@.pixels == typed(old(state)@.pixels, *window, payload@, font@),
        final(state)@.luma == old(state)@.luma,
{
    let ghost before = state@.pixels;
    let mut j: usize = 0;
    assert(state@.pixels =~~= typed_before(before, *window, payload@, font@, 0, 0));
    while j < window.h
        invariant
            state.wf(),
            font.wf(),
            j <= window.h,
            window.fits(TILE_WIDTH as int, TILE_HEIGHT as int),
            window.w * window.h <= payload@.len(),
            has_size(before, PIXEL_WIDTH as nat, PIXEL_HEIGHT as nat),
            state@.luma == old(state)@.luma,
            state@.pixels == typed_before(before, *window, payload@, font@, 0, j as int),
        decreases window.h - j,
    {
        let mut i: usize = 0;
        while i < window.w
            invariant
                state.wf(),
                font.wf(),
                j < window.h,
                i <= window.w,
                window.fits(TILE_WIDTH as int, TILE_HEIGHT as int),
                window.w * window.h <= payload@.len(),
                has_size(before, PIXEL_WIDTH as nat, PIXEL_HEIGHT as nat),
                state@.luma == old(state)@.luma,
                state@.pixels == typed_before(before, *window, payload@, font@, i as int, j as int),
            decreases window.w - i,
        {
            assert(j * window.w + i < window.w * window.h) by (nonlinear_arith)
                requires
                    j < window.h,
                    i < window.w,
            ;
            assert(j * window.w <= 20 * 56) by (nonlinear_arith)
                requires
                    j < 20,
                    window.w <= 56,
            ;
            let k: usize = j * window.w + i;
            let code = payload[k];
            let glyph = font.glyph(code);
            let tile = Window { x: (window.x + i) * 8, y: (window.y + j) * 8, w: 8, h: 8 };
            blit(state, &tile, glyph, BitOp::Overwrite);
            i = i + 1;
            proof {
                let goal = typed_before(before, *window, payload@, font@, i as int, j as int);
                assert forall|r: int, c: int|
                    0 <= r < PIXEL_HEIGHT && 0 <= c < PIXEL_WIDTH implies #[trigger] state@.pixels[r][c]
                    == goal[r][c] by {
                    if tile.contains(c, r) {
                        assert(c / 8 == window.x + i - 1);
                        assert(r / 8 == window.y + j);
                        assert(tile.index_of(c, r) == (r % 8) * 8 + c % 8);
                        assert(glyph@[r % 8] == font@[code as int * 8 + r % 8]);
                    } else {
                        assert(!(c / 8 == window.x + i - 1 && r / 8 == window.y + j));
                    }
                }
                assert(state@.pixels =~~= goal);
            }
        }
        j = j + 1;
        assert(state@.pixels =~~= typed_before(before, *window, payload@, font@, 0, j as int));
    }
    assert(state@.pixels =~~= typed(before, *window, payload@, font@));
}

/// Why a command was not applied.
#[derive(Debug, Clone, Copy, PartialEq, Eq, Structural)]
pub enum DispatchError {
    /// The window of the command reaches beyond the grid that it addresses.
    WindowOutOfBounds,
    /// The payload has another length than the command and its window ask.
    PayloadSize,
    /// The payload was compressed and could not be unpacked.
    UndecodablePayload,
}

/// What a command writes to.
#[derive(Debug, Clone, Copy, PartialEq, Eq, Structural)]
pub enum Target {
    /// The command writes no cell by a window.
    Nothing,
    /// One brightness value for every tile.
    AllTiles,
    /// A window of the brightness grid, in tiles.
    Tiles,
    /// A window of tiles of the pixel grid, filled with glyphs.
    Text,
    /// A window of the pixel grid, combined with the bits of the payload.
    Pixels(BitOp),
}

/// The target of each command.
pub open spec fn target_of(command: DisplayCommand) -> Target {
    match command {
        DisplayCommand::CmdClear => Target::Nothing,
        DisplayCommand::CmdHardReset => Target::Nothing,
        DisplayCommand::CmdFadeOut => Target::Nothing,
        DisplayCommand::CmdBrightness => Target::AllTiles,
        DisplayCommand::CmdCharBrightness => Target::Tiles,
        DisplayCommand::CmdCp437data => Target::Text,
        DisplayCommand::CmdBitmapLegacy => Target::Pixels(BitOp::Overwrite),
        DisplayCommand::CmdBitmapLinear => Target::Pixels(BitOp::Overwrite),
        DisplayCommand::CmdBitmapLinearWin => Target::Pixels(BitOp::Overwrite),
        DisplayCommand::CmdBitmapLinearAnd => Target::Pixels(BitOp::And),
        DisplayCommand::CmdBitmapLinearOr => Target::Pixels(BitOp::Or),
        DisplayCommand::CmdBitmapLinearXor => Target::Pixels(BitOp::Xor),
    }
}

/// The window that a header addresses, in cells of the grid that the
/// command writes to. `CmdBitmapLinearWin` gives its column and its width
/// in tiles and its row and its height in pixels; the other commands on
/// pixels give all four in pixels; the commands on tiles give all four in
/// tiles.
pub open spec fn window_of(command: DisplayCommand, header: HdrWindow) -> Window {
    if command == DisplayCommand::CmdBitmapLinearWin {
        Window {
            x: (header.x as int * TILE_SIZE as int) as usize,
            y: header.y as usize,
            w: (header.w as int * TILE_SIZE as int) as usize,
            h: header.h as usize,
        }
    } else {
        Window {
            x: header.x as usize,
            y: header.y as usize,
            w: header.w as usize,
            h: header.h as usize,
        }
    }
}

/// The number of bytes that the payload of a command must have.
pub open spec fn payload_len_for(command: DisplayCommand, header: HdrWindow) -> int {
    let window = window_of(command, header);
    match target_of(command) {
        Target::Nothing => 0,
        Target::AllTiles => 1,
        Target::Tiles => window.w * window.h,
        Target::Text => window.w * window.h,
        Target::Pixels(_) => (window.w * window.h + 7) / 8,
    }
}

/// Why a command with a payload of the given length is not applied, if it
/// is not: its window must lie within the grid that it addresses, and its
/// payload must have the length that the window asks. A command without a
/// window is applied whatever its header and payload hold.
pub open spec fn rejection(command: DisplayCommand, header: HdrWindow, payload_len: int) -> Option<
    DispatchError,
> {
    let window = window_of(command, header);
    match target_of(command) {
        Target::Nothing => None,
        Target::AllTiles => if payload_len == 1 {
            None
        } else {
            Some(DispatchError::PayloadSize)
        },
        Target::Tiles | Target::Text => if !window.fits(TILE_WIDTH as int, TILE_HEIGHT as int) {
            Some(DispatchError::WindowOutOfBounds)
        } else if payload_len != payload_len_for(command, header) {
            Some(DispatchError::PayloadSize)
        } else {
            None
        },
        Target::Pixels(_) => if !window.fits(PIXEL_WIDTH as int, PIXEL_HEIGHT as int) {
            Some(DispatchError::WindowOutOfBounds)
        } else if payload_len != payload_len_for(command, header) {
            Some(DispatchError::PayloadSize)
        } else {
            None
        },
    }
}

/// The display after a command: unchanged where the command is rejected,
/// else changed as the command says.
pub open spec fn applied(
    view: DisplayView,
    command: DisplayCommand,
    header: HdrWindow,
    payload: Seq<u8>,
    font: Seq<u8>,
) -> DisplayView {
    let window = window_of(command, header);
    if rejection(command, header, payload.len() as int) is Some {
        view
    } else {
        match target_of(command) {
            Target::Nothing => if command == DisplayCommand::CmdClear {
                DisplayView {
                    pixels: uniform(PIXEL_WIDTH as nat, PIXEL_HEIGHT as nat, false),
                    luma: view.luma,
                }
            } else {
                view
            },
            Target::AllTiles => DisplayView {
                pixels: view.pixels,
                luma: uniform(TILE_WIDTH as nat, TILE_HEIGHT as nat, payload[0]),
            },
            Target::Tiles => DisplayView {
                pixels: view.pixels,
                luma: stamped(view.luma, window, payload),
            },
            Target::Text => DisplayView {
                pixels: typed(view.pixels, window, payload, font),
                luma: view.luma,
            },
            Target::Pixels(op) => DisplayView {
                pixels: blitted(view.pixels, window, payload, op),
                luma: view.luma,
            },
        }
    }
}

/// Tells what a command writes to.
pub fn target(command: DisplayCommand) -> (target: Target)
    ensures
        target == target_of(command),
{
    match command {
        DisplayCommand::CmdClear => Target::Nothing,
        DisplayCommand::CmdHardReset => Target::Nothing,
        DisplayCommand::CmdFadeOut => Target::Nothing,
        DisplayCommand::CmdBrightness => Target::AllTiles,
        DisplayCommand::CmdCharBrightness => Target::Tiles,
        DisplayCommand::CmdCp437data => Target::Text,
        DisplayCommand::CmdBitmapLegacy => Target::Pixels(BitOp::Overwrite),
        DisplayCommand::CmdBitmapLinear => Target::Pixels(BitOp::Overwrite),
        DisplayCommand::CmdBitmapLinearWin => Target::Pixels(BitOp::Overwrite),
        DisplayCommand::CmdBitmapLinearAnd => Target::Pixels(BitOp::And),
        DisplayCommand::CmdBitmapLinearOr => Target::Pixels(BitOp::Or),
        DisplayCommand::CmdBitmapLinearXor => Target::Pixels(BitOp::Xor),
    }
}

/// Gives the window that a header addresses, in cells of the grid that the
/// command writes to.
pub fn window(command: DisplayCommand, header: &HdrWindow) -> (window: Window)
    ensures
        window == window_of(command, *header),
{
    match command {
        DisplayCommand::CmdBitmapLinearWin => Window {
            x: header.x as usize * TILE_SIZE as usize,
            y: header.y as usize,
            w: header.w as usize * TILE_SIZE as usize,
            h: header.h as usize,
        },
        _ => Window {
            x: header.x as usize,
            y: header.y as usize,
            w: header.w as usize,
            h: header.h as usize,
        },
    }
}

/// Validates a command before anything is written: tells whether it will
/// be applied, and why not if it will not.
pub fn check(command: DisplayCommand, header: &HdrWindow, payload_len: usize) -> (result: Result<
    (),
    DispatchError,
>)
    ensures
        result is Ok <==> rejection(command, *header, payload_len as int) is None,
        result matches Err(e) ==> rejection(command, *header, payload_len as int) == Some(e),
{
    let win = window(command, header);
    match target(command) {
        Target::Nothing => Ok(()),
        Target::AllTiles => if payload_len == 1 {
            Ok(())
        } else {
            Err(DispatchError::PayloadSize)
        },
        Target::Tiles | Target::Text => {
            if win.x > TILE_WIDTH as usize || win.w > TILE_WIDTH as usize - win.x || win.y
                > TILE_HEIGHT as usize || win.h > TILE_HEIGHT as usize - win.y {
                return Err(DispatchError::WindowOutOfBounds);
            }
            assert(win.w * win.h <= 56 * 20) by (nonlinear_arith)
                requires
                    win.w <= 56,
                    win.h <= 20,
            ;
            if payload_len != win.w * win.h {
                Err(DispatchError::PayloadSize)
            } else {
                Ok(())
            }
        },
        Target::Pixels(_) => {
            if win.x > PIXEL_WIDTH as usize || win.w > PIXEL_WIDTH as usize - win.x || win.y
                > PIXEL_HEIGHT as usize || win.h > PIXEL_HEIGHT as usize - win.y {
                return Err(DispatchError::WindowOutOfBounds);
            }
            assert(win.w * win.h <= 448 * 160) by (nonlinear_arith)
                requires
                    win.w <= 448,
                    win.h <= 160,
            ;
            if payload_len != (win.w * win.h + 7) / 8 {
                Err(DispatchError::PayloadSize)
            } else {
                Ok(())
            }
        },
    }
}

/// Applies a command to the display.
///
/// A command that [`check`] rejects changes nothing. The result tells
/// whether the receiver goes on: it is `false` for `CmdHardReset` alone,
/// which asks for the session to end and is no failure.
pub fn apply(
    command: DisplayCommand,
    header: &HdrWindow,
    payload: &[u8],
    state: &mut SharedDisplayState,
    font: &BitmapFont,
) -> (keep_running: bool)
    requires
        old(state).wf(),
        font.wf(),
    ensures
        final(state).wf(),
        final(state)@ == applied(old(state)@, command, *header, payload@, font@),
        keep_running == (command != DisplayCommand::CmdHardReset),
{
    if check(command, header, payload.len()).is_err() {
        return command != DisplayCommand::CmdHardReset;
    }
    let win = window(command, header);
    match target(command) {
        Target::Nothing => {
            match command {
                DisplayCommand::CmdClear => {
                    state.clear_pixels();
                    true
                },
                DisplayCommand::CmdHardReset => false,
                _ => true,
            }
        },
        Target::AllTiles => {
            state.fill_brightness(payload[0]);
            true
        },
        Target::Tiles => {
            stamp(state, &win, payload);
            true
        },
        Target::Text => {
            type_text(state, &win, payload, font);
            true
        },
        Target::Pixels(op) => {
            blit(state, &win, payload, op);
            true
        },
    }
}

/// The payload that is handed to [`apply`]: the payload as it came where
/// it is not compressed, else what unpacking it gave, and an error where
/// unpacking gave nothing.
pub open spec fn unpacked(
    subcommand: DisplaySubcommand,
    payload: Seq<u8>,
    decompressed: Option<Seq<u8>>,
) -> Result<Seq<u8>, DispatchError> {
    if !subcommand.is_compressed() {
        Ok(payload)
    } else {
        match decompressed {
            Some(bytes) => Ok(bytes),
            None => Err(DispatchError::UndecodablePayload),
        }
    }
}

/// What a codec gave, as plain bytes.
pub open spec fn codec_result(decompressed: Option<Vec<u8>>) -> Option<Seq<u8>> {
    match decompressed {
        Some(bytes) => Some(bytes@),
        None => None,
    }
}

/// Picks the payload that is handed to [`apply`].
///
/// Unpacking a compressed payload is the work of a codec outside this
/// library; `decompressed` is what the codec gave, `None` where it knows
/// no such scheme or the payload is corrupt. That is an error and never
/// passed over: the compressed bytes are not written in place of the
/// bitmap.
pub fn unpack_payload(
    subcommand: DisplaySubcommand,
    payload: Vec<u8>,
    decompressed: Option<Vec<u8>>,
) -> (result: Result<Vec<u8>, DispatchError>)
    ensures
        match result {
            Ok(bytes) => unpacked(subcommand, payload@, codec_result(decompressed)) == Ok::<
                Seq<u8>,
                DispatchError,
            >(bytes@),
            Err(e) => unpacked(subcommand, payload@, codec_result(decompressed)) == Err::<
                Seq<u8>,
                DispatchError,
            >(e),
        },
{
    if !subcommand.needs_decompression() {
        Ok(payload)
    } else {
        match decompressed {
            Some(bytes) => Ok(bytes),
            None => Err(DispatchError::UndecodablePayload),
        }
    }
}

/// A command that is rejected changes nothing: no command is applied in
/// part.
pub proof fn lemma_rejected_changes_nothing(
    view: DisplayView,
    command: DisplayCommand,
    header: HdrWindow,
    payload: Seq<u8>,
    font: Seq<u8>,
)
    requires
        rejection(command, header, payload.len() as int) is Some,
    ensures
        applied(view, command, header, payload, font) == view,
{
}

/// Every command keeps the size of the two grids.
pub proof fn lemma_applied_keeps_size(
    view: DisplayView,
    command: DisplayCommand,
    header: HdrWindow,
    payload: Seq<u8>,
    font: Seq<u8>,
)
    requires
        view.wf(),
    ensures
        applied(view, command, header, payload, font).wf(),
{
}

/// `CmdClear` switches every pixel off and leaves the brightness of every
/// tile, whatever its header and payload hold.
pub proof fn lemma_clear(view: DisplayView, header: HdrWindow, payload: Seq<u8>, font: Seq<u8>)
    ensures
        applied(view, DisplayCommand::CmdClear, header, payload, font).pixels == uniform(
            PIXEL_WIDTH as nat,
            PIXEL_HEIGHT as nat,
            false,
        ),
        applied(view, DisplayCommand::CmdClear, header, payload, font).luma == view.luma,
{
}

/// A command on pixels leaves the brightness of every tile, and a command
/// on the brightness leaves every pixel.
pub proof fn lemma_grids_apart(
    view: DisplayView,
    command: DisplayCommand,
    header: HdrWindow,
    payload: Seq<u8>,
    font: Seq<u8>,
)
    ensures
        target_of(command) is Pixels || target_of(command) is Text || target_of(command)
            is Nothing ==> applied(view, command, header, payload, font).luma == view.luma,
        target_of(command) is Tiles || target_of(command) is AllTiles || (target_of(command)
            is Nothing && command != DisplayCommand::CmdClear) ==> applied(
            view,
            command,
            header,
            payload,
            font,
        ).pixels == view.pixels,
{
}

/// A command on a window leaves every cell outside the window.
pub proof fn lemma_outside_window_stays(
    view: DisplayView,
    command: DisplayCommand,
    header: HdrWindow,
    payload: Seq<u8>,
    font: Seq<u8>,
    c: int,
    r: int,
)
    requires
        view.wf(),
        0 <= c < PIXEL_WIDTH,
        0 <= r < PIXEL_HEIGHT,
    ensures
        target_of(command) is Pixels && !window_of(command, header).contains(c, r) ==> applied(
            view,
            command,
            header,
            payload,
            font,
        ).pixels[r][c] == view.pixels[r][c],
        target_of(command) is Text && !window_of(command, header).contains(c / 8, r / 8)
            ==> applied(view, command, header, payload, font).pixels[r][c] == view.pixels[r][c],
{
}

/// Combining a pixel twice with the same bit by exclusive or gives the
/// pixel back.
pub proof fn lemma_xor_twice(current: bool, incoming: bool)
    ensures
        BitOp::Xor.combined(BitOp::Xor.combined(current, incoming), incoming) == current,
{
}

/// `CmdBitmapLinearXor` is its own inverse: applied twice with the same
/// header and payload, it gives the display back as it was.
pub proof fn lemma_xor_command_twice(
    view: DisplayView,
    header: HdrWindow,
    payload: Seq<u8>,
    font: Seq<u8>,
)
    requires
        view.wf(),
    ensures
        applied(
            applied(view, DisplayCommand::CmdBitmapLinearXor, header, payload, font),
            DisplayCommand::CmdBitmapLinearXor,
            header,
            payload,
            font,
        ) == view,
{
    let command = DisplayCommand::CmdBitmapLinearXor;
    let once = applied(view, command, header, payload, font);
    let twice = applied(once, command, header, payload, font);
    if rejection(command, header, payload.len() as int) is None {
        assert(twice.pixels =~~= view.pixels);
    }
}

/// Overwriting is idempotent: `CmdBitmapLinear` applied twice with the same
/// header and payload gives what it gives applied once.
pub proof fn lemma_overwrite_twice(
    view: DisplayView,
    header: HdrWindow,
    payload: Seq<u8>,
    font: Seq<u8>,
)
    requires
        view.wf(),
    ensures
        applied(
            applied(view, DisplayCommand::CmdBitmapLinear, header, payload, font),
            DisplayCommand::CmdBitmapLinear,
            header,
            payload,
            font,
        ) == applied(view, DisplayCommand::CmdBitmapLinear, header, payload, font),
{
    let command = DisplayCommand::CmdBitmapLinear;
    let once = applied(view, command, header, payload, font);
    let twice = applied(once, command, header, payload, font);
    if rejection(command, header, payload.len() as int) is None {
        assert(twice.pixels =~~= once.pixels);
    }
}

} // verus!
