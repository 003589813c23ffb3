//! Wire format of the command header: opcode table, big-endian fields and
//! the decoder with its diagnostics.

use vstd::prelude::*;
use vstd::slice::slice_subrange;

verus! {

/// Edge length of one tile in pixels.
pub const TILE_SIZE: u16 = 8;

/// Number of tiles in one row of the display.
pub const TILE_WIDTH: u16 = 56;

/// Number of tile rows of the display.
pub const TILE_HEIGHT: u16 = 20;

/// Display width in pixels.
pub const PIXEL_WIDTH: u16 = TILE_WIDTH * TILE_SIZE;

/// Display height in pixels.
pub const PIXEL_HEIGHT: u16 = TILE_HEIGHT * TILE_SIZE;

/// Number of pixels of the whole display.
#[verifier::nonlinear]
pub const PIXEL_COUNT: usize = PIXEL_WIDTH as usize * PIXEL_HEIGHT as usize;

/// Number of bytes of the command header on the wire.
pub const HEADER_SIZE: usize = 10;

/// The value of two bytes read as one big-endian 16-bit number.
pub open spec fn be_u16(hi: u8, lo: u8) -> u16 {
    (hi as int * 256 + lo as int) as u16
}

/// The more significant byte of a 16-bit number.
pub open spec fn high_byte(value: u16) -> u8 {
    (value as int / 256) as u8
}

/// The less significant byte of a 16-bit number.
pub open spec fn low_byte(value: u16) -> u8 {
    (value as int % 256) as u8
}

/// The 16-bit number with its two bytes exchanged.
pub open spec fn swapped(value: u16) -> u16 {
    be_u16(low_byte(value), high_byte(value))
}

/// Reads a big-endian 16-bit number from a buffer of exactly two bytes.
pub fn read_beu16(buffer: &[u8]) -> (value: u16)
    requires
        buffer@.len() == 2,
    ensures
        value == be_u16(buffer@[0], buffer@[1]),
{
    let hi: u16 = buffer[0] as u16;
    let lo: u16 = buffer[1] as u16;
    hi * 256 + lo
}

/// Exchanges the two bytes of a 16-bit number.
pub fn swap_bytes(value: u16) -> (result: u16)
    ensures
        result == swapped(value),
{
    let hi: u16 = value / 256;
    let lo: u16 = value % 256;
    lo * 256 + hi
}

/// The commands of the display protocol. Each has a fixed 16-bit code on the
/// wire, given by [`DisplayCommand::code`].
#[derive(Debug, Clone, Copy, PartialEq, Eq, Structural)]
pub enum DisplayCommand {
    CmdClear,
    CmdCp437data,
    CmdCharBrightness,
    CmdBrightness,
    CmdHardReset,
    CmdFadeOut,
    CmdBitmapLegacy,
    CmdBitmapLinear,
    CmdBitmapLinearWin,
    CmdBitmapLinearAnd,
    CmdBitmapLinearOr,
    CmdBitmapLinearXor,
}

impl DisplayCommand {
    /// The wire code of a command.
    pub open spec fn code(self) -> u16 {
        match self {
            DisplayCommand::CmdClear => 0x0002,
            DisplayCommand::CmdCp437data => 0x0003,
            DisplayCommand::CmdCharBrightness => 0x0005,
            DisplayCommand::CmdBrightness => 0x0007,
            DisplayCommand::CmdHardReset => 0x000b,
            DisplayCommand::CmdFadeOut => 0x000d,
            DisplayCommand::CmdBitmapLegacy => 0x0010,
            DisplayCommand::CmdBitmapLinear => 0x0012,
            DisplayCommand::CmdBitmapLinearWin => 0x0013,
            DisplayCommand::CmdBitmapLinearAnd => 0x0014,
            DisplayCommand::CmdBitmapLinearOr => 0x0015,
            DisplayCommand::CmdBitmapLinearXor => 0x0016,
        }
    }

    /// The command that a wire code stands for: the one command whose code it
    /// is, or `None` where no command has that code.
    pub open spec fn of_code(code: u16) -> Option<DisplayCommand> {
        if exists|c: DisplayCommand| c.code() == code {
            Some(choose|c: DisplayCommand| c.code() == code)
        } else {
            None
        }
    }

    /// No two commands share a wire code.
    pub proof fn lemma_code_injective(a: DisplayCommand, b: DisplayCommand)
        requires
            a.code() == b.code(),
        ensures
            a == b,
    {
    }

    /// Looking up the code of a command gives that command back.
    pub proof fn lemma_of_code_of_command(c: DisplayCommand)
        ensures
            DisplayCommand::of_code(c.code()) == Some(c),
    {
        let found = choose|d: DisplayCommand| d.code() == c.code();
        DisplayCommand::lemma_code_injective(found, c);
    }

    /// A code that is looked up with success is the code of the command found.
    pub proof fn lemma_of_code_sound(code: u16)
        ensures
            DisplayCommand::of_code(code) matches Some(c) ==> c.code() == code,
    {
    }

    /// Returns the wire code of the command.
    pub fn to_u16(&self) -> (code: u16)
        ensures
            code == self.code(),
    {
        match self {
            DisplayCommand::CmdClear => 0x0002,
            DisplayCommand::CmdCp437data => 0x0003,
            DisplayCommand::CmdCharBrightness => 0x0005,
            DisplayCommand::CmdBrightness => 0x0007,
            DisplayCommand::CmdHardReset => 0x000b,
            DisplayCommand::CmdFadeOut => 0x000d,
            DisplayCommand::CmdBitmapLegacy => 0x0010,
            DisplayCommand::CmdBitmapLinear => 0x0012,
            DisplayCommand::CmdBitmapLinearWin => 0x0013,
            DisplayCommand::CmdBitmapLinearAnd => 0x0014,
            DisplayCommand::CmdBitmapLinearOr => 0x0015,
            DisplayCommand::CmdBitmapLinearXor => 0x0016,
        }
    }

    /// Looks a wire code up in the opcode table.
    pub fn from_u16(code: u16) -> (command: Option<DisplayCommand>)
        ensures
            command == DisplayCommand::of_code(code),
    {
        let command = match code {
            0x0002 => Some(DisplayCommand::CmdClear),
            0x0003 => Some(DisplayCommand::CmdCp437data),
            0x0005 => Some(DisplayCommand::CmdCharBrightness),
            0x0007 => Some(DisplayCommand::CmdBrightness),
            0x000b => Some(DisplayCommand::CmdHardReset),
            0x000d => Some(DisplayCommand::CmdFadeOut),
            0x0010 => Some(DisplayCommand::CmdBitmapLegacy),
            0x0012 => Some(DisplayCommand::CmdBitmapLinear),
            0x0013 => Some(DisplayCommand::CmdBitmapLinearWin),
            0x0014 => Some(DisplayCommand::CmdBitmapLinearAnd),
            0x0015 => Some(DisplayCommand::CmdBitmapLinearOr),
            0x0016 => Some(DisplayCommand::CmdBitmapLinearXor),
            _ => None,
        };
        proof {
            match command {
                Some(c) => {
                    DisplayCommand::lemma_of_code_of_command(c);
                },
                None => {
                    assert forall|c: DisplayCommand| c.code() != code by {}
                },
            }
        }
        command
    }
}

impl Default for DisplayCommand {
    fn default() -> (command: DisplayCommand)
        ensures
            command == DisplayCommand::CmdClear,
    {
        DisplayCommand::CmdClear
    }
}

/// The compression scheme of a bitmap payload. Each has a fixed 16-bit tag,
/// given by [`DisplaySubcommand::code`].
#[derive(Debug, Clone, Copy, PartialEq, Eq, Structural)]
pub enum DisplaySubcommand {
    SubCmdBitmapNormal,
    SubCmdBitmapCompressZ,
    SubCmdBitmapCompressBz,
    SubCmdBitmapCompressLz,
    SubCmdBitmapCompressZs,
}

impl DisplaySubcommand {
    /// The wire tag of a compression scheme.
    pub open spec fn code(self) -> u16 {
        match self {
            DisplaySubcommand::SubCmdBitmapNormal => 0x0,
            DisplaySubcommand::SubCmdBitmapCompressZ => 0x677a,
            DisplaySubcommand::SubCmdBitmapCompressBz => 0x627a,
            DisplaySubcommand::SubCmdBitmapCompressLz => 0x6c7a,
            DisplaySubcommand::SubCmdBitmapCompressZs => 0x7a73,
        }
    }

    /// The scheme that a wire tag stands for: the one scheme whose tag it is,
    /// or `None` where no scheme has that tag.
    pub open spec fn of_code(code: u16) -> Option<DisplaySubcommand> {
        if exists|c: DisplaySubcommand| c.code() == code {
            Some(choose|c: DisplaySubcommand| c.code() == code)
        } else {
            None
        }
    }

    /// Whether a payload of this scheme has to be decompressed before its
    /// bits are written.
    pub open spec fn is_compressed(self) -> bool {
        self != DisplaySubcommand::SubCmdBitmapNormal
    }

    /// No two schemes share a wire tag.
    pub proof fn lemma_code_injective(a: DisplaySubcommand, b: DisplaySubcommand)
        requires
            a.code() == b.code(),
        ensures
            a == b,
    {
    }

    /// Looking up the tag of a scheme gives that scheme back.
    pub proof fn lemma_of_code_of_subcommand(c: DisplaySubcommand)
        ensures
            DisplaySubcommand::of_code(c.code()) == Some(c),
    {
        let found = choose|d: DisplaySubcommand| d.code() == c.code();
        DisplaySubcommand::lemma_code_injective(found, c);
    }

    /// Returns the wire tag of the scheme.
    pub fn to_u16(&self) -> (code: u16)
        ensures
            code == self.code(),
    {
        match self {
            DisplaySubcommand::SubCmdBitmapNormal => 0x0,
            DisplaySubcommand::SubCmdBitmapCompressZ => 0x677a,
            DisplaySubcommand::SubCmdBitmapCompressBz => 0x627a,
            DisplaySubcommand::SubCmdBitmapCompressLz => 0x6c7a,
            DisplaySubcommand::SubCmdBitmapCompressZs => 0x7a73,
        }
    }

    /// Looks a wire tag up in the table of compression schemes.
    pub fn from_u16(code: u16) -> (subcommand: Option<DisplaySubcommand>)
        ensures
            subcommand == DisplaySubcommand::of_code(code),
    {
        let subcommand = match code {
            0x0 => Some(DisplaySubcommand::SubCmdBitmapNormal),
            0x677a => Some(DisplaySubcommand::SubCmdBitmapCompressZ),
            0x627a => Some(DisplaySubcommand::SubCmdBitmapCompressBz),
            0x6c7a => Some(DisplaySubcommand::SubCmdBitmapCompressLz),
            0x7a73 => Some(DisplaySubcommand::SubCmdBitmapCompressZs),
            _ => None,
        };
        proof {
            match subcommand {
                Some(c) => {
                    DisplaySubcommand::lemma_of_code_of_subcommand(c);
                },
                None => {
                    assert forall|c: DisplaySubcommand| c.code() != code by {}
                },
            }
        }
        subcommand
    }

    /// Tells whether the payload has to be decompressed first.
    pub fn needs_decompression(&self) -> (compressed: bool)
        ensures
            compressed == self.is_compressed(),
    {
        match self {
            DisplaySubcommand::SubCmdBitmapNormal => false,
            _ => true,
        }
    }
}

/// The decoded command header: a command and the window it addresses.
#[derive(Debug, Clone, Copy, PartialEq, Eq, Structural)]
pub struct HdrWindow {
    pub command: DisplayCommand,
    pub x: u16,
    pub y: u16,
    pub w: u16,
    pub h: u16,
}

impl Default for HdrWindow {
    fn default() -> (header: HdrWindow)
        ensures
            header == (HdrWindow { command: DisplayCommand::CmdClear, x: 0, y: 0, w: 0, h: 0 }),
    {
        HdrWindow { command: DisplayCommand::CmdClear, x: 0, y: 0, w: 0, h: 0 }
    }
}

/// Why a buffer could not be decoded as a command header.
#[derive(Debug, Clone, Copy, PartialEq, Eq, Structural)]
pub enum ReadHeaderError {
    /// The buffer holds fewer bytes than a header has.
    BufferTooSmall,
    /// The code is no command, but with its bytes exchanged it is the
    /// command given: the sender used the wrong byte order.
    WrongCommandEndianness(u16, DisplayCommand),
    /// The code is no command in either byte order.
    InvalidCommand(u16),
}

/// What decoding a buffer gives: the header of its first ten bytes, or the
/// reason why there is none.
pub open spec fn decoded(bytes: Seq<u8>) -> Result<HdrWindow, ReadHeaderError> {
    if bytes.len() < HEADER_SIZE {
        Err(ReadHeaderError::BufferTooSmall)
    } else {
        let raw = be_u16(bytes[0], bytes[1]);
        match DisplayCommand::of_code(raw) {
            Some(command) => Ok(
                HdrWindow {
                    command,
                    x: be_u16(bytes[2], bytes[3]),
                    y: be_u16(bytes[4], bytes[5]),
                    w: be_u16(bytes[6], bytes[7]),
                    h: be_u16(bytes[8], bytes[9]),
                },
            ),
            None => match DisplayCommand::of_code(swapped(raw)) {
                Some(command) => Err(ReadHeaderError::WrongCommandEndianness(raw, command)),
                None => Err(ReadHeaderError::InvalidCommand(raw)),
            },
        }
    }
}

/// Decodes the command header at the start of a buffer.
///
/// The code is read big-endian from the first two bytes. A code that is a
/// command only with its bytes exchanged is reported as such, to tell a
/// sender with the wrong byte order from one that sends noise.
pub fn read_header(buffer: &[u8]) -> (result: Result<HdrWindow, ReadHeaderError>)
    ensures
        result == decoded(buffer@),
{
    if buffer.len() < HEADER_SIZE {
        return Err(ReadHeaderError::BufferTooSmall);
    }
    let command_u16 = read_beu16(slice_subrange(buffer, 0, 2));
    match DisplayCommand::from_u16(command_u16) {
        Some(command) => Ok(
            HdrWindow {
                command,
                x: read_beu16(slice_subrange(buffer, 2, 4)),
                y: read_beu16(slice_subrange(buffer, 4, 6)),
                w: read_beu16(slice_subrange(buffer, 6, 8)),
                h: read_beu16(slice_subrange(buffer, 8, 10)),
            },
        ),
        None => match DisplayCommand::from_u16(swap_bytes(command_u16)) {
            None => Err(ReadHeaderError::InvalidCommand(command_u16)),
            Some(command) => Err(ReadHeaderError::WrongCommandEndianness(command_u16, command)),
        },
    }
}

impl HdrWindow {
    /// The ten bytes of the header on the wire: the command's code and the
    /// four fields of the window, each big-endian.
    pub open spec fn wire(self) -> Seq<u8> {
        seq![
            high_byte(self.command.code()),
            low_byte(self.command.code()),
            high_byte(self.x),
            low_byte(self.x),
            high_byte(self.y),
            low_byte(self.y),
            high_byte(self.w),
            low_byte(self.w),
            high_byte(self.h),
            low_byte(self.h),
        ]
    }

    /// Encodes the header into its ten bytes on the wire.
    pub fn to_bytes(&self) -> (bytes: Vec<u8>)
        ensures
            bytes@ == self.wire(),
    {
        let code = self.command.to_u16();
        let mut bytes: Vec<u8> = Vec::with_capacity(HEADER_SIZE);
        bytes.push((code / 256) as u8);
        bytes.push((code % 256) as u8);
        bytes.push((self.x / 256) as u8);
        bytes.push((self.x % 256) as u8);
        bytes.push((self.y / 256) as u8);
        bytes.push((self.y % 256) as u8);
        bytes.push((self.w / 256) as u8);
        bytes.push((self.w % 256) as u8);
        bytes.push((self.h / 256) as u8);
        bytes.push((self.h % 256) as u8);
        assert(bytes@ =~= self.wire());
        bytes
    }
}

/// A 16-bit number is the big-endian value of its own two bytes.
pub proof fn lemma_be_u16_of_bytes(value: u16)
    ensures
        be_u16(high_byte(value), low_byte(value)) == value,
{
}

/// The two bytes of a big-endian value are the bytes it was made of.
pub proof fn lemma_bytes_of_be_u16(hi: u8, lo: u8)
    ensures
        high_byte(be_u16(hi, lo)) == hi,
        low_byte(be_u16(hi, lo)) == lo,
{
}

/// Exchanging the bytes of a number twice gives the number back.
pub proof fn lemma_swapped_twice(value: u16)
    ensures
        swapped(swapped(value)) == value,
{
}

/// A buffer of fewer than ten bytes is never decoded.
pub proof fn lemma_short_buffer_rejected(bytes: Seq<u8>)
    requires
        bytes.len() < HEADER_SIZE,
    ensures
        decoded(bytes) == Err::<HdrWindow, ReadHeaderError>(ReadHeaderError::BufferTooSmall),
{
}

/// A buffer of ten bytes or more that starts with the big-endian code of a
/// command decodes to that command and to the four fields that follow, each
/// read big-endian, whatever those eight bytes hold.
pub proof fn lemma_known_code_decodes(bytes: Seq<u8>, command: DisplayCommand)
    requires
        bytes.len() >= HEADER_SIZE,
        be_u16(bytes[0], bytes[1]) == command.code(),
    ensures
        decoded(bytes) == Ok::<HdrWindow, ReadHeaderError>(
            HdrWindow {
                command,
                x: be_u16(bytes[2], bytes[3]),
                y: be_u16(bytes[4], bytes[5]),
                w: be_u16(bytes[6], bytes[7]),
                h: be_u16(bytes[8], bytes[9]),
            },
        ),
{
    DisplayCommand::lemma_of_code_of_command(command);
}

/// A buffer whose code is no command, but is one with its two bytes
/// exchanged, is rejected with the code as it was read and the command that
/// the exchange recovers.
pub proof fn lemma_swapped_code_reported(bytes: Seq<u8>, command: DisplayCommand)
    requires
        bytes.len() >= HEADER_SIZE,
        DisplayCommand::of_code(be_u16(bytes[0], bytes[1])) is None,
        swapped(be_u16(bytes[0], bytes[1])) == command.code(),
    ensures
        decoded(bytes) == Err::<HdrWindow, ReadHeaderError>(
            ReadHeaderError::WrongCommandEndianness(be_u16(bytes[0], bytes[1]), command),
        ),
{
    DisplayCommand::lemma_of_code_of_command(command);
}

/// A buffer whose code is no command in either byte order is rejected with
/// the code as it was read.
pub proof fn lemma_unknown_code_rejected(bytes: Seq<u8>)
    requires
        bytes.len() >= HEADER_SIZE,
        DisplayCommand::of_code(be_u16(bytes[0], bytes[1])) is None,
        DisplayCommand::of_code(swapped(be_u16(bytes[0], bytes[1]))) is None,
    ensures
        decoded(bytes) == Err::<HdrWindow, ReadHeaderError>(
            ReadHeaderError::InvalidCommand(be_u16(bytes[0], bytes[1])),
        ),
{
}

/// No code is a command in both byte orders, so the byte order of a sender
/// is never in doubt.
pub proof fn lemma_byte_order_unambiguous(code: u16)
    ensures
        !(DisplayCommand::of_code(code) is Some && DisplayCommand::of_code(swapped(code)) is Some),
{
    DisplayCommand::lemma_of_code_sound(code);
    DisplayCommand::lemma_of_code_sound(swapped(code));
}

/// Encoding a header and decoding the bytes gives the header back, also
/// when a payload follows the ten bytes.
pub proof fn lemma_encode_decode(header: HdrWindow, payload: Seq<u8>)
    ensures
        decoded(header.wire() + payload) == Ok::<HdrWindow, ReadHeaderError>(header),
{
    let bytes = header.wire() + payload;
    lemma_be_u16_of_bytes(header.command.code());
    lemma_be_u16_of_bytes(header.x);
    lemma_be_u16_of_bytes(header.y);
    lemma_be_u16_of_bytes(header.w);
    lemma_be_u16_of_bytes(header.h);
    assert(bytes[0] == header.wire()[0]);
    assert(bytes[1] == header.wire()[1]);
    assert(bytes[2] == header.wire()[2]);
    assert(bytes[3] == header.wire()[3]);
    assert(bytes[4] == header.wire()[4]);
    assert(bytes[5] == header.wire()[5]);
    assert(bytes[6] == header.wire()[6]);
    assert(bytes[7] == header.wire()[7]);
    assert(bytes[8] == header.wire()[8]);
    assert(bytes[9] == header.wire()[9]);
    lemma_known_code_decodes(bytes, header.command);
}

/// Decoding a buffer and encoding the header gives the first ten bytes of
/// the buffer back.
pub proof fn lemma_decode_encode(bytes: Seq<u8>)
    requires
        decoded(bytes) is Ok,
    ensures
        decoded(bytes)->Ok_0.wire() == bytes.subrange(0, HEADER_SIZE as int),
{
    let header = decoded(bytes)->Ok_0;
    DisplayCommand::lemma_of_code_sound(be_u16(bytes[0], bytes[1]));
    lemma_bytes_of_be_u16(bytes[0], bytes[1]);
    lemma_bytes_of_be_u16(bytes[2], bytes[3]);
    lemma_bytes_of_be_u16(bytes[4], bytes[5]);
    lemma_bytes_of_be_u16(bytes[6], bytes[7]);
    lemma_bytes_of_be_u16(bytes[8], bytes[9]);
    assert(header.wire() =~= bytes.subrange(0, HEADER_SIZE as int));
}

} // verus!
