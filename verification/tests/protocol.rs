use pixel_receiver::protocol::{
    read_beu16, read_header, swap_bytes, DisplayCommand, DisplaySubcommand, HdrWindow,
    ReadHeaderError, HEADER_SIZE, PIXEL_COUNT, PIXEL_HEIGHT, PIXEL_WIDTH, TILE_HEIGHT, TILE_SIZE,
    TILE_WIDTH,
};

const COMMANDS: [(DisplayCommand, u16); 12] = [
    (DisplayCommand::CmdClear, 0x0002),
    (DisplayCommand::CmdCp437data, 0x0003),
    (DisplayCommand::CmdCharBrightness, 0x0005),
    (DisplayCommand::CmdBrightness, 0x0007),
    (DisplayCommand::CmdHardReset, 0x000b),
    (DisplayCommand::CmdFadeOut, 0x000d),
    (DisplayCommand::CmdBitmapLegacy, 0x0010),
    (DisplayCommand::CmdBitmapLinear, 0x0012),
    (DisplayCommand::CmdBitmapLinearWin, 0x0013),
    (DisplayCommand::CmdBitmapLinearAnd, 0x0014),
    (DisplayCommand::CmdBitmapLinearOr, 0x0015),
    (DisplayCommand::CmdBitmapLinearXor, 0x0016),
];

#[test]
fn display_dimensions() {
    assert_eq!(TILE_SIZE, 8);
    assert_eq!(TILE_WIDTH, 56);
    assert_eq!(TILE_HEIGHT, 20);
    assert_eq!(PIXEL_WIDTH, TILE_WIDTH * TILE_SIZE);
    assert_eq!(PIXEL_HEIGHT, TILE_HEIGHT * TILE_SIZE);
    assert_eq!(PIXEL_COUNT, PIXEL_WIDTH as usize * PIXEL_HEIGHT as usize);
    assert_eq!(HEADER_SIZE, 10);
}

#[test]
fn big_endian_pair() {
    assert_eq!(read_beu16(&[0x12, 0x34]), 0x1234);
    assert_eq!(read_beu16(&[0x00, 0x02]), 2);
    assert_eq!(read_beu16(&[0x02, 0x00]), 512);
    assert_eq!(read_beu16(&[0xff, 0xff]), 0xffff);
    assert_eq!(read_beu16(&[0x00, 0x00]), 0);
}

#[test]
fn big_endian_pair_matches_std() {
    for hi in [0u8, 1, 2, 0x7f, 0x80, 0xff] {
        for lo in [0u8, 1, 2, 0x7f, 0x80, 0xff] {
            assert_eq!(read_beu16(&[hi, lo]), u16::from_be_bytes([hi, lo]));
        }
    }
}

#[test]
fn swap_bytes_matches_std() {
    assert_eq!(swap_bytes(0x0200), 0x0002);
    assert_eq!(swap_bytes(0x1234), 0x3412);
    for value in [0u16, 1, 0x00ff, 0xff00, 0x1600, 0x0016, 0xffff, 0x8001] {
        assert_eq!(swap_bytes(value), value.swap_bytes());
        assert_eq!(swap_bytes(swap_bytes(value)), value);
    }
}

#[test]
fn command_codes_are_stable() {
    for (command, code) in COMMANDS {
        assert_eq!(command.to_u16(), code);
        assert_eq!(DisplayCommand::from_u16(code), Some(command));
    }
}

#[test]
fn every_other_code_is_no_command() {
    let mut known = 0;
    for code in 0..=u16::MAX {
        match DisplayCommand::from_u16(code) {
            Some(command) => {
                known += 1;
                assert_eq!(command.to_u16(), code);
            }
            None => assert!(COMMANDS.iter().all(|(_, c)| *c != code)),
        }
    }
    assert_eq!(known, 12);
}

#[test]
fn subcommand_codes_are_stable() {
    let table = [
        (DisplaySubcommand::SubCmdBitmapNormal, 0x0u16),
        (DisplaySubcommand::SubCmdBitmapCompressZ, 0x677a),
        (DisplaySubcommand::SubCmdBitmapCompressBz, 0x627a),
        (DisplaySubcommand::SubCmdBitmapCompressLz, 0x6c7a),
        (DisplaySubcommand::SubCmdBitmapCompressZs, 0x7a73),
    ];
    for (subcommand, code) in table {
        assert_eq!(subcommand.to_u16(), code);
        assert_eq!(DisplaySubcommand::from_u16(code), Some(subcommand));
        assert_eq!(subcommand.needs_decompression(), code != 0);
    }
    assert_eq!(DisplaySubcommand::from_u16(1), None);
    assert_eq!(DisplaySubcommand::from_u16(0x7a67), None);
}

#[test]
fn defaults() {
    assert_eq!(DisplayCommand::default(), DisplayCommand::CmdClear);
    assert_eq!(
        HdrWindow::default(),
        HdrWindow { command: DisplayCommand::CmdClear, x: 0, y: 0, w: 0, h: 0 }
    );
}

#[test]
fn short_buffers_are_too_small() {
    let bytes = [0x00u8, 0x02, 0, 0, 0, 0, 0, 0, 0, 0];
    for len in 0..10 {
        assert_eq!(read_header(&bytes[..len]), Err(ReadHeaderError::BufferTooSmall));
    }
    assert_eq!(read_header(&[]), Err(ReadHeaderError::BufferTooSmall));
    assert_eq!(read_header(&[0xff; 9]), Err(ReadHeaderError::BufferTooSmall));
}

#[test]
fn known_code_decodes_with_its_fields() {
    for (command, code) in COMMANDS {
        let code = code.to_be_bytes();
        let bytes = [code[0], code[1], 0x01, 0x02, 0x03, 0x04, 0xfe, 0xdc, 0xff, 0xff];
        assert_eq!(
            read_header(&bytes),
            Ok(HdrWindow { command, x: 0x0102, y: 0x0304, w: 0xfedc, h: 0xffff })
        );
    }
}

#[test]
fn payload_after_header_is_ignored_by_decode() {
    let mut bytes = vec![0x00u8, 0x13, 0x00, 0x01, 0x00, 0x02, 0x00, 0x03, 0x00, 0x04];
    bytes.extend_from_slice(&[0xaa; 24]);
    assert_eq!(
        read_header(&bytes),
        Ok(HdrWindow { command: DisplayCommand::CmdBitmapLinearWin, x: 1, y: 2, w: 3, h: 4 })
    );
}

#[test]
fn swapped_code_is_reported_with_the_command() {
    for (command, code) in COMMANDS {
        let code = code.to_le_bytes();
        let raw = u16::from_be_bytes(code);
        let bytes = [code[0], code[1], 1, 2, 3, 4, 5, 6, 7, 8];
        assert_eq!(
            read_header(&bytes),
            Err(ReadHeaderError::WrongCommandEndianness(raw, command))
        );
    }
}

#[test]
fn unknown_code_is_invalid() {
    assert_eq!(
        read_header(&[0x00, 0x00, 0, 0, 0, 0, 0, 0, 0, 0]),
        Err(ReadHeaderError::InvalidCommand(0))
    );
    assert_eq!(
        read_header(&[0x12, 0x34, 0, 0, 0, 0, 0, 0, 0, 0]),
        Err(ReadHeaderError::InvalidCommand(0x1234))
    );
    assert_eq!(
        read_header(&[0xff, 0xff, 9, 9, 9, 9, 9, 9, 9, 9]),
        Err(ReadHeaderError::InvalidCommand(0xffff))
    );
    assert_eq!(
        read_header(&[0x00, 0x17, 0, 0, 0, 0, 0, 0, 0, 0]),
        Err(ReadHeaderError::InvalidCommand(0x0017))
    );
}

#[test]
fn every_code_falls_in_one_case() {
    for raw in 0..=u16::MAX {
        let code = raw.to_be_bytes();
        let bytes = [code[0], code[1], 0, 1, 0, 2, 0, 3, 0, 4];
        let result = read_header(&bytes);
        match (DisplayCommand::from_u16(raw), DisplayCommand::from_u16(raw.swap_bytes())) {
            (Some(command), _) => {
                assert_eq!(result, Ok(HdrWindow { command, x: 1, y: 2, w: 3, h: 4 }))
            }
            (None, Some(command)) => {
                assert_eq!(result, Err(ReadHeaderError::WrongCommandEndianness(raw, command)))
            }
            (None, None) => assert_eq!(result, Err(ReadHeaderError::InvalidCommand(raw))),
        }
    }
}

#[test]
fn header_encodes_big_endian() {
    let header =
        HdrWindow { command: DisplayCommand::CmdBitmapLinearXor, x: 0x0102, y: 0x0304, w: 8, h: 0xff00 };
    assert_eq!(
        header.to_bytes(),
        vec![0x00, 0x16, 0x01, 0x02, 0x03, 0x04, 0x00, 0x08, 0xff, 0x00]
    );
}

#[test]
fn encode_then_decode_gives_the_header_back() {
    let fields = [0u16, 1, 7, 8, 255, 256, 447, 448, 0x1234, 0xff00, 0xffff];
    for (command, _) in COMMANDS {
        for (i, x) in fields.iter().enumerate() {
            let header = HdrWindow {
                command,
                x: *x,
                y: fields[(i + 1) % fields.len()],
                w: fields[(i + 3) % fields.len()],
                h: fields[(i + 7) % fields.len()],
            };
            let bytes = header.to_bytes();
            assert_eq!(bytes.len(), 10);
            assert_eq!(read_header(&bytes), Ok(header));
        }
    }
}

#[test]
fn decode_then_encode_gives_the_bytes_back() {
    let bytes = [0x00u8, 0x05, 0xde, 0xad, 0xbe, 0xef, 0x00, 0x01, 0x80, 0x7f, 0x55, 0x66];
    let header = read_header(&bytes).unwrap();
    assert_eq!(header.to_bytes(), bytes[..10].to_vec());
}

#[test]
fn clear_bytes_decode_to_clear() {
    assert_eq!(
        read_header(&[0x00, 0x02, 0x00, 0x00, 0x00, 0x00, 0x00, 0x00, 0x00, 0x00]),
        Ok(HdrWindow { command: DisplayCommand::CmdClear, x: 0, y: 0, w: 0, h: 0 })
    );
}

#[test]
fn swapped_clear_is_wrong_endianness() {
    assert_eq!(
        read_header(&[0x02, 0x00, 0x00, 0x00, 0x00, 0x00, 0x00, 0x00, 0x00, 0x00]),
        Err(ReadHeaderError::WrongCommandEndianness(0x0200, DisplayCommand::CmdClear))
    );
}
