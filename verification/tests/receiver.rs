use pixel_receiver::dispatch::{BitmapFont, DispatchError, FONT_SIZE};
use pixel_receiver::display::SharedDisplayState;
use pixel_receiver::protocol::{DisplayCommand, HdrWindow, ReadHeaderError};
use pixel_receiver::receiver::{
    handle_datagram, step, DropReason, ReceiverAction, ReceiverEvent, ReceiverState,
    POLL_INTERVAL_MS, RECEIVE_BUFFER_SIZE,
};

const EVENTS: [ReceiverEvent; 5] = [
    ReceiverEvent::StopSignal(false),
    ReceiverEvent::StopSignal(true),
    ReceiverEvent::WouldBlock,
    ReceiverEvent::IoError,
    ReceiverEvent::Undecodable,
];

fn font() -> BitmapFont {
    BitmapFont::from_rows(vec![0; FONT_SIZE]).unwrap()
}

fn packet(command: DisplayCommand, x: u16, y: u16, w: u16, h: u16, payload: &[u8]) -> Vec<u8> {
    let mut bytes = HdrWindow { command, x, y, w, h }.to_bytes();
    bytes.extend_from_slice(payload);
    bytes
}

fn lit(state: &SharedDisplayState) -> usize {
    let mut count = 0;
    for y in 0..160 {
        for x in 0..448 {
            if state.pixel(x, y) {
                count += 1;
            }
        }
    }
    count
}

#[test]
fn receiver_constants() {
    assert_eq!(RECEIVE_BUFFER_SIZE, 8985);
    assert!(RECEIVE_BUFFER_SIZE > 10 + 448 * 160 / 8);
    assert_eq!(POLL_INTERVAL_MS, 1);
}

#[test]
fn stop_signal_ends_the_receiver() {
    assert_eq!(
        step(ReceiverState::Running, ReceiverEvent::StopSignal(true)),
        (ReceiverState::Terminated, ReceiverAction::Leave)
    );
}

#[test]
fn without_stop_signal_the_receiver_receives() {
    assert_eq!(
        step(ReceiverState::Running, ReceiverEvent::StopSignal(false)),
        (ReceiverState::Running, ReceiverAction::Receive)
    );
}

#[test]
fn would_block_sleeps_for_the_polling_interval() {
    assert_eq!(
        step(ReceiverState::Running, ReceiverEvent::WouldBlock),
        (ReceiverState::Running, ReceiverAction::Sleep(1))
    );
}

#[test]
fn io_error_is_fatal() {
    assert_eq!(
        step(ReceiverState::Running, ReceiverEvent::IoError),
        (ReceiverState::Terminated, ReceiverAction::Fail)
    );
}

#[test]
fn undecodable_payload_drops_the_packet() {
    assert_eq!(
        step(ReceiverState::Running, ReceiverEvent::Undecodable),
        (
            ReceiverState::Running,
            ReceiverAction::Drop {
                reason: DropReason::Command(DispatchError::UndecodablePayload),
                truncated: false
            }
        )
    );
}

#[test]
fn terminated_receiver_stays_terminated() {
    for event in EVENTS {
        assert_eq!(
            step(ReceiverState::Terminated, event),
            (ReceiverState::Terminated, ReceiverAction::Leave)
        );
    }
    let mut display = SharedDisplayState::new();
    let bytes = packet(DisplayCommand::CmdBitmapLinear, 0, 0, 8, 1, &[0xff]);
    assert_eq!(
        handle_datagram(ReceiverState::Terminated, &bytes, &mut display, &font()),
        (ReceiverState::Terminated, ReceiverAction::Leave)
    );
    assert_eq!(lit(&display), 0);
    assert_eq!(
        handle_datagram(ReceiverState::Terminated, &[1, 2], &mut display, &font()),
        (ReceiverState::Terminated, ReceiverAction::Leave)
    );
}

#[test]
fn applied_packet_notifies_the_consumer() {
    let mut display = SharedDisplayState::new();
    let bytes = packet(DisplayCommand::CmdBitmapLinear, 8, 8, 8, 1, &[0xf0]);
    let result = handle_datagram(ReceiverState::Running, &bytes, &mut display, &font());
    assert_eq!(result, (ReceiverState::Running, ReceiverAction::NotifyApplied { truncated: false }));
    assert_eq!(lit(&display), 4);
    assert!(display.pixel(8, 8));
    assert!(display.pixel(11, 8));
    assert!(!display.pixel(12, 8));
}

#[test]
fn hard_reset_packet_ends_the_session() {
    let mut display = SharedDisplayState::new();
    display.set_pixel(5, 5, true);
    let bytes = packet(DisplayCommand::CmdHardReset, 0, 0, 0, 0, &[]);
    let result = handle_datagram(ReceiverState::Running, &bytes, &mut display, &font());
    assert_eq!(
        result,
        (ReceiverState::Terminated, ReceiverAction::NotifyHardReset { truncated: false })
    );
    assert_eq!(lit(&display), 1);
}

#[test]
fn undecodable_header_drops_the_packet() {
    let mut display = SharedDisplayState::new();
    let font = font();
    let running = ReceiverState::Running;
    let result = handle_datagram(running, &[0x00, 0x02, 0x00], &mut display, &font);
    assert_eq!(
        result,
        (
            ReceiverState::Running,
            ReceiverAction::Drop {
                reason: DropReason::Header(ReadHeaderError::BufferTooSmall),
                truncated: false
            }
        )
    );
    let result = handle_datagram(running, &[0x02, 0x00, 0, 0, 0, 0, 0, 0, 0, 0], &mut display, &font);
    assert_eq!(
        result,
        (
            ReceiverState::Running,
            ReceiverAction::Drop {
                reason: DropReason::Header(ReadHeaderError::WrongCommandEndianness(
                    0x0200,
                    DisplayCommand::CmdClear
                )),
                truncated: false
            }
        )
    );
    let result =
        handle_datagram(running, &[0x47, 0x11, 0, 0, 0, 0, 0, 0, 0, 0, 1, 2], &mut display, &font);
    assert_eq!(
        result,
        (
            ReceiverState::Running,
            ReceiverAction::Drop {
                reason: DropReason::Header(ReadHeaderError::InvalidCommand(0x4711)),
                truncated: false
            }
        )
    );
    assert_eq!(lit(&display), 0);
}

#[test]
fn rejected_command_drops_the_packet() {
    let mut display = SharedDisplayState::new();
    let font = font();
    let bytes = packet(DisplayCommand::CmdBitmapLinear, 445, 0, 8, 1, &[0xff]);
    assert_eq!(
        handle_datagram(ReceiverState::Running, &bytes, &mut display, &font),
        (
            ReceiverState::Running,
            ReceiverAction::Drop {
                reason: DropReason::Command(DispatchError::WindowOutOfBounds),
                truncated: false
            }
        )
    );
    let bytes = packet(DisplayCommand::CmdBitmapLinear, 0, 0, 8, 1, &[0xff, 0xff]);
    assert_eq!(
        handle_datagram(ReceiverState::Running, &bytes, &mut display, &font),
        (
            ReceiverState::Running,
            ReceiverAction::Drop {
                reason: DropReason::Command(DispatchError::PayloadSize),
                truncated: false
            }
        )
    );
    assert_eq!(lit(&display), 0);
}

#[test]
fn full_buffer_is_flagged_and_still_handled() {
    let mut display = SharedDisplayState::new();
    let font = font();
    let running = ReceiverState::Running;
    let mut bytes = packet(DisplayCommand::CmdClear, 0, 0, 0, 0, &[]);
    bytes.resize(RECEIVE_BUFFER_SIZE, 0);
    display.set_pixel(1, 1, true);
    assert_eq!(
        handle_datagram(running, &bytes, &mut display, &font),
        (ReceiverState::Running, ReceiverAction::NotifyApplied { truncated: true })
    );
    assert_eq!(lit(&display), 0);
    let bytes = vec![0xffu8; RECEIVE_BUFFER_SIZE];
    assert_eq!(
        handle_datagram(running, &bytes, &mut display, &font),
        (
            ReceiverState::Running,
            ReceiverAction::Drop {
                reason: DropReason::Header(ReadHeaderError::InvalidCommand(0xffff)),
                truncated: true
            }
        )
    );
    let bytes = vec![0xffu8; RECEIVE_BUFFER_SIZE - 1];
    assert_eq!(
        handle_datagram(running, &bytes, &mut display, &font),
        (
            ReceiverState::Running,
            ReceiverAction::Drop {
                reason: DropReason::Header(ReadHeaderError::InvalidCommand(0xffff)),
                truncated: false
            }
        )
    );
}

#[test]
fn a_session_runs_until_the_stop_signal() {
    let mut display = SharedDisplayState::new();
    let font = font();
    let xor = packet(DisplayCommand::CmdBitmapLinearXor, 0, 0, 8, 8, &[0xff; 8]);
    let clear = packet(DisplayCommand::CmdClear, 0, 0, 0, 0, &[]);
    let mut state = ReceiverState::Running;
    let mut actions = Vec::new();
    let mut go = |result: (ReceiverState, ReceiverAction), state: &mut ReceiverState| {
        *state = result.0;
        actions.push(result.1);
    };
    go(step(state, ReceiverEvent::StopSignal(false)), &mut state);
    go(step(state, ReceiverEvent::WouldBlock), &mut state);
    go(step(state, ReceiverEvent::StopSignal(false)), &mut state);
    go(handle_datagram(state, &xor, &mut display, &font), &mut state);
    go(step(state, ReceiverEvent::StopSignal(false)), &mut state);
    go(handle_datagram(state, &[1, 2, 3], &mut display, &font), &mut state);
    go(step(state, ReceiverEvent::StopSignal(true)), &mut state);
    go(handle_datagram(state, &clear, &mut display, &font), &mut state);
    go(step(state, ReceiverEvent::StopSignal(false)), &mut state);
    assert_eq!(state, ReceiverState::Terminated);
    assert_eq!(
        actions,
        vec![
            ReceiverAction::Receive,
            ReceiverAction::Sleep(1),
            ReceiverAction::Receive,
            ReceiverAction::NotifyApplied { truncated: false },
            ReceiverAction::Receive,
            ReceiverAction::Drop {
                reason: DropReason::Header(ReadHeaderError::BufferTooSmall),
                truncated: false
            },
            ReceiverAction::Leave,
            ReceiverAction::Leave,
            ReceiverAction::Leave,
        ]
    );
    assert_eq!(lit(&display), 64);
}
