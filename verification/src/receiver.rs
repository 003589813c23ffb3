//! The decisions of the packet receiver: what it does next for each thing
//! that happens to it. The caller owns the socket, the stop signal, the
//! lock on the display and the channel to the consumer; it does what the
//! action says and hands back what happened.

use crate::dispatch::{applied, apply, check, rejection, BitmapFont, DispatchError};
use crate::display::{DisplayView, SharedDisplayState};
use crate::protocol::{decoded, read_header, DisplayCommand, ReadHeaderError, HEADER_SIZE};
use vstd::prelude::*;
use vstd::slice::slice_subrange;

verus! {

/// Capacity of the buffer that datagrams are received into: more than a
/// header and the bitmap of the whole display.
pub const RECEIVE_BUFFER_SIZE: usize = 8985;

/// Milliseconds that the receiver sleeps when no datagram is waiting.
pub const POLL_INTERVAL_MS: u64 = 1;

/// The state of the receiver.
#[derive(Debug, Clone, Copy, PartialEq, Eq, Structural)]
pub enum ReceiverState {
    Running,
    Terminated,
}

/// What happened to the receiver since its last action, a datagram apart.
#[derive(Debug, Clone, Copy, PartialEq, Eq, Structural)]
pub enum ReceiverEvent {
    /// The stop signal was polled; the value tells whether it was set.
    StopSignal(bool),
    /// No datagram was waiting.
    WouldBlock,
    /// The socket failed otherwise.
    IoError,
    /// A datagram came whose compressed payload could not be unpacked.
    Undecodable,
}

/// Why a packet was dropped.
#[derive(Debug, Clone, Copy, PartialEq, Eq, Structural)]
pub enum DropReason {
    /// Its header could not be decoded.
    Header(ReadHeaderError),
    /// Its command was rejected.
    Command(DispatchError),
}

/// What the receiver does next.
#[derive(Debug, Clone, Copy, PartialEq, Eq, Structural)]
pub enum ReceiverAction {
    /// Try to receive a datagram without blocking.
    Receive,
    /// Sleep for so many milliseconds, then poll the stop signal.
    Sleep(u64),
    /// Log that the packet was dropped, then poll the stop signal.
    /// `truncated` asks for a warning that the datagram filled the buffer.
    Drop { reason: DropReason, truncated: bool },
    /// Tell the consumer that a packet was applied, then poll the stop
    /// signal.
    NotifyApplied { truncated: bool },
    /// Tell the consumer that a hard reset was requested, and leave the
    /// loop.
    NotifyHardReset { truncated: bool },
    /// Leave the loop.
    Leave,
    /// Leave the loop and report the failure of the socket.
    Fail,
}

/// What an event in a state leads to: the next state and the action. A
/// receiver that has terminated stays so.
pub open spec fn next(state: ReceiverState, event: ReceiverEvent) -> (ReceiverState, ReceiverAction) {
    match state {
        ReceiverState::Terminated => (ReceiverState::Terminated, ReceiverAction::Leave),
        ReceiverState::Running => match event {
            ReceiverEvent::StopSignal(true) => (ReceiverState::Terminated, ReceiverAction::Leave),
            ReceiverEvent::StopSignal(false) => (ReceiverState::Running, ReceiverAction::Receive),
            ReceiverEvent::WouldBlock => (
                ReceiverState::Running,
                ReceiverAction::Sleep(POLL_INTERVAL_MS),
            ),
            ReceiverEvent::IoError => (ReceiverState::Terminated, ReceiverAction::Fail),
            ReceiverEvent::Undecodable => (
                ReceiverState::Running,
                ReceiverAction::Drop {
                    reason: DropReason::Command(DispatchError::UndecodablePayload),
                    truncated: false,
                },
            ),
        },
    }
}

/// What a datagram in a state leads to: the next state, the action and the
/// display.
pub struct Outcome {
    pub state: ReceiverState,
    pub action: ReceiverAction,
    pub view: DisplayView,
}

/// What a datagram in a state leads to. A receiver that has terminated
/// stays so and changes nothing. A datagram that fills the buffer may have
/// been cut and is handled all the same. A header that cannot be decoded
/// and a command that is rejected drop the packet; `CmdHardReset` ends the
/// session; every other command is applied.
pub open spec fn handled(
    state: ReceiverState,
    view: DisplayView,
    bytes: Seq<u8>,
    font: Seq<u8>,
) -> Outcome {
    let truncated = bytes.len() == RECEIVE_BUFFER_SIZE;
    match state {
        ReceiverState::Terminated => Outcome {
            state: ReceiverState::Terminated,
            action: ReceiverAction::Leave,
            view,
        },
        ReceiverState::Running => match decoded(bytes) {
            Err(e) => Outcome {
                state: ReceiverState::Running,
                action: ReceiverAction::Drop { reason: DropReason::Header(e), truncated },
                view,
            },
            Ok(header) => {
                let payload = bytes.subrange(HEADER_SIZE as int, bytes.len() as int);
                match rejection(header.command, header, payload.len() as int) {
                    Some(e) => Outcome {
                        state: ReceiverState::Running,
                        action: ReceiverAction::Drop { reason: DropReason::Command(e), truncated },
                        view,
                    },
                    None => if header.command == DisplayCommand::CmdHardReset {
                        Outcome {
                            state: ReceiverState::Terminated,
                            action: ReceiverAction::NotifyHardReset { truncated },
                            view,
                        }
                    } else {
                        Outcome {
                            state: ReceiverState::Running,
                            action: ReceiverAction::NotifyApplied { truncated },
                            view: applied(view, header.command, header, payload, font),
                        }
                    },
                }
            },
        },
    }
}

/// Decides what the receiver does next after an event.
pub fn step(state: ReceiverState, event: ReceiverEvent) -> (result: (ReceiverState, ReceiverAction))
    ensures
        result == next(state, event),
{
    match state {
        ReceiverState::Terminated => (ReceiverState::Terminated, ReceiverAction::Leave),
        ReceiverState::Running => match event {
            ReceiverEvent::StopSignal(true) => (ReceiverState::Terminated, ReceiverAction::Leave),
            ReceiverEvent::StopSignal(false) => (ReceiverState::Running, ReceiverAction::Receive),
            ReceiverEvent::WouldBlock => (
                ReceiverState::Running,
                ReceiverAction::Sleep(POLL_INTERVAL_MS),
            ),
            ReceiverEvent::IoError => (ReceiverState::Terminated, ReceiverAction::Fail),
            ReceiverEvent::Undecodable => (
                ReceiverState::Running,
                ReceiverAction::Drop {
                    reason: DropReason::Command(DispatchError::UndecodablePayload),
                    truncated: false,
                },
            ),
        },
    }
}

/// Decodes a datagram, applies its command to the display and decides
/// what the receiver does next.
///
/// The display is borrowed for this one call: whoever reads it sees it
/// before the command or after it, never between.
pub fn handle_datagram(
    state: ReceiverState,
    bytes: &[u8],
    display: &mut SharedDisplayState,
    font: &BitmapFont,
) -> (result: (ReceiverState, ReceiverAction))
    requires
        old(display).wf(),
        font.wf(),
    ensures
        final(display).wf(),
        (Outcome { state: result.0, action: result.1, view: final(display)@ }) == handled(
            state,
            old(display)@,
            bytes@,
            font@,
        ),
{
    if state == ReceiverState::Terminated {
        return (ReceiverState::Terminated, ReceiverAction::Leave);
    }
    let truncated = bytes.len() == RECEIVE_BUFFER_SIZE;
    let header = match read_header(bytes) {
        Err(e) => {
            return (
                ReceiverState::Running,
                ReceiverAction::Drop { reason: DropReason::Header(e), truncated },
            );
        },
        Ok(header) => header,
    };
    let payload = slice_subrange(bytes, HEADER_SIZE, bytes.len());
    match check(header.command, &header, payload.len()) {
        Err(e) => (
            ReceiverState::Running,
            ReceiverAction::Drop { reason: DropReason::Command(e), truncated },
        ),
        Ok(()) => {
            if apply(header.command, &header, payload, display, font) {
                (ReceiverState::Running, ReceiverAction::NotifyApplied { truncated })
            } else {
                (ReceiverState::Terminated, ReceiverAction::NotifyHardReset { truncated })
            }
        },
    }
}

/// One thing that happens to the receiver: an event, or a datagram with
/// its bytes.
pub enum Happening {
    Event(ReceiverEvent),
    Datagram(Seq<u8>),
}

/// The state and the display that one happening leads to.
pub open spec fn after(
    state: ReceiverState,
    view: DisplayView,
    happening: Happening,
    font: Seq<u8>,
) -> (ReceiverState, DisplayView) {
    match happening {
        Happening::Event(event) => (next(state, event).0, view),
        Happening::Datagram(bytes) => (
            handled(state, view, bytes, font).state,
            handled(state, view, bytes, font).view,
        ),
    }
}

/// The state and the display after a run of happenings: each is taken in
/// the state that the one before led to.
pub open spec fn after_all(
    state: ReceiverState,
    view: DisplayView,
    happenings: Seq<Happening>,
    font: Seq<u8>,
) -> (ReceiverState, DisplayView)
    decreases happenings.len(),
{
    if happenings.len() == 0 {
        (state, view)
    } else {
        let before = after_all(state, view, happenings.drop_last(), font);
        after(before.0, before.1, happenings.last(), font)
    }
}

/// A receiver that has terminated stays terminated, asks to leave the loop
/// and changes nothing, whatever happens.
pub proof fn lemma_terminated_is_final(
    view: DisplayView,
    happening: Happening,
    font: Seq<u8>,
)
    ensures
        after(ReceiverState::Terminated, view, happening, font) == (
            ReceiverState::Terminated,
            view,
        ),
        happening matches Happening::Event(event) ==> next(ReceiverState::Terminated, event).1
            == ReceiverAction::Leave,
        happening matches Happening::Datagram(bytes) ==> handled(
            ReceiverState::Terminated,
            view,
            bytes,
            font,
        ).action == ReceiverAction::Leave,
{
}

/// A stop signal that is set ends the receiver at once, in whatever state
/// it is.
pub proof fn lemma_stop_terminates(state: ReceiverState)
    ensures
        next(state, ReceiverEvent::StopSignal(true)) == (
            ReceiverState::Terminated,
            ReceiverAction::Leave,
        ),
{
}

/// While no datagram is waiting and the stop signal is not set, the
/// receiver stays running and sleeps for the polling interval between two
/// polls of the signal.
pub proof fn lemma_idle_round()
    ensures
        next(ReceiverState::Running, ReceiverEvent::StopSignal(false)) == (
            ReceiverState::Running,
            ReceiverAction::Receive,
        ),
        next(ReceiverState::Running, ReceiverEvent::WouldBlock) == (
            ReceiverState::Running,
            ReceiverAction::Sleep(POLL_INTERVAL_MS),
        ),
{
}

/// The receiver leaves the running state only for a stop signal that is
/// set, a failure of the socket or a hard reset that was decoded.
pub proof fn lemma_leaves_running_only_when_told(
    view: DisplayView,
    happening: Happening,
    font: Seq<u8>,
)
    requires
        after(ReceiverState::Running, view, happening, font).0 == ReceiverState::Terminated,
    ensures
        happening == Happening::Event(ReceiverEvent::StopSignal(true)) || happening
            == Happening::Event(ReceiverEvent::IoError) || (happening is Datagram && decoded(
            happening->Datagram_0,
        ) is Ok && decoded(happening->Datagram_0)->Ok_0.command == DisplayCommand::CmdHardReset),
{
}

/// A packet that is dropped changes nothing, and the receiver goes on.
pub proof fn lemma_drop_changes_nothing(view: DisplayView, bytes: Seq<u8>, font: Seq<u8>)
    requires
        handled(ReceiverState::Running, view, bytes, font).action is Drop,
    ensures
        handled(ReceiverState::Running, view, bytes, font).view == view,
        handled(ReceiverState::Running, view, bytes, font).state == ReceiverState::Running,
{
}

/// Only a packet that is applied changes the display, and it changes it as
/// its command says.
pub proof fn lemma_display_changes_only_when_applied(
    state: ReceiverState,
    view: DisplayView,
    bytes: Seq<u8>,
    font: Seq<u8>,
)
    ensures
        !(handled(state, view, bytes, font).action is NotifyApplied) ==> handled(
            state,
            view,
            bytes,
            font,
        ).view == view,
        handled(state, view, bytes, font).action is NotifyApplied ==> decoded(bytes) is Ok
            && handled(state, view, bytes, font).view == applied(
            view,
            decoded(bytes)->Ok_0.command,
            decoded(bytes)->Ok_0,
            bytes.subrange(HEADER_SIZE as int, bytes.len() as int),
            font,
        ),
{
}

/// Every happening keeps the size of the two grids of the display.
pub proof fn lemma_after_keeps_size(
    state: ReceiverState,
    view: DisplayView,
    happening: Happening,
    font: Seq<u8>,
)
    requires
        view.wf(),
    ensures
        after(state, view, happening, font).1.wf(),
{
}

/// Once terminated, the receiver is terminated after every run of
/// happenings, and the display is as it was.
pub proof fn lemma_terminated_stays(view: DisplayView, happenings: Seq<Happening>, font: Seq<u8>)
    ensures
        after_all(ReceiverState::Terminated, view, happenings, font) == (
            ReceiverState::Terminated,
            view,
        ),
    decreases happenings.len(),
{
    if happenings.len() > 0 {
        lemma_terminated_stays(view, happenings.drop_last(), font);
    }
}

/// A run of happenings in which the stop signal is seen set ends with the
/// receiver terminated, whatever came before and whatever comes after.
pub proof fn lemma_stop_ends_run(
    state: ReceiverState,
    view: DisplayView,
    happenings: Seq<Happening>,
    font: Seq<u8>,
    k: int,
)
    requires
        0 <= k < happenings.len(),
        happenings[k] == Happening::Event(ReceiverEvent::StopSignal(true)),
    ensures
        after_all(state, view, happenings, font).0 == ReceiverState::Terminated,
    decreases happenings.len(),
{
    if k < happenings.len() - 1 {
        lemma_stop_ends_run(state, view, happenings.drop_last(), font, k);
    }
}

} // verus!
