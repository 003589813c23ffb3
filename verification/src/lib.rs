//! Protocol core of a networked pixel-display receiver.
//!
//! The crate decodes the fixed ten-byte command header of the display's
//! datagram protocol ([`protocol`]), applies decoded commands to the
//! in-memory display state ([`dispatch`], [`display`]) and decides what the
//! packet receiver does next ([`receiver`]).
//!
//! Every function is verified against the contract stated on it, with one
//! exception: the display state lives in the grids of the `servicepoint2`
//! crate, and the contracts of the few private functions in [`display`]
//! that call into that crate are taken on trust.

pub mod dispatch;
pub mod display;
pub mod protocol;
pub mod receiver;
