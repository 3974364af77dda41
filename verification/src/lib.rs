//! SLCAN (serial-line CAN) protocol engine.
//!
//! SLCAN tunnels CAN bus frames over a byte stream as ASCII lines that end in
//! a carriage return. This crate holds the protocol itself and performs no
//! I/O: outbound frames are turned into the bytes to put on the wire, and
//! inbound bytes are gathered into lines and decoded back into frames. Every
//! function carries a contract over a mathematical model of the wire format,
//! and the contracts are machine-checked.
//!
//! * [`hex`]: conversions between nibbles, bytes and ASCII hex digits.
//! * [`frame`]: the CAN frame, the bit rates, and the frame encoder and decoder.
//! * [`id`]: raw identifiers and the identifier types of `embedded_can`.
//! * [`line`]: the byte-at-a-time line accumulator.
//! * [`socket`]: the socket, which composes the above.
//! * [`error`]: the error types, and how errors are signalled to callers that
//!   speak `std::io` or the non-blocking convention of `nb`.
//! * [`laws`]: theorems that relate the encoder, the accumulator and the decoder.
//!
//! What is not proved but taken on trust is little and is marked as such where
//! it stands: the meaning of `std::io::Error::new` and `std::io::Error::kind`
//! in [`error`], and of `new` and `as_raw` of the two identifier types of
//! `embedded_can` in [`id`].

pub mod error;
pub mod frame;
pub mod hex;
pub mod id;
pub mod laws;
pub mod line;
pub mod socket;

pub use error::{IOError, SlcanError};
pub use frame::{BitRate, CanFrame};
pub use line::LineAccumulator;
pub use socket::CanSocket;
