//! Error types, and how the library's errors are signalled to callers that
//! speak `std::io` or the non-blocking convention of the `nb` crate.
//!
//! The protocol engine reports its own [`SlcanError`]. A caller that sits on
//! a byte transport has I/O errors of its own to report beside them, so
//! [`to_io_error`] expresses a protocol error as an I/O error of the kind
//! that [`signal_kind`] lays down, and [`non_blocking`] sorts I/O errors into
//! "would block, ask again" and failures proper. A failure proper travels in
//! an [`IOError`], unchanged.

use std::io;
use vstd::prelude::*;
use vstd::std_specs::convert::FromSpecImpl;

verus! {

/// What can go wrong while encoding or decoding.
#[derive(Clone, Copy, Debug, PartialEq, Eq, Structural)]
pub enum SlcanError {
    /// A byte outside `[0-9a-fA-F]` stood where a hex digit was expected.
    InvalidHexDigit,
    /// More than eight payload bytes were handed to the encoder.
    InvalidLength,
    /// A received line does not have the structure of the command it announces.
    MalformedFrame,
    /// A received line carries a command other than a frame transmission.
    UnsupportedCommand,
    /// No complete frame is available yet.
    NotReady,
}

/// `std::io::Error`. The verifier carries its values through as they are and
/// sees nothing inside them.
#[verifier::external_type_specification]
#[verifier::external_body]
pub struct ExIoError(std::io::Error);

/// `std::io::ErrorKind`, with its variants.
#[verifier::external_type_specification]
pub struct ExIoErrorKind(std::io::ErrorKind);

/// `nb::Error`, with its two variants: `Other`, which holds an error, and
/// `WouldBlock`.
#[verifier::external_type_specification]
#[verifier::reject_recursive_types(E)]
pub struct ExNbError<E>(nb::Error<E>);

/// The kind of an I/O error: what `std::io::Error::kind` returns for it.
pub uninterp spec fn io_error_kind(e: io::Error) -> io::ErrorKind;

/// `std::io::Error::new`. Trusted: the error it makes is of the kind that it
/// was given. Nothing is claimed of the message.
#[verifier::external_body]
fn new_io_error(kind: io::ErrorKind, message: &str) -> (e: io::Error)
    ensures
        io_error_kind(e) == kind,
{
    std::io::Error::new(kind, message)
}

/// `std::io::Error::kind`. Trusted: its result is the error's kind, the same
/// at every call.
#[verifier::external_body]
fn kind_of(e: &io::Error) -> (kind: io::ErrorKind)
    ensures
        kind == io_error_kind(*e),
{
    e.kind()
}

/// The kind of I/O error by which a protocol error is signalled. What is no
/// frame yet, and what is benign traffic that this library does not decode,
/// would block; what could not be decoded is invalid data; what the caller
/// must not ask for is invalid input.
pub open spec fn signal_kind(e: SlcanError) -> io::ErrorKind {
    match e {
        SlcanError::InvalidLength => io::ErrorKind::InvalidInput,
        SlcanError::NotReady => io::ErrorKind::WouldBlock,
        SlcanError::UnsupportedCommand => io::ErrorKind::WouldBlock,
        SlcanError::MalformedFrame => io::ErrorKind::InvalidData,
        SlcanError::InvalidHexDigit => io::ErrorKind::InvalidData,
    }
}

/// Expresses a protocol error as an I/O error.
pub fn to_io_error(e: SlcanError) -> (r: io::Error)
    ensures
        io_error_kind(r) == signal_kind(e),
{
    match e {
        SlcanError::InvalidLength => new_io_error(io::ErrorKind::InvalidInput, "data length"),
        SlcanError::NotReady => new_io_error(io::ErrorKind::WouldBlock, ""),
        SlcanError::UnsupportedCommand => new_io_error(io::ErrorKind::WouldBlock, ""),
        SlcanError::MalformedFrame => new_io_error(io::ErrorKind::InvalidData, ""),
        SlcanError::InvalidHexDigit => new_io_error(io::ErrorKind::InvalidData, ""),
    }
}

/// A failure of the byte transport, carried unchanged to the caller.
#[derive(Debug)]
pub struct IOError(io::Error);

impl View for IOError {
    type V = io::Error;

    /// The transport's own error.
    closed spec fn view(&self) -> io::Error {
        self.0
    }
}

impl IOError {
    /// The transport's own error.
    pub fn inner(&self) -> (e: &io::Error)
        ensures
            *e == self@,
    {
        &self.0
    }

    /// Gives the transport's own error back.
    pub fn into_inner(self) -> (e: io::Error)
        ensures
            e == self@,
    {
        self.0
    }
}

impl From<io::Error> for IOError {
    fn from(e: io::Error) -> (r: Self)
        ensures
            r@ == e,
    {
        Self(e)
    }
}

impl FromSpecImpl<io::Error> for IOError {
    open spec fn obeys_from_spec() -> bool {
        true
    }

    closed spec fn from_spec(e: io::Error) -> Self {
        IOError(e)
    }
}

/// Sorts an I/O error for a caller that polls: an error of the kind
/// `WouldBlock` becomes the non-blocking "would block", and every other
/// error is a failure that is handed on as it is.
pub fn non_blocking(e: io::Error) -> (r: nb::Error<IOError>)
    ensures
        io_error_kind(e) == io::ErrorKind::WouldBlock ==> r == nb::Error::<IOError>::WouldBlock,
        io_error_kind(e) != io::ErrorKind::WouldBlock ==> (r matches nb::Error::Other(carried)
            && carried@ == e),
{
    match kind_of(&e) {
        io::ErrorKind::WouldBlock => nb::Error::WouldBlock,
        _ => nb::Error::Other(IOError::from(e)),
    }
}

/// The protocol errors that are signalled as would-block are "no frame yet"
/// and "unsupported command", and no others.
pub proof fn lemma_benign_errors_would_block(e: SlcanError)
    ensures
        signal_kind(e) == io::ErrorKind::WouldBlock <==> (e == SlcanError::NotReady || e
            == SlcanError::UnsupportedCommand),
{
}

} // verus!
