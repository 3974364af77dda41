//! The CAN socket: the protocol engine that sits between a caller and a byte
//! transport.
//!
//! The socket performs no I/O. For the outbound direction it builds the bytes
//! that the caller hands to the transport; for the inbound direction it takes
//! the bytes that the transport delivered, one at a time ([`CanSocket::feed`])
//! or as many as are at hand ([`CanSocket::read`]). Between calls it owns the
//! line accumulator, whose model, [`LineState`], is the socket's view.
//! [`polled`] is the model of a whole read.

use crate::error::SlcanError;
use crate::frame::{
    decode_line, decoded, encode_transmit, result_view, transmit_command, BitRate, CanFrame,
    FrameView, CARRIAGE_RETURN, MAX_DATA,
};
use crate::line::{LineAccumulator, LineState};
use vstd::prelude::*;

verus! {

/// The bytes that set an adapter up for `bitrate`: `S`, the bit rate's code
/// and a carriage return.
pub open spec fn setup_command(bitrate: BitRate) -> Seq<u8> {
    seq!['S' as u8, bitrate.spec_code(), CARRIAGE_RETURN]
}

/// The bytes that open the adapter's channel: `O` and a carriage return.
pub open spec fn open_command() -> Seq<u8> {
    seq!['O' as u8, CARRIAGE_RETURN]
}

/// The bytes that close the adapter's channel: `C` and a carriage return.
pub open spec fn close_command() -> Seq<u8> {
    seq!['C' as u8, CARRIAGE_RETURN]
}

/// What the socket reports for a line that the accumulator handed on: what
/// the line decodes to, but that an unsupported command counts as no frame
/// yet and not as an error.
pub open spec fn line_outcome(line: Seq<u8>) -> Result<FrameView, SlcanError> {
    match decoded(line) {
        Err(SlcanError::UnsupportedCommand) => Err(SlcanError::NotReady),
        outcome => outcome,
    }
}

/// What the socket in state `st` reports when the byte `s` arrives: nothing
/// while no line is handed on, else the outcome of the line.
pub open spec fn fed(st: LineState, s: u8) -> Option<Result<FrameView, SlcanError>> {
    if st.completes(s) {
        Some(line_outcome(st.pending))
    } else {
        None
    }
}

/// The model of one read: how many bytes it took, the state it left, and
/// what it reported.
pub struct Polled {
    pub consumed: nat,
    pub state: LineState,
    pub result: Result<FrameView, SlcanError>,
}

impl Polled {
    /// The same read, seen from `n` bytes earlier in the input.
    pub open spec fn shifted(self, n: nat) -> Polled {
        Polled { consumed: self.consumed + n, state: self.state, result: self.result }
    }
}

/// What a read in state `st` makes of the bytes `input`: it takes bytes up to
/// and including the first one that completes a line and reports what that
/// line holds; if no byte does, it takes them all and reports that no frame is
/// ready.
pub open spec fn polled(st: LineState, input: Seq<u8>) -> Polled
    decreases input.len(),
{
    if input.len() == 0 {
        Polled { consumed: 0, state: st, result: Err(SlcanError::NotReady) }
    } else if st.completes(input[0]) {
        Polled { consumed: 1, state: st.after(input[0]), result: line_outcome(st.pending) }
    } else {
        polled(st.after(input[0]), input.skip(1)).shifted(1)
    }
}

/// The model of what [`CanSocket::feed`] returns.
pub open spec fn step_view(r: Option<Result<CanFrame, SlcanError>>) -> Option<
    Result<FrameView, SlcanError>,
> {
    match r {
        Some(result) => Some(result_view(result)),
        None => None,
    }
}

/// The protocol engine of an SLCAN connection.
pub struct CanSocket {
    lines: LineAccumulator,
}

impl View for CanSocket {
    type V = LineState;

    closed spec fn view(&self) -> LineState {
        self.lines@
    }
}

impl CanSocket {
    /// A socket at the start of a line.
    pub fn new() -> (socket: Self)
        ensures
            socket@ == LineState::fresh(),
            socket@.wf(),
    {
        CanSocket { lines: LineAccumulator::new() }
    }

    /// The two commands that open a connection at `bitrate`, in the order in
    /// which they are to be written: the setup command, then the command that
    /// opens the channel.
    pub fn open(&self, bitrate: BitRate) -> (commands: ([u8; 3], [u8; 2]))
        ensures
            commands.0@ == setup_command(bitrate),
            commands.1@ == open_command(),
    {
        let setup = ['S' as u8, bitrate.code(), CARRIAGE_RETURN];
        let open = ['O' as u8, CARRIAGE_RETURN];
        assert(setup@ =~= setup_command(bitrate));
        assert(open@ =~= open_command());
        (setup, open)
    }

    /// The command that closes the connection.
    pub fn close(&self) -> (command: [u8; 2])
        ensures
            command@ == close_command(),
    {
        let command = ['C' as u8, CARRIAGE_RETURN];
        assert(command@ =~= close_command());
        command
    }

    /// The bytes to write in order to transmit `data` under identifier `id`.
    /// A payload of more than eight bytes is refused, and nothing is to be
    /// written then.
    pub fn write(&self, id: u32, data: &[u8]) -> (r: Result<Vec<u8>, SlcanError>)
        ensures
            data@.len() <= MAX_DATA ==> r is Ok && r->Ok_0@ == transmit_command(id, data@),
            data@.len() > MAX_DATA ==> r == Err::<Vec<u8>, SlcanError>(SlcanError::InvalidLength),
    {
        encode_transmit(id, data)
    }

    /// Takes one byte that the transport delivered. Returns `None` while the
    /// read is to go on with the next byte, and the outcome of the read once
    /// the byte has completed a line.
    pub fn feed(&mut self, s: u8) -> (r: Option<Result<CanFrame, SlcanError>>)
        ensures
            final(self)@ == old(self)@.after(s),
            final(self)@.wf(),
            step_view(r) == fed(old(self)@, s),
            r matches Some(Ok(frame)) ==> frame@.wf(),
    {
        match self.lines.push(s) {
            Some(line) => {
                match decode_line(line.as_slice()) {
                    Err(SlcanError::UnsupportedCommand) => Some(Err(SlcanError::NotReady)),
                    outcome => Some(outcome),
                }
            },
            None => None,
        }
    }

    /// Takes the bytes that the transport has at hand. Stops behind the first
    /// byte that completes a line and returns what that line holds; if no byte
    /// does, takes all of them and returns `NotReady`. The first component of
    /// the result is the number of bytes taken.
    pub fn read(&mut self, input: &[u8]) -> (r: (usize, Result<CanFrame, SlcanError>))
        ensures
            r.0 == polled(old(self)@, input@).consumed,
            final(self)@ == polled(old(self)@, input@).state,
            result_view(r.1) == polled(old(self)@, input@).result,
            r.0 <= input@.len(),
            r.1 matches Ok(frame) ==> frame@.wf(),
            final(self)@.wf(),
    {
        let mut i: usize = 0;
        proof {
            use_type_invariant(&self.lines);
            self.lines.lemma_inv_is_wf();
            assert(input@.skip(0) == input@);
        }
        while i < input.len()
            invariant
                i <= input@.len(),
                self@.wf(),
                polled(old(self)@, input@) == polled(self@, input@.skip(i as int)).shifted(
                    i as nat,
                ),
            decreases input@.len() - i,
        {
            let ghost rest = input@.skip(i as int);
            assert(rest[0] == input@[i as int]);
            assert(rest.skip(1) == input@.skip(i + 1));
            match self.feed(input[i]) {
                Some(result) => {
                    return (i + 1, result);
                },
                None => {},
            }
            i += 1;
        }
        assert(input@.skip(i as int).len() == 0);
        (i, Err(SlcanError::NotReady))
    }
}

} // verus!
