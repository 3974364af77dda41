//! The line accumulator: a byte-at-a-time state machine that gathers the
//! bytes of a transport into lines.
//!
//! A line ends at a carriage return or a bell. It is handed on only if it has
//! at least [`MIN_LINE`] bytes and did not outgrow the buffer; shorter lines,
//! such as the bare carriage return by which an adapter acknowledges a
//! command, are absorbed in silence, and so are lines that were too long.
//! Whatever a line was, the accumulator starts afresh after its terminator.
//!
//! [`LineState`] is the mathematical model of the accumulator and
//! [`LineState::after`] and [`LineState::completes`] are its transition rules.

use crate::frame::{BELL, CARRIAGE_RETURN, MIN_LINE};
use vstd::prelude::*;
use vstd::slice::{slice_subrange, slice_to_vec};

verus! {

/// The capacity of the line buffer: the longest line that an adapter sends (an
/// extended frame with eight data bytes and a time stamp) with its terminator,
/// and one byte to spare.
pub const MAX_LINE: usize = 32;

/// Whether `s` ends a line.
pub open spec fn is_terminator(s: u8) -> bool {
    s == CARRIAGE_RETURN || s == BELL
}

/// Whether no byte of `bytes` ends a line.
pub open spec fn no_terminator(bytes: Seq<u8>) -> bool {
    forall|i: int| 0 <= i < bytes.len() ==> !is_terminator(#[trigger] bytes[i])
}

/// The mathematical model of a [`LineAccumulator`]: the bytes of the current
/// line so far, and whether the current line has outgrown the buffer.
pub struct LineState {
    pub pending: Seq<u8>,
    pub errored: bool,
}

impl LineState {
    /// The state at the start of a line.
    pub open spec fn fresh() -> LineState {
        LineState { pending: Seq::empty(), errored: false }
    }

    /// The accumulator's invariant: the line so far fits the buffer.
    pub open spec fn wf(self) -> bool {
        self.pending.len() <= MAX_LINE
    }

    /// Whether the byte `s` ends a line that is handed on: `s` is a
    /// terminator, the line did not outgrow the buffer, and it is long enough
    /// to hold a command. The line handed on is then `self.pending`.
    pub open spec fn completes(self, s: u8) -> bool {
        is_terminator(s) && !self.errored && self.pending.len() >= MIN_LINE
    }

    /// The state after the byte `s`. A terminator starts a fresh line. Any
    /// other byte is appended while there is room; the first byte that finds
    /// none marks the line as errored, and an errored line drops every byte.
    pub open spec fn after(self, s: u8) -> LineState {
        if is_terminator(s) {
            LineState::fresh()
        } else if self.errored {
            self
        } else if self.pending.len() < MAX_LINE {
            LineState { pending: self.pending.push(s), errored: false }
        } else {
            LineState { pending: self.pending, errored: true }
        }
    }
}

/// A fixed buffer that gathers bytes into lines.
pub struct LineAccumulator {
    buf: [u8; MAX_LINE],
    count: usize,
    errored: bool,
}

impl View for LineAccumulator {
    type V = LineState;

    closed spec fn view(&self) -> LineState {
        LineState { pending: self.buf@.take(self.count as int), errored: self.errored }
    }
}

impl LineAccumulator {
    /// The invariant that every accumulator keeps: the count of buffered bytes
    /// does not exceed the buffer.
    #[verifier::type_invariant]
    pub closed spec fn inv(self) -> bool {
        self.count <= MAX_LINE
    }

    /// What the invariant means for the model: the line so far fits the
    /// buffer.
    pub proof fn lemma_inv_is_wf(self)
        requires
            self.inv(),
        ensures
            self@.wf(),
    {
    }

    /// An accumulator at the start of a line.
    pub fn new() -> (acc: Self)
        ensures
            acc@ == LineState::fresh(),
            acc@.wf(),
    {
        let acc = LineAccumulator { buf: [0u8; MAX_LINE], count: 0, errored: false };
        assert(acc@.pending =~= Seq::<u8>::empty());
        acc
    }

    /// Takes one byte from the transport. Returns the line that the byte
    /// completes, without the terminator, if it completes one that is handed
    /// on.
    pub fn push(&mut self, s: u8) -> (line: Option<Vec<u8>>)
        ensures
            final(self)@ == old(self)@.after(s),
            final(self)@.wf(),
            old(self)@.completes(s) ==> line is Some && line->Some_0@ == old(self)@.pending,
            !old(self)@.completes(s) ==> line is None,
    {
        proof {
            use_type_invariant(&*self);
        }
        if s == CARRIAGE_RETURN || s == BELL {
            let valid = !self.errored && self.count >= MIN_LINE;
            let len = self.count;
            self.errored = false;
            self.count = 0;
            assert(self@.pending =~= Seq::<u8>::empty());
            if valid {
                let line = slice_to_vec(slice_subrange(self.buf.as_slice(), 0, len));
                assert(line@ =~= old(self)@.pending);
                Some(line)
            } else {
                None
            }
        } else if !self.errored {
            if self.count < MAX_LINE {
                self.buf[self.count] = s;
                self.count += 1;
                assert(self@.pending =~= old(self)@.pending.push(s));
            } else {
                self.errored = true;
            }
            None
        } else {
            None
        }
    }
}

} // verus!
