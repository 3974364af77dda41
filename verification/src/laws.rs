//! Theorems that relate the encoder, the line accumulator and the decoder.
//!
//! They are stated over the models that the contracts of the executable
//! functions use: [`transmit_command`] for what the encoder writes,
//! [`polled`] for what a read makes of the bytes it is given, and
//! [`LineState`] for the accumulator between two bytes.

use crate::error::SlcanError;
use crate::frame::{
    decoded, frame_of, lemma_decode_inverts_encode, transmit_command, transmit_line, FrameView,
    CARRIAGE_RETURN, MAX_DATA, MIN_LINE, TRANSMIT_COMMAND,
};
use crate::hex::{
    hex_string, is_hex_digit, lemma_hex_digit_inverse, lemma_hex_string_inverse,
    lemma_three_hex_digits_inverse, three_hex_digits,
};
use crate::line::{is_terminator, no_terminator, LineState, MAX_LINE};
use crate::socket::{line_outcome, polled, Polled};
use vstd::prelude::*;

verus! {

/// A read that meets no terminator takes every byte and reports that no frame
/// is ready. An errored line stays as it is; a line that still fits the buffer
/// grows by the bytes; a line that does not fit ends up errored.
pub proof fn lemma_polled_without_terminator(st: LineState, bytes: Seq<u8>)
    requires
        no_terminator(bytes),
    ensures
        polled(st, bytes).consumed == bytes.len(),
        polled(st, bytes).result == Err::<FrameView, SlcanError>(SlcanError::NotReady),
        st.errored ==> polled(st, bytes).state == st,
        !st.errored && st.pending.len() + bytes.len() <= MAX_LINE ==> polled(st, bytes).state == (
        LineState { pending: st.pending + bytes, errored: false }),
        st.wf() && st.pending.len() + bytes.len() > MAX_LINE ==> polled(st, bytes).state.errored,
    decreases bytes.len(),
{
    if bytes.len() == 0 {
        assert(st.pending + bytes =~= st.pending);
    } else {
        let next = st.after(bytes[0]);
        let rest = bytes.skip(1);
        assert(!is_terminator(bytes[0]));
        assert forall|i: int| 0 <= i < rest.len() implies !is_terminator(#[trigger] rest[i]) by {
            assert(rest[i] == bytes[i + 1]);
        }
        lemma_polled_without_terminator(next, rest);
        if !st.errored && st.pending.len() + bytes.len() <= MAX_LINE {
            assert(next.pending + rest =~= st.pending + bytes);
        }
    }
}

/// Bounded memory: whatever bytes arrive, the line so far never outgrows the
/// buffer.
pub proof fn lemma_line_stays_bounded(st: LineState, input: Seq<u8>)
    requires
        st.wf(),
    ensures
        input.len() > 0 ==> st.after(input[0]).wf(),
        polled(st, input).state.wf(),
        polled(st, input).consumed <= input.len(),
    decreases input.len(),
{
    if input.len() > 0 {
        lemma_line_stays_bounded(st.after(input[0]), input.skip(1));
    }
}

/// A read goes through bytes that hold no terminator as if they had been read
/// before: it ends where a read of what follows them ends, in the state that
/// they left.
pub proof fn lemma_polled_split(st: LineState, head: Seq<u8>, tail: Seq<u8>)
    requires
        no_terminator(head),
    ensures
        polled(st, head + tail) == polled(polled(st, head).state, tail).shifted(head.len()),
    decreases head.len(),
{
    if head.len() == 0 {
        assert(head + tail =~= tail);
    } else {
        let all = head + tail;
        let rest = head.skip(1);
        assert(all[0] == head[0]);
        assert(!is_terminator(head[0]));
        assert(all.skip(1) =~= rest + tail);
        assert forall|i: int| 0 <= i < rest.len() implies !is_terminator(#[trigger] rest[i]) by {
            assert(rest[i] == head[i + 1]);
        }
        lemma_polled_split(st.after(head[0]), rest, tail);
    }
}

/// A read of a single byte takes it. It reports the line that the byte
/// completes, if it completes one, and else that no frame is ready.
pub proof fn lemma_polled_one(st: LineState, s: u8)
    ensures
        polled(st, seq![s]) == (Polled {
            consumed: 1,
            state: st.after(s),
            result: if st.completes(s) {
                line_outcome(st.pending)
            } else {
                Err(SlcanError::NotReady)
            },
        }),
{
    let one = seq![s];
    assert(one[0] == s);
    assert(one.skip(1).len() == 0);
    reveal_with_fuel(polled, 2);
}

/// After a terminator the socket is at the start of a line, whatever came
/// before: no line, however corrupt, reaches into the next.
pub proof fn lemma_fresh_after_line(st: LineState, line: Seq<u8>, terminator: u8)
    requires
        no_terminator(line),
        is_terminator(terminator),
    ensures
        polled(st, line.push(terminator)).consumed == line.len() + 1,
        polled(st, line.push(terminator)).state == LineState::fresh(),
{
    let end = seq![terminator];
    assert(line.push(terminator) =~= line + end);
    lemma_polled_split(st, line, end);
    lemma_polled_without_terminator(st, line);
    lemma_polled_one(polled(st, line).state, terminator);
}

/// A socket at the start of a line that reads a line of a length from that
/// of the shortest command to that of the buffer, and its terminator, takes
/// all of it and reports what the line holds.
pub proof fn lemma_line_is_decoded(line: Seq<u8>, terminator: u8)
    requires
        no_terminator(line),
        is_terminator(terminator),
        MIN_LINE <= line.len() <= MAX_LINE,
    ensures
        polled(LineState::fresh(), line.push(terminator)) == (Polled {
            consumed: line.len() + 1,
            state: LineState::fresh(),
            result: line_outcome(line),
        }),
{
    let end = seq![terminator];
    assert(line.push(terminator) =~= line + end);
    lemma_polled_split(LineState::fresh(), line, end);
    lemma_polled_without_terminator(LineState::fresh(), line);
    let full = polled(LineState::fresh(), line).state;
    assert(full.pending =~= line);
    lemma_polled_one(full, terminator);
}

/// Round trip: a socket at the start of a line that reads the bytes of a
/// transmit command takes all of them and reports the frame that was encoded:
/// the same payload, the same length, zero padding, and the low twelve bits
/// of the identifier, which are the identifier itself if it is at most 0xFFF.
/// It is at the start of a line again afterwards.
pub proof fn lemma_transmit_round_trip(id: u32, data: Seq<u8>)
    requires
        data.len() <= MAX_DATA,
    ensures
        polled(LineState::fresh(), transmit_command(id, data)) == (Polled {
            consumed: transmit_command(id, data).len(),
            state: LineState::fresh(),
            result: Ok(frame_of((id % 0x1000) as u32, data)),
        }),
        frame_of((id % 0x1000) as u32, data).dlc == data.len(),
        frame_of((id % 0x1000) as u32, data).payload() == data,
        id <= 0xFFF ==> frame_of((id % 0x1000) as u32, data).id == id,
{
    lemma_transmit_line_shape(id, data);
    lemma_decode_inverts_encode(id, data);
    lemma_line_is_decoded(transmit_line(id, data), CARRIAGE_RETURN);
}

/// A transmit line holds no terminator, is long enough to be handed on and
/// fits the line buffer.
pub proof fn lemma_transmit_line_shape(id: u32, data: Seq<u8>)
    requires
        data.len() <= MAX_DATA,
    ensures
        no_terminator(transmit_line(id, data)),
        transmit_line(id, data).len() == MIN_LINE + 2 * data.len(),
        MIN_LINE <= transmit_line(id, data).len() <= MAX_LINE,
{
    let line = transmit_line(id, data);
    lemma_three_hex_digits_inverse(id);
    lemma_hex_string_inverse(data);
    lemma_hex_digit_inverse(data.len());
    assert forall|i: int| 0 <= i < line.len() implies !is_terminator(#[trigger] line[i]) by {
        if i == 0 {
            assert(line[i] == TRANSMIT_COMMAND);
        } else if i < 4 {
            assert(line[i] == three_hex_digits(id)[i - 1]);
            assert(is_hex_digit(line[i]));
        } else if i == 4 {
            assert(is_hex_digit(line[i]));
        } else {
            assert(line[i] == hex_string(data)[i - 5]);
            assert(is_hex_digit(line[i]));
        }
    }
}

/// Noise tolerance: a line that ends before it has the length of the
/// shortest command is absorbed. The read takes the line and its terminator,
/// attempts no decoding, reports that no frame is ready, and leaves the
/// socket at the start of a line. The same holds of any line that ends while
/// the socket is errored.
pub proof fn lemma_short_line_absorbed(st: LineState, noise: Seq<u8>, terminator: u8)
    requires
        no_terminator(noise),
        is_terminator(terminator),
        st.errored || st.pending.len() + noise.len() < MIN_LINE,
    ensures
        polled(st, noise.push(terminator)) == (Polled {
            consumed: noise.len() + 1,
            state: LineState::fresh(),
            result: Err(SlcanError::NotReady),
        }),
{
    let end = seq![terminator];
    assert(noise.push(terminator) =~= noise + end);
    lemma_polled_split(st, noise, end);
    lemma_polled_without_terminator(st, noise);
    lemma_polled_one(polled(st, noise).state, terminator);
}

/// A line that is absorbed does not hold the read up: what follows it is read
/// as by a socket at the start of a line.
pub proof fn lemma_read_goes_on_after_short_line(
    st: LineState,
    noise: Seq<u8>,
    terminator: u8,
    rest: Seq<u8>,
)
    requires
        no_terminator(noise),
        is_terminator(terminator),
        st.errored || st.pending.len() + noise.len() < MIN_LINE,
    ensures
        polled(st, noise.push(terminator) + rest) == polled(LineState::fresh(), rest).shifted(
            noise.len() + 1,
        ),
{
    let all = noise.push(terminator) + rest;
    let tail = seq![terminator] + rest;
    assert(all =~= noise + tail);
    lemma_polled_split(st, noise, tail);
    lemma_polled_without_terminator(st, noise);
    let at_end = polled(st, noise).state;
    assert(!at_end.completes(terminator));
    assert(tail[0] == terminator);
    assert(tail.skip(1) =~= rest);
}

/// Overflow containment: bytes without a terminator that outgrow the line
/// buffer leave the socket errored, with every byte taken and no error
/// reported. The terminator that follows is absorbed and resets the socket,
/// and what follows the terminator is read as by a socket at the start of a
/// line.
pub proof fn lemma_overflow_contained(
    st: LineState,
    noise: Seq<u8>,
    terminator: u8,
    rest: Seq<u8>,
)
    requires
        st.wf(),
        no_terminator(noise),
        is_terminator(terminator),
        st.pending.len() + noise.len() > MAX_LINE,
    ensures
        polled(st, noise).consumed == noise.len(),
        polled(st, noise).state.errored,
        polled(st, noise).result == Err::<FrameView, SlcanError>(SlcanError::NotReady),
        polled(st, noise.push(terminator)) == (Polled {
            consumed: noise.len() + 1,
            state: LineState::fresh(),
            result: Err(SlcanError::NotReady),
        }),
        polled(st, noise.push(terminator) + rest) == polled(LineState::fresh(), rest).shifted(
            noise.len() + 1,
        ),
{
    lemma_polled_without_terminator(st, noise);
    let errored = polled(st, noise).state;
    let end = seq![terminator];
    assert(noise.push(terminator) =~= noise + end);
    lemma_polled_split(st, noise, end);
    lemma_polled_one(errored, terminator);
    let tail = seq![terminator] + rest;
    assert(noise.push(terminator) + rest =~= noise + tail);
    lemma_polled_split(st, noise, tail);
    assert(tail[0] == terminator);
    assert(tail.skip(1) =~= rest);
}

/// Malformed lines surface: a line that the accumulator hands on and that
/// the decoder finds malformed is reported as a malformed frame, not dropped,
/// and the socket is at the start of a line afterwards.
pub proof fn lemma_malformed_line_surfaces(line: Seq<u8>, terminator: u8)
    requires
        no_terminator(line),
        is_terminator(terminator),
        MIN_LINE <= line.len() <= MAX_LINE,
        decoded(line) == Err::<FrameView, SlcanError>(SlcanError::MalformedFrame),
    ensures
        polled(LineState::fresh(), line.push(terminator)) == (Polled {
            consumed: line.len() + 1,
            state: LineState::fresh(),
            result: Err(SlcanError::MalformedFrame),
        }),
{
    lemma_line_is_decoded(line, terminator);
}

} // verus!
