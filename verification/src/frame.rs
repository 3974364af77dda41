//! The CAN frame, the bit rates, and the frame encoder and decoder.
//!
//! On the wire a frame is the line
//! `t<3 hex id digits><1 dlc digit><2*dlc hex data digits>` followed by a
//! carriage return. [`transmit_command`] is the model of what the encoder
//! writes and [`decoded`] the model of what the decoder reads; both speak of
//! plain byte sequences.

use crate::error::SlcanError;
use crate::hex::{
    all_hex_digits, bytes_to_hex, hex_bytes, hex_digit, hex_digits_to_u32, hex_number,
    hex_string, is_hex_digit, lemma_hex_number_bound, lemma_hex_string_inverse,
    lemma_three_hex_digits_inverse, three_hex_digits, two_hex_digits_to_byte,
    u32_to_three_hex_digits, value_to_hex_digit,
};
use crate::id::{id_of_raw, id_raw, EXTENDED_ID_MAX, STANDARD_ID_MAX};
use embedded_can::Id;
use vstd::prelude::*;
use vstd::slice::slice_subrange;

verus! {

/// The byte that ends a line.
pub const CARRIAGE_RETURN: u8 = 0x0D;

/// The byte by which an adapter ends a line that it reports an error for.
pub const BELL: u8 = 0x07;

/// The command character of a frame transmission, `t`.
pub const TRANSMIT_COMMAND: u8 = 0x74;

/// The largest number of payload bytes in a frame.
pub const MAX_DATA: usize = 8;

/// The length of the shortest line that can hold a command: one command
/// character, three identifier digits and one length digit.
pub const MIN_LINE: usize = 5;

/// The standard CAN bit rates that an adapter can be set up with.
#[derive(Clone, Copy, Debug, PartialEq, Eq, Structural)]
pub enum BitRate {
    Setup10Kbit,
    Setup20Kbit,
    Setup50Kbit,
    Setup100Kbit,
    Setup125Kbit,
    Setup250Kbit,
    Setup500Kbit,
    Setup800Kbit,
    Setup1Mbit,
}

impl BitRate {
    /// The character that stands for this bit rate in the setup command.
    pub open spec fn spec_code(self) -> u8 {
        match self {
            BitRate::Setup10Kbit => '0' as u8,
            BitRate::Setup20Kbit => '1' as u8,
            BitRate::Setup50Kbit => '2' as u8,
            BitRate::Setup100Kbit => '3' as u8,
            BitRate::Setup125Kbit => '4' as u8,
            BitRate::Setup250Kbit => '5' as u8,
            BitRate::Setup500Kbit => '6' as u8,
            BitRate::Setup800Kbit => '7' as u8,
            BitRate::Setup1Mbit => '8' as u8,
        }
    }

    /// The character that stands for this bit rate in the setup command.
    #[verifier::when_used_as_spec(spec_code)]
    pub fn code(self) -> (c: u8)
        ensures
            c == self.spec_code(),
    {
        match self {
            BitRate::Setup10Kbit => '0' as u8,
            BitRate::Setup20Kbit => '1' as u8,
            BitRate::Setup50Kbit => '2' as u8,
            BitRate::Setup100Kbit => '3' as u8,
            BitRate::Setup125Kbit => '4' as u8,
            BitRate::Setup250Kbit => '5' as u8,
            BitRate::Setup500Kbit => '6' as u8,
            BitRate::Setup800Kbit => '7' as u8,
            BitRate::Setup1Mbit => '8' as u8,
        }
    }
}

/// A CAN frame: an identifier and up to eight payload bytes.
///
/// Only the first `dlc` bytes of `data` carry the payload; the rest is padding.
#[derive(Clone, Copy, Debug, PartialEq, Eq)]
pub struct CanFrame {
    pub id: u32,
    pub dlc: usize,
    pub data: [u8; 8],
}

/// The mathematical model of a [`CanFrame`].
pub struct FrameView {
    pub id: u32,
    pub dlc: nat,
    pub data: Seq<u8>,
}

impl FrameView {
    /// The frame's invariant: eight bytes of storage, of which at most eight
    /// are payload.
    pub open spec fn wf(self) -> bool {
        self.data.len() == MAX_DATA && self.dlc <= MAX_DATA
    }

    /// The payload: the first `dlc` bytes of the storage.
    pub open spec fn payload(self) -> Seq<u8>
        recommends
            self.wf(),
    {
        self.data.take(self.dlc as int)
    }
}

impl View for CanFrame {
    type V = FrameView;

    open spec fn view(&self) -> FrameView {
        FrameView { id: self.id, dlc: self.dlc as nat, data: self.data@ }
    }
}

/// `payload` followed by zeros, eight bytes in all.
pub open spec fn zero_padded(payload: Seq<u8>) -> Seq<u8>
    recommends
        payload.len() <= MAX_DATA,
{
    Seq::new(
        MAX_DATA as nat,
        |i: int|
            if i < payload.len() {
                payload[i]
            } else {
                0u8
            },
    )
}

/// The frame with identifier `id` and payload `payload`.
pub open spec fn frame_of(id: u32, payload: Seq<u8>) -> FrameView
    recommends
        payload.len() <= MAX_DATA,
{
    FrameView { id, dlc: payload.len(), data: zero_padded(payload) }
}

/// The model of a decoding result: the frame by its view, the error as it is.
pub open spec fn result_view(r: Result<CanFrame, SlcanError>) -> Result<FrameView, SlcanError> {
    match r {
        Ok(frame) => Ok(frame@),
        Err(e) => Err(e),
    }
}

impl CanFrame {
    /// Makes a frame from an identifier, a data length code and the payload,
    /// which is copied to the front of zeroed storage. The length code is
    /// taken as given.
    pub fn new(id: u32, dlc: usize, data: &[u8]) -> (frame: Self)
        requires
            data@.len() <= MAX_DATA,
        ensures
            frame@ == (FrameView { id, dlc: dlc as nat, data: zero_padded(data@) }),
            dlc == data@.len() ==> frame@ == frame_of(id, data@),
    {
        let mut copy = [0u8; 8];
        let mut i: usize = 0;
        while i < data.len()
            invariant
                i <= data@.len() <= MAX_DATA,
                forall|k: int| 0 <= k < i ==> copy@[k] == data@[k],
                forall|k: int| i <= k < 8 ==> copy@[k] == 0,
            decreases data@.len() - i,
        {
            copy[i] = data[i];
            i += 1;
        }
        assert(copy@ =~= zero_padded(data@));
        Self { id, dlc, data: copy }
    }

    /// The identifier, in the format that can hold it: standard up to
    /// 0x7FF, extended above. Of an identifier that is too large even for
    /// the extended format, the low 29 bits.
    pub fn id(&self) -> (id: Id)
        ensures
            !self.is_extended() ==> id is Standard && id_raw(id) == self@.id,
            self.is_extended() ==> id is Extended && id_raw(id) == self@.id % 0x2000_0000,
            self@.id <= EXTENDED_ID_MAX ==> id_raw(id) == self@.id,
    {
        id_of_raw(self.id)
    }

    /// The data length code.
    pub fn dlc(&self) -> (dlc: usize)
        ensures
            dlc == self@.dlc,
    {
        self.dlc
    }

    /// The payload: the first `dlc` bytes of the storage, without the
    /// padding. Of a frame whose length code is out of range, the whole
    /// storage.
    pub fn data(&self) -> (payload: &[u8])
        ensures
            self@.wf() ==> payload@ == self@.payload(),
            !self@.wf() ==> payload@ == self@.data,
    {
        if self.dlc <= MAX_DATA {
            let payload = slice_subrange(self.data.as_slice(), 0, self.dlc);
            assert(payload@ =~= self@.payload());
            payload
        } else {
            self.data.as_slice()
        }
    }

    /// Whether the identifier is too large for the standard format and so
    /// needs the extended one.
    pub open spec fn spec_is_extended(&self) -> bool {
        self@.id > STANDARD_ID_MAX
    }

    /// Whether the identifier is too large for the standard format and so
    /// needs the extended one.
    #[verifier::when_used_as_spec(spec_is_extended)]
    pub fn is_extended(&self) -> (extended: bool)
        ensures
            extended == self.spec_is_extended(),
    {
        self.id > STANDARD_ID_MAX
    }
}

/// The line that transmits `data` under identifier `id`, without its
/// terminator: the command character, three identifier digits, the length
/// digit and the hex dump of the payload.
pub open spec fn transmit_line(id: u32, data: Seq<u8>) -> Seq<u8>
    recommends
        data.len() <= MAX_DATA,
{
    seq![TRANSMIT_COMMAND] + three_hex_digits(id) + seq![hex_digit(data.len())] + hex_string(data)
}

/// The bytes on the wire that transmit `data` under identifier `id`: the line
/// and its carriage return.
pub open spec fn transmit_command(id: u32, data: Seq<u8>) -> Seq<u8>
    recommends
        data.len() <= MAX_DATA,
{
    transmit_line(id, data).push(CARRIAGE_RETURN)
}

/// Builds the transmit command for a frame. Of the identifier only the low
/// twelve bits are sent. A payload of more than eight bytes is refused.
pub fn encode_transmit(id: u32, data: &[u8]) -> (r: Result<Vec<u8>, SlcanError>)
    ensures
        data@.len() <= MAX_DATA ==> r is Ok && r->Ok_0@ == transmit_command(id, data@),
        data@.len() > MAX_DATA ==> r == Err::<Vec<u8>, SlcanError>(SlcanError::InvalidLength),
{
    let dlc = data.len();
    if dlc > MAX_DATA {
        return Err(SlcanError::InvalidLength);
    }
    let mut buf: Vec<u8> = Vec::with_capacity(6 + 2 * dlc);
    buf.push(TRANSMIT_COMMAND);
    let id_digits = u32_to_three_hex_digits(id);
    buf.extend_from_slice(id_digits.as_slice());
    buf.push(value_to_hex_digit(dlc as u32));
    let payload_digits = bytes_to_hex(data);
    buf.extend_from_slice(payload_digits.as_slice());
    buf.push(CARRIAGE_RETURN);
    assert(buf@ =~= transmit_command(id, data@));
    Ok(buf)
}

/// The payload length that the length digit of `line` announces.
pub open spec fn line_dlc(line: Seq<u8>) -> nat
    recommends
        line.len() >= MIN_LINE,
{
    (line[4] - '0' as u8) as nat
}

/// Whether `line`, which starts with the transmit command character, has the
/// structure of a transmit command: three identifier digits, a length digit
/// from `0` to `8`, and at least as many pairs of hex digits as the length
/// digit announces. What follows the last pair is not looked at.
pub open spec fn well_formed_transmit(line: Seq<u8>) -> bool {
    &&& line.len() >= MIN_LINE
    &&& all_hex_digits(line.subrange(1, 4))
    &&& '0' as u8 <= line[4] <= '8' as u8
    &&& line.len() >= MIN_LINE + 2 * line_dlc(line)
    &&& all_hex_digits(line.subrange(MIN_LINE as int, MIN_LINE + 2 * line_dlc(line)))
}

/// The identifier that a well-formed transmit line carries.
pub open spec fn line_id(line: Seq<u8>) -> u32
    recommends
        well_formed_transmit(line),
{
    hex_number(line.subrange(1, 4)) as u32
}

/// The payload that a well-formed transmit line carries.
pub open spec fn line_payload(line: Seq<u8>) -> Seq<u8>
    recommends
        well_formed_transmit(line),
{
    hex_bytes(line.subrange(MIN_LINE as int, MIN_LINE + 2 * line_dlc(line)))
}

/// What a complete line, taken without its terminator, decodes to. A line
/// that does not start with the transmit command character is an unsupported
/// command; one that does is either well formed, and then holds a frame, or
/// malformed.
pub open spec fn decoded(line: Seq<u8>) -> Result<FrameView, SlcanError> {
    if line.len() == 0 || line[0] != TRANSMIT_COMMAND {
        Err(SlcanError::UnsupportedCommand)
    } else if well_formed_transmit(line) {
        Ok(frame_of(line_id(line), line_payload(line)))
    } else {
        Err(SlcanError::MalformedFrame)
    }
}

/// Reads `len` payload bytes from the `2 * len` hex digits at the front of
/// `s` into zeroed storage.
pub fn unpack_data(s: &[u8], len: usize) -> (r: Result<[u8; 8], SlcanError>)
    requires
        len <= MAX_DATA,
        s@.len() >= 2 * len,
    ensures
        all_hex_digits(s@.take(2 * len)) ==> r is Ok && r->Ok_0@ == zero_padded(
            hex_bytes(s@.take(2 * len)),
        ),
        !all_hex_digits(s@.take(2 * len)) ==> r == Err::<[u8; 8], SlcanError>(
            SlcanError::InvalidHexDigit,
        ),
{
    let ghost digits = s@.take(2 * len);
    let mut buf = [0u8; 8];
    let mut i: usize = 0;
    while i < len
        invariant
            i <= len <= MAX_DATA,
            s@.len() >= 2 * len,
            digits == s@.take(2 * len),
            all_hex_digits(digits.take(2 * i)),
            forall|k: int| 0 <= k < i ==> buf@[k] == hex_bytes(digits)[k],
            forall|k: int| i <= k < 8 ==> buf@[k] == 0,
        decreases len - i,
    {
        let offset = 2 * i;
        let pair = slice_subrange(s, offset, s.len());
        assert(pair@[0] == digits[2 * i] && pair@[1] == digits[2 * i + 1]);
        match two_hex_digits_to_byte(pair) {
            Ok(byte) => {
                buf[i] = byte;
            },
            Err(e) => {
                return Err(e);
            },
        }
        assert(all_hex_digits(digits.take(2 * (i + 1)))) by {
            let shorter = digits.take(2 * i);
            let longer = digits.take(2 * (i + 1));
            assert forall|k: int| 0 <= k < longer.len() implies is_hex_digit(
                #[trigger] longer[k],
            ) by {
                if k < 2 * i {
                    assert(longer[k] == shorter[k]);
                }
            }
        }
        i += 1;
    }
    assert(digits.take(2 * i) == digits);
    assert(buf@ =~= zero_padded(hex_bytes(digits)));
    Ok(buf)
}

/// Decodes a complete line, taken without its terminator, into a frame.
pub fn decode_line(line: &[u8]) -> (r: Result<CanFrame, SlcanError>)
    ensures
        result_view(r) == decoded(line@),
        r matches Ok(frame) ==> frame@.wf(),
{
    proof {
        lemma_decoded_frame_is_wf(line@);
    }
    let n = line.len();
    if n == 0 || line[0] != TRANSMIT_COMMAND {
        return Err(SlcanError::UnsupportedCommand);
    }
    if n < MIN_LINE {
        return Err(SlcanError::MalformedFrame);
    }
    let id = match hex_digits_to_u32(slice_subrange(line, 1, 4)) {
        Ok(value) => value,
        Err(_) => {
            return Err(SlcanError::MalformedFrame);
        },
    };
    proof {
        lemma_hex_number_bound(line@.subrange(1, 4));
    }
    let digit = line[4];
    if digit < '0' as u8 || digit > '8' as u8 {
        return Err(SlcanError::MalformedFrame);
    }
    let dlc = (digit - '0' as u8) as usize;
    if n - MIN_LINE < 2 * dlc {
        return Err(SlcanError::MalformedFrame);
    }
    let rest = slice_subrange(line, MIN_LINE, n);
    assert(rest@.take(2 * dlc) == line@.subrange(MIN_LINE as int, MIN_LINE + 2 * dlc));
    match unpack_data(rest, dlc) {
        Ok(data) => Ok(CanFrame { id, dlc, data }),
        Err(_) => Err(SlcanError::MalformedFrame),
    }
}

/// Every frame that a line decodes to keeps the frame's invariant, and its
/// length code is the one that the line's length digit announces.
pub proof fn lemma_decoded_frame_is_wf(line: Seq<u8>)
    ensures
        decoded(line) matches Ok(frame) ==> frame.wf() && frame.dlc == line_dlc(line),
{
}

/// Malformed hex: a line that starts with the transmit command character and
/// holds a byte that is no hex digit among its identifier digits, or among
/// the payload digits that its length digit announces, is malformed.
pub proof fn lemma_bad_hex_is_malformed(line: Seq<u8>, i: int)
    requires
        0 < i < line.len(),
        line[0] == TRANSMIT_COMMAND,
        !is_hex_digit(line[i]),
        i < 4 || ({
            &&& '0' as u8 <= line[4] <= '8' as u8
            &&& MIN_LINE <= i < MIN_LINE + 2 * line_dlc(line)
        }),
    ensures
        decoded(line) == Err::<FrameView, SlcanError>(SlcanError::MalformedFrame),
{
    if line.len() >= MIN_LINE {
        if i < 4 {
            assert(line.subrange(1, 4)[i - 1] == line[i]);
        } else if line.len() >= MIN_LINE + 2 * line_dlc(line) {
            let digits = line.subrange(MIN_LINE as int, MIN_LINE + 2 * line_dlc(line));
            assert(digits[i - MIN_LINE] == line[i]);
        }
    }
}

/// Decoding inverts encoding: the line that transmits `data` under `id`
/// decodes to the frame that holds `data` under the low twelve bits of `id`.
pub proof fn lemma_decode_inverts_encode(id: u32, data: Seq<u8>)
    requires
        data.len() <= MAX_DATA,
    ensures
        decoded(transmit_line(id, data)) == Ok::<FrameView, SlcanError>(
            frame_of((id % 0x1000) as u32, data),
        ),
        frame_of((id % 0x1000) as u32, data).wf(),
        frame_of((id % 0x1000) as u32, data).payload() == data,
        id <= 0xFFF ==> frame_of((id % 0x1000) as u32, data).id == id,
{
    let line = transmit_line(id, data);
    let n = data.len();
    lemma_three_hex_digits_inverse(id);
    lemma_hex_string_inverse(data);
    assert(line.len() == MIN_LINE + 2 * n);
    assert(line[0] == TRANSMIT_COMMAND);
    assert(line.subrange(1, 4) =~= three_hex_digits(id));
    assert(line[4] == hex_digit(n));
    assert(line_dlc(line) == n);
    assert(line.subrange(MIN_LINE as int, MIN_LINE + 2 * n) =~= hex_string(data));
    assert(well_formed_transmit(line));
    assert(line_id(line) == id % 0x1000);
    assert(line_payload(line) == data);
    assert(frame_of((id % 0x1000) as u32, data).payload() =~= data);
}

} // verus!
