//! CAN identifiers: the raw value that a frame of this library holds, and the
//! identifier types of `embedded_can`.
//!
//! A frame holds its identifier as a plain `u32`. Identifiers up to
//! [`STANDARD_ID_MAX`] are of the standard, eleven-bit format; larger ones
//! need the extended format, which has 29 bits.

use embedded_can::{ExtendedId, Id, StandardId};
use vstd::prelude::*;

verus! {

/// The largest identifier of the standard, eleven-bit format.
pub const STANDARD_ID_MAX: u32 = 0x7FF;

/// The largest identifier of the extended, 29-bit format.
pub const EXTENDED_ID_MAX: u32 = 0x1FFF_FFFF;

/// `embedded_can::StandardId`, whose raw value is private to it.
#[verifier::external_type_specification]
#[verifier::external_body]
pub struct ExStandardId(embedded_can::StandardId);

/// `embedded_can::ExtendedId`, whose raw value is private to it.
#[verifier::external_type_specification]
#[verifier::external_body]
pub struct ExExtendedId(embedded_can::ExtendedId);

/// `embedded_can::Id`, with its two variants, `Standard` and `Extended`.
#[verifier::external_type_specification]
pub struct ExId(embedded_can::Id);

/// The raw value of a standard identifier: what `StandardId::as_raw` returns
/// for it.
pub uninterp spec fn standard_raw(id: StandardId) -> u16;

/// The raw value of an extended identifier: what `ExtendedId::as_raw` returns
/// for it.
pub uninterp spec fn extended_raw(id: ExtendedId) -> u32;

/// `StandardId::new` makes an identifier of every raw value up to 0x7FF, with
/// that raw value, and of no other.
pub assume_specification[ StandardId::new ](raw: u16) -> (id: Option<StandardId>)
    ensures
        raw <= 0x7FF ==> id is Some && standard_raw(id->Some_0) == raw,
        raw > 0x7FF ==> id is None,
;

/// `StandardId::as_raw` returns the identifier's raw value.
pub assume_specification[ StandardId::as_raw ](id: &StandardId) -> (raw: u16)
    ensures
        raw == standard_raw(*id),
;

/// `ExtendedId::new` makes an identifier of every raw value up to
/// 0x1FFF_FFFF, with that raw value, and of no other.
pub assume_specification[ ExtendedId::new ](raw: u32) -> (id: Option<ExtendedId>)
    ensures
        raw <= 0x1FFF_FFFF ==> id is Some && extended_raw(id->Some_0) == raw,
        raw > 0x1FFF_FFFF ==> id is None,
;

/// `ExtendedId::as_raw` returns the identifier's raw value.
pub assume_specification[ ExtendedId::as_raw ](id: &ExtendedId) -> (raw: u32)
    ensures
        raw == extended_raw(*id),
;

/// The raw value of an identifier of either format.
pub open spec fn id_raw(id: Id) -> u32 {
    match id {
        Id::Standard(id) => standard_raw(id) as u32,
        Id::Extended(id) => extended_raw(id),
    }
}

/// The raw value of an identifier of either format.
pub fn raw_of_id(id: Id) -> (raw: u32)
    ensures
        raw == id_raw(id),
{
    match id {
        Id::Standard(id) => id.as_raw() as u32,
        Id::Extended(id) => id.as_raw(),
    }
}

/// The identifier with the raw value `raw`: a standard one where the standard
/// format can hold the value, else an extended one. Of a value that is too
/// large even for the extended format, the low 29 bits are kept.
pub fn id_of_raw(raw: u32) -> (id: Id)
    ensures
        raw <= STANDARD_ID_MAX ==> id is Standard && id_raw(id) == raw,
        raw > STANDARD_ID_MAX ==> id is Extended && id_raw(id) == raw % 0x2000_0000,
        raw <= EXTENDED_ID_MAX ==> id_raw(id) == raw,
{
    if raw <= STANDARD_ID_MAX {
        Id::Standard(StandardId::new(raw as u16).unwrap())
    } else {
        assert(raw & 0x1FFF_FFFF == raw % 0x2000_0000) by (bit_vector);
        assert(raw & 0x1FFF_FFFF <= 0x1FFF_FFFF) by (bit_vector);
        Id::Extended(ExtendedId::new(raw & EXTENDED_ID_MAX).unwrap())
    }
}

} // verus!
