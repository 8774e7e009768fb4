//! The wire codec: the bidirectional mapping between an envelope and the
//! flat field map the backend's append and read primitives carry.
//!
//! The encoding writes each payload field as one named byte field of the
//! wire map, in payload order, and omits the entry id (the backend assigns
//! it). It is deterministic and round-trips exactly: `lemma_round_trip`
//! states that below.

use vstd::prelude::*;

use crate::error::DecodeError;
use crate::stream::{fields_model, Field, FieldModel, Stream, Value};

verus! {

/// What `encode` produces from a payload: the payload's fields are the
/// wire fields, in the same order; nothing else is written.
pub open spec fn spec_encode(value: Seq<FieldModel>) -> Seq<FieldModel> {
    value
}

/// What `decode` reconstructs from a wire field map: a map without any
/// payload field is malformed; any other map is the payload it spells.
pub open spec fn spec_decode(map: Seq<FieldModel>) -> Result<Seq<FieldModel>, DecodeError> {
    if map.len() == 0 {
        Err(DecodeError::MissingPayload)
    } else {
        Ok(map)
    }
}

/// Encodes an envelope into the field map handed to the backend's append
/// call. Only the payload is written: the id field is omitted, because the
/// backend assigns it.
pub fn encode(s: &Stream) -> (r: Vec<Field>)
    ensures
        fields_model(r@) == spec_encode(s@.value),
{
    crate::stream::duplicate_fields(&s.value.fields)
}

/// Decodes the field map of one read entry back into a payload value.
///
/// Fails exactly on a field map with no payload field at all; on success
/// the payload holds every wire field, in wire order.
pub fn decode(map: &Vec<Field>) -> (r: Result<Value, DecodeError>)
    ensures
        map@.len() == 0 <==> r is Err,
        r is Err ==> r == Err::<Value, DecodeError>(DecodeError::MissingPayload),
        r matches Ok(v) ==> Ok::<Seq<FieldModel>, DecodeError>(v@) == spec_decode(fields_model(map@)),
{
    if map.len() == 0 {
        return Err(DecodeError::MissingPayload);
    }
    Ok(Value { fields: crate::stream::duplicate_fields(map) })
}

/// Round-trip law: encoding any well-formed payload and decoding the
/// resulting field map gives the payload back exactly. A payload without
/// fields is the one value the codec cannot carry: its wire map would be
/// empty, which `decode` must treat as malformed.
pub proof fn lemma_round_trip(value: Seq<FieldModel>)
    requires
        value.len() > 0,
    ensures
        spec_decode(spec_encode(value)) == Ok::<Seq<FieldModel>, DecodeError>(value),
{
}

} // verus!
