//! The envelope model: a `Stream` is one in-process entry of a logical
//! stream (topic), carrying an optional backend-assigned id, the stream key
//! it belongs to, and an opaque payload value.

use vstd::prelude::*;

verus! {

/// One named byte field, as the backend's flat wire representation stores
/// it.
#[derive(Clone, Debug, PartialEq, Eq)]
pub struct Field {
    /// field name within the entry's field map
    pub name: String,
    /// raw bytes of the field's value
    pub data: Vec<u8>,
}

/// Mathematical model of one named byte field.
pub struct FieldModel {
    /// the field's name as a character sequence
    pub name: Seq<char>,
    /// the field's bytes
    pub data: Seq<u8>,
}

impl View for Field {
    type V = FieldModel;

    open spec fn view(&self) -> FieldModel {
        FieldModel { name: self.name@, data: self.data@ }
    }
}

impl Field {
    /// Builds a field from its parts.
    pub fn new(name: &str, data: Vec<u8>) -> (f: Field)
        ensures
            f@.name == name@,
            f@.data == data@,
    {
        Field { name: name.to_owned(), data }
    }

    /// An explicit deep copy, so that callers know the copy models the
    /// original.
    pub fn duplicate(&self) -> (r: Field)
        ensures
            r@ == self@,
    {
        Field { name: self.name.clone(), data: self.data.clone() }
    }
}

/// The model of a sequence of fields: each field replaced by its model.
pub open spec fn fields_model(s: Seq<Field>) -> Seq<FieldModel> {
    s.map_values(|f: Field| f@)
}

/// Deep-copies a list of named byte fields, preserving its model.
pub fn duplicate_fields(fields: &Vec<Field>) -> (r: Vec<Field>)
    ensures
        fields_model(r@) == fields_model(fields@),
{
    let mut out: Vec<Field> = Vec::new();
    let mut i: usize = 0;
    while i < fields.len()
        invariant
            i <= fields@.len(),
            out@.len() == i,
            fields_model(out@) =~= fields_model(fields@).take(i as int),
        decreases fields@.len() - i,
    {
        out.push(fields[i].duplicate());
        i = i + 1;
    }
    proof {
        assert(fields_model(fields@).take(fields@.len() as int) =~= fields_model(fields@));
    }
    out
}

/// The opaque payload of an envelope: arbitrary structured data held as one
/// or more named byte fields. The engine never inspects the fields' bytes;
/// it only encodes and decodes the value as a whole.
#[derive(Clone, Debug, PartialEq, Eq)]
pub struct Value {
    /// the payload's named fields, in a fixed order
    pub fields: Vec<Field>,
}

impl View for Value {
    type V = Seq<FieldModel>;

    open spec fn view(&self) -> Seq<FieldModel> {
        fields_model(self.fields@)
    }
}

impl Value {
    /// A payload is well formed when it has at least one field: the wire
    /// codec must emit one or more named byte fields, so an entry written
    /// from a payload without fields could not be told apart from a
    /// malformed one.
    pub open spec fn wf(self) -> bool {
        self@.len() > 0
    }

    /// Wraps a list of named byte fields as a payload.
    pub fn new(fields: Vec<Field>) -> (v: Value)
        ensures
            v@ == fields_model(fields@),
    {
        Value { fields }
    }

    /// An explicit deep copy, so that callers know the copy models the
    /// original.
    pub fn duplicate(&self) -> (r: Value)
        ensures
            r@ == self@,
    {
        Value { fields: duplicate_fields(&self.fields) }
    }
}

/// Mathematical model of an envelope.
pub struct StreamModel {
    /// the entry id, if the backend has assigned one
    pub id: Option<Seq<char>>,
    /// the stream key
    pub key: Seq<char>,
    /// the payload's fields
    pub value: Seq<FieldModel>,
}

/// An envelope: the in-process representation of one stream entry.
///
/// An envelope handed to publish has `id == None` (the backend assigns the
/// id on append); an envelope received from a read, or handed to
/// acknowledge, has `id == Some(_)`.
#[derive(Clone, Debug, PartialEq, Eq)]
pub struct Stream {
    /// backend-assigned entry id, `None` before the entry is appended
    pub id: Option<String>,
    /// the stream key (topic) this entry belongs to
    pub key: String,
    /// the opaque payload
    pub value: Value,
}

impl View for Stream {
    type V = StreamModel;

    open spec fn view(&self) -> StreamModel {
        StreamModel {
            id: match self.id {
                Some(s) => Some(s@),
                None => None,
            },
            key: self.key@,
            value: self.value@,
        }
    }
}

impl Stream {
    /// Builds an envelope from its parts.
    pub fn new(key: &str, id: Option<String>, value: Value) -> (s: Stream)
        ensures
            s@.id == (match id {
                Some(i) => Some::<Seq<char>>(i@),
                None => None::<Seq<char>>,
            }),
            s@.key == key@,
            s@.value == value@,
    {
        Stream { id, key: key.to_owned(), value }
    }

    /// True of an envelope that may be handed to publish: the backend
    /// assigns the id, and the payload must survive the wire codec.
    pub open spec fn publishable(self) -> bool {
        self.id is None && self.value.wf()
    }

    /// True of an envelope that may be handed to acknowledge: only an
    /// entry the backend has named can be retired.
    pub open spec fn ackable(self) -> bool {
        self.id is Some
    }

    /// An explicit deep copy, so that callers know the copy models the
    /// original.
    pub fn duplicate(&self) -> (r: Stream)
        ensures
            r@ == self@,
    {
        let id: Option<String> = match &self.id {
            Some(i) => Some(i.clone()),
            None => None,
        };
        Stream { id, key: self.key.clone(), value: self.value.duplicate() }
    }
}

} // verus!
