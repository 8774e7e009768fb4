//! The shape of the backend boundary: what a group-read call returns, and
//! how a backend failure looks to the engine.
//!
//! The store's wire protocol and connection machinery are collaborators
//! outside this library; the engine only consumes already-decoded field
//! maps keyed by string, in the order the backend returned them.

use vstd::prelude::*;

use crate::stream::{fields_model, Field, FieldModel};

verus! {

/// What the engine reads of a backend failure: whether it signals that a
/// consumer group already exists (the one error bootstrap tolerates), and
/// the backend's diagnostic text.
#[derive(Clone, Debug, PartialEq, Eq)]
pub struct BackendError {
    /// true when the backend rejected a group-create because the group is
    /// already there
    pub busy_group: bool,
    /// the backend's diagnostic text
    pub message: String,
}

/// Mathematical model of a backend failure.
pub struct BackendErrorModel {
    /// whether the failure means "group already exists"
    pub busy_group: bool,
    /// the diagnostic text
    pub message: Seq<char>,
}

impl View for BackendError {
    type V = BackendErrorModel;

    open spec fn view(&self) -> BackendErrorModel {
        BackendErrorModel { busy_group: self.busy_group, message: self.message@ }
    }
}

impl BackendError {
    /// An explicit deep copy, so that callers know the copy models the
    /// original.
    pub fn duplicate(&self) -> (r: BackendError)
        ensures
            r@ == self@,
    {
        BackendError { busy_group: self.busy_group, message: self.message.clone() }
    }
}

/// One entry of a read reply: the backend-assigned id and the entry's flat
/// field map.
#[derive(Clone, Debug, PartialEq, Eq)]
pub struct ReadEntry {
    /// the backend-assigned entry id
    pub id: String,
    /// the entry's field map, in stored order
    pub fields: Vec<Field>,
}

/// Mathematical model of one read entry.
pub struct ReadEntryModel {
    /// the entry id
    pub id: Seq<char>,
    /// the field map
    pub fields: Seq<FieldModel>,
}

impl View for ReadEntry {
    type V = ReadEntryModel;

    open spec fn view(&self) -> ReadEntryModel {
        ReadEntryModel { id: self.id@, fields: fields_model(self.fields@) }
    }
}

impl ReadEntry {
    /// An explicit deep copy, so that callers know the copy models the
    /// original.
    pub fn duplicate(&self) -> (r: ReadEntry)
        ensures
            r@ == self@,
    {
        ReadEntry { id: self.id.clone(), fields: crate::stream::duplicate_fields(&self.fields) }
    }
}

/// The model of a sequence of read entries: each replaced by its model.
pub open spec fn entries_model(s: Seq<ReadEntry>) -> Seq<ReadEntryModel> {
    s.map_values(|e: ReadEntry| e@)
}

/// The entries one read returned under one stream key, in backend order.
#[derive(Clone, Debug, PartialEq, Eq)]
pub struct ReadKey {
    /// the stream key these entries belong to
    pub key: String,
    /// the returned entries, oldest first
    pub entries: Vec<ReadEntry>,
}

/// Mathematical model of one key's slice of a read reply.
pub struct ReadKeyModel {
    /// the stream key
    pub key: Seq<char>,
    /// the returned entries, oldest first
    pub entries: Seq<ReadEntryModel>,
}

impl View for ReadKey {
    type V = ReadKeyModel;

    open spec fn view(&self) -> ReadKeyModel {
        ReadKeyModel { key: self.key@, entries: entries_model(self.entries@) }
    }
}

/// What one backend group-read call returned: an ordered sequence of
/// per-key entry lists, in backend reply order.
#[derive(Clone, Debug, PartialEq, Eq)]
pub struct ReadReply {
    /// the reply's per-key slices, in backend order
    pub keys: Vec<ReadKey>,
}

impl View for ReadReply {
    type V = Seq<ReadKeyModel>;

    open spec fn view(&self) -> Seq<ReadKeyModel> {
        self.keys@.map_values(|k: ReadKey| k@)
    }
}

} // verus!
