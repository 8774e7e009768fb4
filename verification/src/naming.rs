//! Compile-time binding of a payload type to its constant stream key: pure
//! naming sugar, so that publishers of a given payload type always name the
//! same stream.

use vstd::prelude::*;

verus! {

/// A payload type that knows the stream key it is published under.
pub trait StreamParsable {
    /// The key, as the type's specification states it.
    spec fn spec_key(&self) -> Seq<char>;

    /// The stream key entries of this type are published under.
    fn key(&self) -> (k: String)
        ensures
            k@ == self.spec_key(),
    ;
}

/// A draft advertisement: one payload type bound to its stream.
#[derive(Clone, Debug, PartialEq, Eq)]
pub struct Drafted {
    /// the draft's identifier
    pub id: String,
}

impl Drafted {
    /// The constant stream name `Drafted` is bound to.
    pub fn name() -> (n: &'static str)
        ensures
            n@ == "p2p:adv:drafted"@,
    {
        "p2p:adv:drafted"
    }
}

impl StreamParsable for Drafted {
    open spec fn spec_key(&self) -> Seq<char> {
        "p2p:adv:drafted"@
    }

    fn key(&self) -> (k: String)
        ensures
            k@ == self.spec_key(),
    {
        "p2p:adv:drafted".to_owned()
    }
}

} // verus!
