//! The untyped buffer between the bytes of a socket frame and an envelope.

use vstd::prelude::*;

verus! {

/// The bytes of one wire frame.
#[derive(Clone, Debug, PartialEq, Eq, Hash)]
pub struct RawMessage {
    pub message: Vec<u8>,
}

impl View for RawMessage {
    type V = Seq<u8>;

    open spec fn view(&self) -> Seq<u8> {
        self.message@
    }
}

} // verus!
