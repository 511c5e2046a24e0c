use vstd::prelude::*;

use crate::bytes::{bytes_equal, copy_bytes};

verus! {

/// A participant of a session, identified by the canonical text encoding of
/// its address. Two players are the same player exactly when their texts are
/// equal, and the text is what the binding hash commits to.
#[derive(Clone, Debug, PartialEq, Eq)]
pub struct PlayerId {
    pub text: Vec<u8>,
}

impl View for PlayerId {
    type V = Seq<u8>;

    open spec fn view(&self) -> Seq<u8> {
        self.text@
    }
}

impl PlayerId {
    pub fn new(text: Vec<u8>) -> (r: PlayerId)
        ensures
            r@ == text@,
    {
        PlayerId { text }
    }

    /// Whether both name the same player.
    pub fn same_as(&self, other: &PlayerId) -> (r: bool)
        ensures
            r == (self@ == other@),
    {
        bytes_equal(self.text.as_slice(), other.text.as_slice())
    }

    /// A copy of this identity.
    pub fn duplicate(&self) -> (r: PlayerId)
        ensures
            r@ == self@,
    {
        PlayerId { text: copy_bytes(self.text.as_slice()) }
    }
}

/// The view of an optional player.
pub open spec fn opt_view(p: Option<PlayerId>) -> Option<Seq<u8>> {
    match p {
        Some(q) => Some(q@),
        None => None,
    }
}

/// A copy of an optional player.
pub fn duplicate_opt(p: &Option<PlayerId>) -> (r: Option<PlayerId>)
    ensures
        opt_view(r) == opt_view(*p),
{
    match p {
        Some(q) => Some(q.duplicate()),
        None => None,
    }
}

} // verus!
