use vstd::prelude::*;
use std::hash::{DefaultHasher, Hash, Hasher};
use crate::html::Html;

verus! {

/// Hashes a byte slice into a hasher with `<[u8] as Hash>::hash` (its length, then its
/// bytes). Nothing is claimed of the hasher afterwards: the length is written in the
/// machine's byte order.
#[verifier::external_body]
fn hash_slice(value: &[u8], hasher: &mut DefaultHasher) {
    value.hash(hasher);
}

/// Identifies an element of a view.
#[derive(Clone, Copy, Debug, PartialEq, Eq, Hash)]
pub struct ElementId {
    pub index: usize,
    pub hash: u64,
}

impl ElementId {
    /// Fake elements like a caret or an input text can not take part in user interaction
    /// or share any state, so they all share one "zero" id.
    pub fn fake() -> (id: Self)
        ensures
            id.index == 0,
            id.hash == 0,
    {
        Self { index: 0, hash: 0 }
    }

    /// The id of the element that a node of the document makes: the node's index
    /// identifies it.
    pub fn from(dom: &Html) -> (id: Self)
        ensures
            id.index == dom.index,
            id.hash == 0,
    {
        Self { index: dom.index, hash: 0 }
    }

    /// The id of one of the elements that a node of the document makes, told apart by
    /// the hash of `value` as a byte slice hashes itself into a new `DefaultHasher`.
    pub fn hash(dom: &Html, value: &[u8]) -> (id: Self)
        ensures
            id.index == dom.index,
    {
        let mut hasher = DefaultHasher::new();
        hash_slice(value, &mut hasher);
        Self { index: dom.index, hash: hasher.finish() }
    }

    /// The id of a child derived from another id and a value.
    pub fn child(other: ElementId, value: u64) -> (id: Self)
        ensures
            id.index == other.index,
            id.hash == value,
    {
        Self { index: other.index, hash: value }
    }
}

} // verus!
