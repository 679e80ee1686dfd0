//! The JSON envelopes of the service, decoded.

use vstd::prelude::*;

verus! {

/// The envelope around every JSON answer: `{ "data": ... }`.
#[derive(Debug, PartialEq, Eq)]
pub struct DataResponse<T> {
    pub data: T,
}

/// What a credential exchange answers: the account, and the bearer token
/// for the calls that follow.
#[derive(Debug, PartialEq, Eq)]
pub struct Session {
    pub username: String,
    pub token: String,
}

/// One record of a tree listing. `scoped_path` is `scopedPath` on the wire.
#[derive(Debug, PartialEq, Eq)]
pub struct FSPartialEntry {
    pub scoped_path: String,
    pub mime: String,
    pub filename: String,
}

/// A tree listing: the records in the order in which the service gave them.
#[derive(Debug, PartialEq, Eq)]
pub struct FSTree(pub Vec<FSPartialEntry>);

/// The scoped paths of `entries`, in order.
pub open spec fn scoped_paths(entries: Seq<FSPartialEntry>) -> Seq<Seq<char>> {
    Seq::new(entries.len(), |i: int| entries[i].scoped_path@)
}

} // verus!
