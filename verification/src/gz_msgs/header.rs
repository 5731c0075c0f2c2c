//! Nested messages of `gz.msgs.Header`.
use vstd::prelude::*;

verus! {

/// One header entry: a key and its values.
#[derive(Clone, Debug, PartialEq, Default)]
pub struct MapEntry {
    pub key: String,
    pub value: Vec<String>,
}

} // verus!
