//! The named collection an operation works on. Turning the name into
//! the store file's path is platform work that the surrounding binary
//! does.

use vstd::prelude::*;
use vstd::string::StringExecFns;

verus! {

/// A collection, identified by its name.
#[derive(Debug)]
pub struct AnkiCollection {
    pub collection_name: String,
}

impl AnkiCollection {
    /// A collection handle for the given name.
    pub fn new(collection_name: &str) -> (r: Self)
        ensures
            r.collection_name@ == collection_name@,
    {
        Self { collection_name: String::from_str(collection_name) }
    }
}

} // verus!
