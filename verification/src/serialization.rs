//! Resources referred to by path in data files and shared once loaded.
use vstd::prelude::*;
use std::sync::Arc;

verus! {

/// A shared resource that a data file names by path; the path is resolved
/// through the resource caches when the file is read.
pub struct SerializedResource<T> {
    pub resource: Arc<T>,
}

impl<T> SerializedResource<T> {
    pub fn new(resource: Arc<T>) -> (r: SerializedResource<T>)
        ensures
            r.resource == resource,
    {
        SerializedResource { resource }
    }
}

} // verus!
