//! Plain values of a Poetry manifest.

use vstd::prelude::*;

verus! {

/// A package source of a manifest: its name and its index URL.
pub struct Source {
    pub name: String,
    pub url: String,
}

impl Source {
    pub fn new(name: String, url: String) -> (r: Self)
        ensures
            r.name@ == name@,
            r.url@ == url@,
    {
        Source { name, url }
    }
}

} // verus!
