//! Small shared value types of the description documents.

use vstd::prelude::*;

verus! {

/// A wrapper for the text content of a simple element.
#[derive(Debug)]
pub struct Value<T> {
    pub value: T,
}

/// The `specVersion` of a description document.
#[derive(Debug, Clone, Copy, PartialEq, Eq, Structural)]
pub struct SpecVersion {
    pub major: u32,
    pub minor: u32,
}

impl SpecVersion {
    /// Builds a version from its two components.
    pub fn new(major: u32, minor: u32) -> (r: SpecVersion)
        ensures
            r.major == major && r.minor == minor,
    {
        SpecVersion { major, minor }
    }

    /// The major component of the version.
    pub fn major(&self) -> (r: u32)
        ensures
            r == self.major,
    {
        self.major
    }

    /// The minor component of the version.
    pub fn minor(&self) -> (r: u32)
        ensures
            r == self.minor,
    {
        self.minor
    }
}

} // verus!
