//! The wire form of UPnP boolean values.
//!
//! UPnP carries booleans as the characters `0` and `1`; this module
//! converts between that form and Rust's `bool`.

use vstd::prelude::*;

verus! {

/// A boolean as UPnP writes it on the wire.
#[derive(Debug, Clone, Copy, PartialEq, Eq, Structural)]
pub enum Bool {
    False,
    True,
}

/// The input was neither `0` nor `1`.
#[derive(Debug, Clone, Copy, PartialEq, Eq, Structural)]
pub struct ParseBoolError {
}

impl Bool {
    /// The `bool` this value denotes.
    pub fn to_bool(self) -> (r: bool)
        ensures
            r == (self is True),
    {
        match self {
            Bool::False => false,
            Bool::True => true,
        }
    }

    /// The wire form of a `bool`.
    pub fn from_bool(b: bool) -> (r: Bool)
        ensures
            (r is True) == b,
    {
        if b {
            Bool::True
        } else {
            Bool::False
        }
    }

    /// The wire text of the value: `0` or `1`.
    pub fn to_str(self) -> (r: &'static str)
        ensures
            r@ == (if self is True {
                "1"@
            } else {
                "0"@
            }),
    {
        match self {
            Bool::False => "0",
            Bool::True => "1",
        }
    }

    /// Reads the wire text: exactly `0` or `1`, anything else is an error.
    pub fn from_str(s: &str) -> (r: Result<Bool, ParseBoolError>)
        ensures
            match r {
                Ok(b) => (s@ == "0"@ && b is False) || (s@ == "1"@ && b is True),
                Err(_) => s@ != "0"@ && s@ != "1"@,
            },
    {
        if crate::strutil::str_eq(s, "0") {
            Ok(Bool::False)
        } else if crate::strutil::str_eq(s, "1") {
            Ok(Bool::True)
        } else {
            Err(ParseBoolError {  })
        }
    }
}

} // verus!
