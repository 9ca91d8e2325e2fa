//! Argument-time errors: the only fatal class. Per-source open and read
//! failures are not errors of the run; the driver reports them and goes
//! on.

use vstd::prelude::*;
use vstd::string::*;

verus! {

/// A fatal argument-time error, detected before any source is touched.
#[derive(Debug, Clone, PartialEq, Eq)]
pub enum ArgError {
    /// The flag that numbers all lines and the flag that numbers only
    /// nonblank lines were both given.
    ConflictingNumberFlags,
    /// The token given for the line count is not a valid count.
    IllegalLineCount(String),
    /// The token given for the byte count is not a valid count.
    IllegalByteCount(String),
}

impl ArgError {
    /// The diagnostic text of the error; a count error names the exact
    /// offending token.
    pub open spec fn message_view(&self) -> Seq<char> {
        match self {
            ArgError::ConflictingNumberFlags => "number and number-nonblank are mutually exclusive"@,
            ArgError::IllegalLineCount(t) => "illegal line count -- "@ + t@,
            ArgError::IllegalByteCount(t) => "illegal byte count -- "@ + t@,
        }
    }

    /// Renders the diagnostic text.
    pub fn message(&self) -> (r: String)
        ensures
            r@ == self.message_view(),
    {
        match self {
            ArgError::ConflictingNumberFlags => {
                "number and number-nonblank are mutually exclusive".to_owned()
            },
            ArgError::IllegalLineCount(t) => {
                let mut s = "illegal line count -- ".to_owned();
                s.append(t.as_str());
                s
            },
            ArgError::IllegalByteCount(t) => {
                let mut s = "illegal byte count -- ".to_owned();
                s.append(t.as_str());
                s
            },
        }
    }
}

} // verus!
