//! The error taxonomy: every failure is terminal and carries a
//! human-readable message, naming the offending path where there is one.

use vstd::prelude::*;
use vstd::string::StringExecFns;

verus! {

/// Why a run failed. `Usage` is a bad command line; `Decode` is an input
/// that cannot be read as an image, named by its path; `Encode` is an
/// output that cannot be encoded or written, named by its path.
#[derive(Debug)]
pub enum SheetError {
    Usage { msg: String },
    Decode { path: String, msg: String },
    Encode { path: String, msg: String },
}

impl SheetError {
    /// The human-readable message for this error.
    pub fn message(&self) -> (r: String)
        ensures
            match self {
                SheetError::Usage { msg } => r@ == "usage error: "@ + msg@,
                SheetError::Decode { path, msg } => r@ == "no valid image at "@ + path@ + ": "@
                    + msg@,
                SheetError::Encode { path, msg } => r@ == "writing "@ + path@ + " failed: "@
                    + msg@,
            },
    {
        match self {
            SheetError::Usage { msg } => {
                let mut s: String = "usage error: ".to_owned();
                s.append(msg.as_str());
                s
            },
            SheetError::Decode { path, msg } => {
                let mut s: String = "no valid image at ".to_owned();
                s.append(path.as_str());
                s.append(": ");
                s.append(msg.as_str());
                s
            },
            SheetError::Encode { path, msg } => {
                let mut s: String = "writing ".to_owned();
                s.append(path.as_str());
                s.append(" failed: ");
                s.append(msg.as_str());
                s
            },
        }
    }
}

} // verus!
