//! Errors surfaced to the host as text.
use vstd::prelude::*;

verus! {

/// The class of a failure; each class is told apart by its message.
#[derive(Clone, Copy, Debug, PartialEq, Eq, Structural)]
pub enum ErrorClass {
    /// Null or invalid input text.
    Input,
    /// Malformed descriptor, or transport, authentication or isolation setup failure.
    Connectivity,
    /// An operation that needs an active connection was called without one.
    State,
    /// The server rejected a statement, or its results could not be read.
    Execution,
    /// A result could not be serialized.
    Encoding,
}

/// A failure: its class and a human-readable detail.
pub struct BridgeError {
    pub class: ErrorClass,
    pub detail: String,
}

/// Every error text starts with this marker.
pub open spec fn error_marker() -> Seq<char> {
    seq!['E', 'R', 'R', 'O', 'R', ':', ' ']
}

impl BridgeError {
    pub fn new(class: ErrorClass, detail: &str) -> (r: BridgeError)
        ensures
            r.class == class,
            r.detail@ == detail@,
    {
        BridgeError { class, detail: detail.to_owned() }
    }

    /// The text handed to the host: the marker followed by the detail.
    pub fn message(&self) -> (r: String)
        ensures
            r@ == error_marker() + self.detail@,
    {
        proof {
            reveal_strlit("ERROR: ");
            assert("ERROR: "@ =~= error_marker());
        }
        let mut out = "ERROR: ".to_owned();
        out.append(self.detail.as_str());
        out
    }
}

} // verus!
