//! The command-level error taxonomy. Every command returns one of these
//! synchronously; none of them is retried by the manager itself.

use vstd::prelude::*;
use vstd::string::*;

verus! {

/// Why a command failed.
#[derive(Clone, PartialEq, Eq, Debug)]
pub enum TabError {
    /// The URL string is malformed; user-correctable.
    InvalidUrl,
    /// The host window is unavailable; a setup ordering fault, surfaced to the
    /// caller and fatal to the command.
    NoMainWindow,
    /// Two surfaces were about to exist for one identifier; an internal
    /// invariant violation, surfaced rather than silently ignored.
    DuplicateTab,
    /// A host platform call failed; carries the underlying platform error
    /// text. Raised by the platform layer, never by the manager's own logic.
    SurfaceOperationFailed(String),
}

impl TabError {
    /// A short description of the failure, for the front end.
    pub fn describe(&self) -> (r: String)
        ensures
            self is InvalidUrl ==> r@ == "invalid URL"@,
            self is NoMainWindow ==> r@ == "No main window"@,
            self is DuplicateTab ==> r@ == "duplicate tab"@,
            self is SurfaceOperationFailed ==> r@ == self->SurfaceOperationFailed_0@,
    {
        match self {
            TabError::InvalidUrl => String::from_str("invalid URL"),
            TabError::NoMainWindow => String::from_str("No main window"),
            TabError::DuplicateTab => String::from_str("duplicate tab"),
            TabError::SurfaceOperationFailed(text) => text.clone(),
        }
    }
}

} // verus!
