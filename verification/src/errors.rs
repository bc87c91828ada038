use vstd::prelude::*;

verus! {

/// Failures reported synchronously, before any background work starts.
/// A clock is only ever handed out fully configured: building one
/// without a timeout handler or without a timeout duration fails fast.
#[derive(Debug, PartialEq, Eq, Structural, Clone, Copy)]
pub enum UserConnectedBaseError {
    /// A key could not be placed in the timer table.
    InsertionFailure,
    /// `build` was called before a timeout duration was chosen.
    BuildErrorNoDurationSet,
    /// `build` was called before a timeout handler was installed.
    BuildErrorNoTimeOutSet,
}

} // verus!
