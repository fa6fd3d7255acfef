use vstd::prelude::*;

verus! {

/// What can go wrong in one invocation.
#[derive(Debug, PartialEq, Eq)]
pub enum FgError {
    /// A flag that needs a value was given without one; holds the flag.
    MissingRequiredValue(String),
    /// The mode is neither of the two accepted identifiers.
    InvalidMode,
    /// No alias of that name is stored.
    AliasNotFound,
    /// An alias was given an empty name.
    EmptyAliasName,
    /// An alias was given no commands.
    EmptyCommandList,
    /// The backend tool failed or could not be started; holds its status.
    SubprocessFailure(String),
    /// A store could not be written; holds the reason.
    StoreIoFailure(String),
}

} // verus!
