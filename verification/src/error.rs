use vstd::prelude::*;

verus! {

/// Why an operation of this library failed.
#[derive(Clone, Copy, Debug, PartialEq, Eq, Structural)]
pub enum OneClickLaunchError {
    /// The backing store could not take the write: an identifier or a sort
    /// key is exhausted, or rows handed to the store break its constraints.
    StorageError,
    /// The launcher, resource or setting that was referred to does not exist.
    NotFound,
    /// The caller's input is empty or malformed.
    InvalidArgument,
    /// A collaborator outside the library (opening a resource, the window,
    /// the tray) reported a failure.
    ExternalOperationFailed,
    /// An event payload or a stored settings value could not be parsed.
    SerializationError,
}

impl OneClickLaunchError {
    /// A short human-readable description of the error.
    pub fn message(&self) -> (text: &'static str)
        ensures
            text@ == Self::spec_message(*self),
    {
        match self {
            OneClickLaunchError::StorageError => "the store rejected the operation",
            OneClickLaunchError::NotFound => "the referenced item does not exist",
            OneClickLaunchError::InvalidArgument => "the input is empty or malformed",
            OneClickLaunchError::ExternalOperationFailed => "an external operation failed",
            OneClickLaunchError::SerializationError => "the value could not be parsed",
        }
    }

    /// The description that `message` returns for each error.
    pub open spec fn spec_message(e: OneClickLaunchError) -> Seq<char> {
        match e {
            OneClickLaunchError::StorageError => "the store rejected the operation"@,
            OneClickLaunchError::NotFound => "the referenced item does not exist"@,
            OneClickLaunchError::InvalidArgument => "the input is empty or malformed"@,
            OneClickLaunchError::ExternalOperationFailed => "an external operation failed"@,
            OneClickLaunchError::SerializationError => "the value could not be parsed"@,
        }
    }
}

} // verus!
