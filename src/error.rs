use vstd::prelude::*;

verus! {

/// Why an operation of the driver failed.
#[derive(Clone, Copy, PartialEq, Eq, Structural, Debug)]
pub enum DisplayError {
    /// A transfer on the serial bus failed.
    BusError,
    /// A pixel buffer does not have the length that the panel needs.
    SizeMismatch,
    /// A GPIO line could not be configured, read or written.
    PeripheralError,
    /// The tear-effect line did not signal within the allowed number of polls.
    SyncTimeout,
}

} // verus!
