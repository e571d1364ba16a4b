use vstd::prelude::*;

verus! {

/// A protocol fault reported by the display server through the error
/// callback. The three codes are copied verbatim from the native event.
#[derive(Clone, Debug, PartialEq, Eq)]
pub struct XError {
    pub description: String,
    pub error_code: u8,
    pub request_code: u8,
    pub minor_code: u8,
}

/// Why an optional native library could not be loaded.
#[derive(Clone, Copy, Debug, PartialEq, Eq, Structural)]
pub enum LoadFailure {
    /// The shared library itself could not be opened.
    Library,
    /// The library opened but a required symbol was missing.
    Symbol,
}

/// The outcome of a failed attempt to load an optional native library.
#[derive(Clone, Debug, PartialEq, Eq)]
pub struct LoadError {
    pub kind: LoadFailure,
    pub detail: String,
}

/// Errors surfaced to users of a connection.
#[derive(Clone, Debug, PartialEq, Eq)]
pub enum DisplayError {
    /// Opening the default display returned a null handle.
    XOpenDisplayFailed,
    /// A named optional capability is not available on this system.
    CapabilityUnavailable(LoadError),
    /// A protocol fault captured by the error callback.
    Protocol(XError),
}

} // verus!
