use vstd::prelude::*;

use crate::error::{DisplayError, LoadError, LoadFailure};
use crate::memo::{settled, Memo};

verus! {

#[verifier::external_type_specification]
#[verifier::external_body]
pub struct ExOpenError(x11_dl::error::OpenError);

#[verifier::external_type_specification]
#[verifier::external_body]
pub struct ExXlib(x11_dl::xlib::Xlib);

/// Relies on `x11_dl::xlib::Xlib::open`: it loads libX11 and its symbols,
/// or reports why it could not. What it returns depends on the system.
#[verifier::external_body]
fn open_xlib() -> (r: Result<x11_dl::xlib::Xlib, x11_dl::error::OpenError>) {
    x11_dl::xlib::Xlib::open()
}

/// Relies on `x11_dl::error::OpenError::kind`, mapped variant for variant.
#[verifier::external_body]
fn open_error_kind(e: &x11_dl::error::OpenError) -> (r: LoadFailure) {
    match e.kind() {
        x11_dl::error::OpenErrorKind::Library => LoadFailure::Library,
        x11_dl::error::OpenErrorKind::Symbol => LoadFailure::Symbol,
    }
}

/// Relies on `x11_dl::error::OpenError::detail`, copied into a `String`.
#[verifier::external_body]
fn open_error_detail(e: &x11_dl::error::OpenError) -> (r: String) {
    e.detail().to_string()
}

impl LoadError {
    /// The library's account of a failed native load.
    pub fn from_open_error(e: &x11_dl::error::OpenError) -> (r: LoadError) {
        LoadError { kind: open_error_kind(e), detail: open_error_detail(e) }
    }

    /// A field-for-field copy.
    pub fn duplicate(&self) -> (r: LoadError)
        ensures
            r.kind == self.kind,
            r.detail@ == self.detail@,
    {
        LoadError { kind: self.kind, detail: self.detail.clone() }
    }
}

/// One optional native library, loaded at most once. A failure is kept like
/// a success and concerns only the operations that need this library.
pub struct Capability<T> {
    cell: Memo<Result<T, LoadError>>,
}

impl<T> Capability<T> {
    pub closed spec fn view(&self) -> Option<Result<T, LoadError>> {
        self.cell@
    }

    pub fn new() -> (r: Capability<T>)
        ensures
            r@ is None,
    {
        Capability { cell: Memo::new() }
    }

    /// Whether the load has been attempted.
    pub fn is_loaded(&self) -> (r: bool)
        ensures
            r == self@ is Some,
    {
        self.cell.is_settled()
    }

    /// Records the outcome of the load; only the first outcome counts.
    pub fn settle(&mut self, outcome: Result<T, LoadError>)
        ensures
            final(self)@ == settled(old(self)@, outcome),
    {
        self.cell.settle(outcome);
    }

    /// Whether the library loaded.
    pub fn is_available(&self) -> (r: bool)
        ensures
            r == (self@ matches Some(Ok(_))),
    {
        match self.cell.get() {
            Some(Ok(_)) => true,
            _ => false,
        }
    }

    /// The loaded library, or the reason it is unavailable. Must be called
    /// after the load was attempted.
    pub fn handle(&self) -> (r: Result<&T, DisplayError>)
        requires
            self@ is Some,
        ensures
            match self@ {
                Some(Ok(h)) => r matches Ok(x) && *x == h,
                Some(Err(e)) => r matches Err(DisplayError::CapabilityUnavailable(f))
                    && f.kind == e.kind && f.detail@ == e.detail@,
                None => false,
            },
    {
        match self.cell.get() {
            Some(Ok(h)) => Ok(h),
            Some(Err(e)) => Err(DisplayError::CapabilityUnavailable(e.duplicate())),
            None => Err(DisplayError::XOpenDisplayFailed),
        }
    }
}

/// Loads libX11 into `cap` unless that was already attempted; afterwards the
/// capability holds the first outcome for good.
pub fn load_xlib(cap: &mut Capability<x11_dl::xlib::Xlib>)
    ensures
        final(cap)@ is Some,
        old(cap)@ is Some ==> final(cap)@ == old(cap)@,
{
    if !cap.is_loaded() {
        let outcome = match open_xlib() {
            Ok(x) => Ok(x),
            Err(e) => Err(LoadError::from_open_error(&e)),
        };
        cap.settle(outcome);
    }
}

} // verus!
