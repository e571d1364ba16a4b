use vstd::prelude::*;

use crate::error::{DisplayError, XError};
use crate::fault::{check_step, fault_step, ignore_step, built_from_event};
use crate::memo::settled;
use crate::registry::Display;

verus! {

/// Two checks in a row: the second always succeeds, and with no fault
/// pending both do.
pub proof fn law_check_twice(
    s0: Option<XError>,
    s1: Option<XError>,
    s2: Option<XError>,
    r1: Result<(), DisplayError>,
    r2: Result<(), DisplayError>,
)
    requires
        check_step(s0, s1, r1),
        check_step(s1, s2, r2),
    ensures
        r2 is Ok,
        s0 is None ==> r1 is Ok,
{
}

/// A fault that was ignored is not reported by the next check.
pub proof fn law_ignored_fault_is_gone(
    s0: Option<XError>,
    s1: Option<XError>,
    s2: Option<XError>,
    s3: Option<XError>,
    e: XError,
    r: Result<(), DisplayError>,
)
    requires
        fault_step(s0, s1, e),
        ignore_step(s1, s2),
        check_step(s2, s3, r),
    ensures
        r is Ok,
{
}

/// A recorded fault is reported by the next check with exactly the codes of
/// the native event.
pub proof fn law_fault_reported(
    s0: Option<XError>,
    s1: Option<XError>,
    s2: Option<XError>,
    e: XError,
    text: Seq<u8>,
    error_code: u8,
    request_code: u8,
    minor_code: u8,
    r: Result<(), DisplayError>,
)
    requires
        built_from_event(e, text, error_code, request_code, minor_code),
        fault_step(s0, s1, e),
        check_step(s1, s2, r),
    ensures
        r matches Err(DisplayError::Protocol(f)) && f == e && f.error_code == error_code
            && f.request_code == request_code && f.minor_code == minor_code,
{
}

/// Whatever is offered to a compute-once cell after its first value, the
/// first value stays, and the cell reports that nothing is left to compute.
pub proof fn law_first_value_stays<T>(o: Option<T>, first: T, later: T)
    ensures
        settled(o, first) is Some,
        settled(settled(o, first), later) == settled(o, first),
        o is None ==> settled(o, first) == Some(first),
{
}

/// The default connection: once opening it has failed, every later access
/// yields that same failure and no further open is due.
pub proof fn law_default_failure_sticks(e: DisplayError, later: Result<Display, DisplayError>)
    ensures
        settled(settled(None, Err::<Display, DisplayError>(e)), later) == Some(
            Err::<Display, DisplayError>(e),
        ),
{
    law_first_value_stays(None, Err::<Display, DisplayError>(e), later);
}

} // verus!
