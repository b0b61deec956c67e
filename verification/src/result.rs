//! Typed results and the sentinel-code translation point.
//!
//! Raw integer codes follow the convention that zero and positive values
//! report success while negative values report failure. Every place that
//! holds a raw code turns it into a typed result through the two functions
//! here, so the convention is written down exactly once.

use vstd::prelude::*;

verus! {

/// Outcome of a fallible call: a success value or an [`NcError`].
pub type NcResult<T> = Result<T, NcError>;

/// Raw integer result: zero or positive reports success, negative failure.
pub type NcIntResult = i32;

/// Raw code reporting success where no other value applies.
pub const NCRESULT_OK: i32 = 0;

/// Raw sentinel code reporting failure.
pub const NCRESULT_ERR: i32 = -1;

/// Largest raw result value.
pub const NCRESULT_MAX: i32 = 0x7fff_ffff;

/// A typed failure: the raw code that reported it, and a diagnostic message
/// naming the operation that failed.
#[derive(Debug)]
pub struct NcError {
    pub code: NcIntResult,
    pub msg: String,
}

impl NcError {
    /// A failure carrying the generic error code and no message.
    pub fn new() -> (e: NcError)
        ensures
            e.code == NCRESULT_ERR,
            e.msg@ == Seq::<char>::empty(),
    {
        NcError { code: NCRESULT_ERR, msg: String::new() }
    }

    /// A failure carrying `code` and `msg` as its diagnostic text.
    pub fn with_msg(code: NcIntResult, msg: &str) -> (e: NcError)
        ensures
            e.code == code,
            e.msg@ == msg@,
    {
        NcError { code, msg: msg.to_owned() }
    }
}

/// Translates a raw code from a call that reports no other value: every
/// negative (sentinel failure) code becomes an error, never a success.
pub fn unit_result(code: NcIntResult, msg: &str) -> (r: NcResult<()>)
    ensures
        r is Ok <==> code >= 0,
        r matches Err(e) ==> e.code == code && e.msg@ == msg@,
{
    if code >= 0 {
        Ok(())
    } else {
        Err(NcError::with_msg(code, msg))
    }
}

/// Translates a raw code from a call that reports a count: a negative code
/// becomes an error, and a successful count is handed back exactly as it was
/// reported.
pub fn count_result(code: NcIntResult, msg: &str) -> (r: NcResult<u32>)
    ensures
        r is Ok <==> code >= 0,
        code >= 0 ==> r == Ok::<u32, NcError>(code as u32),
        r matches Err(e) ==> e.code == code && e.msg@ == msg@,
{
    if code >= 0 {
        Ok(code as u32)
    } else {
        Err(NcError::with_msg(code, msg))
    }
}

} // verus!
