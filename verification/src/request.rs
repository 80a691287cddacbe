//! An invocation request: which function to run, for which user, with what
//! payload.  Requests are immutable once created and consumed exactly once
//! by exactly one worker.  Parsing from and serialising to the wire format
//! happen outside the library; the scheduler only reads the function name
//! and the user id.

use vstd::prelude::*;

verus! {

/// One function-invocation request.  `interval` is an arrival-pacing hint
/// used only for trace replay; `payload` carries the request body as raw
/// text, opaque to the scheduler.
pub struct Request {
    pub interval: u64,
    pub function: String,
    pub payload: String,
    pub user_id: u32,
}

impl Clone for Request {
    fn clone(&self) -> (res: Self)
        ensures
            res == *self,
    {
        Request {
            interval: self.interval,
            function: self.function.clone(),
            payload: self.payload.clone(),
            user_id: self.user_id,
        }
    }
}

} // verus!
