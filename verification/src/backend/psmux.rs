//! The fallback backend where no multiplexer is available: it hosts no
//! sessions.

use vstd::prelude::*;

verus! {

/// The fallback backend, which hosts no sessions.
pub struct PsmuxBackend;

impl PsmuxBackend {
    pub fn new() -> (r: Self)
        ensures
            r == PsmuxBackend,
    {
        PsmuxBackend
    }
}

} // verus!
