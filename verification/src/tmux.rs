//! The tmux front end that the session manager was first written against;
//! it shares its session types and command lines with the tmux backend.

pub use crate::backend::{Session, SessionId, SpawnOptions};
use vstd::prelude::*;

verus! {

/// A handle on the tmux server.
pub struct Tmux;

impl Tmux {
    pub fn new() -> (r: Self)
        ensures
            r == Tmux,
    {
        Tmux
    }
}

} // verus!
