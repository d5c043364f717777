//! The two states of a search that runs beside its caller.
//!
//! Whoever runs the search keeps a [`SearchPhase`] and asks it before it
//! starts or stops one: a search is started only when none is running, and
//! stopped only when one is.

use vstd::prelude::*;

verus! {

/// Whether a search is running.
#[derive(Clone, Copy, PartialEq, Eq, Debug, Hash, Structural)]
pub enum SearchPhase {
    Idle,
    Searching,
}

impl SearchPhase {
    /// No search has been started yet.
    pub fn new() -> (phase: SearchPhase)
        ensures
            phase == SearchPhase::Idle,
    {
        SearchPhase::Idle
    }

    /// Whether a search may be started: none is running.
    pub fn can_start(&self) -> (b: bool)
        ensures
            b == (*self == SearchPhase::Idle),
    {
        matches!(self, SearchPhase::Idle)
    }

    /// Whether there is a search to stop.
    pub fn can_stop(&self) -> (b: bool)
        ensures
            b == (*self == SearchPhase::Searching),
    {
        matches!(self, SearchPhase::Searching)
    }

    /// A search is started.
    pub fn start(&mut self)
        requires
            *old(self) == SearchPhase::Idle,
        ensures
            *final(self) == SearchPhase::Searching,
    {
        *self = SearchPhase::Searching;
    }

    /// The running search is stopped and its move collected.
    pub fn stop(&mut self)
        requires
            *old(self) == SearchPhase::Searching,
        ensures
            *final(self) == SearchPhase::Idle,
    {
        *self = SearchPhase::Idle;
    }
}

} // verus!
