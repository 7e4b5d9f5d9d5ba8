//! Which terminal library a host program drives the renderer with. The
//! core itself only emits abstract paint operations; this tag lets a host
//! name the backend it will translate them for.

use vstd::prelude::*;

verus! {

#[derive(Clone, Copy, PartialEq, Eq, Structural, Debug)]
pub enum TerminalLibBackend {
    Crossterm,
    Termion,
}

impl TerminalLibBackend {
    /// The backend used when nothing is configured.
    pub fn default_backend() -> (r: TerminalLibBackend)
        ensures
            r == TerminalLibBackend::Crossterm,
    {
        TerminalLibBackend::Crossterm
    }
}

} // verus!
