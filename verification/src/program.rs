//! The top-level program mode machine.
//!
//! The renderer's frame loop dispatches on the current mode; the library
//! owns the mode value and the one transition the loop decides by itself
//! (resuming a saved game switches to play once the saved state is loaded).

use vstd::prelude::*;

verus! {

/// The top-level mode the program is in.
#[derive(Clone, Copy, PartialEq, Eq, Structural, Debug)]
pub enum ProgramMode {
    Loader,
    MainMenu,
    PlanetGen,
    PlanetGen2,
    Resume,
    PlayGame,
    Quit,
}

/// The top-level program state: the current mode, and whether the shared
/// render resources have been initialised.
pub struct Program {
    pub mode: ProgramMode,
    pub initialized: bool,
}

impl Program {
    /// A fresh program starts in the loader, with nothing initialised.
    pub fn new() -> (r: Program)
        ensures
            r.mode == ProgramMode::Loader,
            !r.initialized,
    {
        Program { mode: ProgramMode::Loader, initialized: false }
    }

    /// Marks the shared resources as initialised; the mode is untouched.
    pub fn init(&mut self)
        ensures
            final(self).initialized,
            final(self).mode == old(self).mode,
    {
        self.initialized = true;
    }

    /// The mode the resume step hands the next frame: entering `Resume`
    /// switches to `PlayGame` once; every other mode is kept as the frame's
    /// own dispatch left it.
    pub fn resolve_resume(&mut self)
        ensures
            old(self).mode == ProgramMode::Resume ==> final(self).mode == ProgramMode::PlayGame,
            old(self).mode != ProgramMode::Resume ==> final(self).mode == old(self).mode,
            final(self).initialized == old(self).initialized,
    {
        if let ProgramMode::Resume = self.mode {
            self.mode = ProgramMode::PlayGame;
        }
    }
}

} // verus!
