use vstd::prelude::*;

verus! {

/// How the program is asked to run.
#[derive(Debug, Copy, Clone, PartialEq, Eq, Structural, PartialOrd, Ord)]
pub enum Mode {
    /// Headless
    Headless,
    /// With native GUI
    Gui,
    /// With CLI
    Cli,
}

/// The parsed command line.
#[derive(Debug, PartialEq, Eq, Structural)]
pub struct Args {
    /// What mode to run in
    pub mode: Option<Mode>,
}

impl Args {
    /// The mode to run in, defaulting to headless.
    pub fn mode_or_default(&self) -> (r: Mode)
        ensures
            self.mode matches Some(m) ==> r == m,
            self.mode is None ==> r == Mode::Headless,
    {
        match self.mode {
            Some(m) => m,
            None => Mode::Headless,
        }
    }
}

} // verus!
