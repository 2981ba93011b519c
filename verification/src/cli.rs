//! Command-line argument combinations and their rules.
//!
//! Parsing the command line and the environment happens outside; the
//! record of what was asked for, and which combinations are allowed,
//! lives here.

use vstd::prelude::*;

verus! {

/// Which role the command line asked for.
#[derive(Debug, Clone, Copy, PartialEq, Eq, Structural)]
pub enum Mode {
    /// Host mode: own the devices, accept agents.
    Host,
    /// Agent mode: connect to a host.
    Agent,
}

/// Why a combination of arguments is refused.
#[derive(Debug, Clone, Copy, PartialEq, Eq, Structural)]
pub enum ArgsError {
    /// The GUI and the simulation cannot run together.
    GuiWithSimulate,
    /// An explicit mode contradicts the GUI, which picks its own.
    GuiWithMode,
}

/// What the command line asked for.
#[derive(Debug, Clone)]
pub struct Args {
    /// An explicit role, if one was given.
    pub mode: Option<Mode>,
    /// A configuration file path, if one was given.
    pub config: Option<String>,
    /// Launch the desktop shell.
    pub gui: bool,
    /// Run against virtual machines instead of hardware.
    pub simulate: bool,
    /// A host address for agent mode.
    pub host: Option<String>,
}

impl Args {
    /// Checks the combination rules: the GUI excludes the simulation,
    /// and an explicit mode excludes the GUI.
    pub fn validate(&self) -> (r: Result<(), ArgsError>)
        ensures
            match r {
                Ok(()) => !(self.gui && self.simulate) && !(self.gui && self.mode is Some),
                Err(ArgsError::GuiWithSimulate) => self.gui && self.simulate,
                Err(ArgsError::GuiWithMode) => self.gui && !self.simulate && self.mode is Some,
            },
    {
        if self.gui && self.simulate {
            return Err(ArgsError::GuiWithSimulate);
        }
        if self.gui {
            match &self.mode {
                Some(_) => {
                    return Err(ArgsError::GuiWithMode);
                }
                None => {}
            }
        }
        Ok(())
    }
}

} // verus!
