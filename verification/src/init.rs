use crate::display::{replace_all, replace_spec};
use crate::settings::InitMode;
use vstd::prelude::*;

verus! {

/// The start-up code to print for a shell: which shell's script.
pub struct Init {
    pub shell: InitMode,
}

impl Init {
    /// Chooses the script for the given shell.
    pub fn new(init_mode: &InitMode) -> (r: Self)
        ensures
            r.shell == *init_mode,
    {
        Init { shell: *init_mode }
    }

    /// The start-up code to print from the shell's script: the PowerShell script gets the
    /// path of the executable in place of each `::MCFLY::`; the others are printed as they are.
    pub fn script_text(&self, script: &str, exe: &str) -> (r: String)
        ensures
            r@ == (match self.shell {
                InitMode::Powershell => replace_spec(script@, "::MCFLY::"@, exe@),
                _ => script@,
            }),
    {
        match self.shell {
            InitMode::Powershell => {
                proof {
                    reveal_strlit("::MCFLY::");
                }
                replace_all(script, "::MCFLY::", exe)
            },
            _ => script.to_owned(),
        }
    }
}

} // verus!
