//! Which credits a calculation takes into account.

use vstd::prelude::*;

verus! {

/// The credits that are switched on.
#[derive(Clone, Copy, Debug, PartialEq, Eq, Structural)]
pub struct Options {
    pub rps: bool,
    pub crp: bool,
}

/// The name of one option.
#[derive(Clone, Copy, Debug, PartialEq, Eq, Structural)]
pub enum OptionsName {
    Rps,
    Crp,
}

impl Options {
    /// The options with the one named `name` set to `value`.
    pub open spec fn spec_with(self, name: OptionsName, value: bool) -> Options {
        match name {
            OptionsName::Rps => Options { rps: value, crp: self.crp },
            OptionsName::Crp => Options { rps: self.rps, crp: value },
        }
    }
}

impl Default for Options {
    /// Both credits switched off.
    fn default() -> (r: Options)
        ensures
            r == (Options { rps: false, crp: false }),
    {
        Options { rps: false, crp: false }
    }
}

} // verus!
