use vstd::prelude::*;

verus! {

/// Relies on fastrand::bool: a coin flip; nothing is promised of the result.
#[verifier::external_body]
pub(crate) fn random_bool() -> bool {
    fastrand::bool()
}

/// Digital output for machines without the real pin: remembers the last
/// driven level and reads it back on demand.
pub struct Gpio {
    mock_state: bool,
}

impl Gpio {
    /// The level the output currently drives.
    pub closed spec fn level(&self) -> bool {
        self.mock_state
    }

    /// A fresh output starts at an arbitrary level, as real hardware may.
    pub fn new() -> Gpio {
        Gpio { mock_state: random_bool() }
    }

    /// Read back the driven level. This output always supports read-back.
    pub fn get_state(&self) -> (r: Option<bool>)
        ensures
            r == Some(self.level()),
    {
        Some(self.mock_state)
    }

    /// Drive the output to `state`.
    pub fn set_state(&mut self, state: bool)
        ensures
            final(self).level() == state,
    {
        self.mock_state = state;
    }
}

} // verus!
