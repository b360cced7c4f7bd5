//! The flag that tells a node to stop.

use vstd::prelude::*;

verus! {

/// Flag that tells every loop of a node to stop.
#[derive(Debug, Default)]
pub struct ExitStatus {
    flag: bool,
}

impl ExitStatus {
    /// Whether the flag has been raised.
    pub closed spec fn view(&self) -> bool {
        self.flag
    }

    /// A flag that has not been raised.
    pub fn new() -> (status: Self)
        ensures
            !status@,
    {
        ExitStatus { flag: false }
    }

    /// Raises the flag; raising it again changes nothing.
    pub fn exit(&mut self)
        ensures
            final(self)@,
    {
        self.flag = true;
    }

    /// Reads the flag.
    pub fn is_exit(&self) -> (b: bool)
        ensures
            b == self@,
    {
        self.flag
    }
}

} // verus!
