//! Versions of the Hrana client protocol.

use vstd::prelude::*;

verus! {

/// A version of the Hrana protocol. Later versions include everything that
/// earlier versions offer.
#[derive(Clone, Copy, Debug, PartialEq, Eq, Structural)]
pub enum Version {
    Hrana1,
    Hrana2,
    Hrana3,
}

impl Version {
    /// The version as a number: 1, 2 or 3.
    pub open spec fn rank(self) -> int {
        match self {
            Version::Hrana1 => 1,
            Version::Hrana2 => 2,
            Version::Hrana3 => 3,
        }
    }

    /// The version as a number: 1, 2 or 3.
    pub fn number(self) -> (n: u8)
        ensures
            n == self.rank(),
    {
        match self {
            Version::Hrana1 => 1,
            Version::Hrana2 => 2,
            Version::Hrana3 => 3,
        }
    }

    /// Whether this version offers everything that `min` offers.
    pub fn at_least(self, min: Version) -> (b: bool)
        ensures
            b == (self.rank() >= min.rank()),
    {
        self.number() >= min.number()
    }

    /// The name of the WebSocket subprotocol that carries this version.
    pub open spec fn name(self) -> Seq<char> {
        match self {
            Version::Hrana1 => "hrana1"@,
            Version::Hrana2 => "hrana2"@,
            Version::Hrana3 => "hrana3"@,
        }
    }

    /// The name of the WebSocket subprotocol that carries this version.
    pub fn as_str(self) -> (s: &'static str)
        ensures
            s@ == self.name(),
    {
        match self {
            Version::Hrana1 => "hrana1",
            Version::Hrana2 => "hrana2",
            Version::Hrana3 => "hrana3",
        }
    }
}

} // verus!
