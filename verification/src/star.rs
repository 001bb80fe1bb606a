//! The two components of a binary.

use vstd::prelude::*;

verus! {

/// One component of the binary.
#[derive(Debug, Clone, Copy, PartialEq, Eq, Structural)]
pub enum Star {
    /// The star at the origin.
    Primary,
    /// The star at unit separation along the x axis.
    Secondary,
}

impl Star {
    /// The other component.
    pub open spec fn other(self) -> Star {
        match self {
            Star::Primary => Star::Secondary,
            Star::Secondary => Star::Primary,
        }
    }

    /// The other component: the one that eclipses light from this one.
    pub fn companion(self) -> (r: Star)
        ensures
            r == self.other(),
    {
        match self {
            Star::Primary => Star::Secondary,
            Star::Secondary => Star::Primary,
        }
    }

    /// The centre of the star, in units of the separation.
    pub open spec fn place(self) -> (u32, u32, u32) {
        match self {
            Star::Primary => (0, 0, 0),
            Star::Secondary => (1, 0, 0),
        }
    }

    /// The centre of the star, in units of the separation.
    pub fn centre(self) -> (r: (u32, u32, u32))
        ensures
            r == self.place(),
    {
        match self {
            Star::Primary => (0, 0, 0),
            Star::Secondary => (1, 0, 0),
        }
    }
}

/// Neither star is its own companion, and the companion's companion is the
/// star itself.
pub proof fn companions_pair_up(star: Star)
    ensures
        star.other() != star,
        star.other().other() == star,
{
}

} // verus!
