//! The parameters of a system.

use vstd::prelude::*;
use crate::passband::Passband;
use crate::star::Star;
use crate::EBType;

verus! {

/// The parameters of an eclipsing binary.
#[derive(Debug)]
pub struct EBParams<T> {
    pub eb_type: EBType,
    /// Mass ratio M2/M1.
    pub q: T,
    /// Inclination in degrees.
    pub inclination: T,
    /// How the primary fills its Roche lobe.
    pub fillout1: T,
    /// How the secondary fills its Roche lobe.
    pub fillout2: T,
    /// Temperature of the primary, K.
    pub t_eff1: T,
    /// Temperature of the secondary, K.
    pub t_eff2: T,
    /// Limb darkening of the primary.
    pub ld1: T,
    /// Limb darkening of the secondary.
    pub ld2: T,
    /// Phase offset.
    pub phi0: T,
    /// Third light.
    pub l3: T,
    /// Resolution of the surface meshes.
    pub n_grid: usize,
    pub passband: Passband,
}

impl<T: Copy> EBParams<T> {
    /// The filling factor of a star.
    pub open spec fn fill_of(&self, star: Star) -> T {
        match star {
            Star::Primary => self.fillout1,
            Star::Secondary => self.fillout2,
        }
    }

    /// The filling factor of a star.
    pub fn fillout(&self, star: Star) -> (r: T)
        ensures
            r == self.fill_of(star),
    {
        match star {
            Star::Primary => self.fillout1,
            Star::Secondary => self.fillout2,
        }
    }

    /// The temperature of a star.
    pub open spec fn temperature_of(&self, star: Star) -> T {
        match star {
            Star::Primary => self.t_eff1,
            Star::Secondary => self.t_eff2,
        }
    }

    /// The temperature of a star.
    pub fn temperature(&self, star: Star) -> (r: T)
        ensures
            r == self.temperature_of(star),
    {
        match star {
            Star::Primary => self.t_eff1,
            Star::Secondary => self.t_eff2,
        }
    }
}

} // verus!
