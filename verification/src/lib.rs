//! Eclipsing binary light curve synthesis.
//!
//! Forward modelling of contact (W UMa) and detached eclipsing binaries: which
//! bands there are and how each is evaluated, which surface elements are seen,
//! how curves are normalised and laid out, how throughput tables and template
//! banks are read. Everything here is stated and proved over whatever numbers
//! the caller computes with; the numbers, and the Roche geometry behind them,
//! come in as closures.

use vstd::prelude::*;

pub mod band_value;
pub mod bank;
pub mod bank_value;
pub mod curve_laws;
pub mod curve_value;
pub mod error;
pub mod flux;
pub mod flux_laws;
pub mod flux_value;
pub mod lightcurve;
pub mod lsst_tables;
pub mod names_value;
pub mod params;
pub mod passband;
pub mod shine;
pub mod star;
pub mod sum;
pub mod table_value;
pub mod text;

pub use error::PhoebeError;
pub use flux::EclipseAcc;
pub use lightcurve::compute_lightcurve;
pub use params::EBParams;
pub use passband::BandMode;
pub use passband::Passband;
pub use star::Star;

verus! {

/// The kind of system, by how its stars fill their Roche lobes.
#[derive(Debug, Clone, Copy, PartialEq, Eq, Structural)]
pub enum EBType {
    /// Contact binary (W UMa): both stars fill their Roche lobes.
    Contact,
    /// Semi-detached: one star fills its Roche lobe.
    SemiDetached,
    /// Detached: neither star fills its Roche lobe.
    Detached,
}

} // verus!
