//! Light curve computation for eclipsing binaries.
//!
//! The fluxes are the caller's numbers. What is settled here is which meshes a
//! system needs, which star eclipses which and how full it is taken to be, what
//! is evaluated for every band and phase, and how the columns of a curve line
//! up with its phases.

use vstd::prelude::*;
use crate::error::PhoebeError;
use crate::params::EBParams;
use crate::passband::{BandMode, Passband};
use crate::star::Star;
use crate::text;
use crate::EBType;

verus! {

// ---------------------------------------------------------------------------
// Settings
// ---------------------------------------------------------------------------

/// The band treatment a setting asks for, given what its name lowers to: the
/// default when it is unset or names none.
pub open spec fn mode_for(lowered: Option<Seq<char>>) -> BandMode {
    match lowered {
        Some(name) => match BandMode::named(name) {
            Some(mode) => mode,
            None => BandMode::Effective,
        },
        None => BandMode::Effective,
    }
}

/// The LSST band treatment, from the setting if there is one.
///
/// Defaults to one Planck evaluation at each band's pivot wavelength. Set it to
/// "integrated" to integrate Planck against the tabulated throughput instead.
pub fn band_mode(setting: Option<&str>) -> (r: BandMode)
    ensures
        setting is None ==> r == mode_for(None),
        setting matches Some(v) ==> r == mode_for(Some(text::lowercase(v@))),
        setting matches Some(v) ==> vstd::utf8::is_ascii_chars(v@) ==> r == mode_for(
            Some(text::ascii_lowercase(v@)),
        ),
{
    match setting {
        Some(v) => match BandMode::from_str(v) {
            Some(mode) => mode,
            None => BandMode::default(),
        },
        None => BandMode::default(),
    }
}

// ---------------------------------------------------------------------------
// The system
// ---------------------------------------------------------------------------

/// Temperature of the primary above which its envelope counts as radiative, K.
pub const RADIATIVE_ABOVE_K: u32 = 7500;

/// The energy transport of the envelope, which sets gravity darkening and
/// reflection.
#[derive(Debug, Clone, Copy, PartialEq, Eq, Structural)]
pub enum Envelope {
    Radiative,
    Convective,
}

impl Envelope {
    /// The envelope of a primary that is, or is not, hotter than
    /// `RADIATIVE_ABOVE_K`.
    pub fn of_primary(hotter: bool) -> (r: Envelope)
        ensures
            r == (if hotter {
                Envelope::Radiative
            } else {
                Envelope::Convective
            }),
    {
        if hotter {
            Envelope::Radiative
        } else {
            Envelope::Convective
        }
    }

    /// The gravity darkening exponent, in hundredths.
    pub open spec fn darkening_exponent(self) -> u32 {
        match self {
            Envelope::Radiative => 25,
            Envelope::Convective => 8,
        }
    }

    /// The reflection albedo, in hundredths.
    pub open spec fn reflectance(self) -> u32 {
        match self {
            Envelope::Radiative => 100,
            Envelope::Convective => 50,
        }
    }

    /// The gravity darkening exponent, in hundredths.
    pub fn gravity_darkening(self) -> (r: u32)
        ensures
            r == self.darkening_exponent(),
    {
        match self {
            Envelope::Radiative => 25,
            Envelope::Convective => 8,
        }
    }

    /// The reflection albedo, in hundredths.
    pub fn albedo(self) -> (r: u32)
        ensures
            r == self.reflectance(),
    {
        match self {
            Envelope::Radiative => 100,
            Envelope::Convective => 50,
        }
    }
}

/// How full the eclipsing star is taken to be when eclipses are looked for.
#[derive(Debug)]
pub enum EclipserFillout<T> {
    /// A filling factor in hundredths.
    Hundredths(u32),
    /// The filling factor of its own surface.
    Own(T),
}

/// The filling factor of a star that fills its Roche lobe exactly, in
/// hundredths.
pub const ROCHE_FILLING: u32 = 100;

/// The phase of quadrature, in hundredths of an orbit after primary eclipse.
pub const QUADRATURE: u32 = 25;

/// The filling factor of `eclipser` for the eclipse check.
pub open spec fn eclipsing_fill<T: Copy>(params: &EBParams<T>, eclipser: Star) -> EclipserFillout<
    T,
> {
    if params.eb_type == EBType::Contact {
        EclipserFillout::Hundredths(ROCHE_FILLING)
    } else {
        EclipserFillout::Own(params.fill_of(eclipser))
    }
}

/// The filling factor of `eclipser` for the eclipse check. Both stars of a
/// contact binary are Roche-filling there, however far they overflow.
pub fn eclipser_fillout<T: Copy>(params: &EBParams<T>, eclipser: Star) -> (r: EclipserFillout<T>)
    ensures
        r == eclipsing_fill(params, eclipser),
{
    match params.eb_type {
        EBType::Contact => EclipserFillout::Hundredths(ROCHE_FILLING),
        _ => EclipserFillout::Own(params.fillout(eclipser)),
    }
}

/// `r` is how building the meshes of a system ends: a contact binary has one
/// overcontact surface, at the filling factor of the primary, cut into the two
/// stars, on a grid of twice the resolution; any other system has two surfaces,
/// each at the filling factor of its star, built primary first, and the first
/// failure ends it.
pub open spec fn meshes_built<
    T: Copy,
    M,
    X,
    Overcontact: Fn(T, T, usize) -> Result<(M, M), PhoebeError<X>>,
    Separate: Fn(T, Star, T, usize) -> Result<M, PhoebeError<X>>,
>(
    params: &EBParams<T>,
    overcontact: &Overcontact,
    separate: &Separate,
    r: Result<(M, M), PhoebeError<X>>,
) -> bool {
    let first = (params.q, Star::Primary, params.fillout1, params.n_grid);
    let second = (params.q, Star::Secondary, params.fillout2, params.n_grid);
    match params.eb_type {
        EBType::Contact => call_ensures(
            overcontact,
            (params.q, params.fillout1, (params.n_grid * 2) as usize),
            r,
        ),
        _ => match r {
            Ok((m1, m2)) => {
                &&& call_ensures(separate, first, Ok(m1))
                &&& call_ensures(separate, second, Ok(m2))
            },
            Err(e) => {
                ||| call_ensures(separate, first, Err(e))
                ||| exists|m1: M|
                    {
                        &&& #[trigger] call_ensures(separate, first, Ok(m1))
                        &&& call_ensures(separate, second, Err(e))
                    }
            },
        },
    }
}

/// Build the meshes of the two stars, depending on the type of the system.
pub fn build_meshes<
    T: Copy,
    M,
    X,
    Overcontact: Fn(T, T, usize) -> Result<(M, M), PhoebeError<X>>,
    Separate: Fn(T, Star, T, usize) -> Result<M, PhoebeError<X>>,
>(params: &EBParams<T>, overcontact: &Overcontact, separate: &Separate) -> (r: Result<
    (M, M),
    PhoebeError<X>,
>)
    requires
        params.eb_type == EBType::Contact ==> params.n_grid * 2 <= usize::MAX,
        forall|q: T, f: T, n: usize| #[trigger] call_requires(overcontact, (q, f, n)),
        forall|q: T, s: Star, f: T, n: usize| #[trigger]
            call_requires(separate, (q, s, f, n)),
    ensures
        meshes_built(params, overcontact, separate, r),
{
    match params.eb_type {
        EBType::Contact => overcontact(params.q, params.fillout1, params.n_grid * 2),
        _ => {
            let m1: M = match separate(params.q, Star::Primary, params.fillout1, params.n_grid) {
                Ok(m) => m,
                Err(e) => {
                    return Err(e);
                },
            };
            match separate(params.q, Star::Secondary, params.fillout2, params.n_grid) {
                Ok(m2) => Ok((m1, m2)),
                Err(e) => Err(e),
            }
        },
    }
}

// ---------------------------------------------------------------------------
// The light of one star
// ---------------------------------------------------------------------------

/// The orbital phase at which the system is seen.
#[derive(Debug)]
pub enum Sight<T> {
    /// A phase in hundredths of an orbit.
    Hundredths(u32),
    /// A phase as a number.
    At(T),
}

/// A system in one band: everything its fluxes depend on but the direction.
#[derive(Debug)]
pub struct Scene<'a, M, B, T> {
    pub params: &'a EBParams<T>,
    /// The surfaces of the primary and of the secondary.
    pub meshes: &'a (M, M),
    /// The surface brightness in the band.
    pub table: &'a B,
    pub envelope: Envelope,
    /// Limb darkening of the primary in the band.
    pub ld1: T,
    /// Limb darkening of the secondary in the band.
    pub ld2: T,
}

/// What the flux of one star is computed from.
#[derive(Debug)]
pub struct Emission<'a, M, B, T> {
    /// The surface that shines.
    pub mesh: &'a M,
    /// The surface brightness in the band.
    pub table: &'a B,
    pub q: T,
    pub inclination: T,
    pub sight: Sight<T>,
    /// The star that may stand in front.
    pub eclipser: Star,
    /// How full the eclipser is.
    pub fillout: EclipserFillout<T>,
    /// Temperature of the star that shines, K.
    pub t_eff: T,
    /// Temperature of the star that heats it, K.
    pub t_eff_companion: T,
    /// Limb darkening of the star that shines.
    pub ld: T,
    pub envelope: Envelope,
}

impl<'a, M, B, T: Copy> Scene<'a, M, B, T> {
    /// The emission of `star` in the direction `sight`: its own surface,
    /// temperature and limb darkening, heated and eclipsed by its companion.
    pub open spec fn emitted(&self, star: Star, sight: Sight<T>) -> Emission<'a, M, B, T> {
        Emission {
            mesh: match star {
                Star::Primary => &self.meshes.0,
                Star::Secondary => &self.meshes.1,
            },
            table: self.table,
            q: self.params.q,
            inclination: self.params.inclination,
            sight,
            eclipser: star.other(),
            fillout: eclipsing_fill(self.params, star.other()),
            t_eff: self.params.temperature_of(star),
            t_eff_companion: self.params.temperature_of(star.other()),
            ld: match star {
                Star::Primary => self.ld1,
                Star::Secondary => self.ld2,
            },
            envelope: self.envelope,
        }
    }

    /// What the flux of `star` in the direction `sight` is computed from.
    pub fn emission(&self, star: Star, sight: Sight<T>) -> (r: Emission<'a, M, B, T>)
        ensures
            r == self.emitted(star, sight),
    {
        let eclipser: Star = star.companion();
        Emission {
            mesh: match star {
                Star::Primary => &self.meshes.0,
                Star::Secondary => &self.meshes.1,
            },
            table: self.table,
            q: self.params.q,
            inclination: self.params.inclination,
            sight,
            eclipser,
            fillout: eclipser_fillout(self.params, eclipser),
            t_eff: self.params.temperature(star),
            t_eff_companion: self.params.temperature(eclipser),
            ld: match star {
                Star::Primary => self.ld1,
                Star::Secondary => self.ld2,
            },
            envelope: self.envelope,
        }
    }
}

/// `envelope` is the one that goes with the temperature of the primary.
pub open spec fn enveloped<
    T,
    Hotter: Fn(T, u32) -> bool,
>(params: &EBParams<T>, hotter: &Hotter, envelope: Envelope) -> bool {
    exists|hot: bool|
        {
            &&& #[trigger] call_ensures(hotter, (params.t_eff1, RADIATIVE_ABOVE_K), hot)
            &&& envelope == (if hot {
                Envelope::Radiative
            } else {
                Envelope::Convective
            })
        }
}

// ---------------------------------------------------------------------------
// The curve
// ---------------------------------------------------------------------------

/// Result of light curve computation.
#[derive(Debug)]
pub struct LightCurve<T> {
    pub phases: Vec<T>,
    pub flux: Vec<T>,
    pub flux1: Vec<T>,
    pub flux2: Vec<T>,
}

/// One point of a light curve.
#[derive(Debug)]
pub struct Sample<T> {
    /// The normalised flux of the system.
    pub total: T,
    /// The normalised share of the primary.
    pub first: T,
    /// The normalised share of the secondary.
    pub second: T,
}

impl<T> LightCurve<T> {
    /// Every column has one entry per phase.
    pub open spec fn aligned(&self) -> bool {
        &&& self.flux@.len() == self.phases@.len()
        &&& self.flux1@.len() == self.phases@.len()
        &&& self.flux2@.len() == self.phases@.len()
    }

    /// The point at phase index `k`.
    pub open spec fn at(&self, k: int) -> Sample<T> {
        Sample { total: self.flux@[k], first: self.flux1@[k], second: self.flux2@[k] }
    }
}

/// What a system without light is refused with.
pub open spec fn zero_flux() -> Seq<char> {
    "zero flux at quadrature"@
}

/// `f1` and `f2` are the fluxes of the primary and of the secondary.
pub open spec fn both_fluxes<
    M,
    B,
    T: Copy,
    Flux: Fn(Emission<M, B, T>) -> T,
>(flux: &Flux, scene: &Scene<M, B, T>, sight: Sight<T>, f1: T, f2: T) -> bool {
    &&& call_ensures(flux, (scene.emitted(Star::Primary, sight),), f1)
    &&& call_ensures(flux, (scene.emitted(Star::Secondary, sight),), f2)
}

/// `sample` is the point that the fluxes of the two stars make: either flux
/// over the normalisation, and their sum over the normalisation, diluted by the
/// third light.
pub open spec fn makes_point<
    T,
    Plus: Fn(T, T) -> T,
    Over: Fn(T, T) -> T,
    Dilute: Fn(T, T) -> T,
>(
    plus: &Plus,
    over: &Over,
    dilute: &Dilute,
    f1: T,
    f2: T,
    norm: T,
    l3: T,
    sample: Sample<T>,
) -> bool {
    &&& call_ensures(over, (f1, norm), sample.first)
    &&& call_ensures(over, (f2, norm), sample.second)
    &&& exists|both: T, whole: T|
        {
            &&& #[trigger] call_ensures(plus, (f1, f2), both)
            &&& #[trigger] call_ensures(over, (both, norm), whole)
            &&& call_ensures(dilute, (whole, l3), sample.total)
        }
}

/// `sample` is the point of the curve at `phase`, seen after the phase offset
/// is added.
pub open spec fn samples<
    M,
    B,
    T: Copy,
    Flux: Fn(Emission<M, B, T>) -> T,
    Plus: Fn(T, T) -> T,
    Over: Fn(T, T) -> T,
    Dilute: Fn(T, T) -> T,
>(
    flux: &Flux,
    plus: &Plus,
    over: &Over,
    dilute: &Dilute,
    scene: &Scene<M, B, T>,
    norm: T,
    phase: T,
    sample: Sample<T>,
) -> bool {
    exists|at: T, f1: T, f2: T|
        {
            &&& #[trigger] call_ensures(plus, (phase, scene.params.phi0), at)
            &&& #[trigger] both_fluxes(flux, scene, Sight::At(at), f1, f2)
            &&& makes_point(plus, over, dilute, f1, f2, norm, scene.params.l3, sample)
        }
}

/// `curve` holds one point for each of `phases`, in order.
pub open spec fn traces<
    M,
    B,
    T: Copy,
    Flux: Fn(Emission<M, B, T>) -> T,
    Plus: Fn(T, T) -> T,
    Over: Fn(T, T) -> T,
    Dilute: Fn(T, T) -> T,
>(
    flux: &Flux,
    plus: &Plus,
    over: &Over,
    dilute: &Dilute,
    scene: &Scene<M, B, T>,
    norm: T,
    phases: Seq<T>,
    curve: LightCurve<T>,
) -> bool {
    &&& curve.aligned()
    &&& curve.phases@ == phases
    &&& forall|k: int|
        0 <= k < phases.len() ==> samples(
            flux,
            plus,
            over,
            dilute,
            scene,
            norm,
            phases[k],
            #[trigger] curve.at(k),
        )
}

/// `norm` is the sum of the fluxes at quadrature.
pub open spec fn normalises<
    M,
    B,
    T: Copy,
    Flux: Fn(Emission<M, B, T>) -> T,
    Plus: Fn(T, T) -> T,
>(flux: &Flux, plus: &Plus, scene: &Scene<M, B, T>, norm: T) -> bool {
    exists|f1: T, f2: T|
        {
            &&& #[trigger] both_fluxes(flux, scene, Sight::Hundredths(QUADRATURE), f1, f2)
            &&& call_ensures(plus, (f1, f2), norm)
        }
}

/// `r` is how the curve of a scene ends: normalised at quadrature and traced,
/// or refused because there is no light at quadrature.
pub open spec fn curve_ends<
    M,
    B,
    T: Copy,
    X,
    Flux: Fn(Emission<M, B, T>) -> T,
    Plus: Fn(T, T) -> T,
    Dark: Fn(T) -> bool,
    Over: Fn(T, T) -> T,
    Dilute: Fn(T, T) -> T,
>(
    flux: &Flux,
    plus: &Plus,
    dark: &Dark,
    over: &Over,
    dilute: &Dilute,
    scene: &Scene<M, B, T>,
    phases: Seq<T>,
    r: Result<LightCurve<T>, PhoebeError<X>>,
) -> bool {
    match r {
        Ok(curve) => exists|norm: T|
            {
                &&& #[trigger] normalises(flux, plus, scene, norm)
                &&& call_ensures(dark, (norm,), false)
                &&& traces(flux, plus, over, dilute, scene, norm, phases, curve)
            },
        Err(e) => {
            &&& exists|norm: T|
                {
                    &&& #[trigger] normalises(flux, plus, scene, norm)
                    &&& call_ensures(dark, (norm,), true)
                }
            &&& e matches PhoebeError::InvalidParams(message) && message@ == zero_flux()
        },
    }
}

fn trace<
    M,
    B,
    T: Copy,
    Flux: Fn(Emission<M, B, T>) -> T,
    Plus: Fn(T, T) -> T,
    Over: Fn(T, T) -> T,
    Dilute: Fn(T, T) -> T,
>(
    phases: &Vec<T>,
    scene: &Scene<M, B, T>,
    norm: T,
    flux: &Flux,
    plus: &Plus,
    over: &Over,
    dilute: &Dilute,
) -> (curve: LightCurve<T>)
    requires
        forall|e: Emission<M, B, T>| #[trigger] call_requires(flux, (e,)),
        forall|x: T, y: T| #[trigger] call_requires(plus, (x, y)),
        forall|x: T, y: T| #[trigger] call_requires(over, (x, y)),
        forall|x: T, l3: T| #[trigger] call_requires(dilute, (x, l3)),
    ensures
        traces(flux, plus, over, dilute, scene, norm, phases@, curve),
{
    let mut curve: LightCurve<T> = LightCurve {
        phases: Vec::new(),
        flux: Vec::new(),
        flux1: Vec::new(),
        flux2: Vec::new(),
    };
    let mut k: usize = 0;
    assert(curve.phases@ =~= phases@.take(0));
    while k < phases.len()
        invariant
            k <= phases.len(),
            forall|e: Emission<M, B, T>| #[trigger] call_requires(flux, (e,)),
            forall|x: T, y: T| #[trigger] call_requires(plus, (x, y)),
            forall|x: T, y: T| #[trigger] call_requires(over, (x, y)),
            forall|x: T, l3: T| #[trigger] call_requires(dilute, (x, l3)),
            traces(
                flux,
                plus,
                over,
                dilute,
                scene,
                norm,
                phases@.take(k as int),
                curve,
            ),
        decreases phases.len() - k,
    {
        let ghost before = curve;
        let phase: T = phases[k];
        let at: T = plus(phase, scene.params.phi0);
        let f1: T = flux(scene.emission(Star::Primary, Sight::At(at)));
        let f2: T = flux(scene.emission(Star::Secondary, Sight::At(at)));
        assert(both_fluxes(flux, scene, Sight::At(at), f1, f2));
        let whole: T = over(plus(f1, f2), norm);
        let sample: Sample<T> = Sample {
            total: dilute(whole, scene.params.l3),
            first: over(f1, norm),
            second: over(f2, norm),
        };
        let ghost shown = sample;
        assert(samples(flux, plus, over, dilute, scene, norm, phase, shown));
        curve.phases.push(phase);
        curve.flux.push(sample.total);
        curve.flux1.push(sample.first);
        curve.flux2.push(sample.second);
        k += 1;
        proof {
            let seen = phases@.take(k as int);
            assert(seen =~= curve.phases@);
            assert forall|j: int| 0 <= j < seen.len() implies samples(
                flux,
                plus,
                over,
                dilute,
                scene,
                norm,
                seen[j],
                #[trigger] curve.at(j),
            ) by {
                if j < k - 1 {
                    assert(before.at(j) == curve.at(j));
                    assert(phases@.take(k - 1)[j] == seen[j]);
                } else {
                    assert(curve.at(j) == shown);
                }
            }
        }
    }
    assert(phases@.take(k as int) =~= phases@);
    curve
}

/// The light curve of a scene.
pub fn scene_curve<
    M,
    B,
    T: Copy,
    X,
    Flux: Fn(Emission<M, B, T>) -> T,
    Plus: Fn(T, T) -> T,
    Dark: Fn(T) -> bool,
    Over: Fn(T, T) -> T,
    Dilute: Fn(T, T) -> T,
>(
    phases: &Vec<T>,
    scene: &Scene<M, B, T>,
    flux: &Flux,
    plus: &Plus,
    dark: &Dark,
    over: &Over,
    dilute: &Dilute,
) -> (r: Result<LightCurve<T>, PhoebeError<X>>)
    requires
        forall|e: Emission<M, B, T>| #[trigger] call_requires(flux, (e,)),
        forall|x: T, y: T| #[trigger] call_requires(plus, (x, y)),
        forall|x: T| #[trigger] call_requires(dark, (x,)),
        forall|x: T, y: T| #[trigger] call_requires(over, (x, y)),
        forall|x: T, l3: T| #[trigger] call_requires(dilute, (x, l3)),
    ensures
        curve_ends(flux, plus, dark, over, dilute, scene, phases@, r),
{
    let f1: T = flux(scene.emission(Star::Primary, Sight::Hundredths(QUADRATURE)));
    let f2: T = flux(scene.emission(Star::Secondary, Sight::Hundredths(QUADRATURE)));
    assert(both_fluxes(flux, scene, Sight::Hundredths(QUADRATURE), f1, f2));
    let norm: T = plus(f1, f2);
    assert(normalises(flux, plus, scene, norm));
    if dark(norm) {
        Err(PhoebeError::InvalidParams("zero flux at quadrature".to_owned()))
    } else {
        Ok(trace(phases, scene, norm, flux, plus, over, dilute))
    }
}

// ---------------------------------------------------------------------------
// One band
// ---------------------------------------------------------------------------

/// The scene of a system in its own passband, with its own limb darkening.
pub open spec fn own_scene<'a, M, B, T: Copy>(
    params: &'a EBParams<T>,
    meshes: &'a (M, M),
    table: &'a B,
    envelope: Envelope,
) -> Scene<'a, M, B, T> {
    Scene { params, meshes, table, envelope, ld1: params.ld1, ld2: params.ld2 }
}

/// `r` is how a system with the given meshes ends in its own passband, with
/// its own limb darkening.
pub open spec fn own_band_ends<
    M,
    B,
    T: Copy,
    X,
    Hotter: Fn(T, u32) -> bool,
    Table: Fn(Passband) -> B,
    Flux: Fn(Emission<M, B, T>) -> T,
    Plus: Fn(T, T) -> T,
    Dark: Fn(T) -> bool,
    Over: Fn(T, T) -> T,
    Dilute: Fn(T, T) -> T,
>(
    hotter: &Hotter,
    table_of: &Table,
    flux: &Flux,
    plus: &Plus,
    dark: &Dark,
    over: &Over,
    dilute: &Dilute,
    params: &EBParams<T>,
    meshes: &(M, M),
    phases: Seq<T>,
    r: Result<LightCurve<T>, PhoebeError<X>>,
) -> bool {
    exists|envelope: Envelope, table: B|
        {
            &&& #[trigger] enveloped(params, hotter, envelope)
            &&& #[trigger] call_ensures(table_of, (params.passband,), table)
            &&& curve_ends(
                flux,
                plus,
                dark,
                over,
                dilute,
                &own_scene(params, meshes, &table, envelope),
                phases,
                r,
            )
        }
}

/// `r` is how the light curve of `params` ends: with the refusal of the
/// parameters, else with the failure of a mesh, else as its band ends.
pub open spec fn synthesised<
    M,
    B,
    T: Copy,
    X,
    Validate: Fn(&EBParams<T>) -> Result<(), PhoebeError<X>>,
    Overcontact: Fn(T, T, usize) -> Result<(M, M), PhoebeError<X>>,
    Separate: Fn(T, Star, T, usize) -> Result<M, PhoebeError<X>>,
    Hotter: Fn(T, u32) -> bool,
    Table: Fn(Passband) -> B,
    Flux: Fn(Emission<M, B, T>) -> T,
    Plus: Fn(T, T) -> T,
    Dark: Fn(T) -> bool,
    Over: Fn(T, T) -> T,
    Dilute: Fn(T, T) -> T,
>(
    validate: &Validate,
    overcontact: &Overcontact,
    separate: &Separate,
    hotter: &Hotter,
    table_of: &Table,
    flux: &Flux,
    plus: &Plus,
    dark: &Dark,
    over: &Over,
    dilute: &Dilute,
    params: &EBParams<T>,
    phases: Seq<T>,
    r: Result<LightCurve<T>, PhoebeError<X>>,
) -> bool {
    exists|verdict: Result<(), PhoebeError<X>>|
        {
            &&& #[trigger] call_ensures(validate, (params,), verdict)
            &&& match verdict {
                Err(e) => r == Err::<LightCurve<T>, PhoebeError<X>>(e),
                Ok(_) => exists|built: Result<(M, M), PhoebeError<X>>|
                    {
                        &&& #[trigger] meshes_built(params, overcontact, separate, built)
                        &&& match built {
                            Err(e) => r == Err::<LightCurve<T>, PhoebeError<X>>(e),
                            Ok(meshes) => own_band_ends(
                                hotter, table_of, flux, plus, dark, over, dilute, params,
                                &meshes, phases, r,
                            ),
                        }
                    },
            }
        }
}

/// Compute a synthetic eclipsing binary light curve.
///
/// `validate` is the verdict on the parameters. `overcontact` and `separate`
/// build the surfaces of the stars, `hotter` compares a temperature with one in
/// K, `table_of` gives the surface brightness in a passband, and `flux` the
/// flux of one star, as `shine::emission_flux` makes it. `plus` and `over` are
/// the sum and the quotient of two numbers, `dark` says that a normalisation
/// holds no light, and `dilute` mixes third light into a flux.
pub fn compute_lightcurve<
    M,
    B,
    T: Copy,
    X,
    Validate: Fn(&EBParams<T>) -> Result<(), PhoebeError<X>>,
    Overcontact: Fn(T, T, usize) -> Result<(M, M), PhoebeError<X>>,
    Separate: Fn(T, Star, T, usize) -> Result<M, PhoebeError<X>>,
    Hotter: Fn(T, u32) -> bool,
    Table: Fn(Passband) -> B,
    Flux: Fn(Emission<M, B, T>) -> T,
    Plus: Fn(T, T) -> T,
    Dark: Fn(T) -> bool,
    Over: Fn(T, T) -> T,
    Dilute: Fn(T, T) -> T,
>(
    params: &EBParams<T>,
    phases: &Vec<T>,
    validate: &Validate,
    overcontact: &Overcontact,
    separate: &Separate,
    hotter: &Hotter,
    table_of: &Table,
    flux: &Flux,
    plus: &Plus,
    dark: &Dark,
    over: &Over,
    dilute: &Dilute,
) -> (r: Result<LightCurve<T>, PhoebeError<X>>)
    requires
        forall|v: Result<(), PhoebeError<X>>| #[trigger]
            call_ensures(validate, (params,), v) && v is Ok && params.eb_type == EBType::Contact
                ==> params.n_grid * 2 <= usize::MAX,
        forall|p: &EBParams<T>| #[trigger] call_requires(validate, (p,)),
        forall|q: T, f: T, n: usize| #[trigger] call_requires(overcontact, (q, f, n)),
        forall|q: T, s: Star, f: T, n: usize| #[trigger]
            call_requires(separate, (q, s, f, n)),
        forall|t: T, k: u32| #[trigger] call_requires(hotter, (t, k)),
        forall|p: Passband| #[trigger] call_requires(table_of, (p,)),
        forall|e: Emission<M, B, T>| #[trigger] call_requires(flux, (e,)),
        forall|x: T, y: T| #[trigger] call_requires(plus, (x, y)),
        forall|x: T| #[trigger] call_requires(dark, (x,)),
        forall|x: T, y: T| #[trigger] call_requires(over, (x, y)),
        forall|x: T, l3: T| #[trigger] call_requires(dilute, (x, l3)),
    ensures
        synthesised(
            validate, overcontact, separate, hotter, table_of, flux, plus, dark, over, dilute,
            params,
            phases@,
            r,
        ),
{
    let verdict: Result<(), PhoebeError<X>> = validate(params);
    match verdict {
        Err(e) => {
            return Err(e);
        },
        Ok(_) => {},
    }
    let built: Result<(M, M), PhoebeError<X>> = build_meshes(params, overcontact, separate);
    let ghost all = built;
    assert(meshes_built(params, overcontact, separate, all));
    match built {
        Err(e) => Err(e),
        Ok(meshes) => {
            let envelope: Envelope = Envelope::of_primary(hotter(params.t_eff1, RADIATIVE_ABOVE_K));
            let table: B = table_of(params.passband);
            assert(enveloped(params, hotter, envelope));
            let scene: Scene<M, B, T> = Scene {
                params,
                meshes: &meshes,
                table: &table,
                envelope,
                ld1: params.ld1,
                ld2: params.ld2,
            };
            scene_curve(phases, &scene, flux, plus, dark, over, dilute)
        },
    }
}

// ---------------------------------------------------------------------------
// Several bands
// ---------------------------------------------------------------------------

/// `r` is how a system with the given meshes ends in `passband`, with the
/// passband's own default limb darkening for both stars.
pub open spec fn passband_ends<
    M,
    B,
    T: Copy,
    X,
    Table: Fn(Passband) -> B,
    Hundredths: Fn(u32) -> T,
    Flux: Fn(Emission<M, B, T>) -> T,
    Plus: Fn(T, T) -> T,
    Dark: Fn(T) -> bool,
    Over: Fn(T, T) -> T,
    Dilute: Fn(T, T) -> T,
>(
    table_of: &Table,
    hundredths: &Hundredths,
    flux: &Flux,
    plus: &Plus,
    dark: &Dark,
    over: &Over,
    dilute: &Dilute,
    params: &EBParams<T>,
    meshes: &(M, M),
    envelope: Envelope,
    passband: Passband,
    phases: Seq<T>,
    r: Result<LightCurve<T>, PhoebeError<X>>,
) -> bool {
    exists|table: B, ld: T|
        {
            &&& #[trigger] call_ensures(table_of, (passband,), table)
            &&& #[trigger] call_ensures(hundredths, (passband.limb_darkening(),), ld)
            &&& curve_ends(
                flux,
                plus,
                dark,
                over,
                dilute,
                &Scene { params, meshes, table: &table, envelope, ld1: ld, ld2: ld },
                phases,
                r,
            )
        }
}

/// `curves` are the curves of the first of `bands`, in order.
pub open spec fn passbands_traced<
    M,
    B,
    T: Copy,
    X,
    Table: Fn(Passband) -> B,
    Hundredths: Fn(u32) -> T,
    Flux: Fn(Emission<M, B, T>) -> T,
    Plus: Fn(T, T) -> T,
    Dark: Fn(T) -> bool,
    Over: Fn(T, T) -> T,
    Dilute: Fn(T, T) -> T,
>(
    table_of: &Table,
    hundredths: &Hundredths,
    flux: &Flux,
    plus: &Plus,
    dark: &Dark,
    over: &Over,
    dilute: &Dilute,
    params: &EBParams<T>,
    meshes: &(M, M),
    envelope: Envelope,
    bands: Seq<Passband>,
    phases: Seq<T>,
    curves: Seq<LightCurve<T>>,
) -> bool {
    &&& curves.len() <= bands.len()
    &&& forall|b: int|
        0 <= b < curves.len() ==> passband_ends(
            table_of, hundredths, flux, plus, dark, over, dilute, params, meshes, envelope,
            bands[b],
            phases,
            Ok::<LightCurve<T>, PhoebeError<X>>(#[trigger] curves[b]),
        )
}

/// `r` is how a system with the given meshes ends in several passbands: with a
/// curve for each, in order, or with the refusal of the first that is dark.
pub open spec fn curves_end<
    M,
    B,
    T: Copy,
    X,
    Table: Fn(Passband) -> B,
    Hundredths: Fn(u32) -> T,
    Flux: Fn(Emission<M, B, T>) -> T,
    Plus: Fn(T, T) -> T,
    Dark: Fn(T) -> bool,
    Over: Fn(T, T) -> T,
    Dilute: Fn(T, T) -> T,
>(
    table_of: &Table,
    hundredths: &Hundredths,
    flux: &Flux,
    plus: &Plus,
    dark: &Dark,
    over: &Over,
    dilute: &Dilute,
    params: &EBParams<T>,
    meshes: &(M, M),
    envelope: Envelope,
    bands: Seq<Passband>,
    phases: Seq<T>,
    r: Result<Vec<LightCurve<T>>, PhoebeError<X>>,
) -> bool {
    match r {
        Ok(curves) => {
            &&& curves@.len() == bands.len()
            &&& passbands_traced::<M, B, T, X, Table, Hundredths, Flux, Plus, Dark, Over, Dilute>(
                table_of, hundredths, flux, plus, dark, over, dilute, params, meshes, envelope,
                bands, phases,
                curves@,
            )
        },
        Err(e) => exists|curves: Seq<LightCurve<T>>|
            {
                &&& curves.len() < bands.len()
                &&& #[trigger] passbands_traced::<
                    M, B, T, X, Table, Hundredths, Flux, Plus, Dark, Over, Dilute,
                >(
                    table_of, hundredths, flux, plus, dark, over, dilute, params, meshes,
                    envelope, bands, phases, curves,
                )
                &&& passband_ends(
                    table_of, hundredths, flux, plus, dark, over, dilute, params, meshes,
                    envelope,
                    bands[curves.len() as int],
                    phases,
                    Err(e),
                )
            },
    }
}

/// The light curves of a system with the given meshes in several passbands.
fn passband_curves<
    M,
    B,
    T: Copy,
    X,
    Table: Fn(Passband) -> B,
    Hundredths: Fn(u32) -> T,
    Flux: Fn(Emission<M, B, T>) -> T,
    Plus: Fn(T, T) -> T,
    Dark: Fn(T) -> bool,
    Over: Fn(T, T) -> T,
    Dilute: Fn(T, T) -> T,
>(
    params: &EBParams<T>,
    phases: &Vec<T>,
    bands: &Vec<Passband>,
    meshes: &(M, M),
    envelope: Envelope,
    table_of: &Table,
    hundredths: &Hundredths,
    flux: &Flux,
    plus: &Plus,
    dark: &Dark,
    over: &Over,
    dilute: &Dilute,
) -> (r: Result<Vec<LightCurve<T>>, PhoebeError<X>>)
    requires
        forall|p: Passband| #[trigger] call_requires(table_of, (p,)),
        forall|h: u32| #[trigger] call_requires(hundredths, (h,)),
        forall|e: Emission<M, B, T>| #[trigger] call_requires(flux, (e,)),
        forall|x: T, y: T| #[trigger] call_requires(plus, (x, y)),
        forall|x: T| #[trigger] call_requires(dark, (x,)),
        forall|x: T, y: T| #[trigger] call_requires(over, (x, y)),
        forall|x: T, l3: T| #[trigger] call_requires(dilute, (x, l3)),
    ensures
        curves_end(
            table_of, hundredths, flux, plus, dark, over, dilute, params, meshes, envelope,
            bands@,
            phases@,
            r,
        ),
{
    let mut out: Vec<LightCurve<T>> = Vec::new();
    let mut b: usize = 0;
    while b < bands.len()
        invariant
            b == out.len(),
            b <= bands.len(),
            forall|p: Passband| #[trigger] call_requires(table_of, (p,)),
            forall|h: u32| #[trigger] call_requires(hundredths, (h,)),
            forall|e: Emission<M, B, T>| #[trigger] call_requires(flux, (e,)),
            forall|x: T, y: T| #[trigger] call_requires(plus, (x, y)),
            forall|x: T| #[trigger] call_requires(dark, (x,)),
            forall|x: T, y: T| #[trigger] call_requires(over, (x, y)),
            forall|x: T, l3: T| #[trigger] call_requires(dilute, (x, l3)),
            passbands_traced::<M, B, T, X, Table, Hundredths, Flux, Plus, Dark, Over, Dilute>(
                table_of, hundredths, flux, plus, dark, over, dilute, params, meshes, envelope,
                bands@,
                phases@,
                out@,
            ),
        decreases bands.len() - b,
    {
        let passband: Passband = bands[b];
        let table: B = table_of(passband);
        let ld: T = hundredths(passband.default_ld());
        let scene: Scene<M, B, T> = Scene {
            params,
            meshes,
            table: &table,
            envelope,
            ld1: ld,
            ld2: ld,
        };
        let one: Result<LightCurve<T>, PhoebeError<X>> = scene_curve(
            phases, &scene, flux, plus, dark, over, dilute,
        );
        assert(passband_ends(
            table_of, hundredths, flux, plus, dark, over, dilute, params, meshes, envelope,
            passband,
            phases@,
            one,
        ));
        match one {
            Ok(curve) => {
                out.push(curve);
            },
            Err(e) => {
                return Err(e);
            },
        }
        b += 1;
    }
    Ok(out)
}

/// `r` is how the light curves of `params` in several passbands end: with the
/// refusal of the parameters, else with the failure of a mesh, else, from one
/// pair of meshes, as the passbands end.
pub open spec fn synthesised_in_bands<
    M,
    B,
    T: Copy,
    X,
    Validate: Fn(&EBParams<T>) -> Result<(), PhoebeError<X>>,
    Overcontact: Fn(T, T, usize) -> Result<(M, M), PhoebeError<X>>,
    Separate: Fn(T, Star, T, usize) -> Result<M, PhoebeError<X>>,
    Hotter: Fn(T, u32) -> bool,
    Table: Fn(Passband) -> B,
    Hundredths: Fn(u32) -> T,
    Flux: Fn(Emission<M, B, T>) -> T,
    Plus: Fn(T, T) -> T,
    Dark: Fn(T) -> bool,
    Over: Fn(T, T) -> T,
    Dilute: Fn(T, T) -> T,
>(
    validate: &Validate,
    overcontact: &Overcontact,
    separate: &Separate,
    hotter: &Hotter,
    table_of: &Table,
    hundredths: &Hundredths,
    flux: &Flux,
    plus: &Plus,
    dark: &Dark,
    over: &Over,
    dilute: &Dilute,
    params: &EBParams<T>,
    bands: Seq<Passband>,
    phases: Seq<T>,
    r: Result<Vec<LightCurve<T>>, PhoebeError<X>>,
) -> bool {
    exists|verdict: Result<(), PhoebeError<X>>|
        {
            &&& #[trigger] call_ensures(validate, (params,), verdict)
            &&& match verdict {
                Err(e) => r == Err::<Vec<LightCurve<T>>, PhoebeError<X>>(e),
                Ok(_) => exists|built: Result<(M, M), PhoebeError<X>>|
                    {
                        &&& #[trigger] meshes_built(params, overcontact, separate, built)
                        &&& match built {
                            Err(e) => r == Err::<Vec<LightCurve<T>>, PhoebeError<X>>(e),
                            Ok(meshes) => exists|envelope: Envelope|
                                {
                                    &&& #[trigger] enveloped(params, hotter, envelope)
                                    &&& curves_end(
                                        table_of, hundredths, flux, plus, dark, over, dilute,
                                        params, &meshes, envelope, bands, phases, r,
                                    )
                                },
                        }
                    },
            }
        }
}

/// Compute light curves in several passbands at once.
///
/// The meshes depend on no band, so they are built once and reused for every
/// band. Only the surface brightness and the limb darkening vary between bands:
/// those of `params` are not looked at. `hundredths` is the number that many
/// hundredths make; the other functions are those of `compute_lightcurve`.
pub fn compute_lightcurve_multiband<
    M,
    B,
    T: Copy,
    X,
    Validate: Fn(&EBParams<T>) -> Result<(), PhoebeError<X>>,
    Overcontact: Fn(T, T, usize) -> Result<(M, M), PhoebeError<X>>,
    Separate: Fn(T, Star, T, usize) -> Result<M, PhoebeError<X>>,
    Hotter: Fn(T, u32) -> bool,
    Table: Fn(Passband) -> B,
    Hundredths: Fn(u32) -> T,
    Flux: Fn(Emission<M, B, T>) -> T,
    Plus: Fn(T, T) -> T,
    Dark: Fn(T) -> bool,
    Over: Fn(T, T) -> T,
    Dilute: Fn(T, T) -> T,
>(
    params: &EBParams<T>,
    phases: &Vec<T>,
    bands: &Vec<Passband>,
    validate: &Validate,
    overcontact: &Overcontact,
    separate: &Separate,
    hotter: &Hotter,
    table_of: &Table,
    hundredths: &Hundredths,
    flux: &Flux,
    plus: &Plus,
    dark: &Dark,
    over: &Over,
    dilute: &Dilute,
) -> (r: Result<Vec<LightCurve<T>>, PhoebeError<X>>)
    requires
        forall|v: Result<(), PhoebeError<X>>| #[trigger]
            call_ensures(validate, (params,), v) && v is Ok && params.eb_type == EBType::Contact
                ==> params.n_grid * 2 <= usize::MAX,
        forall|p: &EBParams<T>| #[trigger] call_requires(validate, (p,)),
        forall|q: T, f: T, n: usize| #[trigger] call_requires(overcontact, (q, f, n)),
        forall|q: T, s: Star, f: T, n: usize| #[trigger]
            call_requires(separate, (q, s, f, n)),
        forall|t: T, k: u32| #[trigger] call_requires(hotter, (t, k)),
        forall|p: Passband| #[trigger] call_requires(table_of, (p,)),
        forall|h: u32| #[trigger] call_requires(hundredths, (h,)),
        forall|e: Emission<M, B, T>| #[trigger] call_requires(flux, (e,)),
        forall|x: T, y: T| #[trigger] call_requires(plus, (x, y)),
        forall|x: T| #[trigger] call_requires(dark, (x,)),
        forall|x: T, y: T| #[trigger] call_requires(over, (x, y)),
        forall|x: T, l3: T| #[trigger] call_requires(dilute, (x, l3)),
    ensures
        synthesised_in_bands(
            validate, overcontact, separate, hotter, table_of, hundredths, flux, plus, dark,
            over, dilute, params,
            bands@,
            phases@,
            r,
        ),
{
    let verdict: Result<(), PhoebeError<X>> = validate(params);
    match verdict {
        Err(e) => {
            return Err(e);
        },
        Ok(_) => {},
    }
    let built: Result<(M, M), PhoebeError<X>> = build_meshes(params, overcontact, separate);
    let ghost all = built;
    assert(meshes_built(params, overcontact, separate, all));
    match built {
        Err(e) => Err(e),
        Ok(meshes) => {
            let envelope: Envelope = Envelope::of_primary(hotter(params.t_eff1, RADIATIVE_ABOVE_K));
            assert(enveloped(params, hotter, envelope));
            passband_curves(
                params, phases, bands, &meshes, envelope, table_of, hundredths, flux, plus,
                dark, over, dilute,
            )
        },
    }
}

} // verus!
