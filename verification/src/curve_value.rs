//! What a light curve comes to.
//!
//! The contracts of `lightcurve` and `shine` speak of functions that may answer in several
//! ways. The laws here say what comes out where each has one answer, named by a
//! function whose name ends in `_is`.

use vstd::prelude::*;

use crate::error::PhoebeError;
use crate::flux;
use crate::flux::{EclipseAcc, StarMesh, Surroundings, Tolerance};
use crate::lightcurve;
use crate::lightcurve::{EclipserFillout, Emission, Envelope, LightCurve, Scene, Sight};
use crate::params::EBParams;
use crate::passband::Passband;
use crate::shine;
use crate::star::Star;
use crate::EBType;

verus! {

/// For every type of system the primary emits with its own surface, temperature
/// and limb darkening, heated and hidden by the secondary, and the secondary the
/// other way round. A star of a contact binary hides the other as one that just
/// fills its Roche lobe, any other as it fills its own.
pub proof fn each_star_emits_as_itself<M, B, T: Copy>(scene: &Scene<M, B, T>, sight: Sight<T>)
    ensures
        ({
            let p = scene.params;
            let e = scene.emitted(Star::Primary, sight);
            &&& e.mesh == &scene.meshes.0
            &&& e.table == scene.table
            &&& e.q == p.q
            &&& e.inclination == p.inclination
            &&& e.sight == sight
            &&& e.eclipser == Star::Secondary
            &&& p.eb_type == EBType::Contact ==> e.fillout == EclipserFillout::<T>::Hundredths(100)
            &&& p.eb_type != EBType::Contact ==> e.fillout == EclipserFillout::Own(p.fillout2)
            &&& e.t_eff == p.t_eff1
            &&& e.t_eff_companion == p.t_eff2
            &&& e.ld == scene.ld1
            &&& e.envelope == scene.envelope
        }),
        ({
            let p = scene.params;
            let e = scene.emitted(Star::Secondary, sight);
            &&& e.mesh == &scene.meshes.1
            &&& e.table == scene.table
            &&& e.q == p.q
            &&& e.inclination == p.inclination
            &&& e.sight == sight
            &&& e.eclipser == Star::Primary
            &&& p.eb_type == EBType::Contact ==> e.fillout == EclipserFillout::<T>::Hundredths(100)
            &&& p.eb_type != EBType::Contact ==> e.fillout == EclipserFillout::Own(p.fillout1)
            &&& e.t_eff == p.t_eff2
            &&& e.t_eff_companion == p.t_eff1
            &&& e.ld == scene.ld2
            &&& e.envelope == scene.envelope
        }),
{
}

/// Where the primary can only be found hotter than 7500 K, the envelope is
/// radiative, with a gravity darkening exponent of 25 and an albedo of 100
/// hundredths; where it can only be found cooler, convective, with 8 and 50.
pub proof fn a_hot_primary_has_a_radiative_envelope<T, Hotter: Fn(T, u32) -> bool>(
    params: &EBParams<T>,
    hotter: &Hotter,
    envelope: Envelope,
)
    requires
        lightcurve::enveloped(params, hotter, envelope),
    ensures
        (forall|hot: bool| #[trigger]
            call_ensures(hotter, (params.t_eff1, 7500u32), hot) ==> hot) ==> {
            &&& envelope == Envelope::Radiative
            &&& envelope.darkening_exponent() == 25
            &&& envelope.reflectance() == 100
        },
        (forall|hot: bool| #[trigger]
            call_ensures(hotter, (params.t_eff1, 7500u32), hot) ==> !hot) ==> {
            &&& envelope == Envelope::Convective
            &&& envelope.darkening_exponent() == 8
            &&& envelope.reflectance() == 50
        },
{
}

/// The curve of a system in one band, in terms of what the given functions
/// answer. The primary shines with its own surface, temperature and limb
/// darkening, is heated by the secondary and hidden by it, and the other way
/// round, for every type of system. Each point is taken at its phase, shifted by
/// the phase of the system, over the flux of both stars at quadrature, and third
/// light dilutes the sum alone. Only a system that is dark at quadrature has no
/// curve.
pub proof fn a_curve_is_made_of_both_stars<
    M, B, T: Copy, X,
    Flux: Fn(Emission<M, B, T>) -> T,
    Plus: Fn(T, T) -> T,
    Dark: Fn(T) -> bool,
    Over: Fn(T, T) -> T,
    Dilute: Fn(T, T) -> T,
>(
    flux: &Flux,
    plus: &Plus,
    dark: &Dark,
    over: &Over,
    dilute: &Dilute,
    scene: &Scene<M, B, T>,
    phases: Seq<T>,
    r: Result<LightCurve<T>, PhoebeError<X>>,
    flux_is: spec_fn(M, B, T, T, Sight<T>, Star, EclipserFillout<T>, T, T, T, Envelope) -> T,
    plus_is: spec_fn(T, T) -> T,
    dark_is: spec_fn(T) -> bool,
    over_is: spec_fn(T, T) -> T,
    dilute_is: spec_fn(T, T) -> T,
    first: spec_fn(Sight<T>) -> T,
    second: spec_fn(Sight<T>) -> T,
    norm: T,
)
    requires
        lightcurve::curve_ends(flux, plus, dark, over, dilute, scene, phases, r),
        forall|e: Emission<M, B, T>, x: T| #[trigger]
            call_ensures(flux, (e,), x) ==> x == flux_is(
                *e.mesh, *e.table, e.q, e.inclination, e.sight, e.eclipser, e.fillout, e.t_eff,
                e.t_eff_companion, e.ld, e.envelope,
            ),
        forall|x: T, y: T, z: T| #[trigger]
            call_ensures(plus, (x, y), z) ==> z == plus_is(x, y),
        forall|x: T, b: bool| #[trigger] call_ensures(dark, (x,), b) ==> b == dark_is(x),
        forall|x: T, y: T, z: T| #[trigger]
            call_ensures(over, (x, y), z) ==> z == over_is(x, y),
        forall|x: T, y: T, z: T| #[trigger]
            call_ensures(dilute, (x, y), z) ==> z == dilute_is(x, y),
        forall|s: Sight<T>| #[trigger]
            first(s) == flux_is(
                scene.meshes.0,
                *scene.table,
                scene.params.q,
                scene.params.inclination,
                s,
                Star::Secondary,
                if scene.params.eb_type == EBType::Contact {
                    EclipserFillout::Hundredths(100)
                } else {
                    EclipserFillout::Own(scene.params.fillout2)
                },
                scene.params.t_eff1,
                scene.params.t_eff2,
                scene.ld1,
                scene.envelope,
            ),
        forall|s: Sight<T>| #[trigger]
            second(s) == flux_is(
                scene.meshes.1,
                *scene.table,
                scene.params.q,
                scene.params.inclination,
                s,
                Star::Primary,
                if scene.params.eb_type == EBType::Contact {
                    EclipserFillout::Hundredths(100)
                } else {
                    EclipserFillout::Own(scene.params.fillout1)
                },
                scene.params.t_eff2,
                scene.params.t_eff1,
                scene.ld2,
                scene.envelope,
            ),
        norm == plus_is(first(Sight::Hundredths(25)), second(Sight::Hundredths(25))),
    ensures
        r is Err <==> dark_is(norm),
        r matches Err(e) ==> (e matches PhoebeError::InvalidParams(message) && message@
            == "zero flux at quadrature"@),
        r matches Ok(curve) ==> {
            &&& curve.phases@ == phases
            &&& curve.flux@.len() == phases.len()
            &&& curve.flux1@.len() == phases.len()
            &&& curve.flux2@.len() == phases.len()
            &&& forall|k: int|
                #![trigger phases[k]]
                #![trigger curve.flux@[k]]
                #![trigger curve.flux1@[k]]
                #![trigger curve.flux2@[k]]
                0 <= k < phases.len() ==> {
                    let s = Sight::At(plus_is(phases[k], scene.params.phi0));
                    &&& curve.flux1@[k] == over_is(first(s), norm)
                    &&& curve.flux2@[k] == over_is(second(s), norm)
                    &&& curve.flux@[k] == dilute_is(
                        over_is(plus_is(first(s), second(s)), norm),
                        scene.params.l3,
                    )
                }
        },
{
    if let Ok(curve) = r {
        assert forall|k: int|
            #![trigger phases[k]]
            #![trigger curve.flux@[k]]
            #![trigger curve.flux1@[k]]
            #![trigger curve.flux2@[k]]
            0 <= k < phases.len() implies {
            let s = Sight::At(plus_is(phases[k], scene.params.phi0));
            &&& curve.flux1@[k] == over_is(first(s), norm)
            &&& curve.flux2@[k] == over_is(second(s), norm)
            &&& curve.flux@[k] == dilute_is(
                over_is(plus_is(first(s), second(s)), norm),
                scene.params.l3,
            )
        } by {
            let sample = curve.at(k);
            let s = Sight::At(plus_is(phases[k], scene.params.phi0));
            assert(first(s) == first(s) && second(s) == second(s));
        }
    }
}

/// Two systems that are mirrored into each other have mirrored curves: where the
/// stars change places with all that is theirs, and neither the flux of a star
/// depends on which of the two hides it nor a sum on the order of its terms, the
/// shares of the stars change places and the total stays.
pub proof fn mirrored_systems_have_mirrored_curves<
    M, B, T: Copy, X,
    Flux: Fn(Emission<M, B, T>) -> T,
    Plus: Fn(T, T) -> T,
    Dark: Fn(T) -> bool,
    Over: Fn(T, T) -> T,
    Dilute: Fn(T, T) -> T,
>(
    flux: &Flux,
    plus: &Plus,
    dark: &Dark,
    over: &Over,
    dilute: &Dilute,
    scene: &Scene<M, B, T>,
    mirrored: &Scene<M, B, T>,
    phases: Seq<T>,
    r: Result<LightCurve<T>, PhoebeError<X>>,
    mirrored_r: Result<LightCurve<T>, PhoebeError<X>>,
    flux_is: spec_fn(M, B, T, T, Sight<T>, Star, EclipserFillout<T>, T, T, T, Envelope) -> T,
    plus_is: spec_fn(T, T) -> T,
    dark_is: spec_fn(T) -> bool,
    over_is: spec_fn(T, T) -> T,
    dilute_is: spec_fn(T, T) -> T,
)
    requires
        lightcurve::curve_ends(flux, plus, dark, over, dilute, scene, phases, r),
        lightcurve::curve_ends(flux, plus, dark, over, dilute, mirrored, phases, mirrored_r),
        forall|e: Emission<M, B, T>, x: T| #[trigger]
            call_ensures(flux, (e,), x) ==> x == flux_is(
                *e.mesh, *e.table, e.q, e.inclination, e.sight, e.eclipser, e.fillout, e.t_eff,
                e.t_eff_companion, e.ld, e.envelope,
            ),
        forall|x: T, y: T, z: T| #[trigger]
            call_ensures(plus, (x, y), z) ==> z == plus_is(x, y),
        forall|x: T, b: bool| #[trigger] call_ensures(dark, (x,), b) ==> b == dark_is(x),
        forall|x: T, y: T, z: T| #[trigger]
            call_ensures(over, (x, y), z) ==> z == over_is(x, y),
        forall|x: T, y: T, z: T| #[trigger]
            call_ensures(dilute, (x, y), z) ==> z == dilute_is(x, y),
        *mirrored.params == (EBParams {
            fillout1: scene.params.fillout2,
            fillout2: scene.params.fillout1,
            t_eff1: scene.params.t_eff2,
            t_eff2: scene.params.t_eff1,
            ..*scene.params
        }),
        mirrored.meshes.0 == scene.meshes.1,
        mirrored.meshes.1 == scene.meshes.0,
        mirrored.table == scene.table,
        mirrored.envelope == scene.envelope,
        mirrored.ld1 == scene.ld2,
        mirrored.ld2 == scene.ld1,
        forall|
            m: M, b: B, q: T, i: T, s: Sight<T>, x: Star, y: Star, f: EclipserFillout<T>, t: T,
            c: T, l: T, e: Envelope,
        |
            #![trigger
                flux_is(m, b, q, i, s, x, f, t, c, l, e),
                flux_is(m, b, q, i, s, y, f, t, c, l, e)
            ]
            flux_is(m, b, q, i, s, x, f, t, c, l, e) == flux_is(m, b, q, i, s, y, f, t, c, l, e),
        forall|x: T, y: T| #[trigger] plus_is(x, y) == plus_is(y, x),
    ensures
        r is Ok <==> mirrored_r is Ok,
        r matches Ok(curve) ==> (mirrored_r matches Ok(other) ==> {
            &&& other.phases@ == curve.phases@
            &&& other.flux@ =~= curve.flux@
            &&& other.flux1@ =~= curve.flux2@
            &&& other.flux2@ =~= curve.flux1@
        }),
{
    let first = |s: Sight<T>|
        flux_is(
            scene.meshes.0,
            *scene.table,
            scene.params.q,
            scene.params.inclination,
            s,
            Star::Secondary,
            if scene.params.eb_type == EBType::Contact {
                EclipserFillout::Hundredths(100)
            } else {
                EclipserFillout::Own(scene.params.fillout2)
            },
            scene.params.t_eff1,
            scene.params.t_eff2,
            scene.ld1,
            scene.envelope,
        );
    let second = |s: Sight<T>|
        flux_is(
            scene.meshes.1,
            *scene.table,
            scene.params.q,
            scene.params.inclination,
            s,
            Star::Primary,
            if scene.params.eb_type == EBType::Contact {
                EclipserFillout::Hundredths(100)
            } else {
                EclipserFillout::Own(scene.params.fillout1)
            },
            scene.params.t_eff2,
            scene.params.t_eff1,
            scene.ld2,
            scene.envelope,
        );
    let quadrature = Sight::<T>::Hundredths(25);
    let norm = plus_is(first(quadrature), second(quadrature));
    assert(norm == plus_is(second(quadrature), first(quadrature)));
    a_curve_is_made_of_both_stars(
        flux, plus, dark, over, dilute, scene, phases, r, flux_is, plus_is, dark_is, over_is,
        dilute_is, first, second, norm,
    );
    a_curve_is_made_of_both_stars(
        flux, plus, dark, over, dilute, mirrored, phases, mirrored_r, flux_is, plus_is, dark_is, over_is,
        dilute_is, second, first, norm,
    );
}

/// A light curve in the passband of its system, in terms of what the given
/// functions answer: refused parameters and a surface that cannot be built give
/// their error; otherwise each star shines through the table of the passband,
/// with the limb darkening of the parameters, and both have the envelope of a
/// primary that is, or is not, hotter than 7500 K.
pub proof fn one_band_is_made_of_both_stars<
    M, B, T: Copy, X,
    Validate: Fn(&EBParams<T>) -> Result<(), PhoebeError<X>>,
    Overcontact: Fn(T, T, usize) -> Result<(M, M), PhoebeError<X>>,
    Separate: Fn(T, Star, T, usize) -> Result<M, PhoebeError<X>>,
    Hotter: Fn(T, u32) -> bool,
    Table: Fn(Passband) -> B,
    Flux: Fn(Emission<M, B, T>) -> T,
    Plus: Fn(T, T) -> T,
    Dark: Fn(T) -> bool,
    Over: Fn(T, T) -> T,
    Dilute: Fn(T, T) -> T,
>(
    validate: &Validate,
    overcontact: &Overcontact,
    separate: &Separate,
    hotter: &Hotter,
    table_of: &Table,
    flux: &Flux,
    plus: &Plus,
    dark: &Dark,
    over: &Over,
    dilute: &Dilute,
    params: &EBParams<T>,
    phases: Seq<T>,
    r: Result<LightCurve<T>, PhoebeError<X>>,
    validate_is: spec_fn(EBParams<T>) -> Option<PhoebeError<X>>,
    overcontact_is: spec_fn(T, T, usize) -> Result<(M, M), PhoebeError<X>>,
    separate_is: spec_fn(T, Star, T, usize) -> Result<M, PhoebeError<X>>,
    hotter_is: spec_fn(T, u32) -> bool,
    table_is: spec_fn(Passband) -> B,
    flux_is: spec_fn(M, B, T, T, Sight<T>, Star, EclipserFillout<T>, T, T, T, Envelope) -> T,
    plus_is: spec_fn(T, T) -> T,
    dark_is: spec_fn(T) -> bool,
    over_is: spec_fn(T, T) -> T,
    dilute_is: spec_fn(T, T) -> T,
    built: Result<(M, M), PhoebeError<X>>,
    first: spec_fn((M, M), Sight<T>) -> T,
    second: spec_fn((M, M), Sight<T>) -> T,
    norm: spec_fn((M, M)) -> T,
)
    requires
        lightcurve::synthesised(
            validate, overcontact, separate, hotter, table_of, flux, plus, dark, over, dilute,
            params, phases, r,
        ),
        forall|p: &EBParams<T>, v: Result<(), PhoebeError<X>>| #[trigger]
            call_ensures(validate, (p,), v) ==> (match v {
                Ok(_) => validate_is(*p) is None,
                Err(e) => validate_is(*p) == Some(e),
            }),
        forall|q: T, f: T, n: usize, m: Result<(M, M), PhoebeError<X>>| #[trigger]
            call_ensures(overcontact, (q, f, n), m) ==> m == overcontact_is(q, f, n),
        forall|q: T, s: Star, f: T, n: usize, m: Result<M, PhoebeError<X>>| #[trigger]
            call_ensures(separate, (q, s, f, n), m) ==> m == separate_is(q, s, f, n),
        forall|t: T, k: u32, b: bool| #[trigger]
            call_ensures(hotter, (t, k), b) ==> b == hotter_is(t, k),
        forall|p: Passband, b: B| #[trigger]
            call_ensures(table_of, (p,), b) ==> b == table_is(p),
        forall|e: Emission<M, B, T>, x: T| #[trigger]
            call_ensures(flux, (e,), x) ==> x == flux_is(
                *e.mesh, *e.table, e.q, e.inclination, e.sight, e.eclipser, e.fillout, e.t_eff,
                e.t_eff_companion, e.ld, e.envelope,
            ),
        forall|x: T, y: T, z: T| #[trigger]
            call_ensures(plus, (x, y), z) ==> z == plus_is(x, y),
        forall|x: T, b: bool| #[trigger] call_ensures(dark, (x,), b) ==> b == dark_is(x),
        forall|x: T, y: T, z: T| #[trigger]
            call_ensures(over, (x, y), z) ==> z == over_is(x, y),
        forall|x: T, y: T, z: T| #[trigger]
            call_ensures(dilute, (x, y), z) ==> z == dilute_is(x, y),
        built == (if params.eb_type == EBType::Contact {
            overcontact_is(params.q, params.fillout1, (params.n_grid * 2) as usize)
        } else {
            match separate_is(params.q, Star::Primary, params.fillout1, params.n_grid) {
                Err(e) => Err(e),
                Ok(m1) => match separate_is(
                    params.q,
                    Star::Secondary,
                    params.fillout2,
                    params.n_grid,
                ) {
                    Err(e) => Err(e),
                    Ok(m2) => Ok((m1, m2)),
                },
            }
        }),
        forall|m: (M, M), s: Sight<T>| #[trigger]
            first(m, s) == flux_is(
                m.0,
                table_is(params.passband),
                params.q,
                params.inclination,
                s,
                Star::Secondary,
                if params.eb_type == EBType::Contact {
                    EclipserFillout::Hundredths(100)
                } else {
                    EclipserFillout::Own(params.fillout2)
                },
                params.t_eff1,
                params.t_eff2,
                params.ld1,
                if hotter_is(params.t_eff1, 7500) {
                    Envelope::Radiative
                } else {
                    Envelope::Convective
                },
            ),
        forall|m: (M, M), s: Sight<T>| #[trigger]
            second(m, s) == flux_is(
                m.1,
                table_is(params.passband),
                params.q,
                params.inclination,
                s,
                Star::Primary,
                if params.eb_type == EBType::Contact {
                    EclipserFillout::Hundredths(100)
                } else {
                    EclipserFillout::Own(params.fillout1)
                },
                params.t_eff2,
                params.t_eff1,
                params.ld2,
                if hotter_is(params.t_eff1, 7500) {
                    Envelope::Radiative
                } else {
                    Envelope::Convective
                },
            ),
        forall|m: (M, M)| #[trigger]
            norm(m) == plus_is(first(m, Sight::Hundredths(25)), second(m, Sight::Hundredths(25))),
    ensures
        validate_is(*params) matches Some(e) ==> r == Err::<LightCurve<T>, PhoebeError<X>>(e),
        validate_is(*params) is None ==> (built matches Err(e) ==> r == Err::<
            LightCurve<T>,
            PhoebeError<X>,
        >(e)),
        validate_is(*params) is None ==> (built matches Ok(meshes) ==> {
            &&& r is Err <==> dark_is(norm(meshes))
            &&& r matches Err(e) ==> (e matches PhoebeError::InvalidParams(message) && message@
                == "zero flux at quadrature"@)
            &&& r matches Ok(curve) ==> {
                &&& curve.phases@ == phases
                &&& curve.flux@.len() == phases.len()
                &&& curve.flux1@.len() == phases.len()
                &&& curve.flux2@.len() == phases.len()
                &&& forall|k: int|
                    #![trigger phases[k]]
                    #![trigger curve.flux@[k]]
                    #![trigger curve.flux1@[k]]
                    #![trigger curve.flux2@[k]]
                    0 <= k < phases.len() ==> {
                        let s = Sight::At(plus_is(phases[k], params.phi0));
                        &&& curve.flux1@[k] == over_is(first(meshes, s), norm(meshes))
                        &&& curve.flux2@[k] == over_is(second(meshes, s), norm(meshes))
                        &&& curve.flux@[k] == dilute_is(
                            over_is(plus_is(first(meshes, s), second(meshes, s)), norm(meshes)),
                            params.l3,
                        )
                    }
            }
        }),
{
    if validate_is(*params) is None {
        assert(exists|all: Result<(M, M), PhoebeError<X>>| #[trigger]
            lightcurve::meshes_built(params, overcontact, separate, all) && all == built);
        if let Ok(meshes) = built {
            let (envelope, table) = choose|envelope: Envelope, table: B|
                {
                    &&& #[trigger] lightcurve::enveloped(params, hotter, envelope)
                    &&& #[trigger] call_ensures(table_of, (params.passband,), table)
                    &&& lightcurve::curve_ends(
                        flux, plus, dark, over, dilute,
                        &lightcurve::own_scene(params, &meshes, &table, envelope),
                        phases, r,
                    )
                };
            a_curve_is_made_of_both_stars(
                flux, plus, dark, over, dilute,
                &lightcurve::own_scene(params, &meshes, &table, envelope),
                phases, r, flux_is, plus_is, dark_is, over_is, dilute_is,
                |s: Sight<T>| first(meshes, s),
                |s: Sight<T>| second(meshes, s),
                norm(meshes),
            );
        }
    }
}

proof fn a_band_is_made_of_both_stars<
    M, B, T: Copy, X,
    Table: Fn(Passband) -> B,
    Hundredths: Fn(u32) -> T,
    Flux: Fn(Emission<M, B, T>) -> T,
    Plus: Fn(T, T) -> T,
    Dark: Fn(T) -> bool,
    Over: Fn(T, T) -> T,
    Dilute: Fn(T, T) -> T,
>(
    table_of: &Table,
    hundredths: &Hundredths,
    flux: &Flux,
    plus: &Plus,
    dark: &Dark,
    over: &Over,
    dilute: &Dilute,
    params: &EBParams<T>,
    meshes: &(M, M),
    envelope: Envelope,
    passband: Passband,
    phases: Seq<T>,
    r: Result<LightCurve<T>, PhoebeError<X>>,
    table_is: spec_fn(Passband) -> B,
    hundredths_is: spec_fn(u32) -> T,
    flux_is: spec_fn(M, B, T, T, Sight<T>, Star, EclipserFillout<T>, T, T, T, Envelope) -> T,
    plus_is: spec_fn(T, T) -> T,
    dark_is: spec_fn(T) -> bool,
    over_is: spec_fn(T, T) -> T,
    dilute_is: spec_fn(T, T) -> T,
    first: spec_fn(Sight<T>) -> T,
    second: spec_fn(Sight<T>) -> T,
    norm: T,
)
    requires
        lightcurve::passband_ends(
            table_of, hundredths, flux, plus, dark, over, dilute,
            params, meshes, envelope, passband, phases, r,
        ),
        forall|p: Passband, b: B| #[trigger]
            call_ensures(table_of, (p,), b) ==> b == table_is(p),
        forall|h: u32, x: T| #[trigger]
            call_ensures(hundredths, (h,), x) ==> x == hundredths_is(h),
        forall|e: Emission<M, B, T>, x: T| #[trigger]
            call_ensures(flux, (e,), x) ==> x == flux_is(
                *e.mesh, *e.table, e.q, e.inclination, e.sight, e.eclipser, e.fillout, e.t_eff,
                e.t_eff_companion, e.ld, e.envelope,
            ),
        forall|x: T, y: T, z: T| #[trigger]
            call_ensures(plus, (x, y), z) ==> z == plus_is(x, y),
        forall|x: T, b: bool| #[trigger] call_ensures(dark, (x,), b) ==> b == dark_is(x),
        forall|x: T, y: T, z: T| #[trigger]
            call_ensures(over, (x, y), z) ==> z == over_is(x, y),
        forall|x: T, y: T, z: T| #[trigger]
            call_ensures(dilute, (x, y), z) ==> z == dilute_is(x, y),
        forall|s: Sight<T>| #[trigger]
            first(s) == flux_is(
                meshes.0,
                table_is(passband),
                params.q,
                params.inclination,
                s,
                Star::Secondary,
                if params.eb_type == EBType::Contact {
                    EclipserFillout::Hundredths(100)
                } else {
                    EclipserFillout::Own(params.fillout2)
                },
                params.t_eff1,
                params.t_eff2,
                hundredths_is(passband.limb_darkening()),
                envelope,
            ),
        forall|s: Sight<T>| #[trigger]
            second(s) == flux_is(
                meshes.1,
                table_is(passband),
                params.q,
                params.inclination,
                s,
                Star::Primary,
                if params.eb_type == EBType::Contact {
                    EclipserFillout::Hundredths(100)
                } else {
                    EclipserFillout::Own(params.fillout1)
                },
                params.t_eff2,
                params.t_eff1,
                hundredths_is(passband.limb_darkening()),
                envelope,
            ),
        norm == plus_is(first(Sight::Hundredths(25)), second(Sight::Hundredths(25))),
    ensures
        r is Err <==> dark_is(norm),
        r matches Err(e) ==> (e matches PhoebeError::InvalidParams(message) && message@
            == "zero flux at quadrature"@),
        r matches Ok(curve) ==> {
            &&& curve.phases@ == phases
            &&& curve.flux@.len() == phases.len()
            &&& curve.flux1@.len() == phases.len()
            &&& curve.flux2@.len() == phases.len()
            &&& forall|k: int|
                #![trigger phases[k]]
                #![trigger curve.flux@[k]]
                #![trigger curve.flux1@[k]]
                #![trigger curve.flux2@[k]]
                0 <= k < phases.len() ==> {
                    let s = Sight::At(plus_is(phases[k], params.phi0));
                    &&& curve.flux1@[k] == over_is(first(s), norm)
                    &&& curve.flux2@[k] == over_is(second(s), norm)
                    &&& curve.flux@[k] == dilute_is(
                        over_is(plus_is(first(s), second(s)), norm),
                        params.l3,
                    )
                }
        },
{
    let (table, ld) = choose|table: B, ld: T|
        {
            &&& #[trigger] call_ensures(table_of, (passband,), table)
            &&& #[trigger] call_ensures(hundredths, (passband.limb_darkening(),), ld)
            &&& lightcurve::curve_ends(
                flux, plus, dark, over, dilute,
                &Scene { params, meshes, table: &table, envelope, ld1: ld, ld2: ld },
                phases, r,
            )
        };
    a_curve_is_made_of_both_stars(
        flux, plus, dark, over, dilute,
        &Scene { params, meshes, table: &table, envelope, ld1: ld, ld2: ld },
        phases, r, flux_is, plus_is, dark_is, over_is, dilute_is, first, second, norm,
    );
}

/// Light curves in several passbands, in terms of what the given functions
/// answer: as in one passband, but each band has its own table and its own limb
/// darkening, the same for both stars. The curves come in the order of the bands,
/// and a band that is dark at quadrature leaves none.
pub proof fn every_band_is_made_of_both_stars<
    M, B, T: Copy, X,
    Validate: Fn(&EBParams<T>) -> Result<(), PhoebeError<X>>,
    Overcontact: Fn(T, T, usize) -> Result<(M, M), PhoebeError<X>>,
    Separate: Fn(T, Star, T, usize) -> Result<M, PhoebeError<X>>,
    Hotter: Fn(T, u32) -> bool,
    Table: Fn(Passband) -> B,
    Hundredths: Fn(u32) -> T,
    Flux: Fn(Emission<M, B, T>) -> T,
    Plus: Fn(T, T) -> T,
    Dark: Fn(T) -> bool,
    Over: Fn(T, T) -> T,
    Dilute: Fn(T, T) -> T,
>(
    validate: &Validate,
    overcontact: &Overcontact,
    separate: &Separate,
    hotter: &Hotter,
    table_of: &Table,
    hundredths: &Hundredths,
    flux: &Flux,
    plus: &Plus,
    dark: &Dark,
    over: &Over,
    dilute: &Dilute,
    params: &EBParams<T>,
    bands: Seq<Passband>,
    phases: Seq<T>,
    r: Result<Vec<LightCurve<T>>, PhoebeError<X>>,
    validate_is: spec_fn(EBParams<T>) -> Option<PhoebeError<X>>,
    overcontact_is: spec_fn(T, T, usize) -> Result<(M, M), PhoebeError<X>>,
    separate_is: spec_fn(T, Star, T, usize) -> Result<M, PhoebeError<X>>,
    hotter_is: spec_fn(T, u32) -> bool,
    table_is: spec_fn(Passband) -> B,
    hundredths_is: spec_fn(u32) -> T,
    flux_is: spec_fn(M, B, T, T, Sight<T>, Star, EclipserFillout<T>, T, T, T, Envelope) -> T,
    plus_is: spec_fn(T, T) -> T,
    dark_is: spec_fn(T) -> bool,
    over_is: spec_fn(T, T) -> T,
    dilute_is: spec_fn(T, T) -> T,
    built: Result<(M, M), PhoebeError<X>>,
    first: spec_fn(Passband, (M, M), Sight<T>) -> T,
    second: spec_fn(Passband, (M, M), Sight<T>) -> T,
    norm: spec_fn(Passband, (M, M)) -> T,
)
    requires
        lightcurve::synthesised_in_bands(
            validate, overcontact, separate, hotter, table_of, hundredths, flux, plus, dark, over, dilute,
            params, bands, phases, r,
        ),
        forall|p: &EBParams<T>, v: Result<(), PhoebeError<X>>| #[trigger]
            call_ensures(validate, (p,), v) ==> (match v {
                Ok(_) => validate_is(*p) is None,
                Err(e) => validate_is(*p) == Some(e),
            }),
        forall|q: T, f: T, n: usize, m: Result<(M, M), PhoebeError<X>>| #[trigger]
            call_ensures(overcontact, (q, f, n), m) ==> m == overcontact_is(q, f, n),
        forall|q: T, s: Star, f: T, n: usize, m: Result<M, PhoebeError<X>>| #[trigger]
            call_ensures(separate, (q, s, f, n), m) ==> m == separate_is(q, s, f, n),
        forall|t: T, k: u32, b: bool| #[trigger]
            call_ensures(hotter, (t, k), b) ==> b == hotter_is(t, k),
        forall|p: Passband, b: B| #[trigger]
            call_ensures(table_of, (p,), b) ==> b == table_is(p),
        forall|h: u32, x: T| #[trigger]
            call_ensures(hundredths, (h,), x) ==> x == hundredths_is(h),
        forall|e: Emission<M, B, T>, x: T| #[trigger]
            call_ensures(flux, (e,), x) ==> x == flux_is(
                *e.mesh, *e.table, e.q, e.inclination, e.sight, e.eclipser, e.fillout, e.t_eff,
                e.t_eff_companion, e.ld, e.envelope,
            ),
        forall|x: T, y: T, z: T| #[trigger]
            call_ensures(plus, (x, y), z) ==> z == plus_is(x, y),
        forall|x: T, b: bool| #[trigger] call_ensures(dark, (x,), b) ==> b == dark_is(x),
        forall|x: T, y: T, z: T| #[trigger]
            call_ensures(over, (x, y), z) ==> z == over_is(x, y),
        forall|x: T, y: T, z: T| #[trigger]
            call_ensures(dilute, (x, y), z) ==> z == dilute_is(x, y),
        built == (if params.eb_type == EBType::Contact {
            overcontact_is(params.q, params.fillout1, (params.n_grid * 2) as usize)
        } else {
            match separate_is(params.q, Star::Primary, params.fillout1, params.n_grid) {
                Err(e) => Err(e),
                Ok(m1) => match separate_is(
                    params.q,
                    Star::Secondary,
                    params.fillout2,
                    params.n_grid,
                ) {
                    Err(e) => Err(e),
                    Ok(m2) => Ok((m1, m2)),
                },
            }
        }),
        forall|p: Passband, m: (M, M), s: Sight<T>| #[trigger]
            first(p, m, s) == flux_is(
                m.0,
                table_is(p),
                params.q,
                params.inclination,
                s,
                Star::Secondary,
                if params.eb_type == EBType::Contact {
                    EclipserFillout::Hundredths(100)
                } else {
                    EclipserFillout::Own(params.fillout2)
                },
                params.t_eff1,
                params.t_eff2,
                hundredths_is(p.limb_darkening()),
                if hotter_is(params.t_eff1, 7500) {
                    Envelope::Radiative
                } else {
                    Envelope::Convective
                },
            ),
        forall|p: Passband, m: (M, M), s: Sight<T>| #[trigger]
            second(p, m, s) == flux_is(
                m.1,
                table_is(p),
                params.q,
                params.inclination,
                s,
                Star::Primary,
                if params.eb_type == EBType::Contact {
                    EclipserFillout::Hundredths(100)
                } else {
                    EclipserFillout::Own(params.fillout1)
                },
                params.t_eff2,
                params.t_eff1,
                hundredths_is(p.limb_darkening()),
                if hotter_is(params.t_eff1, 7500) {
                    Envelope::Radiative
                } else {
                    Envelope::Convective
                },
            ),
        forall|p: Passband, m: (M, M)| #[trigger]
            norm(p, m) == plus_is(
                first(p, m, Sight::Hundredths(25)),
                second(p, m, Sight::Hundredths(25)),
            ),
    ensures
        validate_is(*params) matches Some(e) ==> r == Err::<Vec<LightCurve<T>>, PhoebeError<X>>(e),
        validate_is(*params) is None ==> (built matches Err(e) ==> r == Err::<
            Vec<LightCurve<T>>,
            PhoebeError<X>,
        >(e)),
        validate_is(*params) is None ==> (built matches Ok(meshes) ==> {
            &&& r is Ok <==> forall|b: int|
                0 <= b < bands.len() ==> !dark_is(norm(#[trigger] bands[b], meshes))
            &&& r matches Err(e) ==> (e matches PhoebeError::InvalidParams(message) && message@
                == "zero flux at quadrature"@)
            &&& r matches Ok(curves) ==> curves@.len() == bands.len()
            &&& r matches Ok(curves) ==> forall|b: int|
                0 <= b < bands.len() ==> {
                    let curve = #[trigger] curves@[b];
                    &&& curve.phases@ == phases
                    &&& curve.flux@.len() == phases.len()
                    &&& curve.flux1@.len() == phases.len()
                    &&& curve.flux2@.len() == phases.len()
                    &&& forall|k: int|
                        #![trigger phases[k]]
                        #![trigger curve.flux@[k]]
                        #![trigger curve.flux1@[k]]
                        #![trigger curve.flux2@[k]]
                        0 <= k < phases.len() ==> {
                            let s = Sight::At(plus_is(phases[k], params.phi0));
                            &&& curve.flux1@[k] == over_is(
                                first(bands[b], meshes, s),
                                norm(bands[b], meshes),
                            )
                            &&& curve.flux2@[k] == over_is(
                                second(bands[b], meshes, s),
                                norm(bands[b], meshes),
                            )
                            &&& curve.flux@[k] == dilute_is(
                                over_is(
                                    plus_is(
                                        first(bands[b], meshes, s),
                                        second(bands[b], meshes, s),
                                    ),
                                    norm(bands[b], meshes),
                                ),
                                params.l3,
                            )
                        }
                }
        }),
{
    if validate_is(*params) is None {
        assert(exists|all: Result<(M, M), PhoebeError<X>>| #[trigger]
            lightcurve::meshes_built(params, overcontact, separate, all) && all == built);
        if let Ok(meshes) = built {
            let envelope = choose|envelope: Envelope|
                {
                    &&& #[trigger] lightcurve::enveloped(params, hotter, envelope)
                    &&& lightcurve::curves_end(
                        table_of, hundredths, flux, plus, dark, over, dilute, params, &meshes,
                        envelope, bands, phases, r,
                    )
                };
            match r {
                Ok(curves) => {
                    assert forall|b: int| 0 <= b < bands.len() implies {
                        let curve = #[trigger] curves@[b];
                        &&& !dark_is(norm(bands[b], meshes))
                        &&& curve.phases@ == phases
                        &&& curve.flux@.len() == phases.len()
                        &&& curve.flux1@.len() == phases.len()
                        &&& curve.flux2@.len() == phases.len()
                        &&& forall|k: int|
                            #![trigger phases[k]]
                            #![trigger curve.flux@[k]]
                            #![trigger curve.flux1@[k]]
                            #![trigger curve.flux2@[k]]
                            0 <= k < phases.len() ==> {
                                let s = Sight::At(plus_is(phases[k], params.phi0));
                                &&& curve.flux1@[k] == over_is(
                                    first(bands[b], meshes, s),
                                    norm(bands[b], meshes),
                                )
                                &&& curve.flux2@[k] == over_is(
                                    second(bands[b], meshes, s),
                                    norm(bands[b], meshes),
                                )
                                &&& curve.flux@[k] == dilute_is(
                                    over_is(
                                        plus_is(
                                            first(bands[b], meshes, s),
                                            second(bands[b], meshes, s),
                                        ),
                                        norm(bands[b], meshes),
                                    ),
                                    params.l3,
                                )
                            }
                    } by {
                        let one = Ok::<LightCurve<T>, PhoebeError<X>>(curves@[b]);
                        a_band_is_made_of_both_stars(
                            table_of, hundredths, flux, plus, dark, over, dilute, params,
                            &meshes, envelope,
                            bands[b],
                            phases, one, table_is, hundredths_is, flux_is, plus_is, dark_is,
                            over_is, dilute_is,
                            |s: Sight<T>| first(bands[b], meshes, s),
                            |s: Sight<T>| second(bands[b], meshes, s),
                            norm(bands[b], meshes),
                        );
                    }
                    assert forall|b: int| 0 <= b < bands.len() implies !dark_is(
                        norm(#[trigger] bands[b], meshes),
                    ) by {
                        let curve = curves@[b];
                    }
                },
                Err(e) => {
                    let done = choose|done: Seq<LightCurve<T>>|
                        {
                            &&& done.len() < bands.len()
                            &&& #[trigger] lightcurve::passbands_traced::<
                                M, B, T, X, Table, Hundredths, Flux, Plus, Dark, Over, Dilute,
                            >(
                                table_of, hundredths, flux, plus, dark, over, dilute, params,
                                &meshes, envelope, bands, phases, done,
                            )
                            &&& lightcurve::passband_ends(
                                table_of, hundredths, flux, plus, dark, over, dilute, params,
                                &meshes, envelope,
                                bands[done.len() as int],
                                phases,
                                Err::<LightCurve<T>, PhoebeError<X>>(e),
                            )
                        };
                    let b = done.len() as int;
                    a_band_is_made_of_both_stars(
                        table_of, hundredths, flux, plus, dark, over, dilute, params, &meshes,
                        envelope,
                        bands[b],
                        phases,
                        Err::<LightCurve<T>, PhoebeError<X>>(e),
                        table_is, hundredths_is, flux_is, plus_is, dark_is, over_is, dilute_is,
                        |s: Sight<T>| first(bands[b], meshes, s),
                        |s: Sight<T>| second(bands[b], meshes, s),
                        norm(bands[b], meshes),
                    );
                    assert(dark_is(norm(bands[b], meshes)));
                },
            }
        }
    }
}

/// What surrounds a star, in terms of what the given functions answer: it is seen
/// along the line of sight at its phase and inclination, and its envelope sets
/// the gravity darkening exponent and the albedo.
pub proof fn an_emission_says_its_surroundings<
    M, V, B, T,
    Hundredths: Fn(u32) -> T,
    LineOfSight: Fn(T, T) -> V,
>(
    emission: Emission<M, B, T>,
    acc: EclipseAcc,
    hundredths: &Hundredths,
    line_of_sight: &LineOfSight,
    around: Surroundings<V, B, T>,
    hundredths_is: spec_fn(u32) -> T,
    line_of_sight_is: spec_fn(T, T) -> V,
)
    requires
        shine::surrounds(emission, acc, hundredths, line_of_sight, around),
        forall|n: u32, r: T| #[trigger]
            call_ensures(hundredths, (n,), r) ==> r == hundredths_is(n),
        forall|phase: T, i: T, r: V| #[trigger]
            call_ensures(line_of_sight, (phase, i), r) ==> r == line_of_sight_is(phase, i),
    ensures
        around == (Surroundings {
            los: line_of_sight_is(
                match emission.sight {
                    Sight::Hundredths(n) => hundredths_is(n),
                    Sight::At(phase) => phase,
                },
                emission.inclination,
            ),
            q: emission.q,
            eclipser: emission.eclipser,
            fillout: match emission.fillout {
                EclipserFillout::Hundredths(n) => hundredths_is(n),
                EclipserFillout::Own(own) => own,
            },
            t_eff: emission.t_eff,
            t_eff_companion: emission.t_eff_companion,
            ld: emission.ld,
            gravity_darkening: match emission.envelope {
                Envelope::Radiative => hundredths_is(25),
                Envelope::Convective => hundredths_is(8),
            },
            albedo: match emission.envelope {
                Envelope::Radiative => hundredths_is(100),
                Envelope::Convective => hundredths_is(50),
            },
            table: emission.table,
            acc,
        }),
{
}

/// The flux of an emission is that of all elements of its surface, in the
/// surroundings that it says.
pub proof fn an_emission_shines_in_its_surroundings<
    E, V, A, B, C, D, I, T,
    Measure: Fn(Tolerance, T, T) -> A,
    Mean: Fn(T, usize) -> T,
    Over: Fn(T, T) -> T,
    Gravity: Fn(&E) -> T,
    Positive: Fn(T) -> bool,
    Darkening: Fn(T, T, T) -> T,
    Times: Fn(T, T) -> T,
    Read: Fn(&B, T) -> T,
    Facing: Fn(&E, &V) -> Option<C>,
    Blink: Fn(&E, Star, T, T, A, &V) -> Option<bool>,
    Own: Fn(&E, C, T, T) -> T,
    Separation: Fn(&E, (u32, u32, u32)) -> Option<D>,
    Incidence: Fn(&E, &D) -> Option<I>,
    Boost: Fn(&E, D, I, T, T) -> T,
    Light: Fn(T, T, T) -> T,
    Plus: Fn(T, T) -> T,
    Hundredths: Fn(u32) -> T,
    LineOfSight: Fn(T, T) -> V,
>(
    emission: Emission<StarMesh<E>, B, T>,
    acc: EclipseAcc,
    zero: T,
    one: T,
    hundredths: &Hundredths,
    line_of_sight: &LineOfSight,
    measure: &Measure,
    mean: &Mean,
    over: &Over,
    gravity: &Gravity,
    positive: &Positive,
    darkening: &Darkening,
    times: &Times,
    read: &Read,
    facing: &Facing,
    blink: &Blink,
    own: &Own,
    separation: &Separation,
    incidence: &Incidence,
    boost: &Boost,
    light: &Light,
    plus: &Plus,
    total: T,
    hundredths_is: spec_fn(u32) -> T,
    line_of_sight_is: spec_fn(T, T) -> V,
)
    requires
        shine::emission_gives(
            emission, acc, zero, one, hundredths, line_of_sight, measure, mean, over, gravity,
            positive, darkening, times, read, facing, blink, own, separation, incidence, boost,
            light, plus, total,
        ),
        forall|n: u32, r: T| #[trigger]
            call_ensures(hundredths, (n,), r) ==> r == hundredths_is(n),
        forall|phase: T, i: T, r: V| #[trigger]
            call_ensures(line_of_sight, (phase, i), r) ==> r == line_of_sight_is(phase, i),
    ensures
        flux::flux_gives(
            emission.mesh.elements@,
            (Surroundings {
                los: line_of_sight_is(
                    match emission.sight {
                        Sight::Hundredths(n) => hundredths_is(n),
                        Sight::At(phase) => phase,
                    },
                    emission.inclination,
                ),
                q: emission.q,
                eclipser: emission.eclipser,
                fillout: match emission.fillout {
                    EclipserFillout::Hundredths(n) => hundredths_is(n),
                    EclipserFillout::Own(own) => own,
                },
                t_eff: emission.t_eff,
                t_eff_companion: emission.t_eff_companion,
                ld: emission.ld,
                gravity_darkening: match emission.envelope {
                    Envelope::Radiative => hundredths_is(25),
                    Envelope::Convective => hundredths_is(8),
                },
                albedo: match emission.envelope {
                    Envelope::Radiative => hundredths_is(100),
                    Envelope::Convective => hundredths_is(50),
                },
                table: emission.table,
                acc,
            }),
            zero, one, measure, mean, over, gravity, positive, darkening, times, read, facing,
            blink, own, separation, incidence, boost, light, plus, total,
        ),
{
    let around = choose|around: Surroundings<V, B, T>|
        {
            &&& #[trigger] shine::surrounds(emission, acc, hundredths, line_of_sight, around)
            &&& flux::flux_gives(
                emission.mesh.elements@,
                around, zero, one, measure, mean, over, gravity, positive, darkening, times,
                read, facing, blink, own, separation, incidence, boost, light, plus, total,
            )
        };
    an_emission_says_its_surroundings(
        emission, acc, hundredths, line_of_sight, around, hundredths_is, line_of_sight_is,
    );
}

} // verus!
