//! What holds of light curves as a whole: what a curve does and does not depend
//! on, and how runs relate to each other.

use vstd::prelude::*;
use crate::error::PhoebeError;
use crate::lightcurve;
use crate::lightcurve::{Emission, Envelope, LightCurve, Sample, Scene, Sight, QUADRATURE};
use crate::params::EBParams;
use crate::passband::Passband;
use crate::star::Star;
use crate::EBType;

verus! {

/// A star is never eclipsed by itself nor heated by itself: what stands in
/// front of the one shines in its turn behind it.
pub proof fn stars_eclipse_each_other<M, B, T: Copy>(
    scene: &Scene<M, B, T>,
    star: Star,
    sight: Sight<T>,
)
    ensures
        scene.emitted(star, sight).eclipser != star,
        scene.emitted(scene.emitted(star, sight).eclipser, sight).eclipser == star,
        scene.emitted(star, sight).t_eff_companion == scene.emitted(star.other(), sight).t_eff,
{
}

/// Between the bands of one system only the surface brightness and the limb
/// darkening vary.
pub proof fn bands_differ_in_table_and_limb_darkening<M, B, T: Copy>(
    a: &Scene<M, B, T>,
    b: &Scene<M, B, T>,
    star: Star,
    sight: Sight<T>,
)
    requires
        a.params == b.params,
        a.meshes == b.meshes,
        a.envelope == b.envelope,
    ensures
        b.emitted(star, sight) == (Emission {
            table: b.table,
            ld: b.emitted(star, sight).ld,
            ..a.emitted(star, sight)
        }),
{
}

/// A scene without light at quadrature is refused, and only such a scene: where
/// no normalisation is dark, no curve is refused, and where every one is, none
/// is made.
pub proof fn only_dark_bands_are_refused<
    M,
    B,
    T: Copy,
    X,
    Flux: Fn(Emission<M, B, T>) -> T,
    Plus: Fn(T, T) -> T,
    Dark: Fn(T) -> bool,
    Over: Fn(T, T) -> T,
    Dilute: Fn(T, T) -> T,
>(
    flux: &Flux,
    plus: &Plus,
    dark: &Dark,
    over: &Over,
    dilute: &Dilute,
    scene: &Scene<M, B, T>,
    phases: Seq<T>,
    r: Result<LightCurve<T>, PhoebeError<X>>,
)
    requires
        lightcurve::curve_ends(flux, plus, dark, over, dilute, scene, phases, r),
    ensures
        (forall|x: T, d: bool| #[trigger] call_ensures(dark, (x,), d) ==> !d) ==> r is Ok,
        (forall|x: T, d: bool| #[trigger] call_ensures(dark, (x,), d) ==> d) ==> r is Err,
{
}

/// A curve has the phases that were asked for, and a flux of the system and of
/// either star at each of them.
pub proof fn a_curve_keeps_the_phases<
    M,
    B,
    T: Copy,
    X,
    Validate: Fn(&EBParams<T>) -> Result<(), PhoebeError<X>>,
    Overcontact: Fn(T, T, usize) -> Result<(M, M), PhoebeError<X>>,
    Separate: Fn(T, Star, T, usize) -> Result<M, PhoebeError<X>>,
    Hotter: Fn(T, u32) -> bool,
    Table: Fn(Passband) -> B,
    Flux: Fn(Emission<M, B, T>) -> T,
    Plus: Fn(T, T) -> T,
    Dark: Fn(T) -> bool,
    Over: Fn(T, T) -> T,
    Dilute: Fn(T, T) -> T,
>(
    validate: &Validate,
    overcontact: &Overcontact,
    separate: &Separate,
    hotter: &Hotter,
    table_of: &Table,
    flux: &Flux,
    plus: &Plus,
    dark: &Dark,
    over: &Over,
    dilute: &Dilute,
    params: &EBParams<T>,
    phases: Seq<T>,
    r: Result<LightCurve<T>, PhoebeError<X>>,
)
    requires
        lightcurve::synthesised(
            validate, overcontact, separate, hotter, table_of, flux, plus, dark, over, dilute,
            params, phases, r,
        ),
    ensures
        r matches Ok(curve) ==> curve.aligned() && curve.phases@ == phases,
{
}

/// Every curve of a multiband run has the phases that were asked for, and a
/// flux of the system and of either star at each of them.
pub proof fn curves_share_the_phases<
    M,
    B,
    T: Copy,
    X,
    Validate: Fn(&EBParams<T>) -> Result<(), PhoebeError<X>>,
    Overcontact: Fn(T, T, usize) -> Result<(M, M), PhoebeError<X>>,
    Separate: Fn(T, Star, T, usize) -> Result<M, PhoebeError<X>>,
    Hotter: Fn(T, u32) -> bool,
    Table: Fn(Passband) -> B,
    Hundredths: Fn(u32) -> T,
    Flux: Fn(Emission<M, B, T>) -> T,
    Plus: Fn(T, T) -> T,
    Dark: Fn(T) -> bool,
    Over: Fn(T, T) -> T,
    Dilute: Fn(T, T) -> T,
>(
    validate: &Validate,
    overcontact: &Overcontact,
    separate: &Separate,
    hotter: &Hotter,
    table_of: &Table,
    hundredths: &Hundredths,
    flux: &Flux,
    plus: &Plus,
    dark: &Dark,
    over: &Over,
    dilute: &Dilute,
    params: &EBParams<T>,
    bands: Seq<Passband>,
    phases: Seq<T>,
    r: Result<Vec<LightCurve<T>>, PhoebeError<X>>,
)
    requires
        lightcurve::synthesised_in_bands(
            validate, overcontact, separate, hotter, table_of, hundredths, flux, plus, dark,
            over, dilute, params, bands, phases, r,
        ),
    ensures
        r matches Ok(curves) ==> curves@.len() == bands.len() && forall|b: int|
            0 <= b < bands.len() ==> (#[trigger] curves@[b]).aligned() && curves@[b].phases@
                == phases,
{
}

/// Parameters that are always refused never shine, in one band or in several.
pub proof fn refused_parameters_give_no_curve<
    M,
    B,
    T: Copy,
    X,
    Validate: Fn(&EBParams<T>) -> Result<(), PhoebeError<X>>,
    Overcontact: Fn(T, T, usize) -> Result<(M, M), PhoebeError<X>>,
    Separate: Fn(T, Star, T, usize) -> Result<M, PhoebeError<X>>,
    Hotter: Fn(T, u32) -> bool,
    Table: Fn(Passband) -> B,
    Hundredths: Fn(u32) -> T,
    Flux: Fn(Emission<M, B, T>) -> T,
    Plus: Fn(T, T) -> T,
    Dark: Fn(T) -> bool,
    Over: Fn(T, T) -> T,
    Dilute: Fn(T, T) -> T,
>(
    validate: &Validate,
    overcontact: &Overcontact,
    separate: &Separate,
    hotter: &Hotter,
    table_of: &Table,
    hundredths: &Hundredths,
    flux: &Flux,
    plus: &Plus,
    dark: &Dark,
    over: &Over,
    dilute: &Dilute,
    params: &EBParams<T>,
    bands: Seq<Passband>,
    phases: Seq<T>,
    one: Result<LightCurve<T>, PhoebeError<X>>,
    many: Result<Vec<LightCurve<T>>, PhoebeError<X>>,
)
    requires
        forall|v: Result<(), PhoebeError<X>>| #[trigger]
            call_ensures(validate, (params,), v) ==> v is Err,
        lightcurve::synthesised(
            validate, overcontact, separate, hotter, table_of, flux, plus, dark, over, dilute,
            params, phases, one,
        ),
        lightcurve::synthesised_in_bands(
            validate, overcontact, separate, hotter, table_of, hundredths, flux, plus, dark,
            over, dilute, params, bands, phases, many,
        ),
    ensures
        one matches Err(e) && call_ensures(validate, (params,), Err(e)),
        many matches Err(e) && call_ensures(validate, (params,), Err(e)),
{
}

/// Functions that answer alike whenever they are asked alike.
pub open spec fn repeatable<
    M,
    B,
    T: Copy,
    X,
    Overcontact: Fn(T, T, usize) -> Result<(M, M), PhoebeError<X>>,
    Separate: Fn(T, Star, T, usize) -> Result<M, PhoebeError<X>>,
    Hotter: Fn(T, u32) -> bool,
    Table: Fn(Passband) -> B,
    Flux: Fn(Emission<M, B, T>) -> T,
    Plus: Fn(T, T) -> T,
    Dark: Fn(T) -> bool,
    Over: Fn(T, T) -> T,
>(
    overcontact: &Overcontact,
    separate: &Separate,
    hotter: &Hotter,
    table_of: &Table,
    flux: &Flux,
    plus: &Plus,
    dark: &Dark,
    over: &Over,
) -> bool {
    &&& forall|
        q: T,
        f: T,
        n: usize,
        a: Result<(M, M), PhoebeError<X>>,
        b: Result<(M, M), PhoebeError<X>>,
    | #[trigger]
        call_ensures(overcontact, (q, f, n), a) && #[trigger] call_ensures(
            overcontact,
            (q, f, n),
            b,
        ) ==> a == b
    &&& forall|
        q: T,
        s: Star,
        f: T,
        n: usize,
        a: Result<M, PhoebeError<X>>,
        b: Result<M, PhoebeError<X>>,
    | #[trigger]
        call_ensures(separate, (q, s, f, n), a) && #[trigger] call_ensures(
            separate,
            (q, s, f, n),
            b,
        ) ==> a == b
    &&& forall|t: T, k: u32, a: bool, b: bool| #[trigger]
        call_ensures(hotter, (t, k), a) && #[trigger] call_ensures(hotter, (t, k), b) ==> a == b
    &&& forall|p: Passband, a: B, b: B| #[trigger]
        call_ensures(table_of, (p,), a) && #[trigger] call_ensures(table_of, (p,), b) ==> a == b
    &&& repeatable_curve(flux, plus, dark, over)
}

/// The functions that trace a curve answer alike whenever they are asked alike.
pub open spec fn repeatable_curve<
    M,
    B,
    T: Copy,
    Flux: Fn(Emission<M, B, T>) -> T,
    Plus: Fn(T, T) -> T,
    Dark: Fn(T) -> bool,
    Over: Fn(T, T) -> T,
>(flux: &Flux, plus: &Plus, dark: &Dark, over: &Over) -> bool {
    &&& forall|e: Emission<M, B, T>, a: T, b: T| #[trigger]
        call_ensures(flux, (e,), a) && #[trigger] call_ensures(flux, (e,), b) ==> a == b
    &&& forall|x: T, y: T, a: T, b: T| #[trigger]
        call_ensures(plus, (x, y), a) && #[trigger] call_ensures(plus, (x, y), b) ==> a == b
    &&& forall|x: T, a: bool, b: bool| #[trigger]
        call_ensures(dark, (x,), a) && #[trigger] call_ensures(dark, (x,), b) ==> a == b
    &&& forall|x: T, y: T, a: T, b: T| #[trigger]
        call_ensures(over, (x, y), a) && #[trigger] call_ensures(over, (x, y), b) ==> a == b
}

/// `x` and `y` are one flux, diluted by one third light or by another.
pub open spec fn one_flux_diluted<
    T,
    Dilute: Fn(T, T) -> T,
>(dilute: &Dilute, l3_x: T, x: T, l3_y: T, y: T) -> bool {
    exists|whole: T|
        {
            &&& #[trigger] call_ensures(dilute, (whole, l3_x), x)
            &&& call_ensures(dilute, (whole, l3_y), y)
        }
}

/// `a` and `b` are curves of one system that differ in third light alone: the
/// shares of the two stars are the same, and the flux of the system is one and
/// the same flux, diluted by the one third light or by the other.
pub open spec fn diluted_alike<
    T,
    Dilute: Fn(T, T) -> T,
>(dilute: &Dilute, a: LightCurve<T>, l3_a: T, b: LightCurve<T>, l3_b: T) -> bool {
    &&& a.flux1@ == b.flux1@
    &&& a.flux2@ == b.flux2@
    &&& a.flux@.len() == b.flux@.len()
    &&& forall|k: int|
        0 <= k < a.flux@.len() ==> one_flux_diluted(
            dilute,
            l3_a,
            #[trigger] a.flux@[k],
            l3_b,
            b.flux@[k],
        )
}

/// Whether there is light at quadrature depends on neither the phases nor the
/// third light.
proof fn light_decides<
    M,
    B,
    T: Copy,
    X,
    Flux: Fn(Emission<M, B, T>) -> T,
    Plus: Fn(T, T) -> T,
    Dark: Fn(T) -> bool,
    Over: Fn(T, T) -> T,
    Dilute: Fn(T, T) -> T,
>(
    flux: &Flux,
    plus: &Plus,
    dark: &Dark,
    over: &Over,
    dilute: &Dilute,
    a: &Scene<M, B, T>,
    b: &Scene<M, B, T>,
    phases_a: Seq<T>,
    phases_b: Seq<T>,
    r_a: Result<LightCurve<T>, PhoebeError<X>>,
    r_b: Result<LightCurve<T>, PhoebeError<X>>,
)
    requires
        repeatable_curve(flux, plus, dark, over),
        forall|star: Star, sight: Sight<T>| #[trigger]
            a.emitted(star, sight) == b.emitted(star, sight),
        lightcurve::curve_ends(flux, plus, dark, over, dilute, a, phases_a, r_a),
        lightcurve::curve_ends(flux, plus, dark, over, dilute, b, phases_b, r_b),
    ensures
        r_a is Ok <==> r_b is Ok,
        forall|n: T, m: T| #[trigger]
            lightcurve::normalises(flux, plus, a, n) && #[trigger]
            lightcurve::normalises(flux, plus, b, m) ==> n == m,
{
    assert forall|n: T, m: T| #[trigger]
        lightcurve::normalises(flux, plus, a, n) && #[trigger]
        lightcurve::normalises(flux, plus, b, m) implies n == m by {
        let (f1, f2) = choose|f1: T, f2: T|
            #[trigger] lightcurve::both_fluxes(flux, a, Sight::Hundredths(QUADRATURE), f1, f2)
                && call_ensures(
                plus,
                (f1, f2),
                n,
            );
        let (g1, g2) = choose|g1: T, g2: T|
            #[trigger] lightcurve::both_fluxes(flux, b, Sight::Hundredths(QUADRATURE), g1, g2)
                && call_ensures(
                plus,
                (g1, g2),
                m,
            );
        assert(f1 == g1 && f2 == g2);
    }
}

/// Curves of scenes that emit alike agree wherever their phases do.
proof fn points_agree<
    M,
    B,
    T: Copy,
    X,
    Flux: Fn(Emission<M, B, T>) -> T,
    Plus: Fn(T, T) -> T,
    Dark: Fn(T) -> bool,
    Over: Fn(T, T) -> T,
    Dilute: Fn(T, T) -> T,
>(
    flux: &Flux,
    plus: &Plus,
    dark: &Dark,
    over: &Over,
    dilute: &Dilute,
    a: &Scene<M, B, T>,
    b: &Scene<M, B, T>,
    phases_a: Seq<T>,
    phases_b: Seq<T>,
    curve_a: LightCurve<T>,
    curve_b: LightCurve<T>,
    i: int,
    j: int,
)
    requires
        repeatable_curve(flux, plus, dark, over),
        forall|star: Star, sight: Sight<T>| #[trigger]
            a.emitted(star, sight) == b.emitted(star, sight),
        a.params.phi0 == b.params.phi0,
        lightcurve::curve_ends(
            flux, plus, dark, over, dilute, a, phases_a,
            Ok::<LightCurve<T>, PhoebeError<X>>(curve_a),
        ),
        lightcurve::curve_ends(
            flux, plus, dark, over, dilute, b, phases_b,
            Ok::<LightCurve<T>, PhoebeError<X>>(curve_b),
        ),
        0 <= i < phases_a.len(),
        0 <= j < phases_b.len(),
        phases_a[i] == phases_b[j],
    ensures
        curve_a.flux1@[i] == curve_b.flux1@[j],
        curve_a.flux2@[i] == curve_b.flux2@[j],
        one_flux_diluted(
            dilute,
            a.params.l3,
            curve_a.flux@[i],
            b.params.l3,
            curve_b.flux@[j],
        ),
{
    light_decides(
        flux, plus, dark, over, dilute, a, b, phases_a, phases_b,
        Ok::<LightCurve<T>, PhoebeError<X>>(curve_a),
        Ok::<LightCurve<T>, PhoebeError<X>>(curve_b),
    );
    let norm = choose|norm: T|
        {
            &&& #[trigger] lightcurve::normalises(flux, plus, a, norm)
            &&& call_ensures(dark, (norm,), false)
            &&& lightcurve::traces(flux, plus, over, dilute, a, norm, phases_a, curve_a)
        };
    let other = choose|norm: T|
        {
            &&& #[trigger] lightcurve::normalises(flux, plus, b, norm)
            &&& call_ensures(dark, (norm,), false)
            &&& lightcurve::traces(flux, plus, over, dilute, b, norm, phases_b, curve_b)
        };
    assert(norm == other);
    one_point(
        flux, plus, dark, over, dilute, a, b, norm,
        phases_a[i],
        curve_a.at(i),
        curve_b.at(j),
    );
}

proof fn one_point<
    M,
    B,
    T: Copy,
    Flux: Fn(Emission<M, B, T>) -> T,
    Plus: Fn(T, T) -> T,
    Dark: Fn(T) -> bool,
    Over: Fn(T, T) -> T,
    Dilute: Fn(T, T) -> T,
>(
    flux: &Flux,
    plus: &Plus,
    dark: &Dark,
    over: &Over,
    dilute: &Dilute,
    a: &Scene<M, B, T>,
    b: &Scene<M, B, T>,
    norm: T,
    phase: T,
    sample_a: Sample<T>,
    sample_b: Sample<T>,
)
    requires
        repeatable_curve(flux, plus, dark, over),
        forall|star: Star, sight: Sight<T>| #[trigger]
            a.emitted(star, sight) == b.emitted(star, sight),
        a.params.phi0 == b.params.phi0,
        lightcurve::samples(flux, plus, over, dilute, a, norm, phase, sample_a),
        lightcurve::samples(flux, plus, over, dilute, b, norm, phase, sample_b),
    ensures
        sample_a.first == sample_b.first,
        sample_a.second == sample_b.second,
        one_flux_diluted(dilute, a.params.l3, sample_a.total, b.params.l3, sample_b.total),
{
    let (at, f1, f2) = choose|at: T, f1: T, f2: T|
        {
            &&& #[trigger] call_ensures(plus, (phase, a.params.phi0), at)
            &&& #[trigger] lightcurve::both_fluxes(flux, a, Sight::At(at), f1, f2)
            &&& lightcurve::makes_point(plus, over, dilute, f1, f2, norm, a.params.l3, sample_a)
        };
    let (bt, g1, g2) = choose|at: T, f1: T, f2: T|
        {
            &&& #[trigger] call_ensures(plus, (phase, b.params.phi0), at)
            &&& #[trigger] lightcurve::both_fluxes(flux, b, Sight::At(at), f1, f2)
            &&& lightcurve::makes_point(plus, over, dilute, f1, f2, norm, b.params.l3, sample_b)
        };
    assert(at == bt);
    assert(a.emitted(Star::Primary, Sight::At(at)) == b.emitted(Star::Primary, Sight::At(at)));
    assert(f1 == g1 && f2 == g2);
}

/// Dilution answers alike whenever it is asked alike.
pub open spec fn steady_dilution<
    T,
    Dilute: Fn(T, T) -> T,
>(dilute: &Dilute) -> bool {
    forall|x: T, y: T, a: T, b: T| #[trigger]
        call_ensures(dilute, (x, y), a) && #[trigger] call_ensures(dilute, (x, y), b) ==> a == b
}

/// Hundredths make the same number whenever they are asked for.
pub open spec fn steady_hundredths<
    T,
    Hundredths: Fn(u32) -> T,
>(hundredths: &Hundredths) -> bool {
    forall|n: u32, a: T, b: T| #[trigger]
        call_ensures(hundredths, (n,), a) && #[trigger] call_ensures(hundredths, (n,), b) ==> a
            == b
}

/// The verdicts on two sets of parameters are the same, whenever they are asked
/// for.
pub open spec fn same_verdict<
    T,
    X,
    Validate: Fn(&EBParams<T>) -> Result<(), PhoebeError<X>>,
>(validate: &Validate, params: &EBParams<T>, others: &EBParams<T>) -> bool {
    forall|v: Result<(), PhoebeError<X>>, w: Result<(), PhoebeError<X>>| #[trigger]
        call_ensures(validate, (params,), v) && #[trigger] call_ensures(validate, (others,), w)
            ==> match (v, w) {
            (Ok(_), Ok(_)) => true,
            (Err(e), Err(f)) => e == f,
            _ => false,
        }
}

/// Two curves with the same columns.
pub open spec fn same_curve<T>(a: LightCurve<T>, b: LightCurve<T>) -> bool {
    &&& a.phases@ == b.phases@
    &&& a.flux@ == b.flux@
    &&& a.flux1@ == b.flux1@
    &&& a.flux2@ == b.flux2@
}

/// Two errors that are the same, or refuse the parameters in the same words.
pub open spec fn same_error<X>(e: PhoebeError<X>, f: PhoebeError<X>) -> bool {
    ||| e == f
    ||| match (e, f) {
        (PhoebeError::InvalidParams(m), PhoebeError::InvalidParams(n)) => m@ == n@,
        _ => false,
    }
}

/// Two runs in one band that end alike: with the same curve or the same error.
pub open spec fn same_end<T, X>(
    a: Result<LightCurve<T>, PhoebeError<X>>,
    b: Result<LightCurve<T>, PhoebeError<X>>,
) -> bool {
    match (a, b) {
        (Ok(c), Ok(d)) => same_curve(c, d),
        (Err(e), Err(f)) => same_error(e, f),
        _ => false,
    }
}

/// Two runs in several bands that end alike: with the same curves, band by band,
/// or with the same error.
pub open spec fn same_ends<T, X>(
    a: Result<Vec<LightCurve<T>>, PhoebeError<X>>,
    b: Result<Vec<LightCurve<T>>, PhoebeError<X>>,
) -> bool {
    match (a, b) {
        (Ok(c), Ok(d)) => {
            &&& c@.len() == d@.len()
            &&& forall|i: int| 0 <= i < c@.len() ==> same_curve(#[trigger] c@[i], d@[i])
        },
        (Err(e), Err(f)) => same_error(e, f),
        _ => false,
    }
}

/// The two systems have the same meshes, envelope and passband. The filling
/// factor of the secondary does not matter to the meshes of a contact binary.
pub open spec fn same_stage<T>(params: &EBParams<T>, others: &EBParams<T>) -> bool {
    &&& others.eb_type == params.eb_type
    &&& others.q == params.q
    &&& others.fillout1 == params.fillout1
    &&& params.eb_type == EBType::Contact || others.fillout2 == params.fillout2
    &&& others.n_grid == params.n_grid
    &&& others.t_eff1 == params.t_eff1
}

/// The two systems have the same meshes and the same light in every band.
pub open spec fn shines_alike<T>(params: &EBParams<T>, others: &EBParams<T>) -> bool {
    &&& same_stage(params, others)
    &&& others.inclination == params.inclination
    &&& others.t_eff2 == params.t_eff2
    &&& others.phi0 == params.phi0
    &&& others.l3 == params.l3
}

/// Scenes that emit alike, with the same phase offset and third light, end
/// alike over the same phases.
proof fn scenes_end_alike<
    M,
    B,
    T: Copy,
    X,
    Flux: Fn(Emission<M, B, T>) -> T,
    Plus: Fn(T, T) -> T,
    Dark: Fn(T) -> bool,
    Over: Fn(T, T) -> T,
    Dilute: Fn(T, T) -> T,
>(
    flux: &Flux,
    plus: &Plus,
    dark: &Dark,
    over: &Over,
    dilute: &Dilute,
    a: &Scene<M, B, T>,
    b: &Scene<M, B, T>,
    phases: Seq<T>,
    r_a: Result<LightCurve<T>, PhoebeError<X>>,
    r_b: Result<LightCurve<T>, PhoebeError<X>>,
)
    requires
        repeatable_curve(flux, plus, dark, over),
        steady_dilution(dilute),
        forall|star: Star, sight: Sight<T>| #[trigger]
            a.emitted(star, sight) == b.emitted(star, sight),
        a.params.phi0 == b.params.phi0,
        a.params.l3 == b.params.l3,
        lightcurve::curve_ends(flux, plus, dark, over, dilute, a, phases, r_a),
        lightcurve::curve_ends(flux, plus, dark, over, dilute, b, phases, r_b),
    ensures
        same_end(r_a, r_b),
{
    light_decides(flux, plus, dark, over, dilute, a, b, phases, phases, r_a, r_b);
    if r_a is Ok {
        let c = r_a->Ok_0;
        let d = r_b->Ok_0;
        assert forall|k: int|
            #![trigger c.flux@[k]]
            #![trigger c.flux1@[k]]
            #![trigger c.flux2@[k]]
            0 <= k < phases.len() implies {
            &&& c.flux@[k] == d.flux@[k]
            &&& c.flux1@[k] == d.flux1@[k]
            &&& c.flux2@[k] == d.flux2@[k]
        } by {
            points_agree::<M, B, T, X, Flux, Plus, Dark, Over, Dilute>(
                flux, plus, dark, over, dilute, a, b, phases, phases, c, d, k, k,
            );
        }
        assert(c.flux@ =~= d.flux@);
        assert(c.flux1@ =~= d.flux1@);
        assert(c.flux2@ =~= d.flux2@);
    }
}

/// What stands behind a run in one band of a system that is not refused: the
/// failure of its meshes, or the meshes, envelope and table of its scene.
proof fn behind_one_band<
    M,
    B,
    T: Copy,
    X,
    Validate: Fn(&EBParams<T>) -> Result<(), PhoebeError<X>>,
    Overcontact: Fn(T, T, usize) -> Result<(M, M), PhoebeError<X>>,
    Separate: Fn(T, Star, T, usize) -> Result<M, PhoebeError<X>>,
    Hotter: Fn(T, u32) -> bool,
    Table: Fn(Passband) -> B,
    Flux: Fn(Emission<M, B, T>) -> T,
    Plus: Fn(T, T) -> T,
    Dark: Fn(T) -> bool,
    Over: Fn(T, T) -> T,
    Dilute: Fn(T, T) -> T,
>(
    validate: &Validate,
    overcontact: &Overcontact,
    separate: &Separate,
    hotter: &Hotter,
    table_of: &Table,
    flux: &Flux,
    plus: &Plus,
    dark: &Dark,
    over: &Over,
    dilute: &Dilute,
    params: &EBParams<T>,
    phases: Seq<T>,
    r: Result<LightCurve<T>, PhoebeError<X>>,
) -> (stage: Result<((M, M), Envelope, B), PhoebeError<X>>)
    requires
        forall|v: Result<(), PhoebeError<X>>| #[trigger]
            call_ensures(validate, (params,), v) ==> v is Ok,
        lightcurve::synthesised(
            validate, overcontact, separate, hotter, table_of, flux, plus, dark, over, dilute,
            params, phases, r,
        ),
    ensures
        match stage {
            Err(e) => {
                &&& lightcurve::meshes_built(params, overcontact, separate, Err(e))
                &&& r == Err::<LightCurve<T>, PhoebeError<X>>(e)
            },
            Ok((meshes, envelope, table)) => {
                &&& lightcurve::meshes_built(params, overcontact, separate, Ok(meshes))
                &&& lightcurve::enveloped(params, hotter, envelope)
                &&& call_ensures(table_of, (params.passband,), table)
                &&& lightcurve::curve_ends(
                    flux,
                    plus,
                    dark,
                    over,
                    dilute,
                    &lightcurve::own_scene(params, &meshes, &table, envelope),
                    phases,
                    r,
                )
            },
        },
{
    let built = choose|built: Result<(M, M), PhoebeError<X>>|
        {
            &&& #[trigger] lightcurve::meshes_built(params, overcontact, separate, built)
            &&& match built {
                Err(e) => r == Err::<LightCurve<T>, PhoebeError<X>>(e),
                Ok(meshes) => lightcurve::own_band_ends(
                    hotter, table_of, flux, plus, dark, over, dilute, params, &meshes, phases,
                    r,
                ),
            }
        };
    match built {
        Err(e) => Err(e),
        Ok(meshes) => {
            let (envelope, table) = choose|envelope: Envelope, table: B|
                {
                    &&& #[trigger] lightcurve::enveloped(params, hotter, envelope)
                    &&& #[trigger] call_ensures(table_of, (params.passband,), table)
                    &&& lightcurve::curve_ends(
                    flux,
                    plus,
                    dark,
                    over,
                    dilute,
                    &lightcurve::own_scene(params, &meshes, &table, envelope),
                    phases,
                    r,
                )
                };
            Ok((meshes, envelope, table))
        },
    }
}

/// What stands behind a run in several bands of a system that is not refused:
/// the failure of its meshes, or its meshes and envelope.
proof fn behind_bands<
    M,
    B,
    T: Copy,
    X,
    Validate: Fn(&EBParams<T>) -> Result<(), PhoebeError<X>>,
    Overcontact: Fn(T, T, usize) -> Result<(M, M), PhoebeError<X>>,
    Separate: Fn(T, Star, T, usize) -> Result<M, PhoebeError<X>>,
    Hotter: Fn(T, u32) -> bool,
    Table: Fn(Passband) -> B,
    Hundredths: Fn(u32) -> T,
    Flux: Fn(Emission<M, B, T>) -> T,
    Plus: Fn(T, T) -> T,
    Dark: Fn(T) -> bool,
    Over: Fn(T, T) -> T,
    Dilute: Fn(T, T) -> T,
>(
    validate: &Validate,
    overcontact: &Overcontact,
    separate: &Separate,
    hotter: &Hotter,
    table_of: &Table,
    hundredths: &Hundredths,
    flux: &Flux,
    plus: &Plus,
    dark: &Dark,
    over: &Over,
    dilute: &Dilute,
    params: &EBParams<T>,
    bands: Seq<Passband>,
    phases: Seq<T>,
    r: Result<Vec<LightCurve<T>>, PhoebeError<X>>,
) -> (stage: Result<((M, M), Envelope), PhoebeError<X>>)
    requires
        forall|v: Result<(), PhoebeError<X>>| #[trigger]
            call_ensures(validate, (params,), v) ==> v is Ok,
        lightcurve::synthesised_in_bands(
            validate, overcontact, separate, hotter, table_of, hundredths, flux, plus, dark,
            over, dilute, params, bands, phases, r,
        ),
    ensures
        match stage {
            Err(e) => {
                &&& lightcurve::meshes_built(params, overcontact, separate, Err(e))
                &&& r == Err::<Vec<LightCurve<T>>, PhoebeError<X>>(e)
            },
            Ok((meshes, envelope)) => {
                &&& lightcurve::meshes_built(params, overcontact, separate, Ok(meshes))
                &&& lightcurve::enveloped(params, hotter, envelope)
                &&& lightcurve::curves_end(
                    table_of, hundredths, flux, plus, dark, over, dilute, params, &meshes,
                    envelope, bands, phases, r,
                )
            },
        },
{
    let built = choose|built: Result<(M, M), PhoebeError<X>>|
        {
            &&& #[trigger] lightcurve::meshes_built(params, overcontact, separate, built)
            &&& match built {
                Err(e) => r == Err::<Vec<LightCurve<T>>, PhoebeError<X>>(e),
                Ok(meshes) => exists|envelope: Envelope|
                    {
                        &&& #[trigger] lightcurve::enveloped(params, hotter, envelope)
                        &&& lightcurve::curves_end(
                            table_of, hundredths, flux, plus, dark, over, dilute, params,
                            &meshes, envelope, bands, phases, r,
                        )
                    },
            }
        };
    match built {
        Err(e) => Err(e),
        Ok(meshes) => {
            let envelope = choose|envelope: Envelope|
                {
                    &&& #[trigger] lightcurve::enveloped(params, hotter, envelope)
                    &&& lightcurve::curves_end(
                        table_of, hundredths, flux, plus, dark, over, dilute, params, &meshes,
                        envelope, bands, phases, r,
                    )
                };
            Ok((meshes, envelope))
        },
    }
}

/// Systems on the same stage have the same meshes, or fail alike, and the same
/// envelope.
proof fn one_stage<
    M,
    B,
    T: Copy,
    X,
    Overcontact: Fn(T, T, usize) -> Result<(M, M), PhoebeError<X>>,
    Separate: Fn(T, Star, T, usize) -> Result<M, PhoebeError<X>>,
    Hotter: Fn(T, u32) -> bool,
    Table: Fn(Passband) -> B,
    Flux: Fn(Emission<M, B, T>) -> T,
    Plus: Fn(T, T) -> T,
    Dark: Fn(T) -> bool,
    Over: Fn(T, T) -> T,
>(
    overcontact: &Overcontact,
    separate: &Separate,
    hotter: &Hotter,
    table_of: &Table,
    flux: &Flux,
    plus: &Plus,
    dark: &Dark,
    over: &Over,
    params: &EBParams<T>,
    others: &EBParams<T>,
)
    requires
        repeatable(overcontact, separate, hotter, table_of, flux, plus, dark, over),
        same_stage(params, others),
    ensures
        forall|a: Result<(M, M), PhoebeError<X>>, b: Result<(M, M), PhoebeError<X>>| #[trigger]
            lightcurve::meshes_built(params, overcontact, separate, a) && #[trigger]
            lightcurve::meshes_built(
                others,
                overcontact,
                separate,
                b,
            ) ==> a == b,
        forall|a: Envelope, b: Envelope| #[trigger]
            lightcurve::enveloped(params, hotter, a) && #[trigger]
            lightcurve::enveloped(others, hotter, b) ==> a == b,
{
}

/// One passband of one stage ends alike for systems that shine alike.
proof fn one_passband_ends<
    M,
    B,
    T: Copy,
    X,
    Overcontact: Fn(T, T, usize) -> Result<(M, M), PhoebeError<X>>,
    Separate: Fn(T, Star, T, usize) -> Result<M, PhoebeError<X>>,
    Hotter: Fn(T, u32) -> bool,
    Table: Fn(Passband) -> B,
    Hundredths: Fn(u32) -> T,
    Flux: Fn(Emission<M, B, T>) -> T,
    Plus: Fn(T, T) -> T,
    Dark: Fn(T) -> bool,
    Over: Fn(T, T) -> T,
    Dilute: Fn(T, T) -> T,
>(
    overcontact: &Overcontact,
    separate: &Separate,
    hotter: &Hotter,
    table_of: &Table,
    hundredths: &Hundredths,
    flux: &Flux,
    plus: &Plus,
    dark: &Dark,
    over: &Over,
    dilute: &Dilute,
    params: &EBParams<T>,
    others: &EBParams<T>,
    meshes: &(M, M),
    envelope: Envelope,
    passband: Passband,
    phases: Seq<T>,
    r: Result<LightCurve<T>, PhoebeError<X>>,
    s: Result<LightCurve<T>, PhoebeError<X>>,
)
    requires
        repeatable(overcontact, separate, hotter, table_of, flux, plus, dark, over),
        steady_dilution(dilute),
        steady_hundredths(hundredths),
        shines_alike(params, others),
        lightcurve::passband_ends(
            table_of, hundredths, flux, plus, dark, over, dilute, params, meshes, envelope,
            passband, phases, r,
        ),
        lightcurve::passband_ends(
            table_of, hundredths, flux, plus, dark, over, dilute, others, meshes, envelope,
            passband, phases, s,
        ),
    ensures
        same_end(r, s),
{
    let (table, ld) = choose|table: B, ld: T|
        {
            &&& #[trigger] call_ensures(table_of, (passband,), table)
            &&& #[trigger] call_ensures(hundredths, (passband.limb_darkening(),), ld)
            &&& lightcurve::curve_ends(
                flux,
                plus,
                dark,
                over,
                dilute,
                &Scene { params, meshes, table: &table, envelope, ld1: ld, ld2: ld },
                phases,
                r,
            )
        };
    let (other_table, other_ld) = choose|table: B, ld: T|
        {
            &&& #[trigger] call_ensures(table_of, (passband,), table)
            &&& #[trigger] call_ensures(hundredths, (passband.limb_darkening(),), ld)
            &&& lightcurve::curve_ends(
                flux,
                plus,
                dark,
                over,
                dilute,
                &Scene { params: others, meshes, table: &table, envelope, ld1: ld, ld2: ld },
                phases,
                s,
            )
        };
    assert(table == other_table && ld == other_ld);
    scenes_end_alike(
        flux,
        plus,
        dark,
        over,
        dilute,
        &Scene { params, meshes, table: &table, envelope, ld1: ld, ld2: ld },
        &Scene { params: others, meshes, table: &table, envelope, ld1: ld, ld2: ld },
        phases,
        r,
        s,
    );
}

/// The curves that a run in several bands makes before it ends, and how many.
proof fn bands_before_the_end<
    M,
    B,
    T: Copy,
    X,
    Table: Fn(Passband) -> B,
    Hundredths: Fn(u32) -> T,
    Flux: Fn(Emission<M, B, T>) -> T,
    Plus: Fn(T, T) -> T,
    Dark: Fn(T) -> bool,
    Over: Fn(T, T) -> T,
    Dilute: Fn(T, T) -> T,
>(
    table_of: &Table,
    hundredths: &Hundredths,
    flux: &Flux,
    plus: &Plus,
    dark: &Dark,
    over: &Over,
    dilute: &Dilute,
    params: &EBParams<T>,
    meshes: &(M, M),
    envelope: Envelope,
    bands: Seq<Passband>,
    phases: Seq<T>,
    r: Result<Vec<LightCurve<T>>, PhoebeError<X>>,
) -> (made: (Seq<LightCurve<T>>, int))
    requires
        lightcurve::curves_end(
            table_of, hundredths, flux, plus, dark, over, dilute, params, meshes, envelope,
            bands, phases, r,
        ),
    ensures
        made.0.len() == made.1 <= bands.len(),
        forall|i: int|
            0 <= i < made.1 ==> lightcurve::passband_ends(
                table_of, hundredths, flux, plus, dark, over, dilute, params, meshes, envelope,
                bands[i],
                phases,
                Ok::<LightCurve<T>, PhoebeError<X>>(#[trigger] made.0[i]),
            ),
        r matches Ok(curves) ==> made.0 == curves@ && made.1 == bands.len(),
        r matches Err(e) ==> made.1 < bands.len() && lightcurve::passband_ends(
            table_of, hundredths, flux, plus, dark, over, dilute, params, meshes, envelope,
            bands[made.1],
            phases,
            Err(e),
        ),
{
    match r {
        Ok(curves) => (curves@, bands.len() as int),
        Err(e) => {
            let curves = choose|curves: Seq<LightCurve<T>>|
                {
                    &&& curves.len() < bands.len()
                    &&& #[trigger] lightcurve::passbands_traced::<
                        M, B, T, X, Table, Hundredths, Flux, Plus, Dark, Over, Dilute,
                    >(
                        table_of, hundredths, flux, plus, dark, over, dilute, params, meshes,
                        envelope, bands, phases, curves,
                    )
                    &&& lightcurve::passband_ends(
                        table_of, hundredths, flux, plus, dark, over, dilute, params, meshes,
                        envelope,
                        bands[curves.len() as int],
                        phases,
                        Err(e),
                    )
                };
            (curves, curves.len() as int)
        },
    }
}

proof fn alike_in_one_band<
    M,
    B,
    T: Copy,
    X,
    Validate: Fn(&EBParams<T>) -> Result<(), PhoebeError<X>>,
    Overcontact: Fn(T, T, usize) -> Result<(M, M), PhoebeError<X>>,
    Separate: Fn(T, Star, T, usize) -> Result<M, PhoebeError<X>>,
    Hotter: Fn(T, u32) -> bool,
    Table: Fn(Passband) -> B,
    Flux: Fn(Emission<M, B, T>) -> T,
    Plus: Fn(T, T) -> T,
    Dark: Fn(T) -> bool,
    Over: Fn(T, T) -> T,
    Dilute: Fn(T, T) -> T,
>(
    validate: &Validate,
    overcontact: &Overcontact,
    separate: &Separate,
    hotter: &Hotter,
    table_of: &Table,
    flux: &Flux,
    plus: &Plus,
    dark: &Dark,
    over: &Over,
    dilute: &Dilute,
    params: &EBParams<T>,
    others: &EBParams<T>,
    phases: Seq<T>,
    r: Result<LightCurve<T>, PhoebeError<X>>,
    s: Result<LightCurve<T>, PhoebeError<X>>,
)
    requires
        shines_alike(params, others),
        others.ld1 == params.ld1,
        others.ld2 == params.ld2,
        others.passband == params.passband,
        same_verdict(validate, params, others),
        repeatable(overcontact, separate, hotter, table_of, flux, plus, dark, over),
        steady_dilution(dilute),
        lightcurve::synthesised(
            validate, overcontact, separate, hotter, table_of, flux, plus, dark, over, dilute,
            params, phases, r,
        ),
        lightcurve::synthesised(
            validate, overcontact, separate, hotter, table_of, flux, plus, dark, over, dilute,
            others, phases, s,
        ),
    ensures
        same_end(r, s),
{
    if forall|v: Result<(), PhoebeError<X>>| #[trigger]
        call_ensures(validate, (params,), v) ==> v is Ok {
        let stage = behind_one_band(
            validate, overcontact, separate, hotter, table_of, flux, plus, dark, over, dilute,
            params, phases, r,
        );
        let again = behind_one_band(
            validate, overcontact, separate, hotter, table_of, flux, plus, dark, over, dilute,
            others, phases, s,
        );
        one_stage(
            overcontact, separate, hotter, table_of, flux, plus, dark, over, params, others,
        );
        if let Ok((meshes, envelope, table)) = stage {
            scenes_end_alike(
                flux,
                plus,
                dark,
                over,
                dilute,
                &lightcurve::own_scene(params, &meshes, &table, envelope),
                &lightcurve::own_scene(others, &meshes, &table, envelope),
                phases,
                r,
                s,
            );
        }
    }
}

proof fn alike_in_bands<
    M,
    B,
    T: Copy,
    X,
    Validate: Fn(&EBParams<T>) -> Result<(), PhoebeError<X>>,
    Overcontact: Fn(T, T, usize) -> Result<(M, M), PhoebeError<X>>,
    Separate: Fn(T, Star, T, usize) -> Result<M, PhoebeError<X>>,
    Hotter: Fn(T, u32) -> bool,
    Table: Fn(Passband) -> B,
    Hundredths: Fn(u32) -> T,
    Flux: Fn(Emission<M, B, T>) -> T,
    Plus: Fn(T, T) -> T,
    Dark: Fn(T) -> bool,
    Over: Fn(T, T) -> T,
    Dilute: Fn(T, T) -> T,
>(
    validate: &Validate,
    overcontact: &Overcontact,
    separate: &Separate,
    hotter: &Hotter,
    table_of: &Table,
    hundredths: &Hundredths,
    flux: &Flux,
    plus: &Plus,
    dark: &Dark,
    over: &Over,
    dilute: &Dilute,
    params: &EBParams<T>,
    others: &EBParams<T>,
    bands: Seq<Passband>,
    phases: Seq<T>,
    r: Result<Vec<LightCurve<T>>, PhoebeError<X>>,
    s: Result<Vec<LightCurve<T>>, PhoebeError<X>>,
)
    requires
        shines_alike(params, others),
        same_verdict(validate, params, others),
        repeatable(overcontact, separate, hotter, table_of, flux, plus, dark, over),
        steady_dilution(dilute),
        steady_hundredths(hundredths),
        lightcurve::synthesised_in_bands(
            validate, overcontact, separate, hotter, table_of, hundredths, flux, plus, dark,
            over, dilute, params, bands, phases, r,
        ),
        lightcurve::synthesised_in_bands(
            validate, overcontact, separate, hotter, table_of, hundredths, flux, plus, dark,
            over, dilute, others, bands, phases, s,
        ),
    ensures
        same_ends(r, s),
{
    if forall|v: Result<(), PhoebeError<X>>| #[trigger]
        call_ensures(validate, (params,), v) ==> v is Ok {
        let stage = behind_bands(
            validate, overcontact, separate, hotter, table_of, hundredths, flux, plus, dark,
            over, dilute, params, bands, phases, r,
        );
        let again = behind_bands(
            validate, overcontact, separate, hotter, table_of, hundredths, flux, plus, dark,
            over, dilute, others, bands, phases, s,
        );
        one_stage(
            overcontact, separate, hotter, table_of, flux, plus, dark, over, params, others,
        );
        if let Ok((meshes, envelope)) = stage {
            assert forall|
                b: int,
                x: Result<LightCurve<T>, PhoebeError<X>>,
                y: Result<LightCurve<T>, PhoebeError<X>>,
            |
                0 <= b < bands.len() && #[trigger] lightcurve::passband_ends(
                    table_of, hundredths, flux, plus, dark, over, dilute, params, &meshes,
                    envelope,
                    bands[b],
                    phases,
                    x,
                ) && #[trigger] lightcurve::passband_ends(
                    table_of, hundredths, flux, plus, dark, over, dilute, others, &meshes,
                    envelope,
                    bands[b],
                    phases,
                    y,
                ) implies same_end(x, y) by {
                one_passband_ends(
                    overcontact, separate, hotter, table_of, hundredths, flux, plus, dark, over,
                    dilute, params, others, &meshes, envelope,
                    bands[b],
                    phases,
                    x,
                    y,
                );
            }
            let (c, n) = bands_before_the_end(
                table_of, hundredths, flux, plus, dark, over, dilute, params, &meshes, envelope,
                bands, phases, r,
            );
            let (d, m) = bands_before_the_end(
                table_of, hundredths, flux, plus, dark, over, dilute, others, &meshes, envelope,
                bands, phases, s,
            );
            let fine = |curve: LightCurve<T>| Ok::<LightCurve<T>, PhoebeError<X>>(curve);
            assert forall|i: int| 0 <= i < n && i < m implies same_curve(#[trigger] c[i], d[i]) by {
                assert(same_end(fine(c[i]), fine(d[i])));
            }
            if n < m {
                assert(same_end(Err(r->Err_0), fine(d[n])));
            }
            if m < n {
                assert(same_end(fine(c[m]), Err(s->Err_0)));
            }
        }
    }
}

/// The limb darkening and the passband of the parameters do not matter to a
/// multiband run: systems that differ in nothing else, and on which the verdict
/// is the same, end alike.
pub proof fn own_band_does_not_matter<
    M,
    B,
    T: Copy,
    X,
    Validate: Fn(&EBParams<T>) -> Result<(), PhoebeError<X>>,
    Overcontact: Fn(T, T, usize) -> Result<(M, M), PhoebeError<X>>,
    Separate: Fn(T, Star, T, usize) -> Result<M, PhoebeError<X>>,
    Hotter: Fn(T, u32) -> bool,
    Table: Fn(Passband) -> B,
    Hundredths: Fn(u32) -> T,
    Flux: Fn(Emission<M, B, T>) -> T,
    Plus: Fn(T, T) -> T,
    Dark: Fn(T) -> bool,
    Over: Fn(T, T) -> T,
    Dilute: Fn(T, T) -> T,
>(
    validate: &Validate,
    overcontact: &Overcontact,
    separate: &Separate,
    hotter: &Hotter,
    table_of: &Table,
    hundredths: &Hundredths,
    flux: &Flux,
    plus: &Plus,
    dark: &Dark,
    over: &Over,
    dilute: &Dilute,
    params: &EBParams<T>,
    others: &EBParams<T>,
    bands: Seq<Passband>,
    phases: Seq<T>,
    r: Result<Vec<LightCurve<T>>, PhoebeError<X>>,
    s: Result<Vec<LightCurve<T>>, PhoebeError<X>>,
)
    requires
        *others == (EBParams {
            ld1: others.ld1,
            ld2: others.ld2,
            passband: others.passband,
            ..*params
        }),
        same_verdict(validate, params, others),
        repeatable(overcontact, separate, hotter, table_of, flux, plus, dark, over),
        steady_dilution(dilute),
        steady_hundredths(hundredths),
        lightcurve::synthesised_in_bands(
            validate, overcontact, separate, hotter, table_of, hundredths, flux, plus, dark,
            over, dilute, params, bands, phases, r,
        ),
        lightcurve::synthesised_in_bands(
            validate, overcontact, separate, hotter, table_of, hundredths, flux, plus, dark,
            over, dilute, others, bands, phases, s,
        ),
    ensures
        same_ends(r, s),
{
    alike_in_bands(
        validate, overcontact, separate, hotter, table_of, hundredths, flux, plus, dark, over,
        dilute, params, others, bands, phases, r, s,
    );
}

/// The filling factor of the secondary does not matter to a contact binary, in
/// one band or in several: its surface is built at that of the primary, and its
/// stars are Roche-filling when eclipses are looked for. Systems that differ in
/// nothing else, and on which the verdict is the same, end alike.
pub proof fn second_fillout_does_not_matter_in_contact<
    M,
    B,
    T: Copy,
    X,
    Validate: Fn(&EBParams<T>) -> Result<(), PhoebeError<X>>,
    Overcontact: Fn(T, T, usize) -> Result<(M, M), PhoebeError<X>>,
    Separate: Fn(T, Star, T, usize) -> Result<M, PhoebeError<X>>,
    Hotter: Fn(T, u32) -> bool,
    Table: Fn(Passband) -> B,
    Hundredths: Fn(u32) -> T,
    Flux: Fn(Emission<M, B, T>) -> T,
    Plus: Fn(T, T) -> T,
    Dark: Fn(T) -> bool,
    Over: Fn(T, T) -> T,
    Dilute: Fn(T, T) -> T,
>(
    validate: &Validate,
    overcontact: &Overcontact,
    separate: &Separate,
    hotter: &Hotter,
    table_of: &Table,
    hundredths: &Hundredths,
    flux: &Flux,
    plus: &Plus,
    dark: &Dark,
    over: &Over,
    dilute: &Dilute,
    params: &EBParams<T>,
    others: &EBParams<T>,
    bands: Seq<Passband>,
    phases: Seq<T>,
    one: Result<LightCurve<T>, PhoebeError<X>>,
    other_one: Result<LightCurve<T>, PhoebeError<X>>,
    many: Result<Vec<LightCurve<T>>, PhoebeError<X>>,
    other_many: Result<Vec<LightCurve<T>>, PhoebeError<X>>,
)
    requires
        params.eb_type == EBType::Contact,
        *others == (EBParams { fillout2: others.fillout2, ..*params }),
        same_verdict(validate, params, others),
        repeatable(overcontact, separate, hotter, table_of, flux, plus, dark, over),
        steady_dilution(dilute),
        steady_hundredths(hundredths),
        lightcurve::synthesised(
            validate, overcontact, separate, hotter, table_of, flux, plus, dark, over, dilute,
            params, phases, one,
        ),
        lightcurve::synthesised(
            validate, overcontact, separate, hotter, table_of, flux, plus, dark, over, dilute,
            others, phases, other_one,
        ),
        lightcurve::synthesised_in_bands(
            validate, overcontact, separate, hotter, table_of, hundredths, flux, plus, dark,
            over, dilute, params, bands, phases, many,
        ),
        lightcurve::synthesised_in_bands(
            validate, overcontact, separate, hotter, table_of, hundredths, flux, plus, dark,
            over, dilute, others, bands, phases, other_many,
        ),
    ensures
        same_end(one, other_one),
        same_ends(many, other_many),
{
    alike_in_one_band(
        validate, overcontact, separate, hotter, table_of, flux, plus, dark, over, dilute,
        params, others, phases, one, other_one,
    );
    alike_in_bands(
        validate, overcontact, separate, hotter, table_of, hundredths, flux, plus, dark, over,
        dilute, params, others, bands, phases, many, other_many,
    );
}

/// A band's curve does not depend on the other bands: where a multiband run
/// gives curves, the run in one of its bands alone gives the same curve.
pub proof fn a_band_stands_alone<
    M,
    B,
    T: Copy,
    X,
    Validate: Fn(&EBParams<T>) -> Result<(), PhoebeError<X>>,
    Overcontact: Fn(T, T, usize) -> Result<(M, M), PhoebeError<X>>,
    Separate: Fn(T, Star, T, usize) -> Result<M, PhoebeError<X>>,
    Hotter: Fn(T, u32) -> bool,
    Table: Fn(Passband) -> B,
    Hundredths: Fn(u32) -> T,
    Flux: Fn(Emission<M, B, T>) -> T,
    Plus: Fn(T, T) -> T,
    Dark: Fn(T) -> bool,
    Over: Fn(T, T) -> T,
    Dilute: Fn(T, T) -> T,
>(
    validate: &Validate,
    overcontact: &Overcontact,
    separate: &Separate,
    hotter: &Hotter,
    table_of: &Table,
    hundredths: &Hundredths,
    flux: &Flux,
    plus: &Plus,
    dark: &Dark,
    over: &Over,
    dilute: &Dilute,
    params: &EBParams<T>,
    bands: Seq<Passband>,
    b: int,
    phases: Seq<T>,
    r: Result<Vec<LightCurve<T>>, PhoebeError<X>>,
    alone: Result<Vec<LightCurve<T>>, PhoebeError<X>>,
)
    requires
        0 <= b < bands.len(),
        same_verdict(validate, params, params),
        repeatable(overcontact, separate, hotter, table_of, flux, plus, dark, over),
        steady_dilution(dilute),
        steady_hundredths(hundredths),
        lightcurve::synthesised_in_bands(
            validate, overcontact, separate, hotter, table_of, hundredths, flux, plus, dark,
            over, dilute, params, bands, phases, r,
        ),
        lightcurve::synthesised_in_bands(
            validate, overcontact, separate, hotter, table_of, hundredths, flux, plus, dark,
            over, dilute, params,
            seq![bands[b]],
            phases,
            alone,
        ),
    ensures
        r is Ok ==> {
            &&& alone is Ok
            &&& alone->Ok_0@.len() == 1
            &&& same_curve(r->Ok_0@[b], alone->Ok_0@[0])
        },
{
    if r is Ok {
        let bare = seq![bands[b]];
        let stage = behind_bands(
            validate, overcontact, separate, hotter, table_of, hundredths, flux, plus, dark,
            over, dilute, params, bands, phases, r,
        );
        let again = behind_bands(
            validate, overcontact, separate, hotter, table_of, hundredths, flux, plus, dark,
            over, dilute, params, bare, phases, alone,
        );
        one_stage(
            overcontact, separate, hotter, table_of, flux, plus, dark, over, params, params,
        );
        if let Ok((meshes, envelope)) = stage {
            let whole = r->Ok_0@[b];
            let end = match alone {
                Ok(curves) => Ok::<LightCurve<T>, PhoebeError<X>>(curves@[0]),
                Err(e) => Err(e),
            };
            assert(lightcurve::passband_ends(
                table_of, hundredths, flux, plus, dark, over, dilute, params, &meshes, envelope,
                bands[b],
                phases,
                Ok::<LightCurve<T>, PhoebeError<X>>(whole),
            ));
            assert(lightcurve::passband_ends(
                table_of, hundredths, flux, plus, dark, over, dilute, params, &meshes, envelope,
                bands[b],
                phases,
                end,
            ));
            one_passband_ends(
                overcontact, separate, hotter, table_of, hundredths, flux, plus, dark, over,
                dilute, params, params, &meshes, envelope,
                bands[b],
                phases,
                Ok::<LightCurve<T>, PhoebeError<X>>(whole),
                end,
            );
        }
    }
}

/// A multiband run in the system's own passband alone ends as the run in one
/// band does, where the system has the limb darkening of the passband.
pub proof fn one_passband_alone<
    M,
    B,
    T: Copy,
    X,
    Validate: Fn(&EBParams<T>) -> Result<(), PhoebeError<X>>,
    Overcontact: Fn(T, T, usize) -> Result<(M, M), PhoebeError<X>>,
    Separate: Fn(T, Star, T, usize) -> Result<M, PhoebeError<X>>,
    Hotter: Fn(T, u32) -> bool,
    Table: Fn(Passband) -> B,
    Hundredths: Fn(u32) -> T,
    Flux: Fn(Emission<M, B, T>) -> T,
    Plus: Fn(T, T) -> T,
    Dark: Fn(T) -> bool,
    Over: Fn(T, T) -> T,
    Dilute: Fn(T, T) -> T,
>(
    validate: &Validate,
    overcontact: &Overcontact,
    separate: &Separate,
    hotter: &Hotter,
    table_of: &Table,
    hundredths: &Hundredths,
    flux: &Flux,
    plus: &Plus,
    dark: &Dark,
    over: &Over,
    dilute: &Dilute,
    params: &EBParams<T>,
    phases: Seq<T>,
    one: Result<LightCurve<T>, PhoebeError<X>>,
    many: Result<Vec<LightCurve<T>>, PhoebeError<X>>,
)
    requires
        forall|ld: T| #[trigger]
            call_ensures(hundredths, (params.passband.limb_darkening(),), ld) ==> ld == params.ld1
                && ld == params.ld2,
        same_verdict(validate, params, params),
        repeatable(overcontact, separate, hotter, table_of, flux, plus, dark, over),
        steady_dilution(dilute),
        lightcurve::synthesised(
            validate, overcontact, separate, hotter, table_of, flux, plus, dark, over, dilute,
            params, phases, one,
        ),
        lightcurve::synthesised_in_bands(
            validate, overcontact, separate, hotter, table_of, hundredths, flux, plus, dark,
            over, dilute, params,
            seq![params.passband],
            phases,
            many,
        ),
    ensures
        many is Ok ==> many->Ok_0@.len() == 1,
        same_end(
            one,
            (match many {
                Ok(curves) => Ok::<LightCurve<T>, PhoebeError<X>>(curves@[0]),
                Err(e) => Err(e),
            }),
        ),
{
    if forall|v: Result<(), PhoebeError<X>>| #[trigger]
        call_ensures(validate, (params,), v) ==> v is Ok {
        let bare = seq![params.passband];
        let stage = behind_one_band(
            validate, overcontact, separate, hotter, table_of, flux, plus, dark, over, dilute,
            params, phases, one,
        );
        let again = behind_bands(
            validate, overcontact, separate, hotter, table_of, hundredths, flux, plus, dark,
            over, dilute, params, bare, phases, many,
        );
        one_stage(
            overcontact, separate, hotter, table_of, flux, plus, dark, over, params, params,
        );
        if let Ok((meshes, envelope, table)) = stage {
            let end = match many {
                Ok(curves) => Ok::<LightCurve<T>, PhoebeError<X>>(curves@[0]),
                Err(e) => Err(e),
            };
            assert(lightcurve::passband_ends(
                table_of, hundredths, flux, plus, dark, over, dilute, params, &meshes, envelope,
                params.passband, phases, end,
            ));
            let (other_table, ld) = choose|table: B, ld: T|
                {
                    &&& #[trigger] call_ensures(table_of, (params.passband,), table)
                    &&& #[trigger] call_ensures(
                        hundredths,
                        (params.passband.limb_darkening(),),
                        ld,
                    )
                    &&& lightcurve::curve_ends(
                        flux,
                        plus,
                        dark,
                        over,
                        dilute,
                        &Scene {
                            params,
                            meshes: &meshes,
                            table: &table,
                            envelope,
                            ld1: ld,
                            ld2: ld,
                        },
                        phases,
                        end,
                    )
                };
            assert(table == other_table);
            scenes_end_alike(
                flux,
                plus,
                dark,
                over,
                dilute,
                &lightcurve::own_scene(params, &meshes, &table, envelope),
                &Scene { params, meshes: &meshes, table: &table, envelope, ld1: ld, ld2: ld },
                phases,
                one,
                end,
            );
        }
    }
}

/// Third light never enters the shares of the stars, nor decides whether a
/// system shines: two systems that differ in third light alone have the same
/// `flux1` and `flux2`, and in `flux` the same flux, diluted by their own third
/// light. Where the third light of `clear` dilutes nothing, the flux of
/// `params` is that of `clear`, diluted.
pub proof fn third_light_stays_out_of_the_shares<
    M,
    B,
    T: Copy,
    X,
    Validate: Fn(&EBParams<T>) -> Result<(), PhoebeError<X>>,
    Overcontact: Fn(T, T, usize) -> Result<(M, M), PhoebeError<X>>,
    Separate: Fn(T, Star, T, usize) -> Result<M, PhoebeError<X>>,
    Hotter: Fn(T, u32) -> bool,
    Table: Fn(Passband) -> B,
    Flux: Fn(Emission<M, B, T>) -> T,
    Plus: Fn(T, T) -> T,
    Dark: Fn(T) -> bool,
    Over: Fn(T, T) -> T,
    Dilute: Fn(T, T) -> T,
>(
    validate: &Validate,
    overcontact: &Overcontact,
    separate: &Separate,
    hotter: &Hotter,
    table_of: &Table,
    flux: &Flux,
    plus: &Plus,
    dark: &Dark,
    over: &Over,
    dilute: &Dilute,
    params: &EBParams<T>,
    clear: &EBParams<T>,
    phases: Seq<T>,
    r: Result<LightCurve<T>, PhoebeError<X>>,
    r_clear: Result<LightCurve<T>, PhoebeError<X>>,
)
    requires
        *params == (EBParams { l3: params.l3, ..*clear }),
        forall|v: Result<(), PhoebeError<X>>| #[trigger]
            call_ensures(validate, (params,), v) ==> v is Ok,
        forall|v: Result<(), PhoebeError<X>>| #[trigger]
            call_ensures(validate, (clear,), v) ==> v is Ok,
        repeatable(overcontact, separate, hotter, table_of, flux, plus, dark, over),
        lightcurve::synthesised(
            validate, overcontact, separate, hotter, table_of, flux, plus, dark, over, dilute,
            params, phases, r,
        ),
        lightcurve::synthesised(
            validate, overcontact, separate, hotter, table_of, flux, plus, dark, over, dilute,
            clear, phases, r_clear,
        ),
    ensures
        r is Ok <==> r_clear is Ok,
        r is Ok ==> diluted_alike(dilute, r->Ok_0, params.l3, r_clear->Ok_0, clear.l3),
        r is Ok && (forall|x: T, y: T| #[trigger]
            call_ensures(dilute, (x, clear.l3), y) ==> y == x) ==> forall|k: int|
            0 <= k < phases.len() ==> call_ensures(
                dilute,
                (#[trigger] r_clear->Ok_0.flux@[k], params.l3),
                r->Ok_0.flux@[k],
            ),
{
    let stage = behind_one_band(
        validate, overcontact, separate, hotter, table_of, flux, plus, dark, over, dilute,
        params, phases, r,
    );
    let again = behind_one_band(
        validate, overcontact, separate, hotter, table_of, flux, plus, dark, over, dilute,
        clear, phases, r_clear,
    );
    one_stage(
        overcontact, separate, hotter, table_of, flux, plus, dark, over, params, clear,
    );
    if let Ok((meshes, envelope, table)) = stage {
        let a = lightcurve::own_scene(params, &meshes, &table, envelope);
        let b = lightcurve::own_scene(clear, &meshes, &table, envelope);
        light_decides(flux, plus, dark, over, dilute, &a, &b, phases, phases, r, r_clear);
        if r is Ok {
            let ca = r->Ok_0;
            let cb = r_clear->Ok_0;
            assert forall|k: int|
                #![trigger ca.flux@[k]]
                #![trigger cb.flux@[k]]
                #![trigger ca.flux1@[k]]
                #![trigger ca.flux2@[k]]
                0 <= k < phases.len() implies {
                &&& one_flux_diluted(dilute, params.l3, ca.flux@[k], clear.l3, cb.flux@[k])
                &&& ca.flux1@[k] == cb.flux1@[k]
                &&& ca.flux2@[k] == cb.flux2@[k]
            } by {
                points_agree::<M, B, T, X, Flux, Plus, Dark, Over, Dilute>(
                    flux, plus, dark, over, dilute, &a, &b, phases, phases, ca, cb, k, k,
                );
            }
            assert(ca.flux1@ =~= cb.flux1@);
            assert(ca.flux2@ =~= cb.flux2@);
        }
    }
}

/// Joined phases give joined curves: a curve over some phases and then others
/// is the curve over the ones followed by the curve over the others, and there
/// is such a curve exactly where there is either.
pub proof fn joined_phases_give_joined_curves<
    M,
    B,
    T: Copy,
    X,
    Validate: Fn(&EBParams<T>) -> Result<(), PhoebeError<X>>,
    Overcontact: Fn(T, T, usize) -> Result<(M, M), PhoebeError<X>>,
    Separate: Fn(T, Star, T, usize) -> Result<M, PhoebeError<X>>,
    Hotter: Fn(T, u32) -> bool,
    Table: Fn(Passband) -> B,
    Flux: Fn(Emission<M, B, T>) -> T,
    Plus: Fn(T, T) -> T,
    Dark: Fn(T) -> bool,
    Over: Fn(T, T) -> T,
    Dilute: Fn(T, T) -> T,
>(
    validate: &Validate,
    overcontact: &Overcontact,
    separate: &Separate,
    hotter: &Hotter,
    table_of: &Table,
    flux: &Flux,
    plus: &Plus,
    dark: &Dark,
    over: &Over,
    dilute: &Dilute,
    params: &EBParams<T>,
    front: Seq<T>,
    back: Seq<T>,
    r: Result<LightCurve<T>, PhoebeError<X>>,
    r_front: Result<LightCurve<T>, PhoebeError<X>>,
    r_back: Result<LightCurve<T>, PhoebeError<X>>,
)
    requires
        forall|v: Result<(), PhoebeError<X>>| #[trigger]
            call_ensures(validate, (params,), v) ==> v is Ok,
        repeatable(overcontact, separate, hotter, table_of, flux, plus, dark, over),
        steady_dilution(dilute),
        lightcurve::synthesised(
            validate, overcontact, separate, hotter, table_of, flux, plus, dark, over, dilute,
            params,
            front + back,
            r,
        ),
        lightcurve::synthesised(
            validate, overcontact, separate, hotter, table_of, flux, plus, dark, over, dilute,
            params, front, r_front,
        ),
        lightcurve::synthesised(
            validate, overcontact, separate, hotter, table_of, flux, plus, dark, over, dilute,
            params, back, r_back,
        ),
    ensures
        r is Ok <==> r_front is Ok,
        r is Ok <==> r_back is Ok,
        r is Ok ==> {
            &&& r->Ok_0.phases@ == r_front->Ok_0.phases@ + r_back->Ok_0.phases@
            &&& r->Ok_0.flux@ == r_front->Ok_0.flux@ + r_back->Ok_0.flux@
            &&& r->Ok_0.flux1@ == r_front->Ok_0.flux1@ + r_back->Ok_0.flux1@
            &&& r->Ok_0.flux2@ == r_front->Ok_0.flux2@ + r_back->Ok_0.flux2@
        },
{
    let phases = front + back;
    assert(front =~= phases.subrange(0, 0 + front.len() as int));
    let cut = front.len() as int;
    assert(back =~= phases.subrange(cut, cut + back.len()));
    part_of_a_curve(
        validate, overcontact, separate, hotter, table_of, flux, plus, dark, over, dilute,
        params, phases, front, 0, r, r_front,
    );
    part_of_a_curve(
        validate, overcontact, separate, hotter, table_of, flux, plus, dark, over, dilute,
        params, phases, back,
        front.len() as int,
        r,
        r_back,
    );
    if r is Ok {
        assert(r->Ok_0.flux@ =~= r_front->Ok_0.flux@ + r_back->Ok_0.flux@);
        assert(r->Ok_0.flux1@ =~= r_front->Ok_0.flux1@ + r_back->Ok_0.flux1@);
        assert(r->Ok_0.flux2@ =~= r_front->Ok_0.flux2@ + r_back->Ok_0.flux2@);
    }
}

proof fn part_of_a_curve<
    M,
    B,
    T: Copy,
    X,
    Validate: Fn(&EBParams<T>) -> Result<(), PhoebeError<X>>,
    Overcontact: Fn(T, T, usize) -> Result<(M, M), PhoebeError<X>>,
    Separate: Fn(T, Star, T, usize) -> Result<M, PhoebeError<X>>,
    Hotter: Fn(T, u32) -> bool,
    Table: Fn(Passband) -> B,
    Flux: Fn(Emission<M, B, T>) -> T,
    Plus: Fn(T, T) -> T,
    Dark: Fn(T) -> bool,
    Over: Fn(T, T) -> T,
    Dilute: Fn(T, T) -> T,
>(
    validate: &Validate,
    overcontact: &Overcontact,
    separate: &Separate,
    hotter: &Hotter,
    table_of: &Table,
    flux: &Flux,
    plus: &Plus,
    dark: &Dark,
    over: &Over,
    dilute: &Dilute,
    params: &EBParams<T>,
    phases: Seq<T>,
    part: Seq<T>,
    from: int,
    r: Result<LightCurve<T>, PhoebeError<X>>,
    r_part: Result<LightCurve<T>, PhoebeError<X>>,
)
    requires
        forall|v: Result<(), PhoebeError<X>>| #[trigger]
            call_ensures(validate, (params,), v) ==> v is Ok,
        repeatable(overcontact, separate, hotter, table_of, flux, plus, dark, over),
        steady_dilution(dilute),
        0 <= from <= from + part.len() <= phases.len(),
        part == phases.subrange(from, from + part.len()),
        lightcurve::synthesised(
            validate, overcontact, separate, hotter, table_of, flux, plus, dark, over, dilute,
            params, phases, r,
        ),
        lightcurve::synthesised(
            validate, overcontact, separate, hotter, table_of, flux, plus, dark, over, dilute,
            params, part, r_part,
        ),
    ensures
        r is Ok <==> r_part is Ok,
        r is Ok ==> {
            let whole = r->Ok_0;
            let piece = r_part->Ok_0;
            &&& whole.aligned() && whole.phases@ == phases
            &&& piece.aligned() && piece.phases@ == part
            &&& forall|k: int|
                #![trigger piece.flux@[k]]
                #![trigger piece.flux1@[k]]
                #![trigger piece.flux2@[k]]
                0 <= k < part.len() ==> {
                    &&& piece.flux@[k] == whole.flux@[from + k]
                    &&& piece.flux1@[k] == whole.flux1@[from + k]
                    &&& piece.flux2@[k] == whole.flux2@[from + k]
                }
        },
{
    let stage = behind_one_band(
        validate, overcontact, separate, hotter, table_of, flux, plus, dark, over, dilute,
        params, phases, r,
    );
    let again = behind_one_band(
        validate, overcontact, separate, hotter, table_of, flux, plus, dark, over, dilute,
        params, part, r_part,
    );
    one_stage(
        overcontact, separate, hotter, table_of, flux, plus, dark, over, params, params,
    );
    if let Ok((meshes, envelope, table)) = stage {
        let a = lightcurve::own_scene(params, &meshes, &table, envelope);
        light_decides(flux, plus, dark, over, dilute, &a, &a, phases, part, r, r_part);
        if r is Ok {
            let whole = r->Ok_0;
            let piece = r_part->Ok_0;
            assert forall|k: int|
                #![trigger piece.flux@[k]]
                #![trigger piece.flux1@[k]]
                #![trigger piece.flux2@[k]]
                0 <= k < part.len() implies {
                &&& piece.flux@[k] == whole.flux@[from + k]
                &&& piece.flux1@[k] == whole.flux1@[from + k]
                &&& piece.flux2@[k] == whole.flux2@[from + k]
            } by {
                points_agree::<M, B, T, X, Flux, Plus, Dark, Over, Dilute>(
                    flux, plus, dark, over, dilute, &a, &a, phases, part, whole, piece,
                    from + k,
                    k,
                );
            }
        }
    }
}

} // verus!
