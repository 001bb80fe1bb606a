//! The flux of one star of a scene: what its emission says of it, handed on to
//! the flux of its surface.

use vstd::prelude::*;
use crate::flux;
use crate::flux::{star_flux, EclipseAcc, StarMesh, Surroundings, Tolerance};
use crate::lightcurve::{EclipserFillout, Emission, Sight};
use crate::star::Star;

verus! {

/// `r` is the phase that a sight stands for.
pub open spec fn phase_gives<T, Hundredths: Fn(u32) -> T>(
    sight: Sight<T>,
    hundredths: &Hundredths,
    r: T,
) -> bool {
    match sight {
        Sight::Hundredths(n) => call_ensures(hundredths, (n,), r),
        Sight::At(phase) => r == phase,
    }
}

/// `r` is the filling factor that an eclipser has.
pub open spec fn fillout_gives<T, Hundredths: Fn(u32) -> T>(
    fillout: EclipserFillout<T>,
    hundredths: &Hundredths,
    r: T,
) -> bool {
    match fillout {
        EclipserFillout::Hundredths(n) => call_ensures(hundredths, (n,), r),
        EclipserFillout::Own(own) => r == own,
    }
}

/// `los` is the direction toward the observer at the phase of an emission.
pub open spec fn looks_along<
    M,
    V,
    B,
    T,
    Hundredths: Fn(u32) -> T,
    LineOfSight: Fn(T, T) -> V,
>(
    emission: Emission<M, B, T>,
    hundredths: &Hundredths,
    line_of_sight: &LineOfSight,
    los: V,
) -> bool {
    exists|phase: T|
        {
            &&& #[trigger] phase_gives(emission.sight, hundredths, phase)
            &&& call_ensures(line_of_sight, (phase, emission.inclination), los)
        }
}

/// `around` is what an emission says of a star besides its surface.
pub open spec fn surrounds<
    M,
    V,
    B,
    T,
    Hundredths: Fn(u32) -> T,
    LineOfSight: Fn(T, T) -> V,
>(
    emission: Emission<M, B, T>,
    acc: EclipseAcc,
    hundredths: &Hundredths,
    line_of_sight: &LineOfSight,
    around: Surroundings<V, B, T>,
) -> bool {
    &&& looks_along(emission, hundredths, line_of_sight, around.los)
    &&& around.q == emission.q
    &&& around.eclipser == emission.eclipser
    &&& fillout_gives(emission.fillout, hundredths, around.fillout)
    &&& around.t_eff == emission.t_eff
    &&& around.t_eff_companion == emission.t_eff_companion
    &&& around.ld == emission.ld
    &&& call_ensures(
        hundredths,
        (emission.envelope.darkening_exponent(),),
        around.gravity_darkening,
    )
    &&& call_ensures(hundredths, (emission.envelope.reflectance(),), around.albedo)
    &&& around.table == emission.table
    &&& around.acc == acc
}

/// What an emission says of a star besides its surface.
///
/// `hundredths` is the number that many hundredths make, and `line_of_sight`
/// the direction toward the observer at a phase and an inclination.
pub fn surroundings_of<
    'a,
    M,
    V,
    B,
    T: Copy,
    Hundredths: Fn(u32) -> T,
    LineOfSight: Fn(T, T) -> V,
>(
    emission: &Emission<'a, M, B, T>,
    acc: EclipseAcc,
    hundredths: &Hundredths,
    line_of_sight: &LineOfSight,
) -> (around: Surroundings<'a, V, B, T>)
    requires
        forall|n: u32| #[trigger] call_requires(hundredths, (n,)),
        forall|phase: T, i: T| #[trigger] call_requires(line_of_sight, (phase, i)),
    ensures
        surrounds(*emission, acc, hundredths, line_of_sight, around),
{
    let phase: T = match &emission.sight {
        Sight::Hundredths(n) => hundredths(*n),
        Sight::At(phase) => *phase,
    };
    let fillout: T = match &emission.fillout {
        EclipserFillout::Hundredths(n) => hundredths(*n),
        EclipserFillout::Own(own) => *own,
    };
    let los: V = line_of_sight(phase, emission.inclination);
    assert(phase_gives(emission.sight, hundredths, phase));
    assert(looks_along(*emission, hundredths, line_of_sight, los));
    Surroundings {
        los,
        q: emission.q,
        eclipser: emission.eclipser,
        fillout,
        t_eff: emission.t_eff,
        t_eff_companion: emission.t_eff_companion,
        ld: emission.ld,
        gravity_darkening: hundredths(emission.envelope.gravity_darkening()),
        albedo: hundredths(emission.envelope.albedo()),
        table: emission.table,
        acc,
    }
}

/// `total` is the flux of an emission: that of its surface in the surroundings
/// that it says.
pub open spec fn emission_gives<
    E, V, A, B, C, D, I, T,
    Measure: Fn(Tolerance, T, T) -> A,
    Mean: Fn(T, usize) -> T,
    Over: Fn(T, T) -> T,
    Gravity: Fn(&E) -> T,
    Positive: Fn(T) -> bool,
    Darkening: Fn(T, T, T) -> T,
    Times: Fn(T, T) -> T,
    Read: Fn(&B, T) -> T,
    Facing: Fn(&E, &V) -> Option<C>,
    Blink: Fn(&E, Star, T, T, A, &V) -> Option<bool>,
    Own: Fn(&E, C, T, T) -> T,
    Separation: Fn(&E, (u32, u32, u32)) -> Option<D>,
    Incidence: Fn(&E, &D) -> Option<I>,
    Boost: Fn(&E, D, I, T, T) -> T,
    Light: Fn(T, T, T) -> T,
    Plus: Fn(T, T) -> T,
    Hundredths: Fn(u32) -> T,
    LineOfSight: Fn(T, T) -> V,
>(
    emission: Emission<StarMesh<E>, B, T>,
    acc: EclipseAcc,
    zero: T,
    one: T,
    hundredths: &Hundredths,
    line_of_sight: &LineOfSight,
    measure: &Measure,
    mean: &Mean,
    over: &Over,
    gravity: &Gravity,
    positive: &Positive,
    darkening: &Darkening,
    times: &Times,
    read: &Read,
    facing: &Facing,
    blink: &Blink,
    own: &Own,
    separation: &Separation,
    incidence: &Incidence,
    boost: &Boost,
    light: &Light,
    plus: &Plus,
    total: T,
) -> bool {
    exists|around: Surroundings<V, B, T>|
        {
            &&& #[trigger] surrounds(emission, acc, hundredths, line_of_sight, around)
            &&& flux::flux_gives(
                emission.mesh.elements@,
                around, zero, one, measure, mean, over, gravity, positive, darkening, times,
                read, facing, blink, own, separation, incidence, boost, light, plus, total,
            )
        }
}

/// The flux of one star of a scene.
///
/// `hundredths` and `line_of_sight` are those of `surroundings_of`, and the
/// other functions those of `star_flux`.
pub fn emission_flux<
    E,
    V,
    A: Copy,
    B,
    C: Copy,
    D,
    I,
    T: Copy,
    Measure: Fn(Tolerance, T, T) -> A,
    Mean: Fn(T, usize) -> T,
    Over: Fn(T, T) -> T,
    Gravity: Fn(&E) -> T,
    Positive: Fn(T) -> bool,
    Darkening: Fn(T, T, T) -> T,
    Times: Fn(T, T) -> T,
    Read: Fn(&B, T) -> T,
    Facing: Fn(&E, &V) -> Option<C>,
    Blink: Fn(&E, Star, T, T, A, &V) -> Option<bool>,
    Own: Fn(&E, C, T, T) -> T,
    Separation: Fn(&E, (u32, u32, u32)) -> Option<D>,
    Incidence: Fn(&E, &D) -> Option<I>,
    Boost: Fn(&E, D, I, T, T) -> T,
    Light: Fn(T, T, T) -> T,
    Plus: Fn(T, T) -> T,
    Hundredths: Fn(u32) -> T,
    LineOfSight: Fn(T, T) -> V,
>(
    emission: &Emission<StarMesh<E>, B, T>,
    acc: EclipseAcc,
    zero: T,
    one: T,
    hundredths: &Hundredths,
    line_of_sight: &LineOfSight,
    measure: &Measure,
    mean: &Mean,
    over: &Over,
    gravity: &Gravity,
    positive: &Positive,
    darkening: &Darkening,
    times: &Times,
    read: &Read,
    facing: &Facing,
    blink: &Blink,
    own: &Own,
    separation: &Separation,
    incidence: &Incidence,
    boost: &Boost,
    light: &Light,
    plus: &Plus,
) -> (total: T)
    requires
        forall|n: u32| #[trigger] call_requires(hundredths, (n,)),
        forall|phase: T, i: T| #[trigger] call_requires(line_of_sight, (phase, i)),
        forall|t: Tolerance, q: T, f: T| #[trigger] call_requires(measure, (t, q, f)),
        forall|x: T, n: usize| #[trigger] call_requires(mean, (x, n)),
        forall|x: T, y: T| #[trigger] call_requires(over, (x, y)),
        forall|e: &E| #[trigger] call_requires(gravity, (e,)),
        forall|x: T| #[trigger] call_requires(positive, (x,)),
        forall|x: T, y: T, b: T| #[trigger] call_requires(darkening, (x, y, b)),
        forall|x: T, y: T| #[trigger] call_requires(times, (x, y)),
        forall|b: &B, x: T| #[trigger] call_requires(read, (b, x)),
        forall|e: &E, v: &V| #[trigger] call_requires(facing, (e, v)),
        forall|e: &E, s: Star, q: T, f: T, a: A, v: &V| #[trigger]
            call_requires(blink, (e, s, q, f, a, v)),
        forall|e: &E, c: C, x: T, ld: T| #[trigger] call_requires(own, (e, c, x, ld)),
        forall|e: &E, p: (u32, u32, u32)| #[trigger] call_requires(separation, (e, p)),
        forall|e: &E, d: &D| #[trigger] call_requires(incidence, (e, d)),
        forall|e: &E, d: D, i: I, x: T, a: T| #[trigger]
            call_requires(boost, (e, d, i, x, a)),
        forall|a: T, b: T, x: T| #[trigger] call_requires(light, (a, b, x)),
        forall|a: T, b: T| #[trigger] call_requires(plus, (a, b)),
    ensures
        emission_gives(
            *emission, acc, zero, one, hundredths, line_of_sight, measure, mean, over, gravity,
            positive, darkening, times, read, facing, blink, own, separation, incidence, boost,
            light, plus, total,
        ),
{
    let around: Surroundings<V, B, T> = surroundings_of(
        emission,
        acc,
        hundredths,
        line_of_sight,
    );
    star_flux(
        emission.mesh, &around, zero, one, measure, mean, over, gravity, positive, darkening,
        times, read, facing, blink, own, separation, incidence, boost, light, plus,
    )
}

} // verus!
