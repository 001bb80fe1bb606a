//! What the flux of a star comes to.
//!
//! The contract of `star_flux` speaks of functions that may answer in several
//! ways. The laws here say what comes out where each has one answer, named by a
//! function whose name ends in `_is`.

use vstd::prelude::*;

use crate::flux;
use crate::flux::{Basis, EclipseAcc, LobeRule, Surroundings, Tolerance};
use crate::star::Star;
use crate::sum;

verus! {

/// The flux of a star in terms of what the given functions answer. Where each
/// has one answer, the flux is a sum over the elements, first to last: an element
/// that is turned away or hidden adds nothing, and any other adds the light made
/// of its own and its reflected part. For either eclipser the companion shines on
/// it from its own centre, and what it reflects is scaled by the brightness at
/// the companion's temperature over the brightness at the temperature of the
/// star, where the latter is positive.
pub proof fn flux_is_the_light_of_what_is_seen<
    E, V, A, B, C, D, I, T,
    Measure: Fn(Tolerance, T, T) -> A,
    Mean: Fn(T, usize) -> T,
    Over: Fn(T, T) -> T,
    Gravity: Fn(&E) -> T,
    Positive: Fn(T) -> bool,
    Darkening: Fn(T, T, T) -> T,
    Times: Fn(T, T) -> T,
    Read: Fn(&B, T) -> T,
    Facing: Fn(&E, &V) -> Option<C>,
    Blink: Fn(&E, Star, T, T, A, &V) -> Option<bool>,
    Own: Fn(&E, C, T, T) -> T,
    Separation: Fn(&E, (u32, u32, u32)) -> Option<D>,
    Incidence: Fn(&E, &D) -> Option<I>,
    Boost: Fn(&E, D, I, T, T) -> T,
    Light: Fn(T, T, T) -> T,
    Plus: Fn(T, T) -> T,
>(
    elements: Seq<E>,
    around: Surroundings<V, B, T>,
    zero: T,
    one: T,
    measure: &Measure,
    mean: &Mean,
    over: &Over,
    gravity: &Gravity,
    positive: &Positive,
    darkening: &Darkening,
    times: &Times,
    read: &Read,
    facing: &Facing,
    blink: &Blink,
    own: &Own,
    separation: &Separation,
    incidence: &Incidence,
    boost: &Boost,
    light: &Light,
    plus: &Plus,
    total: T,
    measure_is: spec_fn(Tolerance, T, T) -> A,
    mean_is: spec_fn(T, usize) -> T,
    over_is: spec_fn(T, T) -> T,
    gravity_is: spec_fn(E) -> T,
    positive_is: spec_fn(T) -> bool,
    darkening_is: spec_fn(T, T, T) -> T,
    times_is: spec_fn(T, T) -> T,
    read_is: spec_fn(B, T) -> T,
    facing_is: spec_fn(E, V) -> Option<C>,
    blink_is: spec_fn(E, Star, T, T, A, V) -> Option<bool>,
    own_is: spec_fn(E, C, T, T) -> T,
    separation_is: spec_fn(E, (u32, u32, u32)) -> Option<D>,
    incidence_is: spec_fn(E, D) -> Option<I>,
    boost_is: spec_fn(E, D, I, T, T) -> T,
    light_is: spec_fn(T, T, T) -> T,
    plus_is: spec_fn(T, T) -> T,
    tolerance: A,
    mean_g: T,
    brightness: T,
    ratio: T,
    weigh: spec_fn(int, T) -> T,
    step: spec_fn(int, T) -> T,
)
    requires
        flux::flux_gives(
            elements, around, zero, one, measure, mean, over, gravity, positive, darkening, times,
            read, facing, blink, own, separation, incidence, boost, light, plus, total,
        ),
        forall|a: Tolerance, b: T, c: T, r: A| #[trigger]
            call_ensures(measure, (a, b, c), r) ==> r == measure_is(a, b, c),
        forall|a: T, b: usize, r: T| #[trigger]
            call_ensures(mean, (a, b), r) ==> r == mean_is(a, b),
        forall|a: T, b: T, r: T| #[trigger]
            call_ensures(over, (a, b), r) ==> r == over_is(a, b),
        forall|a: &E, r: T| #[trigger]
            call_ensures(gravity, (a,), r) ==> r == gravity_is(*a),
        forall|a: T, r: bool| #[trigger]
            call_ensures(positive, (a,), r) ==> r == positive_is(a),
        forall|a: T, b: T, c: T, r: T| #[trigger]
            call_ensures(darkening, (a, b, c), r) ==> r == darkening_is(a, b, c),
        forall|a: T, b: T, r: T| #[trigger]
            call_ensures(times, (a, b), r) ==> r == times_is(a, b),
        forall|a: &B, b: T, r: T| #[trigger]
            call_ensures(read, (a, b), r) ==> r == read_is(*a, b),
        forall|a: &E, b: &V, r: Option<C>| #[trigger]
            call_ensures(facing, (a, b), r) ==> r == facing_is(*a, *b),
        forall|a: &E, b: Star, c: T, d: T, e: A, f: &V, r: Option<bool>| #[trigger]
            call_ensures(blink, (a, b, c, d, e, f), r) ==> r == blink_is(*a, b, c, d, e, *f),
        forall|a: &E, b: C, c: T, d: T, r: T| #[trigger]
            call_ensures(own, (a, b, c, d), r) ==> r == own_is(*a, b, c, d),
        forall|a: &E, b: (u32, u32, u32), r: Option<D>| #[trigger]
            call_ensures(separation, (a, b), r) ==> r == separation_is(*a, b),
        forall|a: &E, b: &D, r: Option<I>| #[trigger]
            call_ensures(incidence, (a, b), r) ==> r == incidence_is(*a, *b),
        forall|a: &E, b: D, c: I, d: T, e: T, r: T| #[trigger]
            call_ensures(boost, (a, b, c, d, e), r) ==> r == boost_is(*a, b, c, d, e),
        forall|a: T, b: T, c: T, r: T| #[trigger]
            call_ensures(light, (a, b, c), r) ==> r == light_is(a, b, c),
        forall|a: T, b: T, r: T| #[trigger]
            call_ensures(plus, (a, b), r) ==> r == plus_is(a, b),
        tolerance == measure_is(
            match around.acc {
                EclipseAcc::Fixed => Tolerance::Fixed,
                EclipseAcc::Scaled => Tolerance::Scaled(
                    match around.eclipser {
                        Star::Primary => LobeRule {
                            star: Star::Primary,
                            from_far_side: false,
                            fallback: 30,
                        },
                        Star::Secondary => LobeRule {
                            star: Star::Secondary,
                            from_far_side: true,
                            fallback: 70,
                        },
                    },
                ),
            },
            around.q,
            around.fillout,
        ),
        forall|k: int, x: T|
            0 <= k < elements.len() ==> #[trigger] weigh(k, x) == plus_is(
                x,
                gravity_is(elements[k]),
            ),
        mean_g == mean_is(sum::fold(elements.len(), zero, weigh), elements.len() as usize),
        brightness == read_is(*around.table, around.t_eff),
        ratio == (if positive_is(brightness) {
            over_is(read_is(*around.table, around.t_eff_companion), brightness)
        } else {
            zero
        }),
        forall|k: int, x: T|
            0 <= k < elements.len() ==> #[trigger] step(k, x) == (match facing_is(
                elements[k],
                around.los,
            ) {
                None => x,
                Some(cos) => if blink_is(
                    elements[k],
                    around.eclipser,
                    around.q,
                    around.fillout,
                    tolerance,
                    around.los,
                ) == Some(true) {
                    x
                } else {
                    plus_is(
                        x,
                        light_is(
                            own_is(
                                elements[k],
                                cos,
                                read_is(
                                    *around.table,
                                    times_is(
                                        around.t_eff,
                                        if positive_is(mean_g) {
                                            darkening_is(
                                                gravity_is(elements[k]),
                                                mean_g,
                                                around.gravity_darkening,
                                            )
                                        } else {
                                            one
                                        },
                                    ),
                                ),
                                around.ld,
                            ),
                            if !positive_is(around.albedo) {
                                zero
                            } else {
                                match separation_is(
                                    elements[k],
                                    match around.eclipser {
                                        Star::Primary => (0, 0, 0),
                                        Star::Secondary => (1, 0, 0),
                                    },
                                ) {
                                    None => zero,
                                    Some(d) => match incidence_is(elements[k], d) {
                                        None => zero,
                                        Some(i) => boost_is(
                                            elements[k],
                                            d,
                                            i,
                                            ratio,
                                            around.albedo,
                                        ),
                                    },
                                }
                            },
                            brightness,
                        ),
                    )
                },
            }),
    ensures
        total == sum::fold(elements.len(), zero, step),
{
    let (basis, sums) = choose|basis: Basis<A, T>, sums: Seq<T>|
        {
            &&& #[trigger] flux::based_on(
                elements, around, zero, measure, mean, over, gravity, positive, read, plus,
                basis,
            )
            &&& #[trigger] flux::running_flux(
                elements, around, basis, zero, one, gravity, positive, darkening, times, read,
                facing, blink, own, separation, incidence, boost, light, plus, sums,
            )
            &&& total == sums.last()
        };
    assert(basis.mean_gravity == mean_g) by {
        let (gravities, g_sums) = choose|gravities: Seq<T>, g_sums: Seq<T>|
            {
                &&& flux::gravities_of(elements, gravity, gravities)
                &&& #[trigger] sum::running_total(gravities, zero, plus, g_sums)
                &&& call_ensures(
                    mean,
                    (g_sums.last(), elements.len() as usize),
                    basis.mean_gravity,
                )
            };
        assert forall|k: int| 0 <= k < elements.len() implies #[trigger] g_sums[k + 1] == weigh(
            k,
            g_sums[k],
        ) by {
            assert(call_ensures(gravity, (&elements[k],), gravities[k]));
        }
        sum::sums_fold(elements.len(), zero, weigh, g_sums);
    }
    assert(basis.ratio == ratio);
    assert(basis.tolerance == tolerance);
    assert forall|k: int| 0 <= k < elements.len() implies #[trigger] sums[k + 1] == step(
        k,
        sums[k],
    ) by {
        assert(flux::element_adds(
            around, basis, zero, one, gravity, positive, darkening, times, read, facing, blink,
            own, separation, incidence, boost, light, plus,
            &elements[k],
            sums[k],
            sums[k + 1],
        ));
    }
    sum::sums_fold(elements.len(), zero, step, sums);
}

/// Two stars that are mirrored into each other shine alike: where the same
/// surface is hidden by the other star instead, with everything else equal, and
/// the given functions answer alike for both stars and for both centres, the flux
/// is the same.
pub proof fn mirrored_stars_shine_alike<
    E, V, A, B, C, D, I, T,
    Measure: Fn(Tolerance, T, T) -> A,
    Mean: Fn(T, usize) -> T,
    Over: Fn(T, T) -> T,
    Gravity: Fn(&E) -> T,
    Positive: Fn(T) -> bool,
    Darkening: Fn(T, T, T) -> T,
    Times: Fn(T, T) -> T,
    Read: Fn(&B, T) -> T,
    Facing: Fn(&E, &V) -> Option<C>,
    Blink: Fn(&E, Star, T, T, A, &V) -> Option<bool>,
    Own: Fn(&E, C, T, T) -> T,
    Separation: Fn(&E, (u32, u32, u32)) -> Option<D>,
    Incidence: Fn(&E, &D) -> Option<I>,
    Boost: Fn(&E, D, I, T, T) -> T,
    Light: Fn(T, T, T) -> T,
    Plus: Fn(T, T) -> T,
>(
    elements: Seq<E>,
    around: Surroundings<V, B, T>,
    mirrored: Surroundings<V, B, T>,
    zero: T,
    one: T,
    measure: &Measure,
    mean: &Mean,
    over: &Over,
    gravity: &Gravity,
    positive: &Positive,
    darkening: &Darkening,
    times: &Times,
    read: &Read,
    facing: &Facing,
    blink: &Blink,
    own: &Own,
    separation: &Separation,
    incidence: &Incidence,
    boost: &Boost,
    light: &Light,
    plus: &Plus,
    total: T,
    mirrored_total: T,
    measure_is: spec_fn(Tolerance, T, T) -> A,
    mean_is: spec_fn(T, usize) -> T,
    over_is: spec_fn(T, T) -> T,
    gravity_is: spec_fn(E) -> T,
    positive_is: spec_fn(T) -> bool,
    darkening_is: spec_fn(T, T, T) -> T,
    times_is: spec_fn(T, T) -> T,
    read_is: spec_fn(B, T) -> T,
    facing_is: spec_fn(E, V) -> Option<C>,
    blink_is: spec_fn(E, Star, T, T, A, V) -> Option<bool>,
    own_is: spec_fn(E, C, T, T) -> T,
    separation_is: spec_fn(E, (u32, u32, u32)) -> Option<D>,
    incidence_is: spec_fn(E, D) -> Option<I>,
    boost_is: spec_fn(E, D, I, T, T) -> T,
    light_is: spec_fn(T, T, T) -> T,
    plus_is: spec_fn(T, T) -> T,
)
    requires
        flux::flux_gives(
            elements, around, zero, one, measure, mean, over, gravity, positive, darkening, times,
            read, facing, blink, own, separation, incidence, boost, light, plus, total,
        ),
        flux::flux_gives(
            elements, mirrored, zero, one, measure, mean, over, gravity, positive, darkening, times,
            read, facing, blink, own, separation, incidence, boost, light, plus, mirrored_total,
        ),
        mirrored == (Surroundings {
            eclipser: match around.eclipser {
                Star::Primary => Star::Secondary,
                Star::Secondary => Star::Primary,
            },
            ..around
        }),
        forall|a: Tolerance, b: T, c: T, r: A| #[trigger]
            call_ensures(measure, (a, b, c), r) ==> r == measure_is(a, b, c),
        forall|a: T, b: usize, r: T| #[trigger]
            call_ensures(mean, (a, b), r) ==> r == mean_is(a, b),
        forall|a: T, b: T, r: T| #[trigger]
            call_ensures(over, (a, b), r) ==> r == over_is(a, b),
        forall|a: &E, r: T| #[trigger]
            call_ensures(gravity, (a,), r) ==> r == gravity_is(*a),
        forall|a: T, r: bool| #[trigger]
            call_ensures(positive, (a,), r) ==> r == positive_is(a),
        forall|a: T, b: T, c: T, r: T| #[trigger]
            call_ensures(darkening, (a, b, c), r) ==> r == darkening_is(a, b, c),
        forall|a: T, b: T, r: T| #[trigger]
            call_ensures(times, (a, b), r) ==> r == times_is(a, b),
        forall|a: &B, b: T, r: T| #[trigger]
            call_ensures(read, (a, b), r) ==> r == read_is(*a, b),
        forall|a: &E, b: &V, r: Option<C>| #[trigger]
            call_ensures(facing, (a, b), r) ==> r == facing_is(*a, *b),
        forall|a: &E, b: Star, c: T, d: T, e: A, f: &V, r: Option<bool>| #[trigger]
            call_ensures(blink, (a, b, c, d, e, f), r) ==> r == blink_is(*a, b, c, d, e, *f),
        forall|a: &E, b: C, c: T, d: T, r: T| #[trigger]
            call_ensures(own, (a, b, c, d), r) ==> r == own_is(*a, b, c, d),
        forall|a: &E, b: (u32, u32, u32), r: Option<D>| #[trigger]
            call_ensures(separation, (a, b), r) ==> r == separation_is(*a, b),
        forall|a: &E, b: &D, r: Option<I>| #[trigger]
            call_ensures(incidence, (a, b), r) ==> r == incidence_is(*a, *b),
        forall|a: &E, b: D, c: I, d: T, e: T, r: T| #[trigger]
            call_ensures(boost, (a, b, c, d, e), r) ==> r == boost_is(*a, b, c, d, e),
        forall|a: T, b: T, c: T, r: T| #[trigger]
            call_ensures(light, (a, b, c), r) ==> r == light_is(a, b, c),
        forall|a: T, b: T, r: T| #[trigger]
            call_ensures(plus, (a, b), r) ==> r == plus_is(a, b),
        forall|t: Tolerance, u: Tolerance, q: T, f: T|
            #![trigger measure_is(t, q, f), measure_is(u, q, f)]
            measure_is(t, q, f) == measure_is(u, q, f),
        forall|e: E, s: Star, u: Star, q: T, f: T, a: A, v: V|
            #![trigger blink_is(e, s, q, f, a, v), blink_is(e, u, q, f, a, v)]
            blink_is(e, s, q, f, a, v) == blink_is(e, u, q, f, a, v),
        forall|e: E|
            #![trigger separation_is(e, (0, 0, 0))]
            #![trigger separation_is(e, (1, 0, 0))]
            separation_is(e, (0, 0, 0)) == separation_is(e, (1, 0, 0)),
    ensures
        total == mirrored_total,
{
    let tolerance = measure_is(Tolerance::Fixed, around.q, around.fillout);
    let weigh = |k: int, x: T| plus_is(x, gravity_is(elements[k]));
    let mean_g = mean_is(sum::fold(elements.len(), zero, weigh), elements.len() as usize);
    let brightness = read_is(*around.table, around.t_eff);
    let ratio = if positive_is(brightness) {
        over_is(read_is(*around.table, around.t_eff_companion), brightness)
    } else {
        zero
    };
    let step = |k: int, x: T|
        match facing_is(
        elements[k],
        around.los,
    ) {
        None => x,
        Some(cos) => if blink_is(
            elements[k],
            around.eclipser,
            around.q,
            around.fillout,
            tolerance,
            around.los,
        ) == Some(true) {
            x
        } else {
            plus_is(
                x,
                light_is(
                    own_is(
                        elements[k],
                        cos,
                        read_is(
                            *around.table,
                            times_is(
                                around.t_eff,
                                if positive_is(mean_g) {
                                    darkening_is(
                                        gravity_is(elements[k]),
                                        mean_g,
                                        around.gravity_darkening,
                                    )
                                } else {
                                    one
                                },
                            ),
                        ),
                        around.ld,
                    ),
                    if !positive_is(around.albedo) {
                        zero
                    } else {
                        match separation_is(
                            elements[k],
                            match around.eclipser {
                                Star::Primary => (0, 0, 0),
                                Star::Secondary => (1, 0, 0),
                            },
                        ) {
                            None => zero,
                            Some(d) => match incidence_is(elements[k], d) {
                                None => zero,
                                Some(i) => boost_is(
                                    elements[k],
                                    d,
                                    i,
                                    ratio,
                                    around.albedo,
                                ),
                            },
                        }
                    },
                    brightness,
                ),
            )
        },
    };
    flux_is_the_light_of_what_is_seen(
        elements, around, zero, one, measure, mean, over, gravity, positive, darkening, times,
        read, facing, blink, own, separation, incidence, boost, light, plus, total, measure_is,
        mean_is, over_is, gravity_is, positive_is, darkening_is, times_is, read_is, facing_is,
        blink_is, own_is, separation_is, incidence_is, boost_is, light_is, plus_is, tolerance,
        mean_g, brightness, ratio, weigh, step,
    );
    flux_is_the_light_of_what_is_seen(
        elements, mirrored, zero, one, measure, mean, over, gravity, positive, darkening, times,
        read, facing, blink, own, separation, incidence, boost, light, plus, mirrored_total, measure_is,
        mean_is, over_is, gravity_is, positive_is, darkening_is, times_is, read_is, facing_is,
        blink_is, own_is, separation_is, incidence_is, boost_is, light_is, plus_is, tolerance,
        mean_g, brightness, ratio, weigh, step,
    );
}

} // verus!
