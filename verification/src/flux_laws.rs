//! What holds of the flux of one star as a whole: what it does and does not
//! depend on.

use vstd::prelude::*;
use crate::flux;
use crate::flux::{Basis, Surroundings, Tolerance};
use crate::star::Star;
use crate::sum;

verus! {

/// An element that cannot add to the flux: whatever is answered of it, it has no
/// cosine or is hidden.
pub open spec fn unseen<
    E,
    V,
    A,
    B,
    C,
    T,
    Measure: Fn(Tolerance, T, T) -> A,
    Facing: Fn(&E, &V) -> Option<C>,
    Blink: Fn(&E, Star, T, T, A, &V) -> Option<bool>,
>(
    measure: &Measure,
    facing: &Facing,
    blink: &Blink,
    around: Surroundings<V, B, T>,
    element: &E,
) -> bool {
    forall|tolerance: A, cos: Option<C>, hidden: Option<bool>|
        call_ensures(
            measure,
            (flux::tolerance_of(around.acc, around.eclipser), around.q, around.fillout),
            tolerance,
        ) && #[trigger] call_ensures(facing, (element, &around.los), cos)
            && #[trigger] call_ensures(
            blink,
            (element, around.eclipser, around.q, around.fillout, tolerance, &around.los),
            hidden,
        ) ==> cos is None || hidden == Some(true)
}

/// Two elements of which every question but that for their gravity is answered
/// alike, and each always in the same way.
pub open spec fn alike<
    E, V, A, C, D, I, T,
    Facing: Fn(&E, &V) -> Option<C>,
    Blink: Fn(&E, Star, T, T, A, &V) -> Option<bool>,
    Own: Fn(&E, C, T, T) -> T,
    Separation: Fn(&E, (u32, u32, u32)) -> Option<D>,
    Incidence: Fn(&E, &D) -> Option<I>,
    Boost: Fn(&E, D, I, T, T) -> T,
>(
    facing: &Facing,
    blink: &Blink,
    own: &Own,
    separation: &Separation,
    incidence: &Incidence,
    boost: &Boost,
    a: &E,
    b: &E,
) -> bool {
    &&& forall|v: &V, x: Option<C>, y: Option<C>| #[trigger]
        call_ensures(facing, (a, v), x) && #[trigger] call_ensures(facing, (b, v), y) ==> x == y
    &&& forall|s: Star, q: T, f: T, t: A, v: &V, x: Option<bool>, y: Option<bool>| #[trigger]
        call_ensures(blink, (a, s, q, f, t, v), x) && #[trigger] call_ensures(
            blink,
            (b, s, q, f, t, v),
            y,
        ) ==> x == y
    &&& forall|c: C, l: T, ld: T, x: T, y: T| #[trigger]
        call_ensures(own, (a, c, l, ld), x) && #[trigger] call_ensures(own, (b, c, l, ld), y)
            ==> x == y
    &&& forall|p: (u32, u32, u32), x: Option<D>, y: Option<D>| #[trigger]
        call_ensures(separation, (a, p), x) && #[trigger] call_ensures(separation, (b, p), y)
            ==> x == y
    &&& forall|d: D, x: Option<I>, y: Option<I>| #[trigger]
        call_ensures(incidence, (a, &d), x) && #[trigger] call_ensures(incidence, (b, &d), y)
            ==> x == y
    &&& forall|d: D, i: I, r: T, al: T, x: T, y: T| #[trigger]
        call_ensures(boost, (a, d, i, r, al), x) && #[trigger] call_ensures(
            boost,
            (b, d, i, r, al),
            y,
        ) ==> x == y
}

/// Functions of numbers that answer alike whenever they are asked alike.
pub open spec fn steady<
    A,
    B,
    T,
    Measure: Fn(Tolerance, T, T) -> A,
    Positive: Fn(T) -> bool,
    Over: Fn(T, T) -> T,
    Times: Fn(T, T) -> T,
    Read: Fn(&B, T) -> T,
    Light: Fn(T, T, T) -> T,
    Plus: Fn(T, T) -> T,
>(
    measure: &Measure,
    positive: &Positive,
    over: &Over,
    times: &Times,
    read: &Read,
    light: &Light,
    plus: &Plus,
) -> bool {
    &&& forall|t: Tolerance, q: T, f: T, x: A, y: A| #[trigger]
        call_ensures(measure, (t, q, f), x) && #[trigger] call_ensures(measure, (t, q, f), y)
            ==> x == y
    &&& forall|a: T, x: bool, y: bool| #[trigger]
        call_ensures(positive, (a,), x) && #[trigger] call_ensures(positive, (a,), y) ==> x == y
    &&& forall|a: T, b: T, x: T, y: T| #[trigger]
        call_ensures(over, (a, b), x) && #[trigger] call_ensures(over, (a, b), y) ==> x == y
    &&& forall|a: T, b: T, x: T, y: T| #[trigger]
        call_ensures(times, (a, b), x) && #[trigger] call_ensures(times, (a, b), y) ==> x == y
    &&& forall|b: &B, a: T, x: T, y: T| #[trigger]
        call_ensures(read, (b, a), x) && #[trigger] call_ensures(read, (b, a), y) ==> x == y
    &&& forall|a: T, b: T, c: T, x: T, y: T| #[trigger]
        call_ensures(light, (a, b, c), x) && #[trigger] call_ensures(light, (a, b, c), y) ==> x
            == y
    &&& forall|a: T, b: T, x: T, y: T| #[trigger]
        call_ensures(plus, (a, b), x) && #[trigger] call_ensures(plus, (a, b), y) ==> x == y
}

/// The gravities of the elements, their mean and the darkening that they make
/// are always the same.
pub open spec fn steady_gravity<
    E,
    T,
    Gravity: Fn(&E) -> T,
    Mean: Fn(T, usize) -> T,
    Darkening: Fn(T, T, T) -> T,
>(
    elements: Seq<E>,
    gravity: &Gravity,
    mean: &Mean,
    darkening: &Darkening,
) -> bool {
    &&& forall|k: int, x: T, y: T|
        0 <= k < elements.len() && #[trigger] call_ensures(gravity, (&elements[k],), x)
            && #[trigger] call_ensures(gravity, (&elements[k],), y) ==> x == y
    &&& forall|a: T, n: usize, x: T, y: T| #[trigger]
        call_ensures(mean, (a, n), x) && #[trigger] call_ensures(mean, (a, n), y) ==> x == y
    &&& forall|a: T, b: T, c: T, x: T, y: T| #[trigger]
        call_ensures(darkening, (a, b, c), x) && #[trigger] call_ensures(darkening, (a, b, c), y)
            ==> x == y
}

/// The surface brightnesses of two elements are the same, whatever they are.
spec fn locals_agree<
    E,
    V,
    A,
    B,
    T,
    Gravity: Fn(&E) -> T,
    Positive: Fn(T) -> bool,
    Darkening: Fn(T, T, T) -> T,
    Times: Fn(T, T) -> T,
    Read: Fn(&B, T) -> T,
>(
    around_a: Surroundings<V, B, T>,
    around_b: Surroundings<V, B, T>,
    basis_a: Basis<A, T>,
    basis_b: Basis<A, T>,
    one: T,
    gravity: &Gravity,
    positive: &Positive,
    darkening: &Darkening,
    times: &Times,
    read: &Read,
    a: &E,
    b: &E,
) -> bool {
    forall|x: T, y: T|
        #[trigger] flux::brightness_gives(
            a, around_a, basis_a.mean_gravity, one, gravity, positive, darkening, times, read,
            x,
        ) && #[trigger] flux::brightness_gives(
            b, around_b, basis_b.mean_gravity, one, gravity, positive, darkening, times, read,
            y,
        ) ==> x == y
}

/// The reflections from two elements are the same, whatever they are.
spec fn reflections_agree<
    E, V, A, B, D, I, T,
    Positive: Fn(T) -> bool,
    Separation: Fn(&E, (u32, u32, u32)) -> Option<D>,
    Incidence: Fn(&E, &D) -> Option<I>,
    Boost: Fn(&E, D, I, T, T) -> T,
>(
    around_a: Surroundings<V, B, T>,
    around_b: Surroundings<V, B, T>,
    basis_a: Basis<A, T>,
    basis_b: Basis<A, T>,
    zero: T,
    positive: &Positive,
    separation: &Separation,
    incidence: &Incidence,
    boost: &Boost,
    a: &E,
    b: &E,
) -> bool {
    forall|x: T, y: T|
        #[trigger] flux::reflection_gives(
            a, around_a.eclipser, around_a.albedo, basis_a.ratio, zero, positive, separation,
            incidence, boost, x,
        ) && #[trigger] flux::reflection_gives(
            b, around_b.eclipser, around_b.albedo, basis_b.ratio, zero, positive, separation,
            incidence, boost, y,
        ) ==> x == y
}

/// Two elements take any running flux to the same flux.
spec fn adds_alike<
    E, V, A, B, C, D, I, T,
    Gravity: Fn(&E) -> T,
    Positive: Fn(T) -> bool,
    Darkening: Fn(T, T, T) -> T,
    Times: Fn(T, T) -> T,
    Read: Fn(&B, T) -> T,
    Facing: Fn(&E, &V) -> Option<C>,
    Blink: Fn(&E, Star, T, T, A, &V) -> Option<bool>,
    Own: Fn(&E, C, T, T) -> T,
    Separation: Fn(&E, (u32, u32, u32)) -> Option<D>,
    Incidence: Fn(&E, &D) -> Option<I>,
    Boost: Fn(&E, D, I, T, T) -> T,
    Light: Fn(T, T, T) -> T,
    Plus: Fn(T, T) -> T,
>(
    around_a: Surroundings<V, B, T>,
    around_b: Surroundings<V, B, T>,
    basis_a: Basis<A, T>,
    basis_b: Basis<A, T>,
    zero: T,
    one: T,
    gravity: &Gravity,
    positive: &Positive,
    darkening: &Darkening,
    times: &Times,
    read: &Read,
    facing: &Facing,
    blink: &Blink,
    own: &Own,
    separation: &Separation,
    incidence: &Incidence,
    boost: &Boost,
    light: &Light,
    plus: &Plus,
    a: &E,
    b: &E,
) -> bool {
    forall|before: T, x: T, y: T|
        #[trigger] flux::element_adds(
            around_a, basis_a, zero, one, gravity, positive, darkening, times, read, facing,
            blink, own, separation, incidence, boost, light, plus, a, before, x,
        ) && #[trigger] flux::element_adds(
            around_b, basis_b, zero, one, gravity, positive, darkening, times, read, facing,
            blink, own, separation, incidence, boost, light, plus, b, before, y,
        ) ==> x == y
}

/// The same star, seen from the same place: only the light that falls on it and
/// what it reflects may differ.
pub open spec fn same_but_for_reflection<V, B, T>(
    a: Surroundings<V, B, T>,
    b: Surroundings<V, B, T>,
) -> bool {
    &&& b.los == a.los
    &&& b.q == a.q
    &&& b.eclipser == a.eclipser
    &&& b.fillout == a.fillout
    &&& b.t_eff == a.t_eff
    &&& b.ld == a.ld
    &&& b.gravity_darkening == a.gravity_darkening
    &&& b.table == a.table
    &&& b.acc == a.acc
}

/// What is worked out once for a flux, and its running sums.
proof fn basis_behind<
    E, V, A, B, C, D, I, T,
    Measure: Fn(Tolerance, T, T) -> A,
    Mean: Fn(T, usize) -> T,
    Over: Fn(T, T) -> T,
    Gravity: Fn(&E) -> T,
    Positive: Fn(T) -> bool,
    Darkening: Fn(T, T, T) -> T,
    Times: Fn(T, T) -> T,
    Read: Fn(&B, T) -> T,
    Facing: Fn(&E, &V) -> Option<C>,
    Blink: Fn(&E, Star, T, T, A, &V) -> Option<bool>,
    Own: Fn(&E, C, T, T) -> T,
    Separation: Fn(&E, (u32, u32, u32)) -> Option<D>,
    Incidence: Fn(&E, &D) -> Option<I>,
    Boost: Fn(&E, D, I, T, T) -> T,
    Light: Fn(T, T, T) -> T,
    Plus: Fn(T, T) -> T,
>(
    elements: Seq<E>,
    around: Surroundings<V, B, T>,
    zero: T,
    one: T,
    measure: &Measure,
    mean: &Mean,
    over: &Over,
    gravity: &Gravity,
    positive: &Positive,
    darkening: &Darkening,
    times: &Times,
    read: &Read,
    facing: &Facing,
    blink: &Blink,
    own: &Own,
    separation: &Separation,
    incidence: &Incidence,
    boost: &Boost,
    light: &Light,
    plus: &Plus,
    total: T,
) -> (made: (Basis<A, T>, Seq<T>))
    requires
        flux::flux_gives(
            elements, around, zero, one, measure, mean, over, gravity, positive, darkening,
            times, read, facing, blink, own, separation, incidence, boost, light, plus, total,
        ),
    ensures
        flux::based_on(
            elements, around, zero, measure, mean, over, gravity, positive, read, plus, made.0,
        ),
        flux::running_flux(
            elements, around, made.0, zero, one, gravity, positive, darkening, times, read,
            facing, blink, own, separation, incidence, boost, light, plus, made.1,
        ),
        total == made.1.last(),
{
    choose|basis: Basis<A, T>, sums: Seq<T>|
        {
            &&& #[trigger] flux::based_on(
                elements, around, zero, measure, mean, over, gravity, positive, read, plus,
                basis,
            )
            &&& #[trigger] flux::running_flux(
                elements, around, basis, zero, one, gravity, positive, darkening, times, read,
                facing, blink, own, separation, incidence, boost, light, plus, sums,
            )
            &&& total == sums.last()
        }
}

/// The surface brightness behind the light of an element, its own light and
/// what it reflects.
proof fn light_behind<
    E, V, A, B, C, D, I, T,
    Gravity: Fn(&E) -> T,
    Positive: Fn(T) -> bool,
    Darkening: Fn(T, T, T) -> T,
    Times: Fn(T, T) -> T,
    Read: Fn(&B, T) -> T,
    Own: Fn(&E, C, T, T) -> T,
    Separation: Fn(&E, (u32, u32, u32)) -> Option<D>,
    Incidence: Fn(&E, &D) -> Option<I>,
    Boost: Fn(&E, D, I, T, T) -> T,
    Light: Fn(T, T, T) -> T,
>(
    around: Surroundings<V, B, T>,
    basis: Basis<A, T>,
    zero: T,
    one: T,
    gravity: &Gravity,
    positive: &Positive,
    darkening: &Darkening,
    times: &Times,
    read: &Read,
    own: &Own,
    separation: &Separation,
    incidence: &Incidence,
    boost: &Boost,
    light: &Light,
    element: &E,
    cos: C,
    t: T,
) -> (made: (T, T, T))
    requires
        flux::element_shines(
            around, basis, zero, one, gravity, positive, darkening, times, read, own,
            separation, incidence, boost, light, element, cos, t,
        ),
    ensures
        flux::brightness_gives(
            element, around, basis.mean_gravity, one, gravity, positive, darkening, times, read,
            made.0,
        ),
        call_ensures(own, (element, cos, made.0, around.ld), made.1),
        flux::reflection_gives(
            element, around.eclipser, around.albedo, basis.ratio, zero, positive, separation,
            incidence, boost, made.2,
        ),
        call_ensures(light, (made.1, made.2, basis.brightness), t),
{
    choose|local: T, emitted: T, reflected: T|
        {
            &&& flux::brightness_gives(
                element, around, basis.mean_gravity, one, gravity, positive, darkening, times,
                read, local,
            )
            &&& #[trigger] call_ensures(own, (element, cos, local, around.ld), emitted)
            &&& flux::reflection_gives(
                element, around.eclipser, around.albedo, basis.ratio, zero, positive,
                separation, incidence, boost, reflected,
            )
            &&& #[trigger] call_ensures(light, (emitted, reflected, basis.brightness), t)
        }
}

proof fn shines_alike<
    E, V, A, B, C, D, I, T,
    Measure: Fn(Tolerance, T, T) -> A,
    Over: Fn(T, T) -> T,
    Facing: Fn(&E, &V) -> Option<C>,
    Blink: Fn(&E, Star, T, T, A, &V) -> Option<bool>,
    Plus: Fn(T, T) -> T,
    Gravity: Fn(&E) -> T,
    Positive: Fn(T) -> bool,
    Darkening: Fn(T, T, T) -> T,
    Times: Fn(T, T) -> T,
    Read: Fn(&B, T) -> T,
    Own: Fn(&E, C, T, T) -> T,
    Separation: Fn(&E, (u32, u32, u32)) -> Option<D>,
    Incidence: Fn(&E, &D) -> Option<I>,
    Boost: Fn(&E, D, I, T, T) -> T,
    Light: Fn(T, T, T) -> T,
>(
    around_a: Surroundings<V, B, T>,
    around_b: Surroundings<V, B, T>,
    basis_a: Basis<A, T>,
    basis_b: Basis<A, T>,
    zero: T,
    one: T,
    measure: &Measure,
    over: &Over,
    facing: &Facing,
    blink: &Blink,
    plus: &Plus,
    gravity: &Gravity,
    positive: &Positive,
    darkening: &Darkening,
    times: &Times,
    read: &Read,
    own: &Own,
    separation: &Separation,
    incidence: &Incidence,
    boost: &Boost,
    light: &Light,
    a: &E,
    b: &E,
    cos: C,
    t_a: T,
    t_b: T,
)
    requires
        steady(measure, positive, over, times, read, light, plus),
        alike(facing, blink, own, separation, incidence, boost, a, b),
        same_but_for_reflection(around_a, around_b),
        basis_a.brightness == basis_b.brightness,
        locals_agree(
            around_a, around_b, basis_a, basis_b, one, gravity, positive, darkening, times,
            read, a, b,
        ),
        reflections_agree(
            around_a, around_b, basis_a, basis_b, zero, positive, separation, incidence, boost,
            a, b,
        ),
        flux::element_shines(
            around_a, basis_a, zero, one, gravity, positive, darkening, times, read, own,
            separation, incidence, boost, light, a, cos, t_a,
        ),
        flux::element_shines(
            around_b, basis_b, zero, one, gravity, positive, darkening, times, read, own,
            separation, incidence, boost, light, b, cos, t_b,
        ),
    ensures
        t_a == t_b,
{
    let (local_a, emitted_a, reflected_a) = light_behind(
        around_a, basis_a, zero, one, gravity, positive, darkening, times, read, own,
        separation, incidence, boost, light, a, cos, t_a,
    );
    let (local_b, emitted_b, reflected_b) = light_behind(
        around_b, basis_b, zero, one, gravity, positive, darkening, times, read, own,
        separation, incidence, boost, light, b, cos, t_b,
    );
    assert(local_a == local_b);
    assert(emitted_a == emitted_b);
    assert(reflected_a == reflected_b);
}

proof fn elements_add_alike<
    E, V, A, B, C, D, I, T,
    Measure: Fn(Tolerance, T, T) -> A,
    Over: Fn(T, T) -> T,
    Gravity: Fn(&E) -> T,
    Positive: Fn(T) -> bool,
    Darkening: Fn(T, T, T) -> T,
    Times: Fn(T, T) -> T,
    Read: Fn(&B, T) -> T,
    Facing: Fn(&E, &V) -> Option<C>,
    Blink: Fn(&E, Star, T, T, A, &V) -> Option<bool>,
    Own: Fn(&E, C, T, T) -> T,
    Separation: Fn(&E, (u32, u32, u32)) -> Option<D>,
    Incidence: Fn(&E, &D) -> Option<I>,
    Boost: Fn(&E, D, I, T, T) -> T,
    Light: Fn(T, T, T) -> T,
    Plus: Fn(T, T) -> T,
>(
    around_a: Surroundings<V, B, T>,
    around_b: Surroundings<V, B, T>,
    basis_a: Basis<A, T>,
    basis_b: Basis<A, T>,
    zero: T,
    one: T,
    measure: &Measure,
    over: &Over,
    gravity: &Gravity,
    positive: &Positive,
    darkening: &Darkening,
    times: &Times,
    read: &Read,
    facing: &Facing,
    blink: &Blink,
    own: &Own,
    separation: &Separation,
    incidence: &Incidence,
    boost: &Boost,
    light: &Light,
    plus: &Plus,
    a: &E,
    b: &E,
)
    requires
        steady(measure, positive, over, times, read, light, plus),
        alike(facing, blink, own, separation, incidence, boost, a, b),
        same_but_for_reflection(around_a, around_b),
        basis_a.tolerance == basis_b.tolerance,
        basis_a.brightness == basis_b.brightness,
        locals_agree(
            around_a, around_b, basis_a, basis_b, one, gravity, positive, darkening, times,
            read, a, b,
        ),
        reflections_agree(
            around_a, around_b, basis_a, basis_b, zero, positive, separation, incidence, boost,
            a, b,
        ),
    ensures
        adds_alike(
            around_a, around_b, basis_a, basis_b, zero, one, gravity, positive, darkening,
            times, read, facing, blink, own, separation, incidence, boost, light, plus, a, b,
        ),
{
    assert(flux::eclipse_search(&around_a, basis_a, a).5 == flux::eclipse_search(&around_b, basis_b, b).5);
    assert forall|cos: C, s: T, t: T|
        #[trigger] flux::element_shines(
            around_a, basis_a, zero, one, gravity, positive, darkening, times, read, own,
            separation, incidence, boost, light, a, cos, s,
        ) && #[trigger] flux::element_shines(
            around_b, basis_b, zero, one, gravity, positive, darkening, times, read, own,
            separation, incidence, boost, light, b, cos, t,
        ) implies s == t by {
        shines_alike(
            around_a, around_b, basis_a, basis_b, zero, one, measure, over, facing, blink, plus,
            gravity, positive, darkening, times, read, own, separation, incidence, boost, light,
            a, b, cos, s, t,
        );
    }
}

/// Sums over a surface and over what is left of it without unseen elements run
/// alike, where the elements that are left add alike.
proof fn unseen_elements_fall_out<
    E, V, A, B, C, D, I, T,
    Measure: Fn(Tolerance, T, T) -> A,
    Gravity: Fn(&E) -> T,
    Positive: Fn(T) -> bool,
    Darkening: Fn(T, T, T) -> T,
    Times: Fn(T, T) -> T,
    Read: Fn(&B, T) -> T,
    Facing: Fn(&E, &V) -> Option<C>,
    Blink: Fn(&E, Star, T, T, A, &V) -> Option<bool>,
    Own: Fn(&E, C, T, T) -> T,
    Separation: Fn(&E, (u32, u32, u32)) -> Option<D>,
    Incidence: Fn(&E, &D) -> Option<I>,
    Boost: Fn(&E, D, I, T, T) -> T,
    Light: Fn(T, T, T) -> T,
    Plus: Fn(T, T) -> T,
>(
    elements: Seq<E>,
    kept: Seq<E>,
    places: Seq<int>,
    around_a: Surroundings<V, B, T>,
    around_b: Surroundings<V, B, T>,
    basis_a: Basis<A, T>,
    basis_b: Basis<A, T>,
    zero: T,
    one: T,
    measure: &Measure,
    gravity: &Gravity,
    positive: &Positive,
    darkening: &Darkening,
    times: &Times,
    read: &Read,
    facing: &Facing,
    blink: &Blink,
    own: &Own,
    separation: &Separation,
    incidence: &Incidence,
    boost: &Boost,
    light: &Light,
    plus: &Plus,
    sums_a: Seq<T>,
    sums_b: Seq<T>,
    n: int,
    m: int,
)
    requires
        places.len() == kept.len(),
        forall|j: int| 0 <= j < places.len() ==> 0 <= #[trigger] places[j] < elements.len(),
        forall|i: int, j: int|
            0 <= i < j < places.len() ==> #[trigger] places[i] < #[trigger] places[j],
        forall|k: int|
            0 <= k < elements.len() && !places.contains(k) ==> unseen(
                measure,
                facing,
                blink,
                around_a,
                #[trigger] &elements[k],
            ),
        forall|j: int|
            0 <= j < kept.len() ==> adds_alike(
                around_a, around_b, basis_a, basis_b, zero, one, gravity, positive, darkening,
                times, read, facing, blink, own, separation, incidence, boost, light, plus,
                &elements[places[j]],
                #[trigger] &kept[j],
            ),
        call_ensures(
            measure,
            (
                flux::tolerance_of(around_a.acc, around_a.eclipser),
                around_a.q,
                around_a.fillout,
            ),
            basis_a.tolerance,
        ),
        flux::running_flux(
            elements, around_a, basis_a, zero, one, gravity, positive, darkening, times, read,
            facing, blink, own, separation, incidence, boost, light, plus, sums_a,
        ),
        flux::running_flux(
            kept, around_b, basis_b, zero, one, gravity, positive, darkening, times, read,
            facing, blink, own, separation, incidence, boost, light, plus, sums_b,
        ),
        0 <= n <= elements.len(),
        0 <= m <= kept.len(),
        m > 0 ==> places[m - 1] < n,
        m < kept.len() ==> places[m] >= n,
    ensures
        sums_a[n] == sums_b[m],
    decreases n,
{
    if n > 0 {
        let element = &elements[n - 1];
        let last = m > 0 && places[m - 1] == n - 1;
        unseen_elements_fall_out(
            elements, kept, places, around_a, around_b, basis_a, basis_b, zero, one, measure,
            gravity, positive, darkening, times, read, facing, blink, own, separation,
            incidence, boost, light, plus, sums_a, sums_b,
            n - 1,
            if last {
                m - 1
            } else {
                m
            },
        );
        assert(flux::element_adds(
            around_a, basis_a, zero, one, gravity, positive, darkening, times, read, facing,
            blink, own, separation, incidence, boost, light, plus, element,
            sums_a[n - 1],
            sums_a[n - 1 + 1],
        ));
        if last {
            let b = &kept[m - 1];
            assert(flux::element_adds(
                around_b, basis_b, zero, one, gravity, positive, darkening, times, read, facing,
                blink, own, separation, incidence, boost, light, plus, b,
                sums_b[m - 1],
                sums_b[m - 1 + 1],
            ));
            assert(adds_alike(
                around_a, around_b, basis_a, basis_b, zero, one, gravity, positive, darkening,
                times, read, facing, blink, own, separation, incidence, boost, light, plus,
                element, b,
            ));
        } else {
            assert(!places.contains(n - 1)) by {
                if places.contains(n - 1) {
                    let j = choose|j: int| 0 <= j < places.len() && places[j] == n - 1;
                    if j < m - 1 {
                        assert(places[j] < places[m - 1]);
                    }
                    if j > m {
                        assert(places[m] < places[j]);
                    }
                }
            }
            assert(unseen(measure, facing, blink, around_a, element));
        }
    }
}

/// Hidden elements add nothing, each for itself: where gravity does not darken,
/// leaving out elements that are turned away or hidden keeps the flux as it is,
/// and so does changing the gravities of those that stay. `places` are where
/// the elements of `kept` stand among `elements`.
pub proof fn leaving_out_unseen_elements_keeps_the_flux<
    E, V, A, B, C, D, I, T,
    Measure: Fn(Tolerance, T, T) -> A,
    Mean: Fn(T, usize) -> T,
    Over: Fn(T, T) -> T,
    Gravity: Fn(&E) -> T,
    Positive: Fn(T) -> bool,
    Darkening: Fn(T, T, T) -> T,
    Times: Fn(T, T) -> T,
    Read: Fn(&B, T) -> T,
    Facing: Fn(&E, &V) -> Option<C>,
    Blink: Fn(&E, Star, T, T, A, &V) -> Option<bool>,
    Own: Fn(&E, C, T, T) -> T,
    Separation: Fn(&E, (u32, u32, u32)) -> Option<D>,
    Incidence: Fn(&E, &D) -> Option<I>,
    Boost: Fn(&E, D, I, T, T) -> T,
    Light: Fn(T, T, T) -> T,
    Plus: Fn(T, T) -> T,
>(
    elements: Seq<E>,
    kept: Seq<E>,
    places: Seq<int>,
    around: Surroundings<V, B, T>,
    zero: T,
    one: T,
    measure: &Measure,
    mean: &Mean,
    over: &Over,
    gravity: &Gravity,
    positive: &Positive,
    darkening: &Darkening,
    times: &Times,
    read: &Read,
    facing: &Facing,
    blink: &Blink,
    own: &Own,
    separation: &Separation,
    incidence: &Incidence,
    boost: &Boost,
    light: &Light,
    plus: &Plus,
    total: T,
    kept_total: T,
)
    requires
        steady(measure, positive, over, times, read, light, plus),
        forall|x: T, y: T, f: T| #[trigger]
            call_ensures(darkening, (x, y, around.gravity_darkening), f) ==> f == one,
        places.len() == kept.len(),
        forall|j: int| 0 <= j < places.len() ==> 0 <= #[trigger] places[j] < elements.len(),
        forall|i: int, j: int|
            0 <= i < j < places.len() ==> #[trigger] places[i] < #[trigger] places[j],
        forall|k: int|
            0 <= k < elements.len() && !places.contains(k) ==> unseen(
                measure,
                facing,
                blink,
                around,
                #[trigger] &elements[k],
            ),
        forall|j: int|
            0 <= j < kept.len() ==> alike(
                facing,
                blink,
                own,
                separation,
                incidence,
                boost,
                &elements[places[j]],
                #[trigger] &kept[j],
            ),
        flux::flux_gives(
            elements, around, zero, one, measure, mean, over, gravity, positive, darkening,
            times, read, facing, blink, own, separation, incidence, boost, light, plus, total,
        ),
        flux::flux_gives(
            kept, around, zero, one, measure, mean, over, gravity, positive, darkening, times,
            read, facing, blink, own, separation, incidence, boost, light, plus, kept_total,
        ),
    ensures
        total == kept_total,
{
    let (basis_a, sums_a) = basis_behind(
        elements, around, zero, one, measure, mean, over, gravity, positive, darkening, times,
        read, facing, blink, own, separation, incidence, boost, light, plus, total,
    );
    let (basis_b, sums_b) = basis_behind(
        kept, around, zero, one, measure, mean, over, gravity, positive, darkening, times, read,
        facing, blink, own, separation, incidence, boost, light, plus, kept_total,
    );
    assert(basis_a.brightness == basis_b.brightness);
    assert(basis_a.ratio == basis_b.ratio);
    assert forall|j: int| 0 <= j < kept.len() implies adds_alike(
        around, around, basis_a, basis_b, zero, one, gravity, positive, darkening, times, read,
        facing, blink, own, separation, incidence, boost, light, plus,
        &elements[places[j]],
        #[trigger] &kept[j],
    ) by {
        let a = &elements[places[j]];
        let b = &kept[j];
        assert(alike(facing, blink, own, separation, incidence, boost, a, b));
        assert(locals_agree(
            around, around, basis_a, basis_b, one, gravity, positive, darkening, times, read, a,
            b,
        ));
        assert(reflections_agree(
            around, around, basis_a, basis_b, zero, positive, separation, incidence, boost, a,
            b,
        ));
        elements_add_alike(
            around, around, basis_a, basis_b, zero, one, measure, over, gravity, positive,
            darkening, times, read, facing, blink, own, separation, incidence, boost, light,
            plus, a, b,
        );
    }
    unseen_elements_fall_out(
        elements, kept, places, around, around, basis_a, basis_b, zero, one, measure, gravity,
        positive, darkening, times, read, facing, blink, own, separation, incidence, boost,
        light, plus, sums_a, sums_b,
        elements.len() as int,
        kept.len() as int,
    );
}

/// A star that is turned away or hidden all over gives no flux.
pub proof fn unseen_elements_add_nothing<
    E, V, A, B, C, D, I, T,
    Measure: Fn(Tolerance, T, T) -> A,
    Mean: Fn(T, usize) -> T,
    Over: Fn(T, T) -> T,
    Gravity: Fn(&E) -> T,
    Positive: Fn(T) -> bool,
    Darkening: Fn(T, T, T) -> T,
    Times: Fn(T, T) -> T,
    Read: Fn(&B, T) -> T,
    Facing: Fn(&E, &V) -> Option<C>,
    Blink: Fn(&E, Star, T, T, A, &V) -> Option<bool>,
    Own: Fn(&E, C, T, T) -> T,
    Separation: Fn(&E, (u32, u32, u32)) -> Option<D>,
    Incidence: Fn(&E, &D) -> Option<I>,
    Boost: Fn(&E, D, I, T, T) -> T,
    Light: Fn(T, T, T) -> T,
    Plus: Fn(T, T) -> T,
>(
    elements: Seq<E>,
    around: Surroundings<V, B, T>,
    zero: T,
    one: T,
    measure: &Measure,
    mean: &Mean,
    over: &Over,
    gravity: &Gravity,
    positive: &Positive,
    darkening: &Darkening,
    times: &Times,
    read: &Read,
    facing: &Facing,
    blink: &Blink,
    own: &Own,
    separation: &Separation,
    incidence: &Incidence,
    boost: &Boost,
    light: &Light,
    plus: &Plus,
    total: T,
)
    requires
        flux::flux_gives(
            elements, around, zero, one, measure, mean, over, gravity, positive, darkening,
            times, read, facing, blink, own, separation, incidence, boost, light, plus, total,
        ),
        forall|k: int|
            0 <= k < elements.len() ==> unseen(
                measure,
                facing,
                blink,
                around,
                #[trigger] &elements[k],
            ),
    ensures
        total == zero,
{
    let (basis, sums) = basis_behind(
        elements, around, zero, one, measure, mean, over, gravity, positive, darkening, times,
        read, facing, blink, own, separation, incidence, boost, light, plus, total,
    );
    let none = Seq::<E>::empty();
    let start = seq![zero];
    assert(flux::running_flux(
        none, around, basis, zero, one, gravity, positive, darkening, times, read, facing,
        blink, own, separation, incidence, boost, light, plus, start,
    ));
    unseen_elements_fall_out(
        elements,
        none,
        Seq::empty(),
        around, around, basis, basis, zero, one, measure, gravity, positive, darkening, times,
        read, facing, blink, own, separation, incidence, boost, light, plus, sums, start,
        elements.len() as int,
        0,
    );
}

proof fn one_mean_gravity<
    E,
    T,
    Gravity: Fn(&E) -> T,
    Mean: Fn(T, usize) -> T,
    Darkening: Fn(T, T, T) -> T,
    Plus: Fn(T, T) -> T,
>(
    elements: Seq<E>,
    zero: T,
    gravity: &Gravity,
    mean: &Mean,
    darkening: &Darkening,
    plus: &Plus,
    x: T,
    y: T,
)
    requires
        steady_gravity(elements, gravity, mean, darkening),
        forall|a: T, b: T, s: T, t: T| #[trigger]
            call_ensures(plus, (a, b), s) && #[trigger] call_ensures(plus, (a, b), t) ==> s == t,
        flux::gravity_means(elements, zero, gravity, mean, plus, x),
        flux::gravity_means(elements, zero, gravity, mean, plus, y),
    ensures
        x == y,
{
    let (g, s) = choose|gravities: Seq<T>, sums: Seq<T>|
        {
            &&& flux::gravities_of(elements, gravity, gravities)
            &&& #[trigger] sum::running_total(gravities, zero, plus, sums)
            &&& call_ensures(mean, (sums.last(), elements.len() as usize), x)
        };
    let (h, t) = choose|gravities: Seq<T>, sums: Seq<T>|
        {
            &&& flux::gravities_of(elements, gravity, gravities)
            &&& #[trigger] sum::running_total(gravities, zero, plus, sums)
            &&& call_ensures(mean, (sums.last(), elements.len() as usize), y)
        };
    assert forall|k: int| 0 <= k < elements.len() implies g[k] == h[k] by {
        assert(call_ensures(gravity, (&elements[k],), g[k]));
        assert(call_ensures(gravity, (&elements[k],), h[k]));
    }
    assert(g =~= h);
    one_total(g, zero, plus, s, t, g.len());
}

proof fn one_total<T, Plus: Fn(T, T) -> T>(
    values: Seq<T>,
    zero: T,
    plus: &Plus,
    s: Seq<T>,
    t: Seq<T>,
    n: nat,
)
    requires
        forall|a: T, b: T, x: T, y: T| #[trigger]
            call_ensures(plus, (a, b), x) && #[trigger] call_ensures(plus, (a, b), y) ==> x == y,
        sum::running_total(values, zero, plus, s),
        sum::running_total(values, zero, plus, t),
        n <= values.len(),
    ensures
        s[n as int] == t[n as int],
    decreases n,
{
    if n > 0 {
        one_total(values, zero, plus, s, t, (n - 1) as nat);
        assert(call_ensures(plus, (s[n - 1], values[n - 1]), s[n - 1 + 1]));
        assert(call_ensures(plus, (t[n - 1], values[n - 1]), t[n - 1 + 1]));
    }
}

/// Two fluxes of one star that is lit, or reflects, in two ways: the same, where
/// no element reflects anything but the same.
proof fn same_reflection_same_flux<
    E, V, A, B, C, D, I, T,
    Measure: Fn(Tolerance, T, T) -> A,
    Mean: Fn(T, usize) -> T,
    Over: Fn(T, T) -> T,
    Gravity: Fn(&E) -> T,
    Positive: Fn(T) -> bool,
    Darkening: Fn(T, T, T) -> T,
    Times: Fn(T, T) -> T,
    Read: Fn(&B, T) -> T,
    Facing: Fn(&E, &V) -> Option<C>,
    Blink: Fn(&E, Star, T, T, A, &V) -> Option<bool>,
    Own: Fn(&E, C, T, T) -> T,
    Separation: Fn(&E, (u32, u32, u32)) -> Option<D>,
    Incidence: Fn(&E, &D) -> Option<I>,
    Boost: Fn(&E, D, I, T, T) -> T,
    Light: Fn(T, T, T) -> T,
    Plus: Fn(T, T) -> T,
>(
    elements: Seq<E>,
    around_a: Surroundings<V, B, T>,
    around_b: Surroundings<V, B, T>,
    zero: T,
    one: T,
    measure: &Measure,
    mean: &Mean,
    over: &Over,
    gravity: &Gravity,
    positive: &Positive,
    darkening: &Darkening,
    times: &Times,
    read: &Read,
    facing: &Facing,
    blink: &Blink,
    own: &Own,
    separation: &Separation,
    incidence: &Incidence,
    boost: &Boost,
    light: &Light,
    plus: &Plus,
    total_a: T,
    total_b: T,
)
    requires
        steady(measure, positive, over, times, read, light, plus),
        steady_gravity(elements, gravity, mean, darkening),
        forall|k: int|
            0 <= k < elements.len() ==> alike(
                facing,
                blink,
                own,
                separation,
                incidence,
                boost,
                #[trigger] &elements[k],
                &elements[k],
            ),
        same_but_for_reflection(around_a, around_b),
        forall|k: int, basis_a: Basis<A, T>, basis_b: Basis<A, T>|
            0 <= k < elements.len() ==> #[trigger] reflections_agree(
                around_a, around_b, basis_a, basis_b, zero, positive, separation, incidence,
                boost,
                &elements[k],
                &elements[k],
            ),
        flux::flux_gives(
            elements, around_a, zero, one, measure, mean, over, gravity, positive, darkening,
            times, read, facing, blink, own, separation, incidence, boost, light, plus, total_a,
        ),
        flux::flux_gives(
            elements, around_b, zero, one, measure, mean, over, gravity, positive, darkening,
            times, read, facing, blink, own, separation, incidence, boost, light, plus, total_b,
        ),
    ensures
        total_a == total_b,
{
    let (basis_a, sums_a) = basis_behind(
        elements, around_a, zero, one, measure, mean, over, gravity, positive, darkening, times,
        read, facing, blink, own, separation, incidence, boost, light, plus, total_a,
    );
    let (basis_b, sums_b) = basis_behind(
        elements, around_b, zero, one, measure, mean, over, gravity, positive, darkening, times,
        read, facing, blink, own, separation, incidence, boost, light, plus, total_b,
    );
    one_mean_gravity(
        elements, zero, gravity, mean, darkening, plus, basis_a.mean_gravity,
        basis_b.mean_gravity,
    );
    assert(basis_a.brightness == basis_b.brightness);
    let places = Seq::new(elements.len(), |i: int| i);
    assert forall|j: int| 0 <= j < elements.len() implies adds_alike(
        around_a, around_b, basis_a, basis_b, zero, one, gravity, positive, darkening, times,
        read, facing, blink, own, separation, incidence, boost, light, plus,
        &elements[places[j]],
        #[trigger] &elements[j],
    ) by {
        let e = &elements[j];
        assert(alike(facing, blink, own, separation, incidence, boost, e, e));
        assert(locals_agree(
            around_a, around_b, basis_a, basis_b, one, gravity, positive, darkening, times,
            read, e, e,
        ));
        assert(reflections_agree(
            around_a, around_b, basis_a, basis_b, zero, positive, separation, incidence, boost,
            e, e,
        ));
        elements_add_alike(
            around_a, around_b, basis_a, basis_b, zero, one, measure, over, gravity, positive,
            darkening, times, read, facing, blink, own, separation, incidence, boost, light,
            plus, e, e,
        );
    }
    assert forall|k: int| 0 <= k < elements.len() implies places.contains(k) by {
        assert(places[k] == k);
    }
    unseen_elements_fall_out(
        elements, elements, places, around_a, around_b, basis_a, basis_b, zero, one, measure,
        gravity, positive, darkening, times, read, facing, blink, own, separation, incidence,
        boost, light, plus, sums_a, sums_b,
        elements.len() as int,
        elements.len() as int,
    );
}

/// A star that reflects nothing shines alike whatever lights it: its flux is
/// the same at every temperature of the companion.
pub proof fn without_reflection_the_companion_lights_nothing<
    E, V, A, B, C, D, I, T,
    Measure: Fn(Tolerance, T, T) -> A,
    Mean: Fn(T, usize) -> T,
    Over: Fn(T, T) -> T,
    Gravity: Fn(&E) -> T,
    Positive: Fn(T) -> bool,
    Darkening: Fn(T, T, T) -> T,
    Times: Fn(T, T) -> T,
    Read: Fn(&B, T) -> T,
    Facing: Fn(&E, &V) -> Option<C>,
    Blink: Fn(&E, Star, T, T, A, &V) -> Option<bool>,
    Own: Fn(&E, C, T, T) -> T,
    Separation: Fn(&E, (u32, u32, u32)) -> Option<D>,
    Incidence: Fn(&E, &D) -> Option<I>,
    Boost: Fn(&E, D, I, T, T) -> T,
    Light: Fn(T, T, T) -> T,
    Plus: Fn(T, T) -> T,
>(
    elements: Seq<E>,
    around_a: Surroundings<V, B, T>,
    around_b: Surroundings<V, B, T>,
    zero: T,
    one: T,
    measure: &Measure,
    mean: &Mean,
    over: &Over,
    gravity: &Gravity,
    positive: &Positive,
    darkening: &Darkening,
    times: &Times,
    read: &Read,
    facing: &Facing,
    blink: &Blink,
    own: &Own,
    separation: &Separation,
    incidence: &Incidence,
    boost: &Boost,
    light: &Light,
    plus: &Plus,
    total_a: T,
    total_b: T,
)
    requires
        steady(measure, positive, over, times, read, light, plus),
        steady_gravity(elements, gravity, mean, darkening),
        forall|k: int|
            0 <= k < elements.len() ==> alike(
                facing,
                blink,
                own,
                separation,
                incidence,
                boost,
                #[trigger] &elements[k],
                &elements[k],
            ),
        same_but_for_reflection(around_a, around_b),
        around_a.albedo == around_b.albedo,
        forall|b: bool| #[trigger] call_ensures(positive, (around_a.albedo,), b) ==> !b,
        flux::flux_gives(
            elements, around_a, zero, one, measure, mean, over, gravity, positive, darkening,
            times, read, facing, blink, own, separation, incidence, boost, light, plus, total_a,
        ),
        flux::flux_gives(
            elements, around_b, zero, one, measure, mean, over, gravity, positive, darkening,
            times, read, facing, blink, own, separation, incidence, boost, light, plus, total_b,
        ),
    ensures
        total_a == total_b,
{
    same_reflection_same_flux(
        elements, around_a, around_b, zero, one, measure, mean, over, gravity, positive,
        darkening, times, read, facing, blink, own, separation, incidence, boost, light, plus,
        total_a, total_b,
    );
}

/// A surface on which reflection makes nothing shines as one that does not
/// reflect: where `boost` always answers `zero`, the flux is the same at a
/// positive albedo and at one that is not.
pub proof fn reflecting_nothing_is_not_reflecting<
    E, V, A, B, C, D, I, T,
    Measure: Fn(Tolerance, T, T) -> A,
    Mean: Fn(T, usize) -> T,
    Over: Fn(T, T) -> T,
    Gravity: Fn(&E) -> T,
    Positive: Fn(T) -> bool,
    Darkening: Fn(T, T, T) -> T,
    Times: Fn(T, T) -> T,
    Read: Fn(&B, T) -> T,
    Facing: Fn(&E, &V) -> Option<C>,
    Blink: Fn(&E, Star, T, T, A, &V) -> Option<bool>,
    Own: Fn(&E, C, T, T) -> T,
    Separation: Fn(&E, (u32, u32, u32)) -> Option<D>,
    Incidence: Fn(&E, &D) -> Option<I>,
    Boost: Fn(&E, D, I, T, T) -> T,
    Light: Fn(T, T, T) -> T,
    Plus: Fn(T, T) -> T,
>(
    elements: Seq<E>,
    around_a: Surroundings<V, B, T>,
    around_b: Surroundings<V, B, T>,
    zero: T,
    one: T,
    measure: &Measure,
    mean: &Mean,
    over: &Over,
    gravity: &Gravity,
    positive: &Positive,
    darkening: &Darkening,
    times: &Times,
    read: &Read,
    facing: &Facing,
    blink: &Blink,
    own: &Own,
    separation: &Separation,
    incidence: &Incidence,
    boost: &Boost,
    light: &Light,
    plus: &Plus,
    total_a: T,
    total_b: T,
)
    requires
        steady(measure, positive, over, times, read, light, plus),
        steady_gravity(elements, gravity, mean, darkening),
        forall|k: int|
            0 <= k < elements.len() ==> alike(
                facing,
                blink,
                own,
                separation,
                incidence,
                boost,
                #[trigger] &elements[k],
                &elements[k],
            ),
        same_but_for_reflection(around_a, around_b),
        forall|e: &E, d: D, i: I, x: T, a: T, r: T| #[trigger]
            call_ensures(boost, (e, d, i, x, a), r) ==> r == zero,
        forall|b: bool| #[trigger] call_ensures(positive, (around_a.albedo,), b) ==> b,
        forall|b: bool| #[trigger] call_ensures(positive, (around_b.albedo,), b) ==> !b,
        flux::flux_gives(
            elements, around_a, zero, one, measure, mean, over, gravity, positive, darkening,
            times, read, facing, blink, own, separation, incidence, boost, light, plus, total_a,
        ),
        flux::flux_gives(
            elements, around_b, zero, one, measure, mean, over, gravity, positive, darkening,
            times, read, facing, blink, own, separation, incidence, boost, light, plus, total_b,
        ),
    ensures
        total_a == total_b,
{
    same_reflection_same_flux(
        elements, around_a, around_b, zero, one, measure, mean, over, gravity, positive,
        darkening, times, read, facing, blink, own, separation, incidence, boost, light, plus,
        total_a, total_b,
    );
}

/// Numbers that are added and multiplied without rounding: `value` is what a
/// number is worth, sums and reflected light are worth what their parts make,
/// and the boost of an element is worth the albedo times `part`.
pub open spec fn exact<
    E,
    D,
    I,
    T,
    Boost: Fn(&E, D, I, T, T) -> T,
    Light: Fn(T, T, T) -> T,
    Plus: Fn(T, T) -> T,
>(
    value: spec_fn(T) -> int,
    part: spec_fn(E, D, I, T) -> int,
    boost: &Boost,
    light: &Light,
    plus: &Plus,
) -> bool {
    &&& forall|a: T, b: T, r: T| #[trigger]
        call_ensures(plus, (a, b), r) ==> value(r) == value(a) + value(b)
    &&& forall|a: T, b: T, x: T, r: T| #[trigger]
        call_ensures(light, (a, b, x), r) ==> value(r) == value(a) + value(b) * value(x)
    &&& forall|e: &E, d: D, i: I, x: T, al: T, r: T| #[trigger]
        call_ensures(boost, (e, d, i, x, al), r) ==> value(r) == value(al) * part(*e, d, i, x)
}

proof fn one_share<
    E, V, A, C, D, I, T,
    Facing: Fn(&E, &V) -> Option<C>,
    Blink: Fn(&E, Star, T, T, A, &V) -> Option<bool>,
    Own: Fn(&E, C, T, T) -> T,
    Separation: Fn(&E, (u32, u32, u32)) -> Option<D>,
    Incidence: Fn(&E, &D) -> Option<I>,
    Boost: Fn(&E, D, I, T, T) -> T,
    Light: Fn(T, T, T) -> T,
    Plus: Fn(T, T) -> T,
>(
    value: spec_fn(T) -> int,
    part: spec_fn(E, D, I, T) -> int,
    zero: T,
    facing: &Facing,
    blink: &Blink,
    own: &Own,
    separation: &Separation,
    incidence: &Incidence,
    boost: &Boost,
    light: &Light,
    plus: &Plus,
    element: &E,
    companion: Star,
    ratio: T,
    albedo_a: T,
    albedo_b: T,
    x: T,
    y: T,
) -> (share: int)
    requires
        exact(value, part, boost, light, plus),
        value(zero) == 0,
        alike(facing, blink, own, separation, incidence, boost, element, element),
        flux::reflects(element, companion, albedo_a, ratio, zero, separation, incidence, boost, x),
        flux::reflects(element, companion, albedo_b, ratio, zero, separation, incidence, boost, y),
    ensures
        value(x) == value(albedo_a) * share,
        value(y) == value(albedo_b) * share,
{
    if call_ensures(separation, (element, companion.place()), None::<D>) {
        0
    } else if exists|d: D|
        {
            &&& #[trigger] call_ensures(separation, (element, companion.place()), Some(d))
            &&& call_ensures(incidence, (element, &d), None::<I>)
        } {
        let d = choose|d: D|
            {
                &&& #[trigger] call_ensures(separation, (element, companion.place()), Some(d))
                &&& call_ensures(incidence, (element, &d), None::<I>)
            };
        assert forall|other: D| #[trigger]
            call_ensures(separation, (element, companion.place()), Some(other)) implies other
            == d by {
            assert(Some(other) == Some(d));
        }
        0
    } else {
        let (d, i) = choose|d: D, i: I|
            {
                &&& call_ensures(separation, (element, companion.place()), Some(d))
                &&& call_ensures(incidence, (element, &d), Some(i))
                &&& #[trigger] call_ensures(boost, (element, d, i, ratio, albedo_a), x)
            };
        let (e, j) = choose|d: D, i: I|
            {
                &&& call_ensures(separation, (element, companion.place()), Some(d))
                &&& call_ensures(incidence, (element, &d), Some(i))
                &&& #[trigger] call_ensures(boost, (element, d, i, ratio, albedo_b), y)
            };
        assert(Some(d) == Some(e));
        assert(Some(i) == Some(j));
        part(*element, d, i, ratio)
    }
}

proof fn light_in_proportion<
    E, V, A, B, C, D, I, T,
    Measure: Fn(Tolerance, T, T) -> A,
    Over: Fn(T, T) -> T,
    Mean: Fn(T, usize) -> T,
    Facing: Fn(&E, &V) -> Option<C>,
    Blink: Fn(&E, Star, T, T, A, &V) -> Option<bool>,
    Plus: Fn(T, T) -> T,
    Gravity: Fn(&E) -> T,
    Positive: Fn(T) -> bool,
    Darkening: Fn(T, T, T) -> T,
    Times: Fn(T, T) -> T,
    Read: Fn(&B, T) -> T,
    Own: Fn(&E, C, T, T) -> T,
    Separation: Fn(&E, (u32, u32, u32)) -> Option<D>,
    Incidence: Fn(&E, &D) -> Option<I>,
    Boost: Fn(&E, D, I, T, T) -> T,
    Light: Fn(T, T, T) -> T,
>(
    value: spec_fn(T) -> int,
    part: spec_fn(E, D, I, T) -> int,
    elements: Seq<E>,
    around_a: Surroundings<V, B, T>,
    around_b: Surroundings<V, B, T>,
    around_0: Surroundings<V, B, T>,
    basis_a: Basis<A, T>,
    basis_b: Basis<A, T>,
    basis_0: Basis<A, T>,
    zero: T,
    one: T,
    measure: &Measure,
    over: &Over,
    mean: &Mean,
    facing: &Facing,
    blink: &Blink,
    plus: &Plus,
    gravity: &Gravity,
    positive: &Positive,
    darkening: &Darkening,
    times: &Times,
    read: &Read,
    own: &Own,
    separation: &Separation,
    incidence: &Incidence,
    boost: &Boost,
    light: &Light,
    k: int,
    cos: C,
    t_a: T,
    t_b: T,
    t_0: T,
)
    requires
        exact(value, part, boost, light, plus),
        value(zero) == 0,
        steady(measure, positive, over, times, read, light, plus),
        steady_gravity(elements, gravity, mean, darkening),
        same_but_for_reflection(around_a, around_b),
        same_but_for_reflection(around_a, around_0),
        around_a.t_eff_companion == around_b.t_eff_companion,
        forall|p: bool| #[trigger] call_ensures(positive, (around_a.albedo,), p) ==> p,
        forall|p: bool| #[trigger] call_ensures(positive, (around_b.albedo,), p) ==> p,
        forall|p: bool| #[trigger] call_ensures(positive, (around_0.albedo,), p) ==> !p,
        basis_a.tolerance == basis_b.tolerance && basis_a.tolerance == basis_0.tolerance,
        basis_a.mean_gravity == basis_b.mean_gravity && basis_a.mean_gravity
            == basis_0.mean_gravity,
        basis_a.brightness == basis_b.brightness && basis_a.brightness == basis_0.brightness,
        basis_a.ratio == basis_b.ratio,
        0 <= k < elements.len(),
        alike(facing, blink, own, separation, incidence, boost, &elements[k], &elements[k]),
        flux::element_shines(
            around_a, basis_a, zero, one, gravity, positive, darkening, times, read, own,
            separation, incidence, boost, light,
            &elements[k],
            cos,
            t_a,
        ),
        flux::element_shines(
            around_b, basis_b, zero, one, gravity, positive, darkening, times, read, own,
            separation, incidence, boost, light,
            &elements[k],
            cos,
            t_b,
        ),
        flux::element_shines(
            around_0, basis_0, zero, one, gravity, positive, darkening, times, read, own,
            separation, incidence, boost, light,
            &elements[k],
            cos,
            t_0,
        ),
    ensures
        value(around_b.albedo) * (value(t_a) - value(t_0)) == value(around_a.albedo) * (value(t_b)
            - value(t_0)),
{
    let element = &elements[k];
    let (local_a, emitted_a, x) = light_behind(
        around_a, basis_a, zero, one, gravity, positive, darkening, times, read, own,
        separation, incidence, boost, light, element, cos, t_a,
    );
    let (local_b, emitted_b, y) = light_behind(
        around_b, basis_b, zero, one, gravity, positive, darkening, times, read, own,
        separation, incidence, boost, light, element, cos, t_b,
    );
    let (local_0, emitted_0, z) = light_behind(
        around_0, basis_0, zero, one, gravity, positive, darkening, times, read, own,
        separation, incidence, boost, light, element, cos, t_0,
    );
    assert(local_a == local_b && local_a == local_0);
    assert(emitted_a == emitted_b && emitted_a == emitted_0);
    assert(z == zero);
    let share = one_share(
        value, part, zero, facing, blink, own, separation, incidence, boost, light, plus,
        element, around_a.eclipser, basis_a.ratio, around_a.albedo, around_b.albedo, x, y,
    );
    let va = value(around_a.albedo);
    let vb = value(around_b.albedo);
    let br = value(basis_a.brightness);
    assert(value(t_0) == value(emitted_0));
    assert(value(t_a) - value(t_0) == (va * share) * br);
    assert(value(t_b) - value(t_0) == (vb * share) * br);
    assert(vb * ((va * share) * br) == va * ((vb * share) * br)) by (nonlinear_arith);
}

proof fn element_in_proportion<
    E, V, A, B, C, D, I, T,
    Measure: Fn(Tolerance, T, T) -> A,
    Over: Fn(T, T) -> T,
    Mean: Fn(T, usize) -> T,
    Gravity: Fn(&E) -> T,
    Positive: Fn(T) -> bool,
    Darkening: Fn(T, T, T) -> T,
    Times: Fn(T, T) -> T,
    Read: Fn(&B, T) -> T,
    Facing: Fn(&E, &V) -> Option<C>,
    Blink: Fn(&E, Star, T, T, A, &V) -> Option<bool>,
    Own: Fn(&E, C, T, T) -> T,
    Separation: Fn(&E, (u32, u32, u32)) -> Option<D>,
    Incidence: Fn(&E, &D) -> Option<I>,
    Boost: Fn(&E, D, I, T, T) -> T,
    Light: Fn(T, T, T) -> T,
    Plus: Fn(T, T) -> T,
>(
    value: spec_fn(T) -> int,
    part: spec_fn(E, D, I, T) -> int,
    elements: Seq<E>,
    around_a: Surroundings<V, B, T>,
    around_b: Surroundings<V, B, T>,
    around_0: Surroundings<V, B, T>,
    basis_a: Basis<A, T>,
    basis_b: Basis<A, T>,
    basis_0: Basis<A, T>,
    zero: T,
    one: T,
    measure: &Measure,
    over: &Over,
    mean: &Mean,
    gravity: &Gravity,
    positive: &Positive,
    darkening: &Darkening,
    times: &Times,
    read: &Read,
    facing: &Facing,
    blink: &Blink,
    own: &Own,
    separation: &Separation,
    incidence: &Incidence,
    boost: &Boost,
    light: &Light,
    plus: &Plus,
    k: int,
    before_a: T,
    after_a: T,
    before_b: T,
    after_b: T,
    before_0: T,
    after_0: T,
)
    requires
        exact(value, part, boost, light, plus),
        value(zero) == 0,
        steady(measure, positive, over, times, read, light, plus),
        steady_gravity(elements, gravity, mean, darkening),
        same_but_for_reflection(around_a, around_b),
        same_but_for_reflection(around_a, around_0),
        around_a.t_eff_companion == around_b.t_eff_companion,
        forall|p: bool| #[trigger] call_ensures(positive, (around_a.albedo,), p) ==> p,
        forall|p: bool| #[trigger] call_ensures(positive, (around_b.albedo,), p) ==> p,
        forall|p: bool| #[trigger] call_ensures(positive, (around_0.albedo,), p) ==> !p,
        basis_a.tolerance == basis_b.tolerance && basis_a.tolerance == basis_0.tolerance,
        basis_a.mean_gravity == basis_b.mean_gravity && basis_a.mean_gravity
            == basis_0.mean_gravity,
        basis_a.brightness == basis_b.brightness && basis_a.brightness == basis_0.brightness,
        basis_a.ratio == basis_b.ratio,
        0 <= k < elements.len(),
        alike(facing, blink, own, separation, incidence, boost, &elements[k], &elements[k]),
        flux::element_adds(
            around_a, basis_a, zero, one, gravity, positive, darkening, times, read, facing,
            blink, own, separation, incidence, boost, light, plus,
            &elements[k],
            before_a,
            after_a,
        ),
        flux::element_adds(
            around_b, basis_b, zero, one, gravity, positive, darkening, times, read, facing,
            blink, own, separation, incidence, boost, light, plus,
            &elements[k],
            before_b,
            after_b,
        ),
        flux::element_adds(
            around_0, basis_0, zero, one, gravity, positive, darkening, times, read, facing,
            blink, own, separation, incidence, boost, light, plus,
            &elements[k],
            before_0,
            after_0,
        ),
        value(around_b.albedo) * (value(before_a) - value(before_0)) == value(around_a.albedo) * (
        value(before_b) - value(before_0)),
    ensures
        value(around_b.albedo) * (value(after_a) - value(after_0)) == value(around_a.albedo) * (
        value(after_b) - value(after_0)),
{
    let e = &elements[k];
    let search_a = flux::eclipse_search(&around_a, basis_a, e);
    if call_ensures(facing, (e, &around_a.los), None::<C>) {
    } else if call_ensures(blink, search_a, Some(true)) {
        assert(search_a == flux::eclipse_search(&around_b, basis_b, e));
        assert(search_a == flux::eclipse_search(&around_0, basis_0, e));
    } else {
        let (cos, hidden, t_a) = choose|cos: C, hidden: Option<bool>, t: T|
        {
            &&& call_ensures(facing, (e, &around_a.los), Some(cos))
            &&& #[trigger] call_ensures(
                blink,
                flux::eclipse_search(&around_a, basis_a, e),
                hidden,
            )
            &&& hidden != Some(true)
            &&& #[trigger] flux::element_shines(
                around_a, basis_a, zero, one, gravity, positive, darkening, times, read, own,
                separation, incidence, boost, light, e, cos, t,
            )
            &&& call_ensures(plus, (before_a, t), after_a)
        };
        let (cos_b, hidden_b, t_b) = choose|cos: C, hidden: Option<bool>, t: T|
        {
            &&& call_ensures(facing, (e, &around_b.los), Some(cos))
            &&& #[trigger] call_ensures(
                blink,
                flux::eclipse_search(&around_b, basis_b, e),
                hidden,
            )
            &&& hidden != Some(true)
            &&& #[trigger] flux::element_shines(
                around_b, basis_b, zero, one, gravity, positive, darkening, times, read, own,
                separation, incidence, boost, light, e, cos, t,
            )
            &&& call_ensures(plus, (before_b, t), after_b)
        };
        let (cos_0, hidden_0, t_0) = choose|cos: C, hidden: Option<bool>, t: T|
        {
            &&& call_ensures(facing, (e, &around_0.los), Some(cos))
            &&& #[trigger] call_ensures(
                blink,
                flux::eclipse_search(&around_0, basis_0, e),
                hidden,
            )
            &&& hidden != Some(true)
            &&& #[trigger] flux::element_shines(
                around_0, basis_0, zero, one, gravity, positive, darkening, times, read, own,
                separation, incidence, boost, light, e, cos, t,
            )
            &&& call_ensures(plus, (before_0, t), after_0)
        };
        assert(Some(cos) == Some(cos_b));
        assert(Some(cos) == Some(cos_0));
        light_in_proportion(
            value, part, elements, around_a, around_b, around_0, basis_a, basis_b, basis_0,
            zero, one, measure, over, mean, facing, blink, plus, gravity, positive, darkening,
            times, read, own, separation, incidence, boost, light, k, cos, t_a, t_b, t_0,
        );
        let va = value(around_a.albedo);
        let vb = value(around_b.albedo);
        let (xa, xb, x0) = (value(before_a), value(before_b), value(before_0));
        let (ya, yb, y0) = (value(t_a), value(t_b), value(t_0));
        assert(vb * ((xa + ya) - (x0 + y0)) == va * ((xb + yb) - (x0 + y0))) by (nonlinear_arith)
            requires
                vb * (xa - x0) == va * (xb - x0),
                vb * (ya - y0) == va * (yb - y0),
        ;
    }
}

proof fn sums_in_proportion<
    E, V, A, B, C, D, I, T,
    Measure: Fn(Tolerance, T, T) -> A,
    Over: Fn(T, T) -> T,
    Mean: Fn(T, usize) -> T,
    Gravity: Fn(&E) -> T,
    Positive: Fn(T) -> bool,
    Darkening: Fn(T, T, T) -> T,
    Times: Fn(T, T) -> T,
    Read: Fn(&B, T) -> T,
    Facing: Fn(&E, &V) -> Option<C>,
    Blink: Fn(&E, Star, T, T, A, &V) -> Option<bool>,
    Own: Fn(&E, C, T, T) -> T,
    Separation: Fn(&E, (u32, u32, u32)) -> Option<D>,
    Incidence: Fn(&E, &D) -> Option<I>,
    Boost: Fn(&E, D, I, T, T) -> T,
    Light: Fn(T, T, T) -> T,
    Plus: Fn(T, T) -> T,
>(
    value: spec_fn(T) -> int,
    part: spec_fn(E, D, I, T) -> int,
    elements: Seq<E>,
    around_a: Surroundings<V, B, T>,
    around_b: Surroundings<V, B, T>,
    around_0: Surroundings<V, B, T>,
    basis_a: Basis<A, T>,
    basis_b: Basis<A, T>,
    basis_0: Basis<A, T>,
    zero: T,
    one: T,
    measure: &Measure,
    over: &Over,
    mean: &Mean,
    gravity: &Gravity,
    positive: &Positive,
    darkening: &Darkening,
    times: &Times,
    read: &Read,
    facing: &Facing,
    blink: &Blink,
    own: &Own,
    separation: &Separation,
    incidence: &Incidence,
    boost: &Boost,
    light: &Light,
    plus: &Plus,
    sums_a: Seq<T>,
    sums_b: Seq<T>,
    sums_0: Seq<T>,
    n: nat,
)
    requires
        exact(value, part, boost, light, plus),
        value(zero) == 0,
        steady(measure, positive, over, times, read, light, plus),
        steady_gravity(elements, gravity, mean, darkening),
        forall|k: int|
            0 <= k < elements.len() ==> alike(
                facing,
                blink,
                own,
                separation,
                incidence,
                boost,
                #[trigger] &elements[k],
                &elements[k],
            ),
        same_but_for_reflection(around_a, around_b),
        same_but_for_reflection(around_a, around_0),
        around_a.t_eff_companion == around_b.t_eff_companion,
        forall|p: bool| #[trigger] call_ensures(positive, (around_a.albedo,), p) ==> p,
        forall|p: bool| #[trigger] call_ensures(positive, (around_b.albedo,), p) ==> p,
        forall|p: bool| #[trigger] call_ensures(positive, (around_0.albedo,), p) ==> !p,
        basis_a.tolerance == basis_b.tolerance && basis_a.tolerance == basis_0.tolerance,
        basis_a.mean_gravity == basis_b.mean_gravity && basis_a.mean_gravity
            == basis_0.mean_gravity,
        basis_a.brightness == basis_b.brightness && basis_a.brightness == basis_0.brightness,
        basis_a.ratio == basis_b.ratio,
        flux::running_flux(
            elements, around_a, basis_a, zero, one, gravity, positive, darkening, times, read,
            facing, blink, own, separation, incidence, boost, light, plus, sums_a,
        ),
        flux::running_flux(
            elements, around_b, basis_b, zero, one, gravity, positive, darkening, times, read,
            facing, blink, own, separation, incidence, boost, light, plus, sums_b,
        ),
        flux::running_flux(
            elements, around_0, basis_0, zero, one, gravity, positive, darkening, times, read,
            facing, blink, own, separation, incidence, boost, light, plus, sums_0,
        ),
        n <= elements.len(),
    ensures
        value(around_b.albedo) * (value(sums_a[n as int]) - value(sums_0[n as int])) == value(
            around_a.albedo,
        ) * (value(sums_b[n as int]) - value(sums_0[n as int])),
    decreases n,
{
    if n > 0 {
        let k = n - 1;
        sums_in_proportion(
            value, part, elements, around_a, around_b, around_0, basis_a, basis_b, basis_0,
            zero, one, measure, over, mean, gravity, positive, darkening, times, read, facing,
            blink, own, separation, incidence, boost, light, plus, sums_a, sums_b, sums_0,
            k as nat,
        );
        let e = &elements[k];
        assert(flux::element_adds(
            around_a, basis_a, zero, one, gravity, positive, darkening, times, read, facing,
            blink, own, separation, incidence, boost, light, plus, e,
            sums_a[k],
            sums_a[k + 1],
        ));
        assert(flux::element_adds(
            around_b, basis_b, zero, one, gravity, positive, darkening, times, read, facing,
            blink, own, separation, incidence, boost, light, plus, e,
            sums_b[k],
            sums_b[k + 1],
        ));
        assert(flux::element_adds(
            around_0, basis_0, zero, one, gravity, positive, darkening, times, read, facing,
            blink, own, separation, incidence, boost, light, plus, e,
            sums_0[k],
            sums_0[k + 1],
        ));
        assert(alike(facing, blink, own, separation, incidence, boost, e, e));
        element_in_proportion(
            value, part, elements, around_a, around_b, around_0, basis_a, basis_b, basis_0,
            zero, one, measure, over, mean, gravity, positive, darkening, times, read, facing,
            blink, own, separation, incidence, boost, light, plus, k,
            sums_a[k],
            sums_a[k + 1],
            sums_b[k],
            sums_b[k + 1],
            sums_0[k],
            sums_0[k + 1],
        );
    } else {
        assert(value(sums_a[0]) == 0 && value(sums_b[0]) == 0 && value(sums_0[0]) == 0);
        assert(value(around_b.albedo) * 0 == 0 && value(around_a.albedo) * 0 == 0)
            by (nonlinear_arith);
    }
}

/// The reflected flux is proportional to the albedo, where numbers are exact:
/// what a star gains by reflecting at one albedo is to that albedo as what it
/// gains at another is to the other. `total_0` is its flux without reflection.
pub proof fn reflected_flux_is_linear_in_the_albedo<
    E, V, A, B, C, D, I, T,
    Measure: Fn(Tolerance, T, T) -> A,
    Mean: Fn(T, usize) -> T,
    Over: Fn(T, T) -> T,
    Gravity: Fn(&E) -> T,
    Positive: Fn(T) -> bool,
    Darkening: Fn(T, T, T) -> T,
    Times: Fn(T, T) -> T,
    Read: Fn(&B, T) -> T,
    Facing: Fn(&E, &V) -> Option<C>,
    Blink: Fn(&E, Star, T, T, A, &V) -> Option<bool>,
    Own: Fn(&E, C, T, T) -> T,
    Separation: Fn(&E, (u32, u32, u32)) -> Option<D>,
    Incidence: Fn(&E, &D) -> Option<I>,
    Boost: Fn(&E, D, I, T, T) -> T,
    Light: Fn(T, T, T) -> T,
    Plus: Fn(T, T) -> T,
>(
    value: spec_fn(T) -> int,
    part: spec_fn(E, D, I, T) -> int,
    elements: Seq<E>,
    around_a: Surroundings<V, B, T>,
    around_b: Surroundings<V, B, T>,
    around_0: Surroundings<V, B, T>,
    zero: T,
    one: T,
    measure: &Measure,
    mean: &Mean,
    over: &Over,
    gravity: &Gravity,
    positive: &Positive,
    darkening: &Darkening,
    times: &Times,
    read: &Read,
    facing: &Facing,
    blink: &Blink,
    own: &Own,
    separation: &Separation,
    incidence: &Incidence,
    boost: &Boost,
    light: &Light,
    plus: &Plus,
    total_a: T,
    total_b: T,
    total_0: T,
)
    requires
        exact(value, part, boost, light, plus),
        value(zero) == 0,
        steady(measure, positive, over, times, read, light, plus),
        steady_gravity(elements, gravity, mean, darkening),
        forall|k: int|
            0 <= k < elements.len() ==> alike(
                facing,
                blink,
                own,
                separation,
                incidence,
                boost,
                #[trigger] &elements[k],
                &elements[k],
            ),
        same_but_for_reflection(around_a, around_b),
        same_but_for_reflection(around_a, around_0),
        around_a.t_eff_companion == around_b.t_eff_companion,
        forall|p: bool| #[trigger] call_ensures(positive, (around_a.albedo,), p) ==> p,
        forall|p: bool| #[trigger] call_ensures(positive, (around_b.albedo,), p) ==> p,
        forall|p: bool| #[trigger] call_ensures(positive, (around_0.albedo,), p) ==> !p,
        flux::flux_gives(
            elements, around_a, zero, one, measure, mean, over, gravity, positive, darkening,
            times, read, facing, blink, own, separation, incidence, boost, light, plus, total_a,
        ),
        flux::flux_gives(
            elements, around_b, zero, one, measure, mean, over, gravity, positive, darkening,
            times, read, facing, blink, own, separation, incidence, boost, light, plus, total_b,
        ),
        flux::flux_gives(
            elements, around_0, zero, one, measure, mean, over, gravity, positive, darkening,
            times, read, facing, blink, own, separation, incidence, boost, light, plus, total_0,
        ),
    ensures
        value(around_b.albedo) * (value(total_a) - value(total_0)) == value(around_a.albedo) * (
        value(total_b) - value(total_0)),
{
    let (basis_a, sums_a) = basis_behind(
        elements, around_a, zero, one, measure, mean, over, gravity, positive, darkening, times,
        read, facing, blink, own, separation, incidence, boost, light, plus, total_a,
    );
    let (basis_b, sums_b) = basis_behind(
        elements, around_b, zero, one, measure, mean, over, gravity, positive, darkening, times,
        read, facing, blink, own, separation, incidence, boost, light, plus, total_b,
    );
    let (basis_0, sums_0) = basis_behind(
        elements, around_0, zero, one, measure, mean, over, gravity, positive, darkening, times,
        read, facing, blink, own, separation, incidence, boost, light, plus, total_0,
    );
    one_mean_gravity(
        elements, zero, gravity, mean, darkening, plus, basis_a.mean_gravity,
        basis_b.mean_gravity,
    );
    one_mean_gravity(
        elements, zero, gravity, mean, darkening, plus, basis_a.mean_gravity,
        basis_0.mean_gravity,
    );
    assert(basis_a.brightness == basis_b.brightness && basis_a.brightness == basis_0.brightness);
    assert(basis_a.ratio == basis_b.ratio);
    sums_in_proportion(
        value, part, elements, around_a, around_b, around_0, basis_a, basis_b, basis_0, zero,
        one, measure, over, mean, gravity, positive, darkening, times, read, facing, blink, own,
        separation, incidence, boost, light, plus, sums_a, sums_b, sums_0, elements.len(),
    );
}

} // verus!
