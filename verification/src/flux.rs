//! Flux from the surface elements of one star.
//!
//! The numbers are the caller's. What is settled here is which elements
//! contribute, in which order their light is added, how the search for eclipses
//! picks its tolerance, and which temperature the brightness of an element is
//! read at.

use vstd::prelude::*;
use crate::star::Star;
use crate::sum;
use crate::text;
use crate::text::same_text;

verus! {

// ---------------------------------------------------------------------------
// Eclipse tolerance
// ---------------------------------------------------------------------------

/// How the line-of-sight eclipse search picks its convergence tolerance.
///
/// The search stops once its step is below the tolerance, and the first step is
/// the chord through the eclipsing star's reference sphere. With `Fixed` the
/// tolerance is the same whatever the size of the eclipser, so that the eclipse
/// by a star much smaller than it disappears. `Scaled` ties it to the size of
/// the eclipser.
#[derive(Debug, Clone, Copy, PartialEq, Eq, Structural)]
pub enum EclipseAcc {
    Fixed,
    Scaled,
}

impl Default for EclipseAcc {
    fn default() -> (r: Self)
        ensures
            r == EclipseAcc::Fixed,
    {
        EclipseAcc::Fixed
    }
}

impl EclipseAcc {
    /// The tolerance rule with the lower-case name `name`, if there is one.
    pub open spec fn named(name: Seq<char>) -> Option<EclipseAcc> {
        if name == "fixed"@ || name == "legacy"@ || name == "0.05"@ {
            Some(EclipseAcc::Fixed)
        } else if name == "scaled"@ || name == "adaptive"@ || name == "radius"@ {
            Some(EclipseAcc::Scaled)
        } else {
            None
        }
    }

    /// The tolerance rule with a name that is already in lower case.
    pub fn from_lowercase(name: &str) -> (r: Option<EclipseAcc>)
        ensures
            r == EclipseAcc::named(name@),
    {
        if same_text(name, "fixed") || same_text(name, "legacy") || same_text(name, "0.05") {
            Some(EclipseAcc::Fixed)
        } else if same_text(name, "scaled") || same_text(name, "adaptive") || same_text(
            name,
            "radius",
        ) {
            Some(EclipseAcc::Scaled)
        } else {
            None
        }
    }

    /// The tolerance rule with a name in any case. Where the name holds characters
    /// beyond ASCII, their lower-case forms are the ones Unicode gives.
    pub fn from_str(s: &str) -> (r: Option<EclipseAcc>)
        ensures
            r == EclipseAcc::named(text::lowercase(s@)),
            vstd::utf8::is_ascii_chars(s@) ==> r == EclipseAcc::named(text::ascii_lowercase(s@)),
    {
        let lower: String = s.to_lowercase();
        EclipseAcc::from_lowercase(lower.as_str())
    }
}

/// The tolerance rule a setting asks for, given what its name lowers to: the
/// default when it is unset or names none.
pub open spec fn acc_for(lowered: Option<Seq<char>>) -> EclipseAcc {
    match lowered {
        Some(name) => match EclipseAcc::named(name) {
            Some(acc) => acc,
            None => EclipseAcc::Fixed,
        },
        None => EclipseAcc::Fixed,
    }
}

/// What the name in a setting lowers to, if there is a setting.
pub open spec fn lowered(setting: Option<&str>) -> Option<Seq<char>> {
    match setting {
        Some(v) => Some(text::lowercase(v@)),
        None => None,
    }
}

/// The tolerance rule, from the setting if there is one.
pub fn eclipse_mode(setting: Option<&str>) -> (r: EclipseAcc)
    ensures
        r == acc_for(lowered(setting)),
        setting matches Some(v) ==> vstd::utf8::is_ascii_chars(v@) ==> r == acc_for(
            Some(text::ascii_lowercase(v@)),
        ),
{
    match setting {
        Some(v) => match EclipseAcc::from_str(v) {
            Some(acc) => acc,
            None => EclipseAcc::default(),
        },
        None => EclipseAcc::default(),
    }
}

/// The tolerance rule of a program, settled by the first setting that it is
/// shown.
#[derive(Debug)]
pub struct EclipseSetting {
    held: Option<EclipseAcc>,
}

impl View for EclipseSetting {
    type V = Option<EclipseAcc>;

    closed spec fn view(&self) -> Option<EclipseAcc> {
        self.held
    }
}

impl EclipseSetting {
    /// No setting has been shown yet.
    pub fn new() -> (r: Self)
        ensures
            r@ is None,
    {
        EclipseSetting { held: None }
    }

    /// The rule, if it is settled.
    pub fn get(&self) -> (r: Option<EclipseAcc>)
        ensures
            r == self@,
    {
        self.held
    }

    /// The rule, settled by this setting if no other came before.
    pub fn settle(&mut self, setting: Option<&str>) -> (r: EclipseAcc)
        ensures
            r == settled(old(self)@, lowered(setting)),
            final(self)@ == Some(r),
    {
        let r: EclipseAcc = match self.held {
            Some(acc) => acc,
            None => eclipse_mode(setting),
        };
        self.held = Some(r);
        r
    }
}

/// What a rule settles to when a setting is shown: it stays once it is settled.
pub open spec fn settled(
    held: Option<EclipseAcc>,
    lowered: Option<Seq<char>>,
) -> EclipseAcc {
    match held {
        Some(acc) => acc,
        None => acc_for(lowered),
    }
}

/// What is held after some settings were shown, one after the other.
pub open spec fn held_after(
    held: Option<EclipseAcc>,
    settings: Seq<Option<Seq<char>>>,
) -> Option<EclipseAcc>
    decreases settings.len(),
{
    if settings.len() == 0 {
        held
    } else {
        Some(settled(held_after(held, settings.drop_last()), settings.last()))
    }
}

/// The fixed tolerance, and the most a scaled one can be, in units of 1e-5.
pub const TOLERANCE_MOST: u32 = 5000;

/// The least a scaled tolerance can be, in units of 1e-5.
pub const TOLERANCE_LEAST: u32 = 1;

/// A scaled tolerance is the radius of the eclipser divided by this.
pub const TOLERANCE_PER_RADIUS: u32 = 10;

/// Where the distance from a star's centre to the inner Lagrange point comes
/// from.
#[derive(Debug, Clone, Copy, PartialEq, Eq, Structural)]
pub struct LobeRule {
    /// The star whose inner Lagrange point is looked up.
    pub star: Star,
    /// Whether the point's coordinate is measured from the other star, so that
    /// the distance is what it leaves of the unit separation.
    pub from_far_side: bool,
    /// The coordinate to take when the point cannot be found, in hundredths.
    pub fallback: u32,
}

/// The tolerance of the eclipse search for one eclipser.
#[derive(Debug, Clone, Copy, PartialEq, Eq, Structural)]
pub enum Tolerance {
    /// `TOLERANCE_MOST`, whatever the eclipser.
    Fixed,
    /// The eclipser's filling factor times its lobe radius, divided by
    /// `TOLERANCE_PER_RADIUS` and kept between the two bounds.
    Scaled(LobeRule),
}

/// How the lobe radius of a star is found.
pub open spec fn lobe_of(star: Star) -> LobeRule {
    match star {
        Star::Primary => LobeRule { star, from_far_side: false, fallback: 30 },
        Star::Secondary => LobeRule { star, from_far_side: true, fallback: 70 },
    }
}

/// How the lobe radius of a star is found.
pub fn lobe_rule(star: Star) -> (r: LobeRule)
    ensures
        r == lobe_of(star),
{
    match star {
        Star::Primary => LobeRule { star, from_far_side: false, fallback: 30 },
        Star::Secondary => LobeRule { star, from_far_side: true, fallback: 70 },
    }
}

/// The tolerance of the eclipse search for one eclipser.
pub open spec fn tolerance_of(acc: EclipseAcc, eclipser: Star) -> Tolerance {
    match acc {
        EclipseAcc::Fixed => Tolerance::Fixed,
        EclipseAcc::Scaled => Tolerance::Scaled(lobe_of(eclipser)),
    }
}

/// The tolerance of the eclipse search for one eclipser.
pub fn eclipse_tolerance(acc: EclipseAcc, eclipser: Star) -> (r: Tolerance)
    ensures
        r == tolerance_of(acc, eclipser),
{
    match acc {
        EclipseAcc::Fixed => Tolerance::Fixed,
        EclipseAcc::Scaled => Tolerance::Scaled(lobe_rule(eclipser)),
    }
}

/// The surface of one star.
#[derive(Debug)]
pub struct StarMesh<E> {
    pub elements: Vec<E>,
}

/// What the flux of a star depends on besides its surface.
#[derive(Debug)]
pub struct Surroundings<'a, V, B, T> {
    /// The direction toward the observer.
    pub los: V,
    /// Mass ratio M2/M1.
    pub q: T,
    /// The star that may stand in front, and that lights the surface.
    pub eclipser: Star,
    /// The filling factor of that star.
    pub fillout: T,
    /// Temperature of the star that shines.
    pub t_eff: T,
    /// Temperature of the star that lights it.
    pub t_eff_companion: T,
    /// Limb darkening coefficient.
    pub ld: T,
    /// Gravity darkening exponent.
    pub gravity_darkening: T,
    /// How much of the light that falls on the surface is reflected.
    pub albedo: T,
    /// The surface brightness by temperature.
    pub table: &'a B,
    /// How the search for eclipses picks its tolerance.
    pub acc: EclipseAcc,
}

// ---------------------------------------------------------------------------
// Gravity darkening
// ---------------------------------------------------------------------------

/// `r` is the mean gravity of a surface: the gravities of all its elements,
/// each taken in once, first to last, and the mean made of their sum and their
/// number.
pub open spec fn gravity_means<
    E,
    T,
    Gravity: Fn(&E) -> T,
    Mean: Fn(T, usize) -> T,
    Plus: Fn(T, T) -> T,
>(
    elements: Seq<E>,
    zero: T,
    gravity: &Gravity,
    mean: &Mean,
    plus: &Plus,
    r: T,
) -> bool {
    exists|gravities: Seq<T>, sums: Seq<T>|
        {
            &&& gravities_of(elements, gravity, gravities)
            &&& #[trigger] sum::running_total(gravities, zero, plus, sums)
            &&& call_ensures(mean, (sums.last(), elements.len() as usize), r)
        }
}

/// `gravities` are the gravities of the elements, in order.
pub open spec fn gravities_of<
    E,
    T,
    Gravity: Fn(&E) -> T,
>(elements: Seq<E>, gravity: &Gravity, gravities: Seq<T>) -> bool {
    &&& gravities.len() == elements.len()
    &&& forall|k: int|
        0 <= k < elements.len() ==> call_ensures(
            gravity,
            (&elements[k],),
            #[trigger] gravities[k],
        )
}

/// The mean gravity over all elements of a surface, seen or not.
pub fn mean_gravity<
    E,
    T: Copy,
    Gravity: Fn(&E) -> T,
    Mean: Fn(T, usize) -> T,
    Plus: Fn(T, T) -> T,
>(
    elements: &Vec<E>,
    zero: T,
    gravity: &Gravity,
    mean: &Mean,
    plus: &Plus,
) -> (r: T)
    requires
        forall|e: &E| #[trigger] call_requires(gravity, (e,)),
        forall|x: T, n: usize| #[trigger] call_requires(mean, (x, n)),
        forall|a: T, b: T| #[trigger] call_requires(plus, (a, b)),
    ensures
        gravity_means(elements@, zero, gravity, mean, plus, r),
{
    let mut gravities: Vec<T> = Vec::new();
    while gravities.len() < elements.len()
        invariant
            gravities.len() <= elements.len(),
            forall|e: &E| #[trigger] call_requires(gravity, (e,)),
            forall|k: int|
                0 <= k < gravities.len() ==> call_ensures(
                    gravity,
                    (&elements@[k],),
                    #[trigger] gravities@[k],
                ),
        decreases elements.len() - gravities.len(),
    {
        let g: T = gravity(&elements[gravities.len()]);
        gravities.push(g);
    }
    assert(gravities_of(elements@, gravity, gravities@));
    let total: T = sum::total(&gravities, zero, plus);
    mean(total, elements.len())
}

/// `factor` is the gravity darkening of an element: one where the mean gravity
/// is not positive, and else what the element's gravity, the mean and the
/// exponent make.
pub open spec fn darkens<
    E,
    T,
    Gravity: Fn(&E) -> T,
    Positive: Fn(T) -> bool,
    Darkening: Fn(T, T, T) -> T,
>(
    element: &E,
    mean_gravity: T,
    exponent: T,
    one: T,
    gravity: &Gravity,
    positive: &Positive,
    darkening: &Darkening,
    factor: T,
) -> bool {
    ||| call_ensures(positive, (mean_gravity,), false) && factor == one
    ||| exists|g: T|
        {
            &&& call_ensures(positive, (mean_gravity,), true)
            &&& #[trigger] call_ensures(gravity, (element,), g)
            &&& call_ensures(darkening, (g, mean_gravity, exponent), factor)
        }
}

/// `r` is the surface brightness of an element: the temperature of the star is
/// scaled by the element's gravity darkening, and the table is read at the
/// temperature that this gives.
pub open spec fn brightness_gives<
    E,
    V,
    B,
    T,
    Gravity: Fn(&E) -> T,
    Positive: Fn(T) -> bool,
    Darkening: Fn(T, T, T) -> T,
    Times: Fn(T, T) -> T,
    Read: Fn(&B, T) -> T,
>(
    element: &E,
    around: Surroundings<V, B, T>,
    mean_gravity: T,
    one: T,
    gravity: &Gravity,
    positive: &Positive,
    darkening: &Darkening,
    times: &Times,
    read: &Read,
    r: T,
) -> bool {
    exists|factor: T, t_local: T|
        {
            &&& darkens(
                element, mean_gravity, around.gravity_darkening, one, gravity, positive,
                darkening, factor,
            )
            &&& #[trigger] call_ensures(times, (around.t_eff, factor), t_local)
            &&& call_ensures(read, (around.table, t_local), r)
        }
}

/// The surface brightness of an element.
///
/// `gravity` is the gravity of an element, `positive` says that a number is
/// above zero, `darkening` is the factor that a gravity, the mean and the
/// exponent make, `times` multiplies, and `read` reads a table at a
/// temperature.
pub fn element_brightness<
    E,
    V,
    B,
    T: Copy,
    Gravity: Fn(&E) -> T,
    Positive: Fn(T) -> bool,
    Darkening: Fn(T, T, T) -> T,
    Times: Fn(T, T) -> T,
    Read: Fn(&B, T) -> T,
>(
    element: &E,
    around: &Surroundings<V, B, T>,
    mean_gravity: T,
    one: T,
    gravity: &Gravity,
    positive: &Positive,
    darkening: &Darkening,
    times: &Times,
    read: &Read,
) -> (r: T)
    requires
        forall|e: &E| #[trigger] call_requires(gravity, (e,)),
        forall|x: T| #[trigger] call_requires(positive, (x,)),
        forall|x: T, y: T, b: T| #[trigger] call_requires(darkening, (x, y, b)),
        forall|x: T, y: T| #[trigger] call_requires(times, (x, y)),
        forall|b: &B, x: T| #[trigger] call_requires(read, (b, x)),
    ensures
        brightness_gives(
            element, *around, mean_gravity, one, gravity, positive, darkening, times, read, r,
        ),
{
    let factor: T = if positive(mean_gravity) {
        darkening(gravity(element), mean_gravity, around.gravity_darkening)
    } else {
        one
    };
    assert(darkens(
        element, mean_gravity, around.gravity_darkening, one, gravity, positive, darkening,
        factor,
    ));
    read(around.table, times(around.t_eff, factor))
}

// ---------------------------------------------------------------------------
// Reflection
// ---------------------------------------------------------------------------

/// `r` is how bright the companion is next to the star: the quotient of their
/// brightnesses, or zero where the star itself has none.
pub open spec fn ratio_gives<T, Positive: Fn(T) -> bool, Over: Fn(T, T) -> T>(
    brightness: T,
    companion: T,
    zero: T,
    positive: &Positive,
    over: &Over,
    r: T,
) -> bool {
    ||| call_ensures(positive, (brightness,), false) && r == zero
    ||| {
        &&& call_ensures(positive, (brightness,), true)
        &&& call_ensures(over, (companion, brightness), r)
    }
}

/// `r` is the reflection from an element: `zero` where the albedo is not
/// positive, where the companion's centre is too close for a direction, and
/// where the element does not face it. `ratio` is how bright the companion is
/// next to the star.
pub open spec fn reflection_gives<
    E,
    D,
    I,
    T,
    Positive: Fn(T) -> bool,
    Separation: Fn(&E, (u32, u32, u32)) -> Option<D>,
    Incidence: Fn(&E, &D) -> Option<I>,
    Boost: Fn(&E, D, I, T, T) -> T,
>(
    element: &E,
    companion: Star,
    albedo: T,
    ratio: T,
    zero: T,
    positive: &Positive,
    separation: &Separation,
    incidence: &Incidence,
    boost: &Boost,
    r: T,
) -> bool {
    ||| call_ensures(positive, (albedo,), false) && r == zero
    ||| {
        &&& call_ensures(positive, (albedo,), true)
        &&& reflects(element, companion, albedo, ratio, zero, separation, incidence, boost, r)
    }
}

/// `r` is what an element reflects when its surface does.
pub open spec fn reflects<
    E,
    D,
    I,
    T,
    Separation: Fn(&E, (u32, u32, u32)) -> Option<D>,
    Incidence: Fn(&E, &D) -> Option<I>,
    Boost: Fn(&E, D, I, T, T) -> T,
>(
    element: &E,
    companion: Star,
    albedo: T,
    ratio: T,
    zero: T,
    separation: &Separation,
    incidence: &Incidence,
    boost: &Boost,
    r: T,
) -> bool {
    ||| call_ensures(separation, (element, companion.place()), None::<D>) && r == zero
    ||| exists|d: D|
        {
            &&& #[trigger] call_ensures(separation, (element, companion.place()), Some(d))
            &&& call_ensures(incidence, (element, &d), None::<I>) && r == zero
        }
    ||| exists|d: D, i: I|
        {
            &&& call_ensures(separation, (element, companion.place()), Some(d))
            &&& call_ensures(incidence, (element, &d), Some(i))
            &&& #[trigger] call_ensures(boost, (element, d, i, ratio, albedo), r)
        }
}

/// The light an element reflects from the companion.
///
/// `positive` says that a number is above zero. `separation` is the way from an
/// element to the companion's centre, with none where it is too short to have a
/// direction, and `incidence` the cosine under which light from there arrives,
/// with none where it arrives from behind.
pub fn reflection_boost<
    E,
    D,
    I,
    T: Copy,
    Positive: Fn(T) -> bool,
    Separation: Fn(&E, (u32, u32, u32)) -> Option<D>,
    Incidence: Fn(&E, &D) -> Option<I>,
    Boost: Fn(&E, D, I, T, T) -> T,
>(
    element: &E,
    companion: Star,
    albedo: T,
    ratio: T,
    zero: T,
    positive: &Positive,
    separation: &Separation,
    incidence: &Incidence,
    boost: &Boost,
) -> (r: T)
    requires
        forall|x: T| #[trigger] call_requires(positive, (x,)),
        forall|e: &E, p: (u32, u32, u32)| #[trigger] call_requires(separation, (e, p)),
        forall|e: &E, d: &D| #[trigger] call_requires(incidence, (e, d)),
        forall|e: &E, d: D, i: I, x: T, a: T| #[trigger]
            call_requires(boost, (e, d, i, x, a)),
    ensures
        reflection_gives(
            element, companion, albedo, ratio, zero, positive, separation, incidence, boost, r,
        ),
{
    if !positive(albedo) {
        return zero;
    }
    match separation(element, companion.centre()) {
        None => zero,
        Some(d) => match incidence(element, &d) {
            None => zero,
            Some(i) => boost(element, d, i, ratio, albedo),
        },
    }
}

// ---------------------------------------------------------------------------
// Flux
// ---------------------------------------------------------------------------

/// What is worked out once for all elements of a star.
#[derive(Debug)]
pub struct Basis<A, T> {
    /// The tolerance of the search for eclipses.
    pub tolerance: A,
    pub mean_gravity: T,
    /// The surface brightness at the temperature of the star.
    pub brightness: T,
    /// How bright the companion is next to the star.
    pub ratio: T,
}

/// `basis` is what is worked out once for the elements of a star.
pub open spec fn based_on<
    E,
    V,
    A,
    B,
    T,
    Measure: Fn(Tolerance, T, T) -> A,
    Mean: Fn(T, usize) -> T,
    Over: Fn(T, T) -> T,
    Gravity: Fn(&E) -> T,
    Positive: Fn(T) -> bool,
    Read: Fn(&B, T) -> T,
    Plus: Fn(T, T) -> T,
>(
    elements: Seq<E>,
    around: Surroundings<V, B, T>,
    zero: T,
    measure: &Measure,
    mean: &Mean,
    over: &Over,
    gravity: &Gravity,
    positive: &Positive,
    read: &Read,
    plus: &Plus,
    basis: Basis<A, T>,
) -> bool {
    &&& call_ensures(
        measure,
        (tolerance_of(around.acc, around.eclipser), around.q, around.fillout),
        basis.tolerance,
    )
    &&& gravity_means(elements, zero, gravity, mean, plus, basis.mean_gravity)
    &&& call_ensures(read, (around.table, around.t_eff), basis.brightness)
    &&& exists|companion: T|
        {
            &&& #[trigger] call_ensures(read, (around.table, around.t_eff_companion), companion)
            &&& ratio_gives(basis.brightness, companion, zero, positive, over, basis.ratio)
        }
}

fn basis_of<
    E,
    V,
    A: Copy,
    B,
    T: Copy,
    Measure: Fn(Tolerance, T, T) -> A,
    Mean: Fn(T, usize) -> T,
    Over: Fn(T, T) -> T,
    Gravity: Fn(&E) -> T,
    Positive: Fn(T) -> bool,
    Read: Fn(&B, T) -> T,
    Plus: Fn(T, T) -> T,
>(
    elements: &Vec<E>,
    around: &Surroundings<V, B, T>,
    zero: T,
    measure: &Measure,
    mean: &Mean,
    over: &Over,
    gravity: &Gravity,
    positive: &Positive,
    read: &Read,
    plus: &Plus,
) -> (basis: Basis<A, T>)
    requires
        forall|t: Tolerance, q: T, f: T| #[trigger] call_requires(measure, (t, q, f)),
        forall|x: T, n: usize| #[trigger] call_requires(mean, (x, n)),
        forall|x: T, y: T| #[trigger] call_requires(over, (x, y)),
        forall|e: &E| #[trigger] call_requires(gravity, (e,)),
        forall|x: T| #[trigger] call_requires(positive, (x,)),
        forall|b: &B, x: T| #[trigger] call_requires(read, (b, x)),
        forall|a: T, b: T| #[trigger] call_requires(plus, (a, b)),
    ensures
        based_on(
            elements@,
            *around, zero, measure, mean, over, gravity, positive, read, plus, basis,
        ),
{
    let rule: Tolerance = eclipse_tolerance(around.acc, around.eclipser);
    let tolerance: A = measure(rule, around.q, around.fillout);
    let mean_gravity: T = mean_gravity(elements, zero, gravity, mean, plus);
    let companion: T = read(around.table, around.t_eff_companion);
    let brightness: T = read(around.table, around.t_eff);
    let ratio: T = if positive(brightness) {
        over(companion, brightness)
    } else {
        zero
    };
    assert(ratio_gives(brightness, companion, zero, positive, over, ratio));
    Basis { tolerance, mean_gravity, brightness, ratio }
}

/// `t` is the light of an element that is seen under a cosine: its own, made of
/// its surface brightness and the limb darkening, together with what it
/// reflects.
pub open spec fn element_shines<
    E, V, A, B, C, D, I, T,
    Gravity: Fn(&E) -> T,
    Positive: Fn(T) -> bool,
    Darkening: Fn(T, T, T) -> T,
    Times: Fn(T, T) -> T,
    Read: Fn(&B, T) -> T,
    Own: Fn(&E, C, T, T) -> T,
    Separation: Fn(&E, (u32, u32, u32)) -> Option<D>,
    Incidence: Fn(&E, &D) -> Option<I>,
    Boost: Fn(&E, D, I, T, T) -> T,
    Light: Fn(T, T, T) -> T,
>(
    around: Surroundings<V, B, T>,
    basis: Basis<A, T>,
    zero: T,
    one: T,
    gravity: &Gravity,
    positive: &Positive,
    darkening: &Darkening,
    times: &Times,
    read: &Read,
    own: &Own,
    separation: &Separation,
    incidence: &Incidence,
    boost: &Boost,
    light: &Light,
    element: &E,
    cos: C,
    t: T,
) -> bool {
    exists|local: T, emitted: T, reflected: T|
        {
            &&& brightness_gives(
                element, around, basis.mean_gravity, one, gravity, positive, darkening, times,
                read, local,
            )
            &&& #[trigger] call_ensures(own, (element, cos, local, around.ld), emitted)
            &&& reflection_gives(
                element, around.eclipser, around.albedo, basis.ratio, zero, positive,
                separation, incidence, boost, reflected,
            )
            &&& #[trigger] call_ensures(light, (emitted, reflected, basis.brightness), t)
        }
}

/// What is asked when an element is searched for an eclipse.
pub open spec fn eclipse_search<'a, E, V, A, B, T>(
    around: &'a Surroundings<'a, V, B, T>,
    basis: Basis<A, T>,
    element: &'a E,
) -> (&'a E, Star, T, T, A, &'a V) {
    (element, around.eclipser, around.q, around.fillout, basis.tolerance, &around.los)
}

/// How one surface element takes a running flux from `before` to `after`. An
/// element turned away from the observer adds nothing, nor does one that the
/// eclipser hides. An eclipse search that fails counts as no eclipse. Any other
/// element adds its light.
pub open spec fn element_adds<
    E, V, A, B, C, D, I, T,
    Gravity: Fn(&E) -> T,
    Positive: Fn(T) -> bool,
    Darkening: Fn(T, T, T) -> T,
    Times: Fn(T, T) -> T,
    Read: Fn(&B, T) -> T,
    Facing: Fn(&E, &V) -> Option<C>,
    Blink: Fn(&E, Star, T, T, A, &V) -> Option<bool>,
    Own: Fn(&E, C, T, T) -> T,
    Separation: Fn(&E, (u32, u32, u32)) -> Option<D>,
    Incidence: Fn(&E, &D) -> Option<I>,
    Boost: Fn(&E, D, I, T, T) -> T,
    Light: Fn(T, T, T) -> T,
    Plus: Fn(T, T) -> T,
>(
    around: Surroundings<V, B, T>,
    basis: Basis<A, T>,
    zero: T,
    one: T,
    gravity: &Gravity,
    positive: &Positive,
    darkening: &Darkening,
    times: &Times,
    read: &Read,
    facing: &Facing,
    blink: &Blink,
    own: &Own,
    separation: &Separation,
    incidence: &Incidence,
    boost: &Boost,
    light: &Light,
    plus: &Plus,
    element: &E,
    before: T,
    after: T,
) -> bool {
    ||| call_ensures(facing, (element, &around.los), None::<C>) && after == before
    ||| exists|cos: C|
        {
            &&& #[trigger] call_ensures(facing, (element, &around.los), Some(cos))
            &&& call_ensures(blink, eclipse_search(&around, basis, element), Some(true))
            &&& after == before
        }
    ||| exists|cos: C, hidden: Option<bool>, t: T|
        {
            &&& call_ensures(facing, (element, &around.los), Some(cos))
            &&& #[trigger] call_ensures(blink, eclipse_search(&around, basis, element), hidden)
            &&& hidden != Some(true)
            &&& #[trigger] element_shines(
                around, basis, zero, one, gravity, positive, darkening, times, read, own,
                separation, incidence, boost, light, element, cos, t,
            )
            &&& call_ensures(plus, (before, t), after)
        }
}

/// `sums` starts at `zero` and takes in the elements one by one, first to last.
pub open spec fn running_flux<
    E, V, A, B, C, D, I, T,
    Gravity: Fn(&E) -> T,
    Positive: Fn(T) -> bool,
    Darkening: Fn(T, T, T) -> T,
    Times: Fn(T, T) -> T,
    Read: Fn(&B, T) -> T,
    Facing: Fn(&E, &V) -> Option<C>,
    Blink: Fn(&E, Star, T, T, A, &V) -> Option<bool>,
    Own: Fn(&E, C, T, T) -> T,
    Separation: Fn(&E, (u32, u32, u32)) -> Option<D>,
    Incidence: Fn(&E, &D) -> Option<I>,
    Boost: Fn(&E, D, I, T, T) -> T,
    Light: Fn(T, T, T) -> T,
    Plus: Fn(T, T) -> T,
>(
    elements: Seq<E>,
    around: Surroundings<V, B, T>,
    basis: Basis<A, T>,
    zero: T,
    one: T,
    gravity: &Gravity,
    positive: &Positive,
    darkening: &Darkening,
    times: &Times,
    read: &Read,
    facing: &Facing,
    blink: &Blink,
    own: &Own,
    separation: &Separation,
    incidence: &Incidence,
    boost: &Boost,
    light: &Light,
    plus: &Plus,
    sums: Seq<T>,
) -> bool {
    &&& sums.len() == elements.len() + 1
    &&& sums[0] == zero
    &&& forall|k: int|
        0 <= k < elements.len() ==> element_adds(
            around, basis, zero, one, gravity, positive, darkening, times, read, facing, blink,
            own, separation, incidence, boost, light, plus,
            #[trigger] &elements[k],
            sums[k],
            sums[k + 1],
        )
}

/// `total` is the flux of a star: what is worked out once, and then the running
/// flux over all its elements.
pub open spec fn flux_gives<
    E, V, A, B, C, D, I, T,
    Measure: Fn(Tolerance, T, T) -> A,
    Mean: Fn(T, usize) -> T,
    Over: Fn(T, T) -> T,
    Gravity: Fn(&E) -> T,
    Positive: Fn(T) -> bool,
    Darkening: Fn(T, T, T) -> T,
    Times: Fn(T, T) -> T,
    Read: Fn(&B, T) -> T,
    Facing: Fn(&E, &V) -> Option<C>,
    Blink: Fn(&E, Star, T, T, A, &V) -> Option<bool>,
    Own: Fn(&E, C, T, T) -> T,
    Separation: Fn(&E, (u32, u32, u32)) -> Option<D>,
    Incidence: Fn(&E, &D) -> Option<I>,
    Boost: Fn(&E, D, I, T, T) -> T,
    Light: Fn(T, T, T) -> T,
    Plus: Fn(T, T) -> T,
>(
    elements: Seq<E>,
    around: Surroundings<V, B, T>,
    zero: T,
    one: T,
    measure: &Measure,
    mean: &Mean,
    over: &Over,
    gravity: &Gravity,
    positive: &Positive,
    darkening: &Darkening,
    times: &Times,
    read: &Read,
    facing: &Facing,
    blink: &Blink,
    own: &Own,
    separation: &Separation,
    incidence: &Incidence,
    boost: &Boost,
    light: &Light,
    plus: &Plus,
    total: T,
) -> bool {
    exists|basis: Basis<A, T>, sums: Seq<T>|
        {
            &&& #[trigger] based_on(
                elements, around, zero, measure, mean, over, gravity, positive, read, plus,
                basis,
            )
            &&& #[trigger] running_flux(
                elements, around, basis, zero, one, gravity, positive, darkening, times, read,
                facing, blink, own, separation, incidence, boost, light, plus, sums,
            )
            &&& total == sums.last()
        }
}

/// Compute flux from one star at a given orbital phase.
///
/// `measure` is the value of a tolerance for a mass ratio and filling factor,
/// `mean` the mean that a sum and a number make, and `over` a quotient. `facing`
/// gives the cosine between an element's normal and the line of sight, with
/// none where the element is turned away. `blink` says whether the eclipser
/// hides the element, with none where the search failed, and is asked only of
/// elements that face the observer. `own` is the light of an element that is
/// seen, made of its cosine, its surface brightness and the limb darkening,
/// `light` adds to it what the element reflects of the brightness of the star,
/// and `plus` adds. The other functions are those of `element_brightness` and
/// `reflection_boost`.
pub fn star_flux<
    E,
    V,
    A: Copy,
    B,
    C: Copy,
    D,
    I,
    T: Copy,
    Measure: Fn(Tolerance, T, T) -> A,
    Mean: Fn(T, usize) -> T,
    Over: Fn(T, T) -> T,
    Gravity: Fn(&E) -> T,
    Positive: Fn(T) -> bool,
    Darkening: Fn(T, T, T) -> T,
    Times: Fn(T, T) -> T,
    Read: Fn(&B, T) -> T,
    Facing: Fn(&E, &V) -> Option<C>,
    Blink: Fn(&E, Star, T, T, A, &V) -> Option<bool>,
    Own: Fn(&E, C, T, T) -> T,
    Separation: Fn(&E, (u32, u32, u32)) -> Option<D>,
    Incidence: Fn(&E, &D) -> Option<I>,
    Boost: Fn(&E, D, I, T, T) -> T,
    Light: Fn(T, T, T) -> T,
    Plus: Fn(T, T) -> T,
>(
    mesh: &StarMesh<E>,
    around: &Surroundings<V, B, T>,
    zero: T,
    one: T,
    measure: &Measure,
    mean: &Mean,
    over: &Over,
    gravity: &Gravity,
    positive: &Positive,
    darkening: &Darkening,
    times: &Times,
    read: &Read,
    facing: &Facing,
    blink: &Blink,
    own: &Own,
    separation: &Separation,
    incidence: &Incidence,
    boost: &Boost,
    light: &Light,
    plus: &Plus,
) -> (total: T)
    requires
        forall|t: Tolerance, q: T, f: T| #[trigger] call_requires(measure, (t, q, f)),
        forall|x: T, n: usize| #[trigger] call_requires(mean, (x, n)),
        forall|x: T, y: T| #[trigger] call_requires(over, (x, y)),
        forall|e: &E| #[trigger] call_requires(gravity, (e,)),
        forall|x: T| #[trigger] call_requires(positive, (x,)),
        forall|x: T, y: T, b: T| #[trigger] call_requires(darkening, (x, y, b)),
        forall|x: T, y: T| #[trigger] call_requires(times, (x, y)),
        forall|b: &B, x: T| #[trigger] call_requires(read, (b, x)),
        forall|e: &E, v: &V| #[trigger] call_requires(facing, (e, v)),
        forall|e: &E, s: Star, q: T, f: T, a: A, v: &V| #[trigger]
            call_requires(blink, (e, s, q, f, a, v)),
        forall|e: &E, c: C, x: T, ld: T| #[trigger] call_requires(own, (e, c, x, ld)),
        forall|e: &E, p: (u32, u32, u32)| #[trigger] call_requires(separation, (e, p)),
        forall|e: &E, d: &D| #[trigger] call_requires(incidence, (e, d)),
        forall|e: &E, d: D, i: I, x: T, a: T| #[trigger]
            call_requires(boost, (e, d, i, x, a)),
        forall|a: T, b: T, x: T| #[trigger] call_requires(light, (a, b, x)),
        forall|a: T, b: T| #[trigger] call_requires(plus, (a, b)),
    ensures
        flux_gives(
            mesh.elements@,
            *around, zero, one, measure, mean, over, gravity, positive, darkening, times, read,
            facing, blink, own, separation, incidence, boost, light, plus, total,
        ),
{
    let elements: &Vec<E> = &mesh.elements;
    let basis: Basis<A, T> = basis_of(
        elements, around, zero, measure, mean, over, gravity, positive, read, plus,
    );
    let mut total: T = zero;
    let mut k: usize = 0;
    let ghost mut sums: Seq<T> = seq![zero];
    while k < elements.len()
        invariant
            k <= elements.len(),
            forall|e: &E| #[trigger] call_requires(gravity, (e,)),
            forall|x: T| #[trigger] call_requires(positive, (x,)),
            forall|x: T, y: T, b: T| #[trigger] call_requires(darkening, (x, y, b)),
            forall|x: T, y: T| #[trigger] call_requires(times, (x, y)),
            forall|b: &B, x: T| #[trigger] call_requires(read, (b, x)),
            forall|e: &E, v: &V| #[trigger] call_requires(facing, (e, v)),
            forall|e: &E, s: Star, q: T, f: T, a: A, v: &V| #[trigger]
                call_requires(blink, (e, s, q, f, a, v)),
            forall|e: &E, c: C, x: T, ld: T| #[trigger] call_requires(own, (e, c, x, ld)),
            forall|e: &E, p: (u32, u32, u32)| #[trigger] call_requires(separation, (e, p)),
            forall|e: &E, d: &D| #[trigger] call_requires(incidence, (e, d)),
            forall|e: &E, d: D, i: I, x: T, a: T| #[trigger]
                call_requires(boost, (e, d, i, x, a)),
            forall|a: T, b: T, x: T| #[trigger] call_requires(light, (a, b, x)),
            forall|a: T, b: T| #[trigger] call_requires(plus, (a, b)),
            running_flux(
                elements@.take(k as int),
                *around, basis, zero, one, gravity, positive, darkening, times, read, facing,
                blink, own, separation, incidence, boost, light, plus, sums,
            ),
            total == sums.last(),
        decreases elements.len() - k,
    {
        let ghost before = total;
        let element: &E = &elements[k];
        match facing(element, &around.los) {
            None => {},
            Some(cos) => {
                let hidden: Option<bool> = blink(
                    element,
                    around.eclipser,
                    around.q,
                    around.fillout,
                    basis.tolerance,
                    &around.los,
                );
                assert(call_ensures(blink, eclipse_search(around, basis, element), hidden));
                match hidden {
                    Some(true) => {},
                    _ => {
                        let local: T = element_brightness(
                            element, around, basis.mean_gravity, one, gravity, positive,
                            darkening, times, read,
                        );
                        let emitted: T = own(element, cos, local, around.ld);
                        let reflected: T = reflection_boost(
                            element, around.eclipser, around.albedo, basis.ratio, zero,
                            positive, separation, incidence, boost,
                        );
                        let t: T = light(emitted, reflected, basis.brightness);
                        assert(element_shines(
                            *around, basis, zero, one, gravity, positive, darkening, times,
                            read, own, separation, incidence, boost, light, element, cos, t,
                        ));
                        total = plus(total, t);
                    },
                }
            },
        }
        assert(element_adds(
            *around, basis, zero, one, gravity, positive, darkening, times, read, facing, blink,
            own, separation, incidence, boost, light, plus,
            &elements@[k as int],
            before,
            total,
        ));
        k += 1;
        proof {
            let more = sums.push(total);
            let seen = elements@.take(k as int);
            assert forall|j: int| 0 <= j < seen.len() implies element_adds(
                *around, basis, zero, one, gravity, positive, darkening, times, read, facing,
                blink, own, separation, incidence, boost, light, plus,
                #[trigger] &seen[j],
                more[j],
                more[j + 1],
            ) by {
                if j < k - 1 {
                    assert(elements@.take(k - 1)[j] == seen[j]);
                }
            }
            sums = more;
        }
    }
    assert(elements@.take(k as int) =~= elements@);
    total
}

// ---------------------------------------------------------------------------
// Laws
// ---------------------------------------------------------------------------

/// Case does not matter in a tolerance rule: every name is listed in lower case,
/// so any ASCII spelling that lowers to it reads as the same value, and two
/// spellings that differ only in the case of ASCII letters read alike.
pub proof fn tolerance_names_ignore_case(a: Seq<char>, b: Seq<char>)
    requires
        text::ascii_lowercase(a) == text::ascii_lowercase(b),
    ensures
        EclipseAcc::named(text::ascii_lowercase(a)) == EclipseAcc::named(text::ascii_lowercase(b)),
        EclipseAcc::named(a) is Some ==> text::ascii_lowercase(a) == a && EclipseAcc::named(
            text::ascii_lowercase(b),
        ) == EclipseAcc::named(a),
{
    reveal_strlit("fixed");
    reveal_strlit("legacy");
    reveal_strlit("0.05");
    reveal_strlit("scaled");
    reveal_strlit("adaptive");
    reveal_strlit("radius");
    if EclipseAcc::named(a) is Some {
        assert(text::ascii_lowercase(a) =~= a);
    }
}

/// The fixed tolerance is the same whatever the eclipser, and only the scaled
/// one looks at it.
pub proof fn only_scaled_tolerance_depends_on_the_eclipser(acc: EclipseAcc)
    ensures
        tolerance_of(acc, Star::Primary) == tolerance_of(acc, Star::Secondary) <==> acc
            == EclipseAcc::Fixed,
        forall|star: Star| #[trigger]
            tolerance_of(acc, star) matches Tolerance::Scaled(rule) ==> rule.star == star,
{
}

/// Once a rule is settled it stays, whatever setting is shown later: the first
/// setting decides.
pub proof fn only_the_first_setting_counts(settings: Seq<Option<Seq<char>>>)
    requires
        settings.len() > 0,
    ensures
        held_after(None, settings) == Some(acc_for(settings[0])),
    decreases settings.len(),
{
    if settings.len() == 1 {
        assert(held_after(None, settings.drop_last()) is None);
    } else {
        only_the_first_setting_counts(settings.drop_last());
    }
}

} // verus!
