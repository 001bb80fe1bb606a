use phoebe_rs::flux::{
    eclipse_mode, eclipse_tolerance, element_brightness, lobe_rule, mean_gravity,
    reflection_boost, star_flux, EclipseAcc, EclipseSetting, LobeRule, StarMesh, Surroundings,
    Tolerance, TOLERANCE_LEAST, TOLERANCE_MOST, TOLERANCE_PER_RADIUS,
};
use phoebe_rs::star::Star;

#[derive(Clone)]
struct Element {
    cos: i64,
    hidden: Option<bool>,
    light: i64,
    grav: i64,
}

fn element(cos: i64, hidden: Option<bool>, light: i64) -> Element {
    Element { cos, hidden, light, grav: 1 }
}

// What the flux of a star depends on, with brightness a hundredth of the
// temperature.
fn around<T: Copy>(
    eclipser: Star,
    acc: EclipseAcc,
    zero: T,
    t_eff: T,
    t_eff_companion: T,
    gravity_darkening: T,
    albedo: T,
) -> Surroundings<'static, (), (), T> {
    Surroundings {
        los: (),
        q: zero,
        eclipser,
        fillout: zero,
        t_eff,
        t_eff_companion,
        ld: zero,
        gravity_darkening,
        albedo,
        table: &(),
        acc,
    }
}

fn flux_at(elements: &Vec<Element>, companion: i64, albedo: i64, power: i64) -> i64 {
    star_flux(
        &StarMesh { elements: elements.clone() },
        &around(Star::Secondary, EclipseAcc::Fixed, 0, 100, companion, power, albedo),
        0i64,
        1i64,
        &|t: Tolerance, _q: i64, _f: i64| t,
        &|sum: i64, n: usize| sum / n.max(1) as i64,
        &|x: i64, y: i64| x / y,
        &|e: &Element| e.grav,
        &|x: i64| x > 0,
        &|grav: i64, mean: i64, power: i64| (grav / mean).pow(power as u32),
        &|x: i64, y: i64| x * y,
        &|_b: &(), t: i64| t / 100,
        &|e: &Element, _v: &()| if e.cos <= 0 { None } else { Some(e.cos) },
        &|e: &Element, _s: Star, _q: i64, _f: i64, _t: Tolerance, _v: &()| e.hidden,
        &|e: &Element, cos: i64, brightness: i64, _ld: i64| brightness * e.light * cos,
        &|e: &Element, (x, _y, _z): (u32, u32, u32)| Some(e.light + i64::from(x)),
        &|_e: &Element, d: &i64| if *d > 5 { Some(*d) } else { None },
        &|e: &Element, d: i64, i: i64, ratio: i64, albedo: i64| albedo * ratio * e.cos * (d + i),
        &|own: i64, reflected: i64, brightness: i64| own + 1000 * reflected * brightness,
        &|a: i64, b: i64| a + b,
    )
}

fn flux_with(elements: &Vec<Element>, reflects: bool, power: u32) -> i64 {
    flux_at(elements, 300, i64::from(reflects), i64::from(power))
}

fn flux(elements: &Vec<Element>, reflects: bool) -> i64 {
    flux_with(elements, reflects, 1)
}

#[test]
fn only_visible_elements_contribute() {
    let elements = vec![
        element(2, Some(false), 10),
        element(0, Some(false), 100),
        element(-1, Some(false), 100),
        element(1, Some(true), 100),
        element(3, None, 1),
    ];
    // a failed eclipse search leaves the last element visible
    assert_eq!(flux(&elements, false), 23);
    // only the first element faces the companion, at a distance of 11
    // where the companion is three times as bright
    assert_eq!(flux(&elements, true), 23 + 1000 * 3 * 2 * 22);
}

#[test]
fn a_star_that_is_not_seen_gives_no_flux() {
    assert_eq!(flux(&Vec::new(), true), 0);
    let elements = vec![
        element(-2, None, 10),
        element(2, Some(true), 10),
    ];
    assert_eq!(flux(&elements, true), 0);
}

#[test]
fn leaving_out_hidden_elements_keeps_the_flux() {
    let elements = vec![
        element(-1, Some(false), 7),
        element(2, None, 10),
        element(1, Some(true), 9),
        element(3, Some(false), 4),
        element(0, None, 5),
    ];
    let mut kept = vec![elements[1].clone(), elements[3].clone()];
    kept[0].grav = 50;
    kept[1].grav = 20;
    for reflects in [false, true] {
        assert_eq!(flux_with(&elements, reflects, 0), flux_with(&kept, reflects, 0));
        assert!(flux_with(&kept, reflects, 0) > 0);
    }
}

#[test]
fn reflected_flux_is_linear_in_the_albedo() {
    let elements = vec![element(2, None, 10), element(1, None, 3), element(3, None, 7)];
    let own = flux_at(&elements, 300, 0, 1);
    let gain = |albedo: i64| flux_at(&elements, 300, albedo, 1) - own;
    assert_eq!(gain(1), 1000 * 3 * (2 * 22 + 3 * 16));
    assert_eq!(gain(5), 5 * gain(1));
    assert_eq!(gain(7) * 5, gain(5) * 7);
    assert_eq!(gain(-1), 0);
}

#[test]
fn without_reflection_the_companion_lights_nothing() {
    let elements = vec![element(2, None, 10), element(3, None, 7)];
    assert_eq!(flux_at(&elements, 300, 0, 1), flux_at(&elements, 9000, 0, 1));
    assert!(flux_at(&elements, 300, 1, 1) < flux_at(&elements, 9000, 1, 1));
    // elements that do not face the companion reflect nothing
    let averted = vec![element(2, None, 1), element(3, None, 2)];
    assert_eq!(flux_at(&averted, 300, 1, 1), flux_at(&averted, 300, 0, 1));
}

#[test]
fn mean_gravity_runs_over_hidden_elements_too() {
    let mut elements = vec![element(1, None, 1), element(-1, None, 1), element(1, Some(true), 1)];
    elements[0].grav = 6;
    elements[1].grav = 1;
    elements[2].grav = 2;
    let mean = mean_gravity(
        &elements,
        0,
        &|e: &Element| e.grav,
        &|sum: i64, n: usize| sum / n.max(1) as i64,
        &|a: i64, b: i64| a + b,
    );
    assert_eq!(mean, 3);
    // darkened by 6 over 3: the brightness is read at 200, not at 100
    assert_eq!(flux(&elements, false), 2);
}

#[test]
fn gravity_darkens_before_the_table_is_read() {
    let read = |mean: f64| {
        element_brightness(
            &4.0,
            &around(Star::Primary, EclipseAcc::Fixed, 0.0, 3000.0, 0.0, 1.0, 0.0),
            mean,
            1.0,
            &|g: &f64| *g,
            &|x: f64| x > 0.0,
            &|g: f64, m: f64, beta: f64| (g / m).powf(beta),
            &|x: f64, y: f64| x * y,
            &|_b: &(), t: f64| if t > 5000.0 { 7.0 } else { t },
        )
    };
    assert_eq!(read(2.0), 7.0);
    assert_eq!(read(4.0), 3000.0);
    assert_eq!(read(8.0), 1500.0);
    assert_eq!(read(0.0), 3000.0);
    assert_eq!(read(-1.0), 3000.0);
    assert_eq!(read(f64::NAN), 3000.0);
}

#[test]
fn a_dark_star_reflects_nothing_of_its_companion() {
    let total = star_flux(
        &StarMesh { elements: vec![1i64] },
        &around(Star::Primary, EclipseAcc::Fixed, 0, 0, 300, 0, 1),
        0i64,
        1i64,
        &|t: Tolerance, _q: i64, _f: i64| t,
        &|sum: i64, _n: usize| sum,
        &|_x: i64, _y: i64| -> i64 { panic!("divided by no brightness") },
        &|e: &i64| *e,
        &|x: i64| x > 0,
        &|_g: i64, _m: i64, _b: i64| 1,
        &|x: i64, y: i64| x * y,
        &|_b: &(), t: i64| t,
        &|_e: &i64, _v: &()| Some(()),
        &|_e: &i64, _s: Star, _q: i64, _f: i64, _t: Tolerance, _v: &()| None,
        &|_e: &i64, _c: (), brightness: i64, _ld: i64| brightness + 5,
        &|_e: &i64, _p: (u32, u32, u32)| Some(()),
        &|_e: &i64, _d: &()| Some(()),
        &|_e: &i64, _d: (), _i: (), ratio: i64, _a: i64| ratio + 1,
        &|own: i64, reflected: i64, brightness: i64| own * 10 + reflected + brightness,
        &|a: i64, b: i64| a + b,
    );
    assert_eq!(total, 51);
}

// The flux of elements that are their own light and reflect nothing.
fn plain<T: Copy>(
    elements: &Vec<T>,
    zero: T,
    facing: &impl Fn(&T) -> Option<()>,
    blink: &impl Fn(&T, Star, Tolerance) -> Option<bool>,
    plus: &impl Fn(T, T) -> T,
    eclipser: Star,
    acc: EclipseAcc,
) -> T {
    star_flux(
        &StarMesh { elements: elements.clone() },
        &around(eclipser, acc, zero, zero, zero, zero, zero),
        zero,
        zero,
        &|t: Tolerance, _q: T, _f: T| t,
        &|sum: T, _n: usize| sum,
        &|x: T, _y: T| x,
        &|e: &T| *e,
        &|_x: T| false,
        &|g: T, _m: T, _b: T| g,
        &|x: T, _y: T| x,
        &|_b: &(), t: T| t,
        &|e: &T, _v: &()| facing(e),
        &|e: &T, s: Star, _q: T, _f: T, t: Tolerance, _v: &()| blink(e, s, t),
        &|e: &T, _c: (), _b: T, _ld: T| *e,
        &|_e: &T, _p: (u32, u32, u32)| -> Option<()> { panic!("reflection is off") },
        &|_e: &T, _d: &()| Some(()),
        &|e: &T, _d: (), _i: (), _r: T, _a: T| *e,
        &|own: T, _reflected: T, _b: T| own,
        plus,
    )
}

#[test]
fn eclipses_are_searched_only_for_elements_that_face_the_observer() {
    let asked = std::cell::RefCell::new(Vec::new());
    plain(
        &vec![1, -1, 2],
        0,
        &|c: &i32| if *c <= 0 { None } else { Some(()) },
        &|c: &i32, star: Star, tolerance: Tolerance| {
            asked.borrow_mut().push((*c, star, tolerance));
            None
        },
        &|a: i32, b: i32| a + b,
        Star::Primary,
        EclipseAcc::Scaled,
    );
    let tolerance = Tolerance::Scaled(lobe_rule(Star::Primary));
    assert_eq!(
        asked.into_inner(),
        vec![(1, Star::Primary, tolerance), (2, Star::Primary, tolerance)]
    );
}

#[test]
fn light_is_added_first_element_first() {
    let total = plain(
        &vec![1.0f64, 1e-17, 1e-17],
        0.0,
        &|_e: &f64| Some(()),
        &|_e: &f64, _s: Star, _t: Tolerance| Some(false),
        &|a: f64, b: f64| a + b,
        Star::Primary,
        EclipseAcc::Fixed,
    );
    assert_eq!(total, 1.0);
}

#[test]
fn tolerance_is_fixed_or_tied_to_the_eclipser() {
    assert_eq!(eclipse_tolerance(EclipseAcc::Fixed, Star::Primary), Tolerance::Fixed);
    assert_eq!(eclipse_tolerance(EclipseAcc::Fixed, Star::Secondary), Tolerance::Fixed);
    assert_eq!(
        eclipse_tolerance(EclipseAcc::Scaled, Star::Primary),
        Tolerance::Scaled(LobeRule { star: Star::Primary, from_far_side: false, fallback: 30 })
    );
    assert_eq!(
        eclipse_tolerance(EclipseAcc::Scaled, Star::Secondary),
        Tolerance::Scaled(LobeRule { star: Star::Secondary, from_far_side: true, fallback: 70 })
    );
    assert_eq!(lobe_rule(Star::Secondary).fallback, 70);
    assert_eq!(f64::from(TOLERANCE_MOST) / 1e5, 0.05);
    assert_eq!(f64::from(TOLERANCE_LEAST) / 1e5, 1e-5);
    assert_eq!(1.0 / f64::from(TOLERANCE_PER_RADIUS), 0.1);
}

#[test]
fn reflection_needs_albedo_distance_and_a_lit_face() {
    let boost = |companion: Star, on: bool, far: bool, lit: bool| -> i32 {
        reflection_boost(
            &100,
            companion,
            if on { 3 } else { 0 },
            2,
            0,
            &|x: i32| x > 0,
            &|e: &i32, (x, y, z): (u32, u32, u32)| {
                if far {
                    Some(*e + x as i32 + y as i32 + z as i32)
                } else {
                    None
                }
            },
            &|_e: &i32, d: &i32| if lit { Some(*d + 1) } else { None },
            &|_e: &i32, d: i32, i: i32, ratio: i32, albedo: i32| albedo * ratio * d * i,
        )
    };
    assert_eq!(boost(Star::Primary, true, true, true), 3 * 2 * 100 * 101);
    assert_eq!(boost(Star::Secondary, true, true, true), 3 * 2 * 101 * 102);
    assert_eq!(boost(Star::Primary, false, true, true), 0);
    assert_eq!(boost(Star::Primary, true, false, true), 0);
    assert_eq!(boost(Star::Primary, true, true, false), 0);
}

#[test]
fn the_stars_and_their_companions() {
    assert_eq!(Star::Primary.companion(), Star::Secondary);
    assert_eq!(Star::Secondary.companion(), Star::Primary);
    assert_eq!(Star::Primary.centre(), (0, 0, 0));
    assert_eq!(Star::Secondary.centre(), (1, 0, 0));
}

#[test]
fn the_first_setting_decides() {
    let mut unset = EclipseSetting::new();
    assert_eq!(unset.get(), None);
    assert_eq!(unset.settle(None), EclipseAcc::Fixed);
    assert_eq!(unset.settle(Some("scaled")), EclipseAcc::Fixed);
    let mut scaled = EclipseSetting::new();
    assert_eq!(scaled.settle(Some("Adaptive")), EclipseAcc::Scaled);
    assert_eq!(scaled.settle(Some("fixed")), EclipseAcc::Scaled);
    assert_eq!(scaled.settle(None), EclipseAcc::Scaled);
    assert_eq!(scaled.get(), Some(EclipseAcc::Scaled));
    let mut unknown = EclipseSetting::new();
    assert_eq!(unknown.settle(Some("fast")), EclipseAcc::Fixed);
    assert_eq!(eclipse_mode(Some("fast")), EclipseAcc::Fixed);
}
