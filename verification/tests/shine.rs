use phoebe_rs::flux::{lobe_rule, EclipseAcc, StarMesh, Tolerance};
use phoebe_rs::lightcurve::{EclipserFillout, Emission, Envelope, Sight};
use phoebe_rs::shine::{emission_flux, surroundings_of};
use phoebe_rs::star::Star;

fn emission<'a>(
    mesh: &'a StarMesh<f64>,
    sight: Sight<f64>,
    fillout: EclipserFillout<f64>,
) -> Emission<'a, StarMesh<f64>, char, f64> {
    Emission {
        mesh,
        table: &'t',
        q: 0.5,
        inclination: 80.0,
        sight,
        eclipser: Star::Secondary,
        fillout,
        t_eff: 6000.0,
        t_eff_companion: 5000.0,
        ld: 0.25,
        envelope: Envelope::Convective,
    }
}

fn hundredths(n: u32) -> f64 {
    f64::from(n) / 100.0
}

#[test]
fn surroundings_are_what_the_emission_says() {
    let mesh = StarMesh { elements: vec![1.0] };
    let e = emission(&mesh, Sight::Hundredths(25), EclipserFillout::Hundredths(100));
    let around = surroundings_of(&e, EclipseAcc::Scaled, &hundredths, &|p: f64, i: f64| (p, i));
    assert_eq!(around.los, (0.25, 80.0));
    assert_eq!((around.q, around.eclipser, around.fillout), (0.5, Star::Secondary, 1.0));
    assert_eq!((around.t_eff, around.t_eff_companion), (6000.0, 5000.0));
    assert_eq!((around.ld, around.gravity_darkening, around.albedo), (0.25, 0.08, 0.5));
    assert_eq!((*around.table, around.acc), ('t', EclipseAcc::Scaled));
    let e = emission(&mesh, Sight::At(0.75), EclipserFillout::Own(0.5));
    let around = surroundings_of(&e, EclipseAcc::Fixed, &hundredths, &|p: f64, i: f64| (p, i));
    assert_eq!((around.los, around.fillout), ((0.75, 80.0), 0.5));
}

#[test]
fn every_number_reaches_the_formula_it_belongs_to() {
    let mesh = StarMesh { elements: vec![4.0] };
    let e = emission(&mesh, Sight::At(0.75), EclipserFillout::Own(0.5));
    let total = emission_flux(
        &e,
        EclipseAcc::Scaled,
        0.0,
        1.0,
        &hundredths,
        &|phase: f64, inclination: f64| (phase, inclination),
        &|t: Tolerance, q: f64, fillout: f64| {
            assert_eq!((t, q, fillout), (Tolerance::Scaled(lobe_rule(Star::Secondary)), 0.5, 0.5));
            0.125
        },
        &|sum: f64, n: usize| sum / n as f64,
        &|x: f64, y: f64| x / y,
        &|g: &f64| *g,
        &|x: f64| x > 0.0,
        &|grav: f64, mean: f64, beta: f64| {
            assert_eq!((grav, mean, beta), (4.0, 4.0, 0.08));
            2.0
        },
        &|x: f64, y: f64| x * y,
        &|table: &char, t: f64| {
            assert_eq!(*table, 't');
            t / 1000.0
        },
        &|_e: &f64, los: &(f64, f64)| {
            assert_eq!(*los, (0.75, 80.0));
            Some(0.5)
        },
        &|_e: &f64, star: Star, q: f64, fillout: f64, acc: f64, los: &(f64, f64)| {
            assert_eq!((star, q, fillout, acc), (Star::Secondary, 0.5, 0.5, 0.125));
            assert_eq!(*los, (0.75, 80.0));
            Some(false)
        },
        &|_e: &f64, cos: f64, brightness: f64, ld: f64| {
            assert_eq!((cos, brightness, ld), (0.5, 12.0, 0.25));
            100.0
        },
        &|_e: &f64, centre: (u32, u32, u32)| {
            assert_eq!(centre, (1, 0, 0));
            Some(1.0)
        },
        &|_e: &f64, _d: &f64| Some(1.0),
        &|_e: &f64, _d: f64, _i: f64, ratio: f64, albedo: f64| {
            assert_eq!((ratio, albedo), (5.0 / 6.0, 0.5));
            3.0
        },
        &|own: f64, reflected: f64, brightness: f64| own + reflected * brightness,
        &|a: f64, b: f64| a + b,
    );
    assert_eq!(total, 100.0 + 3.0 * 6.0);
}
