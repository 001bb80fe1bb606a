use std::cell::RefCell;

use phoebe_rs::lightcurve::{
    build_meshes, compute_lightcurve, compute_lightcurve_multiband, eclipser_fillout, scene_curve,
    EclipserFillout, Emission, Envelope, LightCurve, Scene, Sight, QUADRATURE,
    RADIATIVE_ABOVE_K, ROCHE_FILLING,
};
use phoebe_rs::passband::{ugrizy, Passband};
use phoebe_rs::star::Star;
use phoebe_rs::{EBParams, EBType, PhoebeError};

type Failure = PhoebeError<&'static str>;

fn system(eb_type: EBType) -> EBParams<f64> {
    EBParams {
        eb_type,
        q: 0.5,
        inclination: 80.0,
        fillout1: 0.6,
        fillout2: 0.7,
        t_eff1: 6000.0,
        t_eff2: 5000.0,
        ld1: 0.4,
        ld2: 0.3,
        phi0: 0.25,
        l3: 0.5,
        n_grid: 20,
        passband: Passband::LsstR,
    }
}

fn valid(_params: &EBParams<f64>) -> Result<(), Failure> {
    Ok(())
}

fn overcontact(_q: f64, _fillout: f64, n: usize) -> Result<(usize, usize), Failure> {
    Ok((n, n + 1))
}

fn separate(_q: f64, star: Star, _fillout: f64, n: usize) -> Result<usize, Failure> {
    match star {
        Star::Primary => Ok(n),
        Star::Secondary => Ok(n + 1),
    }
}

fn hotter(t: f64, kelvin: u32) -> bool {
    t > f64::from(kelvin)
}

fn hundredths(n: u32) -> f64 {
    f64::from(n) / 100.0
}

// The primary shines three times as bright as the secondary, and the light
// falls off with the phase.
fn flux(emission: Emission<usize, f64, f64>) -> f64 {
    let own = match emission.eclipser {
        Star::Secondary => 3.0,
        Star::Primary => 1.0,
    };
    match emission.sight {
        Sight::Hundredths(_) => own * emission.table,
        Sight::At(phase) => own * emission.table * (1.0 - phase),
    }
}

fn plus(x: f64, y: f64) -> f64 {
    x + y
}

fn dark(norm: f64) -> bool {
    norm <= 0.0
}

fn over(x: f64, y: f64) -> f64 {
    x / y
}

fn dilute(flux: f64, l3: f64) -> f64 {
    flux * (1.0 - l3) + l3
}

fn curve_of(
    params: &EBParams<f64>,
    phases: &Vec<f64>,
    brightness: f64,
) -> Result<LightCurve<f64>, Failure> {
    compute_lightcurve(
        params,
        phases,
        &valid,
        &overcontact,
        &separate,
        &hotter,
        &|_p: Passband| brightness,
        &flux,
        &plus,
        &dark,
        &over,
        &dilute,
    )
}

fn single(phases: &Vec<f64>, brightness: f64) -> Result<LightCurve<f64>, Failure> {
    curve_of(&system(EBType::Detached), phases, brightness)
}

fn multi(
    params: &EBParams<f64>,
    bands: &Vec<Passband>,
    table_of: &impl Fn(Passband) -> f64,
) -> Result<Vec<LightCurve<f64>>, Failure> {
    compute_lightcurve_multiband(
        params,
        &vec![-0.25, 0.25],
        bands,
        &valid,
        &overcontact,
        &separate,
        &hotter,
        table_of,
        &hundredths,
        &flux,
        &plus,
        &dark,
        &over,
        &dilute,
    )
}

#[test]
fn a_curve_is_normalised_at_quadrature() {
    let phases = vec![-0.25, 0.25, 0.75];
    let lc = single(&phases, 2.0).unwrap();
    assert_eq!(lc.phases, phases);
    assert_eq!(lc.flux, vec![1.0, 0.75, 0.5]);
    assert_eq!(lc.flux1, vec![0.75, 0.375, 0.0]);
    assert_eq!(lc.flux2, vec![0.25, 0.125, 0.0]);
}

#[test]
fn a_system_without_light_is_refused() {
    match single(&vec![0.0], 0.0) {
        Err(PhoebeError::InvalidParams(message)) => assert_eq!(message, "zero flux at quadrature"),
        other => panic!("{other:?}"),
    }
}

#[test]
fn no_phases_give_an_empty_curve() {
    let lc = single(&Vec::new(), 1.0).unwrap();
    assert!(lc.phases.is_empty() && lc.flux.is_empty());
    assert!(lc.flux1.is_empty() && lc.flux2.is_empty());
    assert!(single(&Vec::new(), -1.0).is_err());
}

#[test]
fn every_number_reaches_the_star_it_belongs_to() {
    let seen = RefCell::new(Vec::new());
    let lc = compute_lightcurve(
        &system(EBType::SemiDetached),
        &vec![0.1],
        &valid,
        &overcontact,
        &separate,
        &hotter,
        &|p: Passband| if p == Passband::LsstR { 9.0 } else { 0.0 },
        &|e: Emission<usize, f64, f64>| {
            seen.borrow_mut().push(format!("{e:?}"));
            1.0
        },
        &plus,
        &dark,
        &over,
        &dilute,
    );
    assert_eq!(lc.unwrap().flux1, vec![0.5]);
    let shown = |sight: Sight<f64>, star: Star| {
        let primary = star == Star::Primary;
        let e: Emission<usize, f64, f64> = Emission {
            mesh: if primary { &20 } else { &21 },
            table: &9.0,
            q: 0.5,
            inclination: 80.0,
            sight,
            eclipser: if primary { Star::Secondary } else { Star::Primary },
            fillout: EclipserFillout::Own(if primary { 0.7 } else { 0.6 }),
            t_eff: if primary { 6000.0 } else { 5000.0 },
            t_eff_companion: if primary { 5000.0 } else { 6000.0 },
            ld: if primary { 0.4 } else { 0.3 },
            envelope: Envelope::Convective,
        };
        format!("{e:?}")
    };
    // the phase offset of 0.25 is added to the phase, and not to quadrature
    let at = || Sight::At(0.1 + 0.25);
    let quarter = || Sight::Hundredths(25);
    assert_eq!(
        seen.into_inner(),
        vec![
            shown(quarter(), Star::Primary),
            shown(quarter(), Star::Secondary),
            shown(at(), Star::Primary),
            shown(at(), Star::Secondary),
        ]
    );
}

#[test]
fn refused_parameters_give_no_curve() {
    let never = |_n: usize| -> usize { panic!("a mesh was built") };
    let r = compute_lightcurve(
        &system(EBType::Detached),
        &vec![0.0],
        &|_p: &EBParams<f64>| Err::<(), Failure>(PhoebeError::InvalidParams("q".to_string())),
        &|_q: f64, _f: f64, n: usize| Ok::<(usize, usize), Failure>((never(n), 0)),
        &|_q: f64, _s: Star, _f: f64, n: usize| Ok::<usize, Failure>(never(n)),
        &hotter,
        &|_p: Passband| 1.0,
        &flux,
        &plus,
        &dark,
        &over,
        &dilute,
    );
    assert!(matches!(r, Err(PhoebeError::InvalidParams(m)) if m == "q"));
    let r = compute_lightcurve_multiband(
        &system(EBType::Contact),
        &vec![0.0],
        &ugrizy(),
        &|_p: &EBParams<f64>| Err::<(), Failure>(PhoebeError::InvalidParams("q".to_string())),
        &|_q: f64, _f: f64, n: usize| Ok::<(usize, usize), Failure>((never(n), 0)),
        &|_q: f64, _s: Star, _f: f64, n: usize| Ok::<usize, Failure>(never(n)),
        &hotter,
        &|_p: Passband| 1.0,
        &hundredths,
        &flux,
        &plus,
        &dark,
        &over,
        &dilute,
    );
    assert!(matches!(r, Err(PhoebeError::InvalidParams(m)) if m == "q"));
}

#[test]
fn a_failed_mesh_ends_the_run() {
    let failing =
        |_q: f64, _f: f64, _n: usize| Err::<(usize, usize), Failure>(PhoebeError::Roche("no L1"));
    let r = compute_lightcurve(
        &system(EBType::Contact),
        &vec![0.0],
        &valid,
        &failing,
        &separate,
        &hotter,
        &|_p: Passband| 1.0,
        &flux,
        &plus,
        &dark,
        &over,
        &dilute,
    );
    assert!(matches!(r, Err(PhoebeError::Roche("no L1"))));
}

#[test]
fn every_band_gets_its_own_curve_and_limb_darkening() {
    let seen = RefCell::new(Vec::new());
    let built = RefCell::new(0);
    let curves = compute_lightcurve_multiband(
        &system(EBType::Contact),
        &vec![0.0, 0.5],
        &ugrizy(),
        &valid,
        &|q: f64, f: f64, n: usize| {
            *built.borrow_mut() += 1;
            overcontact(q, f, n)
        },
        &separate,
        &hotter,
        &|p: Passband| f64::from(p.default_ld()),
        &hundredths,
        &|e: Emission<usize, f64, f64>| {
            assert!(matches!(e.fillout, EclipserFillout::Hundredths(100)));
            if matches!(e.sight, Sight::Hundredths(_)) {
                seen.borrow_mut().push((*e.mesh, *e.table, e.ld));
            }
            flux(e)
        },
        &plus,
        &dark,
        &over,
        &dilute,
    )
    .unwrap();
    assert_eq!(curves.len(), 6);
    for lc in &curves {
        assert_eq!(lc.phases, vec![0.0, 0.5]);
        assert_eq!(lc.flux, vec![0.875, 0.625]);
        assert_eq!(lc.flux1.len(), 2);
        assert_eq!(lc.flux2.len(), 2);
    }
    // one pair of meshes for all bands
    assert_eq!(built.into_inner(), 1);
    let mut expected = Vec::new();
    for ld in [78.0, 66.0, 52.0, 43.0, 37.0, 33.0] {
        expected.push((40, ld, ld / 100.0));
        expected.push((41, ld, ld / 100.0));
    }
    assert_eq!(seen.into_inner(), expected);
}

#[test]
fn one_dark_band_ends_the_run() {
    let opened = RefCell::new(0);
    let r = multi(&system(EBType::Detached), &ugrizy(), &|p: Passband| {
        *opened.borrow_mut() += 1;
        if p == Passband::LsstR {
            0.0
        } else {
            1.0
        }
    });
    assert!(matches!(r, Err(PhoebeError::InvalidParams(_))));
    assert_eq!(opened.into_inner(), 3);
    let none = multi(&system(EBType::Detached), &Vec::new(), &|_p: Passband| 0.0);
    assert!(none.unwrap().is_empty());
}

#[test]
fn own_limb_darkening_and_passband_are_ignored_by_multiband_runs() {
    let a = multi(&system(EBType::Detached), &ugrizy(), &|p: Passband| {
        f64::from(p.default_ld())
    });
    let mut others = system(EBType::Detached);
    others.ld1 = 0.9;
    others.ld2 = 0.8;
    others.passband = Passband::Bolometric;
    let b = multi(&others, &ugrizy(), &|p: Passband| f64::from(p.default_ld()));
    assert_eq!(format!("{a:?}"), format!("{b:?}"));
}

#[test]
fn one_passband_alone_is_the_curve_in_that_band() {
    let mut params = system(EBType::Detached);
    params.ld1 = 0.52;
    params.ld2 = 0.52;
    let many = multi(&params, &vec![params.passband], &|_p: Passband| 2.0).unwrap();
    let one = single(&vec![-0.25, 0.25], 2.0).unwrap();
    assert_eq!(many.len(), 1);
    assert_eq!(format!("{:?}", many[0]), format!("{one:?}"));
}

#[test]
fn scenes_differ_between_bands_in_table_and_limb_darkening() {
    let params = system(EBType::Detached);
    let meshes = (1, 2);
    let scene = |table: &'static f64, ld: f64| Scene {
        params: &params,
        meshes: &meshes,
        table,
        envelope: Envelope::Radiative,
        ld1: ld,
        ld2: ld,
    };
    let a = scene(&1.0, 0.1).emission(Star::Primary, Sight::Hundredths(QUADRATURE));
    let b = scene(&2.0, 0.2).emission(Star::Primary, Sight::Hundredths(QUADRATURE));
    assert_eq!((*a.table, a.ld, *b.table, b.ld), (1.0, 0.1, 2.0, 0.2));
    assert_eq!((a.mesh, a.eclipser, a.t_eff), (b.mesh, b.eclipser, b.t_eff));
    let r: Result<LightCurve<f64>, Failure> = scene_curve(
        &vec![0.75],
        &scene(&1.0, 0.1),
        &|e: Emission<i32, f64, f64>| f64::from(*e.mesh),
        &plus,
        &dark,
        &over,
        &dilute,
    );
    assert_eq!(r.unwrap().flux, vec![1.0]);
}

#[test]
fn contact_binaries_share_one_mesh_of_twice_the_resolution() {
    let built = RefCell::new(Vec::new());
    let r = build_meshes(
        &system(EBType::Contact),
        &|q: f64, f: f64, n: usize| {
            built.borrow_mut().push((q, f, n));
            overcontact(q, f, n)
        },
        &|_q: f64, _s: Star, _f: f64, _n: usize| -> Result<usize, Failure> {
            panic!("separate meshes")
        },
    );
    assert_eq!(r.unwrap(), (40, 41));
    assert_eq!(built.into_inner(), vec![(0.5, 0.6, 40)]);
}

#[test]
fn other_systems_have_two_meshes_primary_first() {
    for eb_type in [EBType::Detached, EBType::SemiDetached] {
        let built = RefCell::new(Vec::new());
        let r = build_meshes(
            &system(eb_type),
            &|_q: f64, _f: f64, _n: usize| -> Result<(Star, Star), Failure> {
                panic!("overcontact mesh")
            },
            &|q: f64, s: Star, f: f64, n: usize| {
                built.borrow_mut().push((q, s, f, n));
                Ok(s)
            },
        );
        assert_eq!(r.unwrap(), (Star::Primary, Star::Secondary));
        assert_eq!(
            built.into_inner(),
            vec![(0.5, Star::Primary, 0.6, 20), (0.5, Star::Secondary, 0.7, 20)]
        );
    }
}

#[test]
fn the_first_mesh_that_fails_ends_it() {
    let fail = |bad: Star| {
        let built = RefCell::new(0);
        let r = build_meshes(
            &system(EBType::Detached),
            &|_q: f64, _f: f64, _n: usize| Ok((0u8, 0u8)),
            &|_q: f64, s: Star, _f: f64, _n: usize| {
                *built.borrow_mut() += 1;
                if s == bad {
                    Err(PhoebeError::Roche(s))
                } else {
                    Ok(0u8)
                }
            },
        );
        match r {
            Err(PhoebeError::Roche(s)) => (s, built.into_inner()),
            other => panic!("{other:?}"),
        }
    };
    assert_eq!(fail(Star::Primary), (Star::Primary, 1));
    assert_eq!(fail(Star::Secondary), (Star::Secondary, 2));
}

#[test]
fn contact_binaries_are_roche_filling_in_the_eclipse_check() {
    let fill = |eb_type: EBType, star: Star| eclipser_fillout(&system(eb_type), star);
    for star in [Star::Primary, Star::Secondary] {
        assert!(matches!(fill(EBType::Contact, star), EclipserFillout::Hundredths(100)));
    }
    for eb_type in [EBType::SemiDetached, EBType::Detached] {
        assert!(matches!(fill(eb_type, Star::Primary), EclipserFillout::Own(f) if f == 0.6));
        assert!(matches!(fill(eb_type, Star::Secondary), EclipserFillout::Own(f) if f == 0.7));
    }
}

#[test]
fn constants_in_hundredths() {
    assert_eq!(f64::from(QUADRATURE) / 100.0, 0.25);
    assert_eq!(f64::from(ROCHE_FILLING) / 100.0, 1.0);
}

#[test]
fn third_light_stays_out_of_the_shares() {
    let phases = vec![-0.25, 0.25, 0.5];
    let mut clear = system(EBType::Detached);
    clear.l3 = 0.0;
    let mut lit = system(EBType::Detached);
    lit.l3 = 0.25;
    let a = curve_of(&clear, &phases, 2.0).unwrap();
    let b = curve_of(&lit, &phases, 2.0).unwrap();
    assert_eq!(a.flux, vec![1.0, 0.5, 0.25]);
    assert_eq!(b.flux, vec![1.0, 0.5 * 0.75 + 0.25, 0.25 * 0.75 + 0.25]);
    assert_eq!((&a.flux1, &a.flux2), (&b.flux1, &b.flux2));
    assert!(curve_of(&lit, &phases, 0.0).is_err());
}

#[test]
fn joined_phases_give_joined_curves() {
    let whole = single(&vec![0.0, 0.25, -0.25], 2.0).unwrap();
    let front = single(&vec![0.0], 2.0).unwrap();
    let back = single(&vec![0.25, -0.25], 2.0).unwrap();
    assert_eq!(whole.flux, [front.flux, back.flux].concat());
    assert_eq!(whole.flux1, [front.flux1, back.flux1].concat());
    assert_eq!(whole.flux2, [front.flux2, back.flux2].concat());
}

#[test]
fn a_band_stands_alone() {
    let params = system(EBType::Detached);
    let table_of = |p: Passband| f64::from(p.default_ld());
    let all = multi(&params, &ugrizy(), &table_of).unwrap();
    for (b, band) in ugrizy().iter().enumerate() {
        let alone = multi(&params, &vec![*band], &table_of).unwrap();
        assert_eq!(format!("{:?}", alone[0]), format!("{:?}", all[b]));
    }
}

#[test]
fn second_fillout_does_not_matter_in_contact() {
    let seen = |fillout2: f64| {
        let mut params = system(EBType::Contact);
        params.fillout2 = fillout2;
        let emitted = RefCell::new(Vec::new());
        let lc = compute_lightcurve(
            &params,
            &vec![0.0, 0.5],
            &valid,
            &overcontact,
            &separate,
            &hotter,
            &|_p: Passband| 1.0,
            &|e: Emission<usize, f64, f64>| {
                emitted.borrow_mut().push(format!("{e:?}"));
                flux(e)
            },
            &plus,
            &dark,
            &over,
            &dilute,
        );
        (format!("{lc:?}"), emitted.into_inner())
    };
    assert_eq!(seen(0.7), seen(0.1));
}

#[test]
fn stars_and_their_parameters() {
    let params = system(EBType::Detached);
    assert_eq!((params.fillout(Star::Primary), params.fillout(Star::Secondary)), (0.6, 0.7));
    assert_eq!(params.temperature(Star::Primary), 6000.0);
    assert_eq!(params.temperature(Star::Secondary), 5000.0);
}

#[test]
fn envelopes_by_temperature() {
    assert_eq!(RADIATIVE_ABOVE_K, 7500);
    let hot = Envelope::of_primary(true);
    let cool = Envelope::of_primary(false);
    assert_eq!((hot.gravity_darkening(), hot.albedo()), (25, 100));
    assert_eq!((cool.gravity_darkening(), cool.albedo()), (8, 50));
    assert_eq!(f64::from(cool.gravity_darkening()) / 100.0, 0.08);
}

#[test]
fn roche_errors_are_kept() {
    let e: PhoebeError<u8> = PhoebeError::from(9u8);
    assert!(matches!(e, PhoebeError::Roche(9)));
}
