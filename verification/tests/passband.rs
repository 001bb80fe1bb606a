use phoebe_rs::lsst_tables::NLAM;
use phoebe_rs::passband::{
    brightness_law, lsst_index, lsst_table, surface_brightness, surface_brightness_mode,
    throughput_at, transmission, transmission_rule, ugrizy, BandMode, BrightnessLaw, GaussianBand,
    Lookup, Passband, SBTable, Transmission, GAUSS_POINTS, SB_ROWS,
};

fn all_bands() -> Vec<Passband> {
    vec![
        Passband::Bolometric,
        Passband::ZtfG,
        Passband::ZtfR,
        Passband::JohnsonV,
        Passband::LsstU,
        Passband::LsstG,
        Passband::LsstR,
        Passband::LsstI,
        Passband::LsstZ,
        Passband::LsstY,
    ]
}

#[test]
fn default_limb_darkening_of_every_band() {
    let want = [0.50, 0.65, 0.45, 0.55, 0.78, 0.66, 0.52, 0.43, 0.37, 0.33];
    for (band, ld) in all_bands().iter().zip(want) {
        assert_eq!(f64::from(band.default_ld()) / 100.0, ld);
    }
}

#[test]
fn limb_darkening_decreases_toward_the_red() {
    let bands = ugrizy();
    for i in 0..5 {
        assert!(bands[i].default_ld() > bands[i + 1].default_ld());
    }
}

#[test]
fn lsst_bands_are_indexed_in_ugrizy_order() {
    for (i, band) in ugrizy().iter().enumerate() {
        assert_eq!(lsst_index(*band), Some(i));
    }
    for band in [Passband::Bolometric, Passband::ZtfG, Passband::ZtfR, Passband::JohnsonV] {
        assert_eq!(lsst_index(band), None);
    }
}

#[test]
fn only_lsst_bands_have_a_table() {
    let curves: Vec<char> = vec!['u', 'g', 'r', 'i', 'z', 'y'];
    assert_eq!(lsst_table(&curves, Passband::LsstZ), Some(&'z'));
    assert_eq!(lsst_table(&curves, Passband::LsstU), Some(&'u'));
    assert_eq!(lsst_table(&curves, Passband::ZtfG), None);
    assert_eq!(lsst_table(&curves, Passband::Bolometric), None);
}

#[test]
fn only_lsst_honours_the_band_mode() {
    for band in all_bands() {
        let differs =
            brightness_law(band, BandMode::Integrated) != brightness_law(band, BandMode::Effective);
        assert_eq!(differs, lsst_index(band).is_some());
    }
    assert_eq!(brightness_law(Passband::LsstI, BandMode::Effective), BrightnessLaw::Pivot(3));
    assert_eq!(brightness_law(Passband::LsstI, BandMode::Integrated), BrightnessLaw::Table(3));
    assert_eq!(brightness_law(Passband::Bolometric, BandMode::Integrated), BrightnessLaw::FourthPower);
}

#[test]
fn transmission_of_every_band() {
    assert_eq!(
        transmission_rule(Passband::ZtfG),
        Transmission::Gaussian(GaussianBand { from_nm: 400, to_nm: 560, peak_nm: 480, width_nm: 40 })
    );
    assert_eq!(
        transmission_rule(Passband::ZtfR),
        Transmission::Gaussian(GaussianBand { from_nm: 560, to_nm: 730, peak_nm: 640, width_nm: 45 })
    );
    assert_eq!(
        transmission_rule(Passband::JohnsonV),
        Transmission::Gaussian(GaussianBand { from_nm: 480, to_nm: 640, peak_nm: 550, width_nm: 40 })
    );
    assert_eq!(transmission_rule(Passband::Bolometric), Transmission::Full);
    for (i, band) in ugrizy().iter().enumerate() {
        assert_eq!(transmission_rule(*band), Transmission::Table(i));
    }
}

fn tables() -> (Vec<Vec<f64>>, Vec<f64>) {
    // every odd grid point lets something through, the more the redder the band
    let curve = |i: usize| (0..NLAM).map(|k| ((k % 2) * (i + 1)) as f64).collect();
    ((0..6).map(curve).collect(), (0..6).map(|i| 1000.0 + i as f64).collect())
}

fn pivot(x: f64, t: f64) -> f64 {
    2.0 * x + t
}

fn fourth(t: f64) -> f64 {
    t.powi(4)
}

fn table_term(t: f64, _k: usize, s: f64) -> Option<f64> {
    if s <= 0.0 {
        None
    } else {
        Some(s * t)
    }
}

fn midpoint(lo: u32, hi: u32, n: usize, k: usize) -> f64 {
    f64::from(lo) + (k as f64 + 0.5) * (f64::from(hi - lo) / n as f64)
}

fn inside(lam: f64, g: GaussianBand) -> bool {
    !(lam < f64::from(g.from_nm) || lam > f64::from(g.to_nm))
}

fn bell(_lam: f64, g: GaussianBand) -> f64 {
    f64::from(g.width_nm)
}

fn gauss_term(t: f64, _k: usize, response: f64) -> Option<f64> {
    Some(t * response)
}

fn plus(a: f64, b: f64) -> f64 {
    a + b
}

fn brightness(passband: Passband, mode: BandMode, t: f64) -> f64 {
    let (curves, pivots) = tables();
    surface_brightness_mode(
        t,
        passband,
        mode,
        &curves,
        &pivots,
        0.0,
        &pivot,
        &fourth,
        &table_term,
        &midpoint,
        &inside,
        &bell,
        &gauss_term,
        &plus,
    )
}

fn table(passband: Passband, mode: BandMode) -> SBTable<f64> {
    let (curves, pivots) = tables();
    SBTable::with_mode(
        passband,
        mode,
        &curves,
        &pivots,
        0.0,
        &|t: u32| f64::from(t),
        &pivot,
        &fourth,
        &table_term,
        &midpoint,
        &inside,
        &bell,
        &gauss_term,
        &plus,
    )
}

#[test]
fn brightness_follows_the_law_of_the_band() {
    assert_eq!(brightness(Passband::Bolometric, BandMode::Effective, 10.0), 10000.0);
    assert_eq!(brightness(Passband::Bolometric, BandMode::Integrated, 10.0), 10000.0);
    assert_eq!(brightness(Passband::LsstY, BandMode::Effective, 10.0), 2020.0);
    // 4250 of the 8501 grid points are odd
    assert_eq!(brightness(Passband::LsstG, BandMode::Integrated, 10.0), 20.0 * 4250.0);
    assert_eq!(brightness(Passband::LsstY, BandMode::Integrated, 10.0), 60.0 * 4250.0);
    // 40 of the 200 midpoints lie between 400 and 560 nm, 43 between 560 and 730
    assert_eq!(brightness(Passband::ZtfG, BandMode::Effective, 10.0), 40.0 * 400.0);
    assert_eq!(brightness(Passband::ZtfG, BandMode::Integrated, 10.0), 40.0 * 400.0);
    assert_eq!(brightness(Passband::ZtfR, BandMode::Effective, 10.0), 43.0 * 450.0);
    assert_eq!(GAUSS_POINTS, 200);
}

#[test]
fn brightness_defaults_to_the_pivot() {
    let (curves, pivots) = tables();
    let sb = surface_brightness(
        7.0,
        Passband::LsstR,
        &curves,
        &pivots,
        0.0,
        &pivot,
        &fourth,
        &table_term,
        &midpoint,
        &inside,
        &bell,
        &gauss_term,
        &plus,
    );
    assert_eq!(sb, 2011.0);
    assert_eq!(sb, brightness(Passband::LsstR, BandMode::Effective, 7.0));
}

#[test]
fn brightness_table_has_161_rows_from_2000_to_10000() {
    assert_eq!(SB_ROWS, 161);
    for (band, mode) in [
        (Passband::ZtfG, BandMode::Integrated),
        (Passband::LsstI, BandMode::Integrated),
        (Passband::LsstI, BandMode::Effective),
        (Passband::Bolometric, BandMode::Effective),
    ] {
        let table = table(band, mode);
        let row = |t: f64| brightness(band, mode, t);
        assert_eq!(table.rows_at(0, false), Lookup::Between(row(2000.0), row(2050.0)));
        assert_eq!(table.rows_at(159, false), Lookup::Between(row(9950.0), row(10000.0)));
        assert_eq!(table.rows_at(160, false), Lookup::Entry(row(10000.0)));
        assert_eq!(table.rows_at(usize::MAX, false), Lookup::Entry(row(10000.0)));
        assert_eq!(table.rows_at(0, true), Lookup::Entry(row(2000.0)));
    }
}

#[test]
fn new_table_uses_the_default_mode() {
    let (curves, pivots) = tables();
    let table = SBTable::new(
        Passband::LsstU,
        &curves,
        &pivots,
        0.0,
        &|t: u32| f64::from(t),
        &pivot,
        &fourth,
        &table_term,
        &midpoint,
        &inside,
        &bell,
        &gauss_term,
        &plus,
    );
    let row = brightness(Passband::LsstU, BandMode::Effective, 2000.0);
    assert_eq!(table.rows_at(0, true), Lookup::Entry(row));
    assert!(row != brightness(Passband::LsstU, BandMode::Integrated, 2000.0));
}

#[test]
fn throughput_between_and_beyond_the_grid() {
    let curve: Vec<usize> = (0..NLAM).collect();
    assert_eq!(throughput_at(&curve, 17), Lookup::Between(17, 18));
    assert_eq!(throughput_at(&curve, NLAM - 2), Lookup::Between(NLAM - 2, NLAM - 1));
    assert_eq!(throughput_at(&curve, NLAM - 1), Lookup::Entry(NLAM - 1));
    assert_eq!(throughput_at(&curve, usize::MAX), Lookup::Entry(NLAM - 1));
}

#[test]
fn brightness_is_interpolated_between_rows() {
    // rows that are 2000 above their temperature
    let table = table(Passband::LsstU, BandMode::Effective);
    let eval = |t: f64| {
        table.eval(
            t,
            &|t: f64, t_min: u32, dt: u32| (t - f64::from(t_min)) / f64::from(dt),
            &|place: f64| place.floor() as usize,
            &|place: f64| place < 0.0,
            &|place: f64, k: usize, a: f64, b: f64| {
                let frac = place - k as f64;
                a * (1.0 - frac) + b * frac
            },
        )
    };
    assert_eq!(eval(2025.0), 4025.0);
    assert_eq!(eval(2000.0), 4000.0);
    assert_eq!(eval(1000.0), 4000.0);
    assert_eq!(eval(10000.0), 12000.0);
    assert_eq!(eval(1e9), 12000.0);
    assert!(eval(f64::NAN).is_nan());
    assert_eq!((eval(f64::NEG_INFINITY), eval(f64::INFINITY)), (4000.0, 12000.0));
    for i in 0..161 {
        let t = 2000.0 + 50.0 * f64::from(i);
        assert_eq!(eval(t), brightness(Passband::LsstU, BandMode::Effective, t));
    }
}

#[test]
fn underscores_and_hyphens_read_alike() {
    for name in ["ztf_g", "ztf_r", "johnson_v", "lsst_u", "LSST_y"] {
        assert!(Passband::from_str(name).is_some());
        assert_eq!(Passband::from_str(name), Passband::from_str(&name.replace('_', "-")));
    }
    assert_eq!(Passband::from_str("ztf__g"), None);
    assert_eq!(Passband::from_str("ztf-_g"), None);
}

#[test]
fn transmission_by_wavelength() {
    let mut curves: Vec<Vec<f64>> = (0..6).map(|_| vec![0.0; NLAM]).collect();
    curves[2][1000] = 1.0;
    curves[2][NLAM - 1] = 0.25;
    let at = |lam: f64, band: Passband| {
        transmission(
            lam,
            band,
            &curves,
            0.0,
            1.0,
            |lam, g| !(lam < f64::from(g.from_nm) || lam > f64::from(g.to_nm)),
            |lam, g| (-0.5 * ((lam - f64::from(g.peak_nm)) / f64::from(g.width_nm)).powi(2)).exp(),
            // eight points per nm in place of ten, so that places are exact
            |lam, lo, per_nm| (lam - f64::from(lo)) * f64::from(per_nm - 2),
            |place, last| place < 0.0 || place > last as f64,
            |place: f64| place.floor() as usize,
            |place, k, a, b| {
                let f = place - k as f64;
                a * (1.0 - f) + b * f
            },
        )
    };
    assert_eq!(at(480.0, Passband::ZtfG), 1.0);
    assert_eq!(at(399.0, Passband::ZtfG), 0.0);
    assert_eq!(at(561.0, Passband::ZtfG), 0.0);
    assert_eq!(at(595.0, Passband::ZtfR), (-0.5f64).exp());
    assert_eq!(at(1.0, Passband::Bolometric), 1.0);
    assert_eq!(at(425.0, Passband::LsstR), 1.0);
    assert_eq!(at(425.0625, Passband::LsstR), 0.5);
    assert_eq!(at(299.0, Passband::LsstR), 0.0);
    assert_eq!(at(300.0 + 0.125 * 8500.0, Passband::LsstR), 0.25);
    assert_eq!(at(300.0 + 0.125 * 8501.0, Passband::LsstR), 0.0);
}
