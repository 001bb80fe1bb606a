use phoebe_rs::flux::{eclipse_mode, EclipseAcc};
use phoebe_rs::lightcurve::band_mode;
use phoebe_rs::passband::{BandMode, Passband};

#[test]
fn every_passband_name_reads_as_its_band() {
    let table = [
        ("bolometric", Passband::Bolometric),
        ("bol", Passband::Bolometric),
        ("ztf_g", Passband::ZtfG),
        ("ztf-g", Passband::ZtfG),
        ("g", Passband::ZtfG),
        ("ztf_r", Passband::ZtfR),
        ("ztf-r", Passband::ZtfR),
        ("r", Passband::ZtfR),
        ("johnson_v", Passband::JohnsonV),
        ("johnson-v", Passband::JohnsonV),
        ("lsst_u", Passband::LsstU),
        ("lsst-u", Passband::LsstU),
        ("u", Passband::LsstU),
        ("lsst_g", Passband::LsstG),
        ("lsst-g", Passband::LsstG),
        ("lsst_r", Passband::LsstR),
        ("lsst-r", Passband::LsstR),
        ("lsst_i", Passband::LsstI),
        ("lsst-i", Passband::LsstI),
        ("i", Passband::LsstI),
        ("lsst_z", Passband::LsstZ),
        ("lsst-z", Passband::LsstZ),
        ("z", Passband::LsstZ),
        ("lsst_y", Passband::LsstY),
        ("lsst-y", Passband::LsstY),
        ("y", Passband::LsstY),
    ];
    for (name, band) in table {
        assert_eq!(Passband::from_str(name), Some(band), "{name}");
        assert_eq!(Passband::from_lowercase(name), Some(band), "{name}");
        assert_eq!(Passband::from_str(&name.to_uppercase()), Some(band), "{name}");
    }
}

#[test]
fn passband_names_are_lowered_before_they_are_compared() {
    assert_eq!(Passband::from_str("LSST_u"), Some(Passband::LsstU));
    assert_eq!(Passband::from_str("BoLoMeTrIc"), Some(Passband::Bolometric));
    assert_eq!(Passband::from_lowercase("LSST_u"), None);
}

#[test]
fn unknown_passband_names_are_refused() {
    for name in ["", "v", "lsst", "lsst u", " g", "g ", "ztf_i", "\u{130}", "\u{e9}"] {
        assert_eq!(Passband::from_str(name), None, "{name:?}");
    }
}

#[test]
fn band_mode_names() {
    for name in ["integrated", "integrate", "full", "table", "FULL"] {
        assert_eq!(BandMode::from_str(name), Some(BandMode::Integrated));
    }
    for name in ["effective", "eff", "pivot", "mono", "Mono"] {
        assert_eq!(BandMode::from_str(name), Some(BandMode::Effective));
    }
    assert_eq!(BandMode::from_str("monochrome"), None);
    assert_eq!(BandMode::from_lowercase("FULL"), None);
    assert_eq!(BandMode::default(), BandMode::Effective);
}

#[test]
fn tolerance_rule_names() {
    for name in ["fixed", "legacy", "0.05", "Legacy"] {
        assert_eq!(EclipseAcc::from_str(name), Some(EclipseAcc::Fixed));
    }
    for name in ["scaled", "adaptive", "radius", "RADIUS"] {
        assert_eq!(EclipseAcc::from_str(name), Some(EclipseAcc::Scaled));
    }
    assert_eq!(EclipseAcc::from_str("0.5"), None);
    assert_eq!(EclipseAcc::from_lowercase("Scaled"), None);
    assert_eq!(EclipseAcc::default(), EclipseAcc::Fixed);
}

#[test]
fn settings_fall_back_to_the_defaults() {
    assert_eq!(band_mode(None), BandMode::Effective);
    assert_eq!(band_mode(Some("nonsense")), BandMode::Effective);
    assert_eq!(band_mode(Some("Integrated")), BandMode::Integrated);
    assert_eq!(band_mode(Some("pivot")), BandMode::Effective);
    assert_eq!(eclipse_mode(None), EclipseAcc::Fixed);
    assert_eq!(eclipse_mode(Some("")), EclipseAcc::Fixed);
    assert_eq!(eclipse_mode(Some("SCALED")), EclipseAcc::Scaled);
    assert_eq!(eclipse_mode(Some("legacy")), EclipseAcc::Fixed);
}
