use phoebe_rs::lsst_tables::{
    band_name, check_grid, data_rows, lsst_curve, lsst_pivot_nm, parse, pivot_sums, Reading,
    TableError, LAM_HI_NM, LAM_LO_NM, LAM_STEPS_PER_NM, LSST_BANDS, NLAM,
};

fn good(n: usize) -> Vec<Reading<usize>> {
    (0..n).map(|k| Reading { on_grid: Some(true), throughput: Some(k) }).collect()
}

fn table_text() -> String {
    let mut text = "# LSST total throughput\n#  wavelength  throughput\n\n".to_string();
    for k in 0..NLAM {
        text.push_str(&format!(" {:.1}  {:.4}\r\n", 300.0 + 0.1 * k as f64, 0.5));
    }
    text
}

fn parsed(text: &str) -> Result<Vec<f64>, TableError> {
    parse(
        text,
        |s| s.parse::<f64>().ok(),
        |lam, lo, per_nm, k| {
            (lam - (f64::from(lo) + 1.0 / f64::from(per_nm) * k as f64)).abs() < 1e-6
        },
    )
}

#[test]
fn a_table_on_the_declared_grid_parses() {
    let curve = parsed(&table_text()).unwrap();
    assert_eq!(curve.len(), NLAM);
    assert!(curve.iter().all(|t| (0.0..=1.0).contains(t)));
}

#[test]
fn comments_between_rows_change_nothing() {
    let plain = table_text();
    let cut = plain.find("301.0").unwrap() - 1;
    let noted = format!("{}   # a note, 1 2 3\n\n{}", &plain[..cut], &plain[cut..]);
    assert_eq!(data_rows(&noted).len(), data_rows(&plain).len());
    assert!(parsed(&noted).is_ok());
}

#[test]
fn a_shifted_table_is_refused_at_its_first_row_off_the_grid() {
    let shifted = table_text().replace(" 400.0 ", " 400.05 ");
    assert_eq!(parsed(&shifted).unwrap_err(), TableError::OffGrid(1000));
}

#[test]
fn malformed_rows_of_a_table_are_refused() {
    assert_eq!(parsed("").unwrap_err(), TableError::RowCount(0));
    assert_eq!(parsed("300.0 0.1\nx 0.1\n").unwrap_err(), TableError::BadWavelength(1));
    assert_eq!(parsed("300.0 0.1\n300.1\n").unwrap_err(), TableError::BadThroughput(1));
    assert_eq!(parsed("300.0 0.1\n300.2 ?\n").unwrap_err(), TableError::BadThroughput(1));
    assert_eq!(parsed("301.0 0.1\n").unwrap_err(), TableError::OffGrid(0));
    assert_eq!(parsed("300.0 0.1\n").unwrap_err(), TableError::RowCount(1));
}

#[test]
fn rows_and_columns_of_a_table() {
    let rows = data_rows("# head\n300.0\t0.25 extra\n\n  only  \n   #x\n");
    assert_eq!(rows.len(), 2);
    assert_eq!(rows[0].line, "300.0\t0.25 extra");
    assert_eq!(rows[0].wavelength.as_deref(), Some("300.0"));
    assert_eq!(rows[0].throughput.as_deref(), Some("0.25"));
    assert_eq!(rows[1].line, "only");
    assert_eq!(rows[1].wavelength.as_deref(), Some("only"));
    assert_eq!(rows[1].throughput, None);
    assert!(data_rows("").is_empty());
}

#[test]
fn each_fault_of_a_table_is_reported() {
    let mut r = good(NLAM);
    r[5].on_grid = None;
    r[5].throughput = None;
    r[9].on_grid = Some(false);
    assert_eq!(check_grid(&r).unwrap_err(), TableError::BadWavelength(5));
    r[5].on_grid = Some(false);
    assert_eq!(check_grid(&r).unwrap_err(), TableError::BadThroughput(5));
    r[5].throughput = Some(5);
    assert_eq!(check_grid(&r).unwrap_err(), TableError::OffGrid(5));
    r[5].on_grid = Some(true);
    assert_eq!(check_grid(&r).unwrap_err(), TableError::OffGrid(9));
    assert_eq!(check_grid(&good(NLAM - 1)).unwrap_err(), TableError::RowCount(NLAM - 1));
    assert_eq!(check_grid(&good(NLAM + 1)).unwrap_err(), TableError::RowCount(NLAM + 1));
    assert_eq!(check_grid(&good(0)).unwrap_err(), TableError::RowCount(0));
    assert_eq!(check_grid(&good(NLAM)).unwrap(), (0..NLAM).collect::<Vec<usize>>());
}

#[test]
fn the_grid_spans_300_to_1150_nm() {
    assert_eq!(NLAM, ((LAM_HI_NM - LAM_LO_NM) * LAM_STEPS_PER_NM) as usize + 1);
    assert_eq!((LAM_LO_NM, LAM_HI_NM, NLAM), (300, 1150, 8501));
}

#[test]
fn band_names_and_curves_in_ugrizy_order() {
    let names: Vec<&str> = (0..LSST_BANDS).map(band_name).collect();
    assert_eq!(names, vec!["u", "g", "r", "i", "z", "y"]);
    let curves: Vec<usize> = (10..16).collect();
    assert_eq!(*lsst_curve(&curves, 2), 12);
    assert_eq!(lsst_pivot_nm(&curves, 5), 15);
}

#[test]
fn the_pivot_of_a_narrow_band_is_its_centre() {
    let mut curve = vec![0.0; NLAM];
    for k in 1990..=2010 {
        curve[k] = 1.0;
    }
    let lam = |k: usize| 300.0 + 0.1 * k as f64;
    let (num, den) = pivot_sums(
        &curve,
        (0.0, 0.0),
        |k, s0: f64, s1: f64| {
            let (l0, l1) = (lam(k), lam(k + 1));
            let h = 0.5 * (l1 - l0);
            (h * (s0 * l0 + s1 * l1), h * (s0 / l0 + s1 / l1))
        },
        |a, b| (a.0 + b.0, a.1 + b.1),
    );
    let pivot = (num / den).sqrt();
    assert!((pivot - 500.0).abs() < 0.01, "{pivot}");
}

#[test]
fn pivot_sums_take_every_interval_once() {
    let curve: Vec<usize> = (0..NLAM).collect();
    let total = pivot_sums(
        &curve,
        0usize,
        |k, a, b| if k == a && b == a + 1 { 1 } else { 0 },
        |a, b| a + b,
    );
    assert_eq!(total, NLAM - 1);
}

#[test]
fn blanks_around_lines_change_nothing() {
    let plain = data_rows("300.0 0.5\n300.1 0.25\n# end\n");
    let padded = data_rows("  300.0 0.5 \t\r\n\u{a0}300.1 0.25\r\n \t# end \n");
    assert_eq!(plain.len(), 2);
    assert_eq!(format!("{plain:?}"), format!("{padded:?}"));
    // an open last line, a row or not
    for end in ["300.1 0.25", " 300.1 0.25 ", "300.1 0.25\r", "300.1 0.25\n# end", "300.1 0.25\n "] {
        let open = data_rows(&format!("300.0 0.5\n{end}"));
        assert_eq!(format!("{plain:?}"), format!("{open:?}"));
    }
}
