use phoebe_rs::bank::{
    bank_rows, filling_star, fillout_source, grid_size, output_rows, position, system_params,
    Columns, Family, FilloutSource, SpecRow,
};
use phoebe_rs::passband::Passband;
use phoebe_rs::star::Star;
use phoebe_rs::text::words;
use phoebe_rs::{EBParams, EBType};

const HEADER: &str = "family,q,inclination,temperature_ratio,primary_temperature,r1,r2,\
                      companion_fill,filling_component";

#[test]
fn a_bank_is_read_row_by_row() {
    let text = format!(
        "{HEADER}\r\ncontact,0.5,80,0.9,6000,0.2,0.2,0,none\r\n\n  \ndetached, 1 ,90,1,5000,.1,.2,0,x\n"
    );
    let rows = bank_rows(&text).unwrap();
    assert_eq!(rows.len(), 2);
    assert_eq!(rows[0].n, 0);
    let first = rows[0].row.as_ref().unwrap();
    assert_eq!(first.family, "contact");
    assert_eq!(first.q, "0.5");
    assert_eq!(first.filling_component, "none");
    assert_eq!(rows[1].n, 3);
    let second = rows[1].row.as_ref().unwrap();
    assert_eq!(second.q, "1");
    assert_eq!(second.r2, ".2");
}

#[test]
fn column_order_does_not_matter() {
    let a = bank_rows(&format!("{HEADER}\ncontact,2,3,4,5,6,7,8,primary\n")).unwrap();
    let b = bank_rows(
        "r2, filling_component ,q,family,r1,companion_fill,primary_temperature,temperature_ratio,inclination\n\
         7,primary,2,contact,6,8,5,4,3\n",
    )
    .unwrap();
    let (a, b) = (a[0].row.as_ref().unwrap(), b[0].row.as_ref().unwrap());
    assert_eq!(format!("{a:?}"), format!("{b:?}"));
    assert_eq!(a.inclination, "3");
}

#[test]
fn the_first_missing_column_is_named() {
    assert_eq!(bank_rows("").unwrap_err(), "family");
    assert_eq!(Columns::from_header("family,q").unwrap_err(), "inclination");
    assert_eq!(
        Columns::from_header(&HEADER.replace("companion_fill", "fill")).unwrap_err(),
        "companion_fill"
    );
    assert_eq!(Columns::from_header(&HEADER.replace("r1", "R1")).unwrap_err(), "r1");
}

#[test]
fn the_first_of_two_columns_with_one_name_counts() {
    let columns = Columns::from_header(&format!("q,{HEADER}")).unwrap();
    assert_eq!(columns.q, 0);
    assert_eq!(columns.family, 1);
    assert_eq!(columns.filling_component, 9);
    let cells: Vec<String> = vec!["a".to_string(), "b".to_string(), "a".to_string()];
    assert_eq!(position(&cells, "a"), Some(0));
    assert_eq!(position(&cells, "c"), None);
}

#[test]
fn short_rows_are_noticed() {
    let rows = bank_rows(&format!("{HEADER}\ncontact,1,2\n")).unwrap();
    assert_eq!(rows.len(), 1);
    assert!(rows[0].row.is_none());
    let columns = Columns::from_header(HEADER).unwrap();
    assert!(SpecRow::read("1,2,3,4,5,6,7,8", &columns).is_none());
    assert!(SpecRow::read("1,2,3,4,5,6,7,8,9,10", &columns).is_some());
}

#[test]
fn families_and_their_types() {
    assert_eq!(Family::from_name("contact"), Some(Family::Contact));
    assert_eq!(Family::from_name("detached"), Some(Family::Detached));
    assert_eq!(Family::from_name("semidetached"), Some(Family::SemiDetached));
    assert_eq!(Family::from_name("Contact"), None);
    assert_eq!(Family::from_name(""), None);
    assert_eq!(Family::Contact.eb_type(), EBType::Contact);
    assert_eq!(Family::Detached.eb_type(), EBType::Detached);
    assert_eq!(Family::SemiDetached.eb_type(), EBType::SemiDetached);
}

#[test]
fn filling_factors_by_family() {
    assert_eq!(filling_star("primary"), Star::Primary);
    assert_eq!(filling_star("secondary"), Star::Secondary);
    assert_eq!(filling_star("Primary"), Star::Secondary);
    let of = |family, filling| {
        (
            fillout_source(family, filling, Star::Primary),
            fillout_source(family, filling, Star::Secondary),
        )
    };
    assert_eq!(
        of(Family::Contact, Star::Primary),
        (FilloutSource::AsGiven, FilloutSource::AsGiven)
    );
    assert_eq!(
        of(Family::Detached, Star::Secondary),
        (FilloutSource::FromRadius, FilloutSource::FromRadius)
    );
    assert_eq!(
        of(Family::SemiDetached, Star::Primary),
        (FilloutSource::Full, FilloutSource::CompanionFill)
    );
    assert_eq!(
        of(Family::SemiDetached, Star::Secondary),
        (FilloutSource::CompanionFill, FilloutSource::Full)
    );
}

#[test]
fn grids_are_kept_between_20_and_400() {
    assert_eq!(grid_size(Family::Contact, 300), 20);
    assert_eq!(grid_size(Family::Detached, 3), 20);
    assert_eq!(grid_size(Family::Detached, 20), 20);
    assert_eq!(grid_size(Family::SemiDetached, 123), 123);
    assert_eq!(grid_size(Family::SemiDetached, 400), 400);
    assert_eq!(grid_size(Family::Detached, 2000), 400);
}

#[test]
fn six_rows_per_system_built_or_not() {
    let row = |s: &str| s.split(' ').map(|w| w.to_string()).collect::<Vec<String>>();
    let curves: Vec<Vec<String>> = (0..6).map(|_| row("1.000000 0.500000")).collect();
    assert_eq!(output_rows(Some(&curves), 2), vec!["1.000000 0.500000"; 6]);
    assert_eq!(output_rows(None, 3), vec!["NaN NaN NaN"; 6]);
    assert_eq!(output_rows(None, 0), vec![""; 6]);
}

#[test]
fn rows_split_back_into_fluxes() {
    let curves: Vec<Vec<String>> =
        (0..6).map(|b| vec![format!("{b}.5"), "1.000000".to_string()]).collect();
    for (row, curve) in output_rows(Some(&curves), 2).iter().zip(&curves) {
        assert_eq!(&words(row), curve);
    }
    for row in output_rows(None, 4) {
        assert_eq!(words(&row), vec!["NaN"; 4]);
    }
}

fn params_of(line: &str) -> Option<EBParams<f64>> {
    let rows = bank_rows(&format!("{HEADER}\n{line}\n")).unwrap();
    let base = EBParams {
        eb_type: EBType::Contact,
        q: -1.0,
        inclination: -1.0,
        fillout1: -1.0,
        fillout2: -1.0,
        t_eff1: -1.0,
        t_eff2: -1.0,
        ld1: -1.0,
        ld2: -1.0,
        phi0: 0.125,
        l3: 0.25,
        n_grid: 7,
        passband: Passband::ZtfR,
    };
    system_params(
        rows[0].row.as_ref().unwrap(),
        &base,
        &|s: &str| s.parse::<f64>().unwrap_or(f64::NAN),
        &|q: f64, r: f64, star: Star| match star {
            Star::Primary => q * r,
            Star::Secondary => q + r,
        },
        &|n: u32| f64::from(n) / 100.0,
        &|x: f64, y: f64| x * y,
        &|a: f64, b: f64| (2.0 / a.min(b)) as usize,
    )
}

#[test]
fn detached_rows_give_converted_radii() {
    let p = params_of("detached,0.5,80,0.75,6000,0.02,0.05,0.9,primary").unwrap();
    assert_eq!(p.eb_type, EBType::Detached);
    assert_eq!((p.q, p.inclination), (0.5, 80.0));
    assert_eq!((p.fillout1, p.fillout2), (0.5 * 0.02, 0.5 + 0.05));
    assert_eq!((p.t_eff1, p.t_eff2), (6000.0, 4500.0));
    assert_eq!((p.ld1, p.ld2), (0.5, 0.5));
    assert_eq!(p.n_grid, 100);
    assert_eq!((p.phi0, p.l3, p.passband), (0.125, 0.25, Passband::ZtfR));
}

#[test]
fn contact_rows_give_fillouts_as_they_stand() {
    let p = params_of("contact,0.5,80,1,6000,0.02,0.05,0.9,primary").unwrap();
    assert_eq!(p.eb_type, EBType::Contact);
    assert_eq!((p.fillout1, p.fillout2, p.n_grid), (0.02, 0.05, 20));
}

#[test]
fn semidetached_rows_fill_the_named_star() {
    let p = params_of("semidetached,0.5,80,1,6000,0.2,0.5,0.9,primary").unwrap();
    assert_eq!((p.eb_type, p.fillout1, p.fillout2), (EBType::SemiDetached, 1.0, 0.9));
    let p = params_of("semidetached,0.5,80,1,6000,0.2,0.5,0.9,secondary").unwrap();
    assert_eq!((p.fillout1, p.fillout2), (0.9, 1.0));
}

#[test]
fn unreadable_numbers_and_families() {
    assert!(params_of("eccentric,0.5,80,1,6000,0.2,0.5,0.9,primary").is_none());
    assert!(params_of("contact,x,80,1,6000,0.2,0.5,0.9,primary").unwrap().q.is_nan());
}
