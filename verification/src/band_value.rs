//! What the bands come to.
//!
//! The contracts of `passband` speak of functions that may answer in several
//! ways. The laws here say what comes out where each has one answer, named by a
//! function whose name ends in `_is`.

use vstd::prelude::*;

use crate::passband;
use crate::passband::{
    BandMode, BrightnessLaw, GaussianBand, Lookup, Passband, Transmission,
};
use crate::sum;

verus! {

/// Every Gaussian band shines through its own window, in both modes, and the
/// fourth power of the temperature is for the whole spectrum alone. An LSST band
/// shines through what stands at its place from blue to red: at its pivot
/// wavelength in effective mode, and through its table in integrated mode.
pub proof fn every_band_shines_through_its_own_response(passband: Passband, mode: BandMode)
    ensures
        passband::transmission_of(passband) matches Transmission::Gaussian(g) ==> {
            &&& passband::law_of(passband, BandMode::Effective) == BrightnessLaw::Gaussian(g)
            &&& passband::law_of(passband, BandMode::Integrated) == BrightnessLaw::Gaussian(g)
        },
        passband::law_of(passband, mode) is FourthPower <==> passband == Passband::Bolometric,
        passband::transmission_of(passband) is Full <==> passband == Passband::Bolometric,
        passband::transmission_of(passband) is Gaussian <==> passband == Passband::ZtfG || passband
            == Passband::ZtfR || passband == Passband::JohnsonV,
        passband::transmission_of(Passband::ZtfG) == Transmission::Gaussian(
            (GaussianBand { from_nm: 400, to_nm: 560, peak_nm: 480, width_nm: 40 }),
        ),
        passband::transmission_of(Passband::ZtfR) == Transmission::Gaussian(
            (GaussianBand { from_nm: 560, to_nm: 730, peak_nm: 640, width_nm: 45 }),
        ),
        passband::transmission_of(Passband::JohnsonV) == Transmission::Gaussian(
            (GaussianBand { from_nm: 480, to_nm: 640, peak_nm: 550, width_nm: 40 }),
        ),
        forall|i: int|
            #![trigger passband::ugrizy_bands()[i]]
            0 <= i < 6 && passband::ugrizy_bands()[i] == passband ==> {
                &&& passband::lsst_slot(passband) == Some(i as usize)
                &&& passband::transmission_of(passband) == Transmission::Table(i as usize)
                &&& passband::law_of(passband, BandMode::Effective) == BrightnessLaw::Pivot(
                    i as usize,
                )
                &&& passband::law_of(passband, BandMode::Integrated) == BrightnessLaw::Table(
                    i as usize,
                )
            },
        passband::ugrizy_bands() =~= seq![
            Passband::LsstU,
            Passband::LsstG,
            Passband::LsstR,
            Passband::LsstI,
            Passband::LsstZ,
            Passband::LsstY,
        ],
{
}

/// The default limb darkening of every band, in hundredths.
pub proof fn limb_darkening_of_every_band(passband: Passband)
    ensures
        passband.limb_darkening() == (match passband {
            Passband::Bolometric => 50u32,
            Passband::ZtfG => 65u32,
            Passband::ZtfR => 45u32,
            Passband::JohnsonV => 55u32,
            Passband::LsstU => 78u32,
            Passband::LsstG => 66u32,
            Passband::LsstR => 52u32,
            Passband::LsstI => 43u32,
            Passband::LsstZ => 37u32,
            Passband::LsstY => 33u32,
        }),
{
}

/// The surface brightness in each band, in terms of what the given functions
/// answer. An LSST band is the Planck function at its own pivot wavelength, or
/// the sum over all 8501 samples of its own table, first to last; a Gaussian band
/// is the sum over 200 midpoints from 300 to 1100 nm, each weighted by the bell
/// inside the band's window and by zero outside it.
pub proof fn brightness_of_every_band<
    T,
    Pivot: Fn(T, T) -> T,
    Fourth: Fn(T) -> T,
    TableTerm: Fn(T, usize, T) -> Option<T>,
    Midpoint: Fn(u32, u32, usize, usize) -> T,
    Inside: Fn(T, GaussianBand) -> bool,
    Bell: Fn(T, GaussianBand) -> T,
    GaussTerm: Fn(T, usize, T) -> Option<T>,
    Plus: Fn(T, T) -> T,
>(
    passband: Passband,
    mode: BandMode,
    t_eff: T,
    curves: Seq<Vec<T>>,
    pivots: Seq<T>,
    zero: T,
    pivot: Pivot,
    fourth: Fourth,
    table_term: TableTerm,
    midpoint: Midpoint,
    inside: Inside,
    bell: Bell,
    gauss_term: GaussTerm,
    plus: Plus,
    r: T,
    pivot_is: spec_fn(T, T) -> T,
    fourth_is: spec_fn(T) -> T,
    table_term_is: spec_fn(T, usize, T) -> Option<T>,
    midpoint_is: spec_fn(u32, u32, usize, usize) -> T,
    inside_is: spec_fn(T, GaussianBand) -> bool,
    bell_is: spec_fn(T, GaussianBand) -> T,
    gauss_term_is: spec_fn(T, usize, T) -> Option<T>,
    plus_is: spec_fn(T, T) -> T,
    table_step: spec_fn(int) -> (spec_fn(int, T) -> T),
    gauss_step: spec_fn(GaussianBand) -> (spec_fn(int, T) -> T),
)
    requires
        passband::full_tables(curves),
        passband::law_gives(
            passband::law_of(passband, mode),
            t_eff, curves, pivots, zero, pivot, fourth, table_term, midpoint, inside, bell,
            gauss_term, plus, r,
        ),
        forall|a: T, b: T, r: T| #[trigger]
            call_ensures(pivot, (a, b), r) ==> r == pivot_is(a, b),
        forall|a: T, r: T| #[trigger]
            call_ensures(fourth, (a,), r) ==> r == fourth_is(a),
        forall|a: T, b: usize, c: T, r: Option<T>| #[trigger]
            call_ensures(table_term, (a, b, c), r) ==> r == table_term_is(a, b, c),
        forall|a: u32, b: u32, c: usize, d: usize, r: T| #[trigger]
            call_ensures(midpoint, (a, b, c, d), r) ==> r == midpoint_is(a, b, c, d),
        forall|a: T, b: GaussianBand, r: bool| #[trigger]
            call_ensures(inside, (a, b), r) ==> r == inside_is(a, b),
        forall|a: T, b: GaussianBand, r: T| #[trigger]
            call_ensures(bell, (a, b), r) ==> r == bell_is(a, b),
        forall|a: T, b: usize, c: T, r: Option<T>| #[trigger]
            call_ensures(gauss_term, (a, b, c), r) ==> r == gauss_term_is(a, b, c),
        forall|a: T, b: T, r: T| #[trigger]
            call_ensures(plus, (a, b), r) ==> r == plus_is(a, b),
        forall|i: int, k: int, x: T|
            0 <= i < 6 && 0 <= k < 8501 ==> #[trigger] table_step(i)(k, x) == (match table_term_is(
                t_eff,
                k as usize,
                curves[i]@[k],
            ) {
                None => x,
                Some(term) => plus_is(x, term),
            }),
        forall|g: GaussianBand, k: int, x: T|
            0 <= k < 200 ==> #[trigger] gauss_step(g)(k, x) == (match gauss_term_is(
                t_eff,
                k as usize,
                if inside_is(midpoint_is(300, 1100, 200, k as usize), g) {
                    bell_is(midpoint_is(300, 1100, 200, k as usize), g)
                } else {
                    zero
                },
            ) {
                None => x,
                Some(term) => plus_is(x, term),
            }),
    ensures
        r == (match passband {
            Passband::Bolometric => fourth_is(t_eff),
            Passband::ZtfG => sum::fold(
                200,
                zero,
                gauss_step(GaussianBand { from_nm: 400, to_nm: 560, peak_nm: 480, width_nm: 40 }),
            ),
            Passband::ZtfR => sum::fold(
                200,
                zero,
                gauss_step(GaussianBand { from_nm: 560, to_nm: 730, peak_nm: 640, width_nm: 45 }),
            ),
            Passband::JohnsonV => sum::fold(
                200,
                zero,
                gauss_step(GaussianBand { from_nm: 480, to_nm: 640, peak_nm: 550, width_nm: 40 }),
            ),
            Passband::LsstU => match mode {
                BandMode::Effective => pivot_is(pivots[0], t_eff),
                BandMode::Integrated => sum::fold(8501, zero, table_step(0)),
            },
            Passband::LsstG => match mode {
                BandMode::Effective => pivot_is(pivots[1], t_eff),
                BandMode::Integrated => sum::fold(8501, zero, table_step(1)),
            },
            Passband::LsstR => match mode {
                BandMode::Effective => pivot_is(pivots[2], t_eff),
                BandMode::Integrated => sum::fold(8501, zero, table_step(2)),
            },
            Passband::LsstI => match mode {
                BandMode::Effective => pivot_is(pivots[3], t_eff),
                BandMode::Integrated => sum::fold(8501, zero, table_step(3)),
            },
            Passband::LsstZ => match mode {
                BandMode::Effective => pivot_is(pivots[4], t_eff),
                BandMode::Integrated => sum::fold(8501, zero, table_step(4)),
            },
            Passband::LsstY => match mode {
                BandMode::Effective => pivot_is(pivots[5], t_eff),
                BandMode::Integrated => sum::fold(8501, zero, table_step(5)),
            },
        }),
{
    match passband::law_of(passband, mode) {
        BrightnessLaw::Table(i) => {
            let sums = choose|sums: Seq<T>|
                {
                    &&& #[trigger] sum::running_sum(
                        t_eff, curves[i as int]@, zero, table_term, plus, sums,
                    )
                    &&& r == sums.last()
                };
            let step = table_step(i as int);
            let curve = curves[i as int]@;
            assert(curve.len() == 8501);
            assert forall|k: int| 0 <= k < 8501 implies #[trigger] sums[k + 1] == step(
                k,
                sums[k],
            ) by {
                assert(sum::index_adds(
                    t_eff, table_term, plus, k, curve[k], sums[k], sums[k + 1],
                ));
            }
            sum::sums_fold(8501, zero, step, sums);
        },
        BrightnessLaw::Gaussian(g) => {
            let (samples, sums) = choose|samples: Seq<T>, sums: Seq<T>|
                {
                    &&& samples.len() == passband::GAUSS_POINTS
                    &&& passband::sampled(g, zero, midpoint, inside, bell, samples)
                    &&& #[trigger] sum::running_sum(
                        t_eff, samples, zero, gauss_term, plus, sums,
                    )
                    &&& r == sums.last()
                };
            let step = gauss_step(g);
            assert forall|k: int| 0 <= k < 200 implies #[trigger] sums[k + 1] == step(
                k,
                sums[k],
            ) by {
                assert(sum::index_adds(
                    t_eff, gauss_term, plus, k, samples[k], sums[k], sums[k + 1],
                ));
                assert(passband::sample_at(g, zero, midpoint, inside, bell, k, samples[k]));
            }
            sum::sums_fold(200, zero, step, sums);
        },
        _ => {},
    }
}

/// A brightness table has 161 rows, 50 K apart from 2000 K on, each holding the
/// brightness in its band at its temperature.
pub proof fn rows_hold_the_brightness_every_fifty_kelvin<
    T,
    Kelvin: Fn(u32) -> T,
    Pivot: Fn(T, T) -> T,
    Fourth: Fn(T) -> T,
    TableTerm: Fn(T, usize, T) -> Option<T>,
    Midpoint: Fn(u32, u32, usize, usize) -> T,
    Inside: Fn(T, GaussianBand) -> bool,
    Bell: Fn(T, GaussianBand) -> T,
    GaussTerm: Fn(T, usize, T) -> Option<T>,
    Plus: Fn(T, T) -> T,
>(
    law: BrightnessLaw,
    curves: Seq<Vec<T>>,
    pivots: Seq<T>,
    zero: T,
    kelvin: Kelvin,
    pivot: Pivot,
    fourth: Fourth,
    table_term: TableTerm,
    midpoint: Midpoint,
    inside: Inside,
    bell: Bell,
    gauss_term: GaussTerm,
    plus: Plus,
    rows: Seq<T>,
    kelvin_is: spec_fn(u32) -> T,
)
    requires
        passband::rows_built(
            law, curves, pivots, zero, kelvin, pivot, fourth, table_term, midpoint, inside,
            bell, gauss_term, plus, rows,
        ),
        forall|a: u32, r: T| #[trigger]
            call_ensures(kelvin, (a,), r) ==> r == kelvin_is(a),
    ensures
        rows.len() == 161,
        forall|i: int|
            0 <= i < 161 ==> passband::law_gives(
                law,
                kelvin_is((2000 + 50 * i) as u32),
                curves, pivots, zero, pivot, fourth, table_term, midpoint, inside, bell,
                gauss_term, plus,
                #[trigger] rows[i],
            ),
{
    assert forall|i: int| 0 <= i < 161 implies passband::law_gives(
        law,
        kelvin_is((2000 + 50 * i) as u32),
        curves, pivots, zero, pivot, fourth, table_term, midpoint, inside, bell, gauss_term,
        plus,
        #[trigger] rows[i],
    ) by {
        assert(passband::bright_at(
            law, curves, pivots, zero, kelvin, pivot, fourth, table_term, midpoint, inside,
            bell, gauss_term, plus,
            passband::row_temperature(i) as u32,
            rows[i],
        ));
    }
}

/// What a brightness table reads, in terms of what the given functions answer: a
/// temperature has a place on the rows, counted from 2000 K in steps of 50 K.
/// From the last row on the last row is read, below the table the first, and
/// anywhere else the rows on either side are blended.
pub proof fn a_table_reads_between_its_rows<
    X, P, T,
    Place: Fn(X, u32, u32) -> P,
    Floor: Fn(P) -> usize,
    Negative: Fn(P) -> bool,
    Blend: Fn(P, usize, T, T) -> T,
>(
    rows: Seq<T>,
    t_eff: X,
    place: &Place,
    floor: &Floor,
    negative: &Negative,
    blend: &Blend,
    r: T,
    place_is: spec_fn(X, u32, u32) -> P,
    floor_is: spec_fn(P) -> usize,
    negative_is: spec_fn(P) -> bool,
    blend_is: spec_fn(P, usize, T, T) -> T,
    p: P,
    k: usize,
)
    requires
        rows.len() == 161,
        passband::rows_give(rows, t_eff, place, floor, negative, blend, r),
        forall|x: X, t: u32, dt: u32, at: P| #[trigger]
            call_ensures(place, (x, t, dt), at) ==> at == place_is(x, t, dt),
        forall|at: P, n: usize| #[trigger] call_ensures(floor, (at,), n) ==> n == floor_is(at),
        forall|at: P, b: bool| #[trigger]
            call_ensures(negative, (at,), b) ==> b == negative_is(at),
        forall|at: P, n: usize, a: T, b: T, x: T| #[trigger]
            call_ensures(blend, (at, n, a, b), x) ==> x == blend_is(at, n, a, b),
        p == place_is(t_eff, 2000, 50),
        k == floor_is(p),
    ensures
        r == (if k >= 160 {
            rows[160]
        } else if negative_is(p) {
            rows[0]
        } else {
            blend_is(p, k, rows[k as int], rows[k + 1])
        }),
{
}

/// Looking a table up never leaves it: past the last entry the last one is read,
/// below the first the first, and anywhere else the entry at the whole part of
/// the place and the next one. A throughput table has no place below the first.
pub proof fn lookups_stay_in_their_table<T>(table: Seq<T>, floor: int, below: bool)
    requires
        table.len() > 0,
        floor >= 0,
    ensures
        floor >= table.len() - 1 ==> {
            &&& passband::brightness_lookup(table, floor, below) == Lookup::Entry(
                table[table.len() - 1],
            )
            &&& passband::throughput_lookup(table, floor) == Lookup::Entry(table[table.len() - 1])
        },
        floor < table.len() - 1 ==> {
            &&& below ==> passband::brightness_lookup(table, floor, below) == Lookup::Entry(
                table[0],
            )
            &&& !below ==> passband::brightness_lookup(table, floor, below) == Lookup::Between(
                table[floor],
                table[floor + 1],
            )
            &&& passband::throughput_lookup(table, floor) == Lookup::Between(
                table[floor],
                table[floor + 1],
            )
        },
{
}

/// What each band lets through at a wavelength, in terms of what the given
/// functions answer: a Gaussian band its bell, inside its own window alone; an
/// LSST band its own table, read at the wavelength's place from 300 nm in tenths
/// of a nanometre and blended between two samples, and nothing off the grid; the
/// whole spectrum everything.
pub proof fn transmission_of_every_band<
    X, P, T,
    Inside: Fn(X, GaussianBand) -> bool,
    Bell: Fn(X, GaussianBand) -> T,
    Place: Fn(X, u32, u32) -> P,
    Outside: Fn(P, usize) -> bool,
    Floor: Fn(P) -> usize,
    Blend: Fn(P, usize, T, T) -> T,
>(
    passband: Passband,
    curves: Seq<Vec<T>>,
    lam: X,
    zero: T,
    one: T,
    inside: Inside,
    bell: Bell,
    place: Place,
    outside: Outside,
    floor: Floor,
    blend: Blend,
    r: T,
    inside_is: spec_fn(X, GaussianBand) -> bool,
    bell_is: spec_fn(X, GaussianBand) -> T,
    place_is: spec_fn(X, u32, u32) -> P,
    outside_is: spec_fn(P, usize) -> bool,
    floor_is: spec_fn(P) -> usize,
    blend_is: spec_fn(P, usize, T, T) -> T,
    p: P,
    k: usize,
    bells: spec_fn(GaussianBand) -> T,
    tabled: spec_fn(int) -> T,
)
    requires
        passband::full_tables(curves),
        passband::transmits(
            passband::transmission_of(passband),
            curves, lam, zero, one, inside, bell, place, outside, floor, blend, r,
        ),
        forall|x: X, g: GaussianBand, b: bool| #[trigger]
            call_ensures(inside, (x, g), b) ==> b == inside_is(x, g),
        forall|x: X, g: GaussianBand, b: T| #[trigger]
            call_ensures(bell, (x, g), b) ==> b == bell_is(x, g),
        forall|x: X, t: u32, dt: u32, at: P| #[trigger]
            call_ensures(place, (x, t, dt), at) ==> at == place_is(x, t, dt),
        forall|at: P, n: usize, b: bool| #[trigger]
            call_ensures(outside, (at, n), b) ==> b == outside_is(at, n),
        forall|at: P, n: usize| #[trigger] call_ensures(floor, (at,), n) ==> n == floor_is(at),
        forall|at: P, n: usize, a: T, b: T, x: T| #[trigger]
            call_ensures(blend, (at, n, a, b), x) ==> x == blend_is(at, n, a, b),
        p == place_is(lam, 300, 10),
        k == floor_is(p),
        forall|g: GaussianBand| #[trigger]
            bells(g) == (if inside_is(lam, g) {
                bell_is(lam, g)
            } else {
                zero
            }),
        forall|i: int|
            0 <= i < 6 ==> #[trigger] tabled(i) == (if outside_is(p, 8500) {
                zero
            } else if k >= 8500 {
                curves[i]@[8500]
            } else {
                blend_is(p, k, curves[i]@[k as int], curves[i]@[k + 1])
            }),
    ensures
        r == (match passband {
            Passband::Bolometric => one,
            Passband::ZtfG => bells(
                GaussianBand { from_nm: 400, to_nm: 560, peak_nm: 480, width_nm: 40 },
            ),
            Passband::ZtfR => bells(
                GaussianBand { from_nm: 560, to_nm: 730, peak_nm: 640, width_nm: 45 },
            ),
            Passband::JohnsonV => bells(
                GaussianBand { from_nm: 480, to_nm: 640, peak_nm: 550, width_nm: 40 },
            ),
            Passband::LsstU => tabled(0),
            Passband::LsstG => tabled(1),
            Passband::LsstR => tabled(2),
            Passband::LsstI => tabled(3),
            Passband::LsstZ => tabled(4),
            Passband::LsstY => tabled(5),
        }),
{
    if let Transmission::Table(i) = passband::transmission_of(passband) {
        assert(curves[i as int]@.len() == 8501);
    }
}

} // verus!
