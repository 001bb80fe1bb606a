//! Passbands: their names, limb darkening, and how each turns a temperature
//! into a surface brightness.
//!
//! LSST bands read a tabulated throughput; the ZTF and Johnson bands are
//! Gaussians cut to a window, and `Bolometric` is the Stefan-Boltzmann law. The
//! numbers themselves are the caller's: a function here takes the formulas as
//! closures and settles which of them applies, at which points it is evaluated,
//! in which order the values are added, and which entries of a table are used.

use vstd::prelude::*;
use crate::lsst_tables::{lsst_curve, lsst_pivot_nm, LAM_LO_NM, LAM_STEPS_PER_NM, NLAM};
use crate::sum;
use crate::sum::ordered_sum;
use crate::text;
use crate::text::same_text;

verus! {

/// How an LSST band turns a temperature into a surface brightness.
///
/// `Effective` evaluates Planck once at the band's pivot wavelength.
/// `Integrated` is opt in and integrates Planck against the tabulated
/// throughput with a photon-counting weight. Only LSST honours this.
#[derive(Debug, Clone, Copy, PartialEq, Eq, Structural)]
pub enum BandMode {
    Integrated,
    Effective,
}

impl Default for BandMode {
    /// Effective wavelength by default, so the full integration is opt in.
    fn default() -> (r: Self)
        ensures
            r == BandMode::Effective,
    {
        BandMode::Effective
    }
}

impl BandMode {
    /// The band mode with the lower-case name `name`, if there is one.
    pub open spec fn named(name: Seq<char>) -> Option<BandMode> {
        if name == "integrated"@ || name == "integrate"@ || name == "full"@ || name == "table"@ {
            Some(BandMode::Integrated)
        } else if name == "effective"@ || name == "eff"@ || name == "pivot"@ || name == "mono"@ {
            Some(BandMode::Effective)
        } else {
            None
        }
    }

    /// The band mode with a name that is already in lower case.
    pub fn from_lowercase(name: &str) -> (r: Option<BandMode>)
        ensures
            r == BandMode::named(name@),
    {
        if same_text(name, "integrated") || same_text(name, "integrate") || same_text(name, "full")
            || same_text(name, "table") {
            Some(BandMode::Integrated)
        } else if same_text(name, "effective") || same_text(name, "eff") || same_text(name, "pivot")
            || same_text(name, "mono") {
            Some(BandMode::Effective)
        } else {
            None
        }
    }

    /// The band mode with a name in any case. Where the name holds characters
    /// beyond ASCII, their lower-case forms are the ones Unicode gives.
    pub fn from_str(s: &str) -> (r: Option<BandMode>)
        ensures
            r == BandMode::named(text::lowercase(s@)),
            vstd::utf8::is_ascii_chars(s@) ==> r == BandMode::named(text::ascii_lowercase(s@)),
    {
        let lower: String = s.to_lowercase();
        BandMode::from_lowercase(lower.as_str())
    }
}

/// Available passbands.
#[derive(Debug, Clone, Copy, PartialEq, Eq, Structural)]
pub enum Passband {
    Bolometric, ZtfG, ZtfR, JohnsonV, LsstU, LsstG, LsstR, LsstI, LsstZ, LsstY,
}

impl Passband {
    /// The passband with the lower-case name `name`, if there is one.
    pub open spec fn named(name: Seq<char>) -> Option<Passband> {
        if name == "bolometric"@ || name == "bol"@ {
            Some(Passband::Bolometric)
        } else if name == "ztf_g"@ || name == "ztf-g"@ || name == "g"@ {
            Some(Passband::ZtfG)
        } else if name == "ztf_r"@ || name == "ztf-r"@ || name == "r"@ {
            Some(Passband::ZtfR)
        } else if name == "johnson_v"@ || name == "johnson-v"@ {
            Some(Passband::JohnsonV)
        } else if name == "lsst_u"@ || name == "lsst-u"@ || name == "u"@ {
            Some(Passband::LsstU)
        } else if name == "lsst_g"@ || name == "lsst-g"@ {
            Some(Passband::LsstG)
        } else if name == "lsst_r"@ || name == "lsst-r"@ {
            Some(Passband::LsstR)
        } else if name == "lsst_i"@ || name == "lsst-i"@ || name == "i"@ {
            Some(Passband::LsstI)
        } else if name == "lsst_z"@ || name == "lsst-z"@ || name == "z"@ {
            Some(Passband::LsstZ)
        } else if name == "lsst_y"@ || name == "lsst-y"@ || name == "y"@ {
            Some(Passband::LsstY)
        } else {
            None
        }
    }

    /// The passband with a name that is already in lower case.
    pub fn from_lowercase(name: &str) -> (r: Option<Passband>)
        ensures
            r == Passband::named(name@),
    {
        if same_text(name, "bolometric") || same_text(name, "bol") {
            Some(Passband::Bolometric)
        } else if same_text(name, "ztf_g") || same_text(name, "ztf-g") || same_text(name, "g") {
            Some(Passband::ZtfG)
        } else if same_text(name, "ztf_r") || same_text(name, "ztf-r") || same_text(name, "r") {
            Some(Passband::ZtfR)
        } else if same_text(name, "johnson_v") || same_text(name, "johnson-v") {
            Some(Passband::JohnsonV)
        } else if same_text(name, "lsst_u") || same_text(name, "lsst-u") || same_text(name, "u") {
            Some(Passband::LsstU)
        } else if same_text(name, "lsst_g") || same_text(name, "lsst-g") {
            Some(Passband::LsstG)
        } else if same_text(name, "lsst_r") || same_text(name, "lsst-r") {
            Some(Passband::LsstR)
        } else if same_text(name, "lsst_i") || same_text(name, "lsst-i") || same_text(name, "i") {
            Some(Passband::LsstI)
        } else if same_text(name, "lsst_z") || same_text(name, "lsst-z") || same_text(name, "z") {
            Some(Passband::LsstZ)
        } else if same_text(name, "lsst_y") || same_text(name, "lsst-y") || same_text(name, "y") {
            Some(Passband::LsstY)
        } else {
            None
        }
    }

    /// The passband with a name in any case. Where the name holds characters
    /// beyond ASCII, their lower-case forms are the ones Unicode gives.
    pub fn from_str(s: &str) -> (r: Option<Passband>)
        ensures
            r == Passband::named(text::lowercase(s@)),
            vstd::utf8::is_ascii_chars(s@) ==> r == Passband::named(text::ascii_lowercase(s@)),
    {
        let lower: String = s.to_lowercase();
        Passband::from_lowercase(lower.as_str())
    }

    /// The default linear limb-darkening coefficient, in hundredths.
    pub open spec fn limb_darkening(self) -> u32 {
        match self {
            Passband::Bolometric => 50,
            Passband::ZtfG => 65,
            Passband::ZtfR => 45,
            Passband::JohnsonV => 55,
            Passband::LsstU => 78,
            Passband::LsstG => 66,
            Passband::LsstR => 52,
            Passband::LsstI => 43,
            Passband::LsstZ => 37,
            Passband::LsstY => 33,
        }
    }

    /// Default linear limb darkening coefficient for a solar-type star, in
    /// hundredths.
    pub fn default_ld(&self) -> (r: u32)
        ensures
            r == self.limb_darkening(),
    {
        match self {
            Passband::Bolometric => 50,
            Passband::ZtfG => 65,
            Passband::ZtfR => 45,
            Passband::JohnsonV => 55,
            // Linear limb-darkening coefficients decrease toward the red.
            Passband::LsstU => 78,
            Passband::LsstG => 66,
            Passband::LsstR => 52,
            Passband::LsstI => 43,
            Passband::LsstZ => 37,
            Passband::LsstY => 33,
        }
    }
}

// ---------------------------------------------------------------------------
// LSST ordering
// ---------------------------------------------------------------------------

/// The LSST bands, blue to red.
pub open spec fn ugrizy_bands() -> Seq<Passband> {
    seq![
        Passband::LsstU,
        Passband::LsstG,
        Passband::LsstR,
        Passband::LsstI,
        Passband::LsstZ,
        Passband::LsstY,
    ]
}

/// The LSST bands, blue to red.
pub fn ugrizy() -> (r: Vec<Passband>)
    ensures
        r@ == ugrizy_bands(),
{
    let r: Vec<Passband> = vec![
        Passband::LsstU,
        Passband::LsstG,
        Passband::LsstR,
        Passband::LsstI,
        Passband::LsstZ,
        Passband::LsstY,
    ];
    assert(r@ =~= ugrizy_bands());
    r
}

/// Index of an LSST band in the ugrizy ordering, or None for any other band.
pub open spec fn lsst_slot(passband: Passband) -> Option<usize> {
    match passband {
        Passband::LsstU => Some(0),
        Passband::LsstG => Some(1),
        Passband::LsstR => Some(2),
        Passband::LsstI => Some(3),
        Passband::LsstZ => Some(4),
        Passband::LsstY => Some(5),
        _ => None,
    }
}

/// Index of an LSST band in the ugrizy ordering, or None for any other band.
pub fn lsst_index(passband: Passband) -> (r: Option<usize>)
    ensures
        r == lsst_slot(passband),
{
    match passband {
        Passband::LsstU => Some(0),
        Passband::LsstG => Some(1),
        Passband::LsstR => Some(2),
        Passband::LsstI => Some(3),
        Passband::LsstZ => Some(4),
        Passband::LsstY => Some(5),
        _ => None,
    }
}

/// The tabulated throughput for an LSST band, or None for every other band.
/// `curves` holds one table per LSST band in ugrizy order.
pub fn lsst_table<'a, C>(curves: &'a Vec<C>, passband: Passband) -> (r: Option<&'a C>)
    requires
        curves.len() == ugrizy_bands().len(),
    ensures
        r == (match lsst_slot(passband) {
            Some(i) => Some(&curves@[i as int]),
            None => None,
        }),
{
    match lsst_index(passband) {
        Some(i) => Some(lsst_curve(curves, i)),
        None => None,
    }
}

// ---------------------------------------------------------------------------
// Transmission
// ---------------------------------------------------------------------------

/// A Gaussian response cut to a window, all in nm.
#[derive(Debug, Clone, Copy, PartialEq, Eq, Structural)]
pub struct GaussianBand {
    pub from_nm: u32,
    pub to_nm: u32,
    pub peak_nm: u32,
    pub width_nm: u32,
}

/// The response of a passband to wavelength.
#[derive(Debug, Clone, Copy, PartialEq, Eq, Structural)]
pub enum Transmission {
    /// A Gaussian inside its window and zero outside.
    Gaussian(GaussianBand),
    /// Linear interpolation in the table of the LSST band with this index.
    Table(usize),
    /// Every wavelength passes in full.
    Full,
}

/// The response of each passband.
pub open spec fn transmission_of(passband: Passband) -> Transmission {
    match passband {
        Passband::ZtfG => Transmission::Gaussian(
            GaussianBand { from_nm: 400, to_nm: 560, peak_nm: 480, width_nm: 40 },
        ),
        Passband::ZtfR => Transmission::Gaussian(
            GaussianBand { from_nm: 560, to_nm: 730, peak_nm: 640, width_nm: 45 },
        ),
        Passband::JohnsonV => Transmission::Gaussian(
            GaussianBand { from_nm: 480, to_nm: 640, peak_nm: 550, width_nm: 40 },
        ),
        Passband::Bolometric => Transmission::Full,
        _ => Transmission::Table(lsst_slot(passband)->0),
    }
}

/// The response of a passband.
pub fn transmission_rule(passband: Passband) -> (r: Transmission)
    ensures
        r == transmission_of(passband),
{
    match passband {
        Passband::ZtfG => Transmission::Gaussian(
            GaussianBand { from_nm: 400, to_nm: 560, peak_nm: 480, width_nm: 40 },
        ),
        Passband::ZtfR => Transmission::Gaussian(
            GaussianBand { from_nm: 560, to_nm: 730, peak_nm: 640, width_nm: 45 },
        ),
        Passband::JohnsonV => Transmission::Gaussian(
            GaussianBand { from_nm: 480, to_nm: 640, peak_nm: 550, width_nm: 40 },
        ),
        Passband::LsstU => Transmission::Table(0),
        Passband::LsstG => Transmission::Table(1),
        Passband::LsstR => Transmission::Table(2),
        Passband::LsstI => Transmission::Table(3),
        Passband::LsstZ => Transmission::Table(4),
        Passband::LsstY => Transmission::Table(5),
        Passband::Bolometric => Transmission::Full,
    }
}

/// Where an interpolated value comes from.
#[derive(Debug, PartialEq, Eq)]
pub enum Lookup<T> {
    /// One entry, taken as it is.
    Entry(T),
    /// Two neighbours, to be interpolated between.
    Between(T, T),
}

/// What a throughput table gives at a position on it whose whole part is
/// `floor`: the last entry there, and two neighbouring entries before it.
pub open spec fn throughput_lookup<T>(curve: Seq<T>, floor: int) -> Lookup<T> {
    if floor + 1 >= curve.len() {
        Lookup::Entry(curve.last())
    } else {
        Lookup::Between(curve[floor], curve[floor + 1])
    }
}

/// The entries of a throughput table to use at a position on it whose whole
/// part is `floor`.
pub fn throughput_at<T: Copy>(curve: &Vec<T>, floor: usize) -> (r: Lookup<T>)
    requires
        curve.len() == NLAM,
    ensures
        r == throughput_lookup(curve@, floor as int),
{
    if floor >= NLAM - 1 {
        Lookup::Entry(curve[NLAM - 1])
    } else {
        Lookup::Between(curve[floor], curve[floor + 1])
    }
}

/// The six LSST tables, each on the declared grid.
pub open spec fn full_tables<T>(curves: Seq<Vec<T>>) -> bool {
    &&& curves.len() == ugrizy_bands().len()
    &&& forall|i: int| 0 <= i < curves.len() ==> (#[trigger] curves[i])@.len() == NLAM
}

/// `r` is what a lookup gives at the place `p` with the whole part `k`: an entry
/// as it is, or two neighbours blended.
pub open spec fn lookup_gives<P, T, Blend: Fn(P, usize, T, T) -> T>(
    found: Lookup<T>,
    p: P,
    k: usize,
    blend: Blend,
    r: T,
) -> bool {
    match found {
        Lookup::Entry(v) => r == v,
        Lookup::Between(a, b) => call_ensures(blend, (p, k, a, b), r),
    }
}

/// `r` is the response of a Gaussian band at the wavelength `lam`: the bell
/// inside the window, and zero outside.
pub open spec fn bell_gives<
    X,
    T,
    Inside: Fn(X, GaussianBand) -> bool,
    Bell: Fn(X, GaussianBand) -> T,
>(g: GaussianBand, lam: X, zero: T, inside: Inside, bell: Bell, r: T) -> bool {
    ||| call_ensures(inside, (lam, g), false) && r == zero
    ||| call_ensures(inside, (lam, g), true) && call_ensures(bell, (lam, g), r)
}

fn bell_at<
    X: Copy,
    T: Copy,
    Inside: Fn(X, GaussianBand) -> bool,
    Bell: Fn(X, GaussianBand) -> T,
>(g: GaussianBand, lam: X, zero: T, inside: &Inside, bell: &Bell) -> (r: T)
    requires
        forall|x: X, b: GaussianBand| #[trigger] call_requires(*inside, (x, b)),
        forall|x: X, b: GaussianBand| #[trigger] call_requires(*bell, (x, b)),
    ensures
        bell_gives(g, lam, zero, *inside, *bell, r),
{
    if inside(lam, g) {
        bell(lam, g)
    } else {
        zero
    }
}

/// `r` is what a throughput table gives at the place `p`: zero outside the grid,
/// and else what the entries around it give.
pub open spec fn place_gives<
    P,
    T,
    Outside: Fn(P, usize) -> bool,
    Floor: Fn(P) -> usize,
    Blend: Fn(P, usize, T, T) -> T,
>(
    curve: Seq<T>,
    p: P,
    zero: T,
    outside: Outside,
    floor: Floor,
    blend: Blend,
    r: T,
) -> bool {
    ||| call_ensures(outside, (p, (NLAM - 1) as usize), true) && r == zero
    ||| exists|k: usize|
        {
            &&& call_ensures(outside, (p, (NLAM - 1) as usize), false)
            &&& #[trigger] call_ensures(floor, (p,), k)
            &&& lookup_gives(throughput_lookup(curve, k as int), p, k, blend, r)
        }
}

/// `r` is the transmission of a response at the wavelength `lam`.
pub open spec fn transmits<
    X,
    P,
    T,
    Inside: Fn(X, GaussianBand) -> bool,
    Bell: Fn(X, GaussianBand) -> T,
    Place: Fn(X, u32, u32) -> P,
    Outside: Fn(P, usize) -> bool,
    Floor: Fn(P) -> usize,
    Blend: Fn(P, usize, T, T) -> T,
>(
    response: Transmission,
    curves: Seq<Vec<T>>,
    lam: X,
    zero: T,
    one: T,
    inside: Inside,
    bell: Bell,
    place: Place,
    outside: Outside,
    floor: Floor,
    blend: Blend,
    r: T,
) -> bool {
    match response {
        Transmission::Full => r == one,
        Transmission::Gaussian(g) => bell_gives(g, lam, zero, inside, bell, r),
        Transmission::Table(i) => exists|p: P|
            {
                &&& #[trigger] call_ensures(place, (lam, LAM_LO_NM, LAM_STEPS_PER_NM), p)
                &&& place_gives(curves[i as int]@, p, zero, outside, floor, blend, r)
            },
    }
}

/// Approximate transmission function for a passband at a wavelength.
///
/// `inside` says whether the wavelength lies in a Gaussian band's window and
/// `bell` is the Gaussian there. `place` is where a wavelength lies on a grid
/// with the given first wavelength and points per nm. `outside` says that a
/// place lies before the first point or beyond the last, whose index is given,
/// `floor` is the whole part of a place, and `blend` interpolates between the
/// two entries around it.
pub fn transmission<
    X: Copy,
    P: Copy,
    T: Copy,
    Inside: Fn(X, GaussianBand) -> bool,
    Bell: Fn(X, GaussianBand) -> T,
    Place: Fn(X, u32, u32) -> P,
    Outside: Fn(P, usize) -> bool,
    Floor: Fn(P) -> usize,
    Blend: Fn(P, usize, T, T) -> T,
>(
    lam: X,
    passband: Passband,
    curves: &Vec<Vec<T>>,
    zero: T,
    one: T,
    inside: Inside,
    bell: Bell,
    place: Place,
    outside: Outside,
    floor: Floor,
    blend: Blend,
) -> (r: T)
    requires
        full_tables(curves@),
        forall|x: X, g: GaussianBand| #[trigger] call_requires(inside, (x, g)),
        forall|x: X, g: GaussianBand| #[trigger] call_requires(bell, (x, g)),
        forall|x: X, lo: u32, n: u32| #[trigger] call_requires(place, (x, lo, n)),
        forall|p: P, last: usize| #[trigger] call_requires(outside, (p, last)),
        forall|p: P| #[trigger] call_requires(floor, (p,)),
        forall|p: P, k: usize, a: T, b: T| #[trigger] call_requires(blend, (p, k, a, b)),
    ensures
        transmits(
            transmission_of(passband),
            curves@,
            lam, zero, one, inside, bell, place, outside, floor, blend, r,
        ),
{
    match transmission_rule(passband) {
        Transmission::Full => one,
        Transmission::Gaussian(g) => bell_at(g, lam, zero, &inside, &bell),
        Transmission::Table(i) => {
            let p: P = place(lam, LAM_LO_NM, LAM_STEPS_PER_NM);
            if outside(p, NLAM - 1) {
                zero
            } else {
                let curve: &Vec<T> = lsst_curve(curves, i);
                let k: usize = floor(p);
                match throughput_at(curve, k) {
                    Lookup::Entry(v) => v,
                    Lookup::Between(a, b) => blend(p, k, a, b),
                }
            }
        },
    }
}

// ---------------------------------------------------------------------------
// Surface brightness
// ---------------------------------------------------------------------------

/// The law that gives a band's surface brightness at a temperature.
#[derive(Debug, Clone, Copy, PartialEq, Eq, Structural)]
pub enum BrightnessLaw {
    /// Planck at the pivot wavelength of the LSST band with this index.
    Pivot(usize),
    /// Planck integrated against the table of the LSST band with this index.
    Table(usize),
    /// Stefan-Boltzmann, the fourth power of the temperature.
    FourthPower,
    /// Planck integrated against a Gaussian response.
    Gaussian(GaussianBand),
}

/// The law for a band when the LSST treatment is `mode`.
pub open spec fn law_of(passband: Passband, mode: BandMode) -> BrightnessLaw {
    match (transmission_of(passband), mode) {
        (Transmission::Table(i), BandMode::Effective) => BrightnessLaw::Pivot(i),
        (Transmission::Table(i), BandMode::Integrated) => BrightnessLaw::Table(i),
        (Transmission::Gaussian(g), _) => BrightnessLaw::Gaussian(g),
        (Transmission::Full, _) => BrightnessLaw::FourthPower,
    }
}

/// The law for a band when the LSST treatment is `mode`.
pub fn brightness_law(passband: Passband, mode: BandMode) -> (r: BrightnessLaw)
    ensures
        r == law_of(passband, mode),
{
    match transmission_rule(passband) {
        Transmission::Table(i) => match mode {
            BandMode::Effective => BrightnessLaw::Pivot(i),
            BandMode::Integrated => BrightnessLaw::Table(i),
        },
        Transmission::Gaussian(g) => BrightnessLaw::Gaussian(g),
        Transmission::Full => BrightnessLaw::FourthPower,
    }
}

/// Number of midpoints at which a Gaussian band is sampled.
pub const GAUSS_POINTS: usize = 200;

/// First wavelength of the range in which a Gaussian band is sampled, nm.
pub const GAUSS_LO_NM: u32 = 300;

/// Last wavelength of the range in which a Gaussian band is sampled, nm.
pub const GAUSS_HI_NM: u32 = 1100;

/// `sample` is the response of a Gaussian band at midpoint `k`.
pub open spec fn sample_at<
    T,
    Midpoint: Fn(u32, u32, usize, usize) -> T,
    Inside: Fn(T, GaussianBand) -> bool,
    Bell: Fn(T, GaussianBand) -> T,
>(
    g: GaussianBand,
    zero: T,
    midpoint: Midpoint,
    inside: Inside,
    bell: Bell,
    k: int,
    sample: T,
) -> bool {
    exists|lam: T|
        {
            &&& #[trigger] call_ensures(
                midpoint,
                (GAUSS_LO_NM, GAUSS_HI_NM, GAUSS_POINTS, k as usize),
                lam,
            )
            &&& bell_gives(g, lam, zero, inside, bell, sample)
        }
}

/// `samples` are the responses of a Gaussian band at the midpoints, in order.
pub open spec fn sampled<
    T,
    Midpoint: Fn(u32, u32, usize, usize) -> T,
    Inside: Fn(T, GaussianBand) -> bool,
    Bell: Fn(T, GaussianBand) -> T,
>(
    g: GaussianBand,
    zero: T,
    midpoint: Midpoint,
    inside: Inside,
    bell: Bell,
    samples: Seq<T>,
) -> bool {
    forall|k: int|
        0 <= k < samples.len() ==> sample_at(
            g,
            zero,
            midpoint,
            inside,
            bell,
            k,
            #[trigger] samples[k],
        )
}

fn gaussian_samples<
    T: Copy,
    Midpoint: Fn(u32, u32, usize, usize) -> T,
    Inside: Fn(T, GaussianBand) -> bool,
    Bell: Fn(T, GaussianBand) -> T,
>(g: GaussianBand, zero: T, midpoint: &Midpoint, inside: &Inside, bell: &Bell) -> (r: Vec<T>)
    requires
        forall|lo: u32, hi: u32, n: usize, k: usize|
            k < n ==> #[trigger] call_requires(*midpoint, (lo, hi, n, k)),
        forall|x: T, b: GaussianBand| #[trigger] call_requires(*inside, (x, b)),
        forall|x: T, b: GaussianBand| #[trigger] call_requires(*bell, (x, b)),
    ensures
        r@.len() == GAUSS_POINTS,
        sampled(g, zero, *midpoint, *inside, *bell, r@),
{
    let mut out: Vec<T> = Vec::new();
    while out.len() < GAUSS_POINTS
        invariant
            out.len() <= GAUSS_POINTS,
            forall|lo: u32, hi: u32, n: usize, k: usize|
            k < n ==> #[trigger] call_requires(*midpoint, (lo, hi, n, k)),
            forall|x: T, b: GaussianBand| #[trigger] call_requires(*inside, (x, b)),
            forall|x: T, b: GaussianBand| #[trigger] call_requires(*bell, (x, b)),
            sampled(g, zero, *midpoint, *inside, *bell, out@),
        decreases GAUSS_POINTS - out.len(),
    {
        let k: usize = out.len();
        let lam: T = midpoint(GAUSS_LO_NM, GAUSS_HI_NM, GAUSS_POINTS, k);
        let sample: T = bell_at(g, lam, zero, inside, bell);
        assert(call_ensures(
            *midpoint,
            (GAUSS_LO_NM, GAUSS_HI_NM, GAUSS_POINTS, (k as int) as usize),
            lam,
        ));
        assert(sample_at(g, zero, *midpoint, *inside, *bell, k as int, sample));
        out.push(sample);
    }
    out
}

/// `r` is what a law gives: one evaluation for the pivot and fourth-power laws,
/// and for the integrals the sum over all sample points in order, of a table or
/// of a Gaussian response.
pub open spec fn law_gives<
    T,
    Pivot: Fn(T, T) -> T,
    Fourth: Fn(T) -> T,
    TableTerm: Fn(T, usize, T) -> Option<T>,
    Midpoint: Fn(u32, u32, usize, usize) -> T,
    Inside: Fn(T, GaussianBand) -> bool,
    Bell: Fn(T, GaussianBand) -> T,
    GaussTerm: Fn(T, usize, T) -> Option<T>,
    Plus: Fn(T, T) -> T,
>(
    law: BrightnessLaw,
    t_eff: T,
    curves: Seq<Vec<T>>,
    pivots: Seq<T>,
    zero: T,
    pivot: Pivot,
    fourth: Fourth,
    table_term: TableTerm,
    midpoint: Midpoint,
    inside: Inside,
    bell: Bell,
    gauss_term: GaussTerm,
    plus: Plus,
    r: T,
) -> bool {
    match law {
        BrightnessLaw::Pivot(i) => call_ensures(pivot, (pivots[i as int], t_eff), r),
        BrightnessLaw::FourthPower => call_ensures(fourth, (t_eff,), r),
        BrightnessLaw::Table(i) => exists|sums: Seq<T>|
            {
                &&& #[trigger] sum::running_sum(
                    t_eff,
                    curves[i as int]@,
                    zero,
                    table_term,
                    plus,
                    sums,
                )
                &&& r == sums.last()
            },
        BrightnessLaw::Gaussian(g) => exists|samples: Seq<T>, sums: Seq<T>|
            {
                &&& samples.len() == GAUSS_POINTS
                &&& sampled(g, zero, midpoint, inside, bell, samples)
                &&& #[trigger] sum::running_sum(t_eff, samples, zero, gauss_term, plus, sums)
                &&& r == sums.last()
            },
    }
}

/// Surface brightness at a temperature, with the LSST treatment chosen
/// explicitly.
///
/// `curves` and `pivots` are the throughput tables and pivot wavelengths of the
/// LSST bands in ugrizy order. `pivot` is Planck at a wavelength and a
/// temperature, and `fourth` is Stefan-Boltzmann. `table_term` is the share of
/// one grid point with the given throughput in the integral over a table, with
/// none where the band lets nothing through. `midpoint` is the wavelength in the
/// middle of one of so many equal parts of a range, `inside` and `bell` are as
/// in `transmission`, and `gauss_term` is the share of one midpoint with the
/// given response in the integral over a Gaussian band.
pub fn surface_brightness_mode<
    T: Copy,
    Pivot: Fn(T, T) -> T,
    Fourth: Fn(T) -> T,
    TableTerm: Fn(T, usize, T) -> Option<T>,
    Midpoint: Fn(u32, u32, usize, usize) -> T,
    Inside: Fn(T, GaussianBand) -> bool,
    Bell: Fn(T, GaussianBand) -> T,
    GaussTerm: Fn(T, usize, T) -> Option<T>,
    Plus: Fn(T, T) -> T,
>(
    t_eff: T,
    passband: Passband,
    mode: BandMode,
    curves: &Vec<Vec<T>>,
    pivots: &Vec<T>,
    zero: T,
    pivot: &Pivot,
    fourth: &Fourth,
    table_term: &TableTerm,
    midpoint: &Midpoint,
    inside: &Inside,
    bell: &Bell,
    gauss_term: &GaussTerm,
    plus: &Plus,
) -> (r: T)
    requires
        full_tables(curves@),
        pivots.len() == ugrizy_bands().len(),
        forall|x: T, t: T| #[trigger] call_requires(*pivot, (x, t)),
        forall|t: T| #[trigger] call_requires(*fourth, (t,)),
        forall|t: T, k: usize, s: T|
            k < NLAM ==> #[trigger] call_requires(*table_term, (t, k, s)),
        forall|lo: u32, hi: u32, n: usize, k: usize|
            k < n ==> #[trigger] call_requires(*midpoint, (lo, hi, n, k)),
        forall|x: T, g: GaussianBand| #[trigger] call_requires(*inside, (x, g)),
        forall|x: T, g: GaussianBand| #[trigger] call_requires(*bell, (x, g)),
        forall|t: T, k: usize, s: T|
            k < GAUSS_POINTS ==> #[trigger] call_requires(*gauss_term, (t, k, s)),
        forall|a: T, b: T| #[trigger] call_requires(*plus, (a, b)),
    ensures
        law_gives(
            law_of(passband, mode),
            t_eff,
            curves@,
            pivots@,
            zero, *pivot, *fourth, *table_term, *midpoint, *inside, *bell, *gauss_term, *plus,
            r,
        ),
{
    match brightness_law(passband, mode) {
        BrightnessLaw::Pivot(i) => pivot(lsst_pivot_nm(pivots, i), t_eff),
        BrightnessLaw::FourthPower => fourth(t_eff),
        BrightnessLaw::Table(i) => ordered_sum(
            t_eff,
            lsst_curve(curves, i),
            zero,
            table_term,
            plus,
        ),
        BrightnessLaw::Gaussian(g) => {
            let samples: Vec<T> = gaussian_samples(g, zero, midpoint, inside, bell);
            ordered_sum(t_eff, &samples, zero, gauss_term, plus)
        },
    }
}

/// Surface brightness under the default LSST treatment.
pub fn surface_brightness<
    T: Copy,
    Pivot: Fn(T, T) -> T,
    Fourth: Fn(T) -> T,
    TableTerm: Fn(T, usize, T) -> Option<T>,
    Midpoint: Fn(u32, u32, usize, usize) -> T,
    Inside: Fn(T, GaussianBand) -> bool,
    Bell: Fn(T, GaussianBand) -> T,
    GaussTerm: Fn(T, usize, T) -> Option<T>,
    Plus: Fn(T, T) -> T,
>(
    t_eff: T,
    passband: Passband,
    curves: &Vec<Vec<T>>,
    pivots: &Vec<T>,
    zero: T,
    pivot: &Pivot,
    fourth: &Fourth,
    table_term: &TableTerm,
    midpoint: &Midpoint,
    inside: &Inside,
    bell: &Bell,
    gauss_term: &GaussTerm,
    plus: &Plus,
) -> (r: T)
    requires
        full_tables(curves@),
        pivots.len() == ugrizy_bands().len(),
        forall|x: T, t: T| #[trigger] call_requires(*pivot, (x, t)),
        forall|t: T| #[trigger] call_requires(*fourth, (t,)),
        forall|t: T, k: usize, s: T|
            k < NLAM ==> #[trigger] call_requires(*table_term, (t, k, s)),
        forall|lo: u32, hi: u32, n: usize, k: usize|
            k < n ==> #[trigger] call_requires(*midpoint, (lo, hi, n, k)),
        forall|x: T, g: GaussianBand| #[trigger] call_requires(*inside, (x, g)),
        forall|x: T, g: GaussianBand| #[trigger] call_requires(*bell, (x, g)),
        forall|t: T, k: usize, s: T|
            k < GAUSS_POINTS ==> #[trigger] call_requires(*gauss_term, (t, k, s)),
        forall|a: T, b: T| #[trigger] call_requires(*plus, (a, b)),
    ensures
        law_gives(
            law_of(passband, BandMode::Effective),
            t_eff,
            curves@,
            pivots@,
            zero, *pivot, *fourth, *table_term, *midpoint, *inside, *bell, *gauss_term, *plus,
            r,
        ),
{
    surface_brightness_mode(
        t_eff,
        passband,
        BandMode::default(),
        curves, pivots, zero, pivot, fourth, table_term, midpoint, inside, bell, gauss_term,
        plus,
    )
}

// ---------------------------------------------------------------------------
// Surface brightness table
// ---------------------------------------------------------------------------

/// First tabulated temperature, K.
pub const SB_T_MIN: u32 = 2000;

/// Last tabulated temperature, K.
pub const SB_T_MAX: u32 = 10000;

/// Temperature step, K.
pub const SB_DT: u32 = 50;

/// Number of tabulated temperatures.
pub const SB_ROWS: usize = 161;

/// The temperature of row `i`, K.
pub open spec fn row_temperature(i: int) -> int {
    SB_T_MIN + SB_DT * i
}

/// `r` is what a law gives at a temperature in K.
pub open spec fn bright_at<
    T,
    Kelvin: Fn(u32) -> T,
    Pivot: Fn(T, T) -> T,
    Fourth: Fn(T) -> T,
    TableTerm: Fn(T, usize, T) -> Option<T>,
    Midpoint: Fn(u32, u32, usize, usize) -> T,
    Inside: Fn(T, GaussianBand) -> bool,
    Bell: Fn(T, GaussianBand) -> T,
    GaussTerm: Fn(T, usize, T) -> Option<T>,
    Plus: Fn(T, T) -> T,
>(
    law: BrightnessLaw,
    curves: Seq<Vec<T>>,
    pivots: Seq<T>,
    zero: T,
    kelvin: Kelvin,
    pivot: Pivot,
    fourth: Fourth,
    table_term: TableTerm,
    midpoint: Midpoint,
    inside: Inside,
    bell: Bell,
    gauss_term: GaussTerm,
    plus: Plus,
    t: u32,
    r: T,
) -> bool {
    exists|t_eff: T|
        {
            &&& #[trigger] call_ensures(kelvin, (t,), t_eff)
            &&& law_gives(
                law, t_eff, curves, pivots, zero, pivot, fourth, table_term, midpoint, inside,
                bell, gauss_term, plus, r,
            )
        }
}

/// `rows` are what a law gives at the tabulated temperatures, one each, lowest
/// first.
pub open spec fn rows_built<
    T,
    Kelvin: Fn(u32) -> T,
    Pivot: Fn(T, T) -> T,
    Fourth: Fn(T) -> T,
    TableTerm: Fn(T, usize, T) -> Option<T>,
    Midpoint: Fn(u32, u32, usize, usize) -> T,
    Inside: Fn(T, GaussianBand) -> bool,
    Bell: Fn(T, GaussianBand) -> T,
    GaussTerm: Fn(T, usize, T) -> Option<T>,
    Plus: Fn(T, T) -> T,
>(
    law: BrightnessLaw,
    curves: Seq<Vec<T>>,
    pivots: Seq<T>,
    zero: T,
    kelvin: Kelvin,
    pivot: Pivot,
    fourth: Fourth,
    table_term: TableTerm,
    midpoint: Midpoint,
    inside: Inside,
    bell: Bell,
    gauss_term: GaussTerm,
    plus: Plus,
    rows: Seq<T>,
) -> bool {
    &&& rows.len() == SB_ROWS
    &&& forall|i: int|
        0 <= i < SB_ROWS ==> bright_at(
            law, curves, pivots, zero, kelvin, pivot, fourth, table_term, midpoint, inside,
            bell, gauss_term, plus,
            row_temperature(i) as u32,
            #[trigger] rows[i],
        )
}

/// Precomputed surface brightness lookup table for fast evaluation.
///
/// Stores SB values for temperatures 2000-10000 K in steps of 50 K.
pub struct SBTable<T> {
    values: Vec<T>,
}

impl<T> View for SBTable<T> {
    type V = Seq<T>;

    closed spec fn view(&self) -> Seq<T> {
        self.values@
    }
}

impl<T> SBTable<T> {
    /// There is one value per tabulated temperature.
    #[verifier::type_invariant]
    spec fn complete(&self) -> bool {
        self.values@.len() == SB_ROWS
    }
}

impl<T: Copy> SBTable<T> {
    /// Build lookup table for a passband under the default LSST treatment.
    pub fn new<
        Kelvin: Fn(u32) -> T,
        Pivot: Fn(T, T) -> T,
        Fourth: Fn(T) -> T,
        TableTerm: Fn(T, usize, T) -> Option<T>,
        Midpoint: Fn(u32, u32, usize, usize) -> T,
        Inside: Fn(T, GaussianBand) -> bool,
        Bell: Fn(T, GaussianBand) -> T,
        GaussTerm: Fn(T, usize, T) -> Option<T>,
        Plus: Fn(T, T) -> T,
    >(
        passband: Passband,
        curves: &Vec<Vec<T>>,
        pivots: &Vec<T>,
        zero: T,
        kelvin: &Kelvin,
        pivot: &Pivot,
        fourth: &Fourth,
        table_term: &TableTerm,
        midpoint: &Midpoint,
        inside: &Inside,
        bell: &Bell,
        gauss_term: &GaussTerm,
        plus: &Plus,
    ) -> (r: Self)
        requires
            full_tables(curves@),
            pivots.len() == ugrizy_bands().len(),
            forall|t: u32| #[trigger] call_requires(*kelvin, (t,)),
            forall|x: T, t: T| #[trigger] call_requires(*pivot, (x, t)),
            forall|t: T| #[trigger] call_requires(*fourth, (t,)),
            forall|t: T, k: usize, s: T|
                k < NLAM ==> #[trigger] call_requires(*table_term, (t, k, s)),
            forall|lo: u32, hi: u32, n: usize, k: usize|
                k < n ==> #[trigger] call_requires(*midpoint, (lo, hi, n, k)),
            forall|x: T, g: GaussianBand| #[trigger] call_requires(*inside, (x, g)),
            forall|x: T, g: GaussianBand| #[trigger] call_requires(*bell, (x, g)),
            forall|t: T, k: usize, s: T|
                k < GAUSS_POINTS ==> #[trigger] call_requires(*gauss_term, (t, k, s)),
            forall|a: T, b: T| #[trigger] call_requires(*plus, (a, b)),
        ensures
            rows_built(
                law_of(passband, BandMode::Effective),
                curves@,
                pivots@,
                zero, *kelvin, *pivot, *fourth, *table_term, *midpoint, *inside, *bell,
                *gauss_term, *plus,
                r@,
            ),
    {
        SBTable::with_mode(
            passband,
            BandMode::default(),
            curves, pivots, zero, kelvin, pivot, fourth, table_term, midpoint, inside, bell,
            gauss_term, plus,
        )
    }

    /// Build lookup table with the LSST treatment chosen explicitly.
    ///
    /// The brightness is worked out once per temperature here, 161 times in
    /// total, and never inside the light curve loop. `kelvin` is the number that
    /// many K make, and the other functions are those of
    /// `surface_brightness_mode`.
    pub fn with_mode<
        Kelvin: Fn(u32) -> T,
        Pivot: Fn(T, T) -> T,
        Fourth: Fn(T) -> T,
        TableTerm: Fn(T, usize, T) -> Option<T>,
        Midpoint: Fn(u32, u32, usize, usize) -> T,
        Inside: Fn(T, GaussianBand) -> bool,
        Bell: Fn(T, GaussianBand) -> T,
        GaussTerm: Fn(T, usize, T) -> Option<T>,
        Plus: Fn(T, T) -> T,
    >(
        passband: Passband,
        mode: BandMode,
        curves: &Vec<Vec<T>>,
        pivots: &Vec<T>,
        zero: T,
        kelvin: &Kelvin,
        pivot: &Pivot,
        fourth: &Fourth,
        table_term: &TableTerm,
        midpoint: &Midpoint,
        inside: &Inside,
        bell: &Bell,
        gauss_term: &GaussTerm,
        plus: &Plus,
    ) -> (r: Self)
        requires
            full_tables(curves@),
            pivots.len() == ugrizy_bands().len(),
            forall|t: u32| #[trigger] call_requires(*kelvin, (t,)),
            forall|x: T, t: T| #[trigger] call_requires(*pivot, (x, t)),
            forall|t: T| #[trigger] call_requires(*fourth, (t,)),
            forall|t: T, k: usize, s: T|
                k < NLAM ==> #[trigger] call_requires(*table_term, (t, k, s)),
            forall|lo: u32, hi: u32, n: usize, k: usize|
                k < n ==> #[trigger] call_requires(*midpoint, (lo, hi, n, k)),
            forall|x: T, g: GaussianBand| #[trigger] call_requires(*inside, (x, g)),
            forall|x: T, g: GaussianBand| #[trigger] call_requires(*bell, (x, g)),
            forall|t: T, k: usize, s: T|
                k < GAUSS_POINTS ==> #[trigger] call_requires(*gauss_term, (t, k, s)),
            forall|a: T, b: T| #[trigger] call_requires(*plus, (a, b)),
        ensures
            rows_built(
                law_of(passband, mode),
                curves@,
                pivots@,
                zero, *kelvin, *pivot, *fourth, *table_term, *midpoint, *inside, *bell,
                *gauss_term, *plus,
                r@,
            ),
    {
        let ghost law = law_of(passband, mode);
        let mut values: Vec<T> = Vec::new();
        let mut t: u32 = SB_T_MIN;
        while t <= SB_T_MAX
            invariant
                full_tables(curves@),
                pivots.len() == ugrizy_bands().len(),
                forall|t: u32| #[trigger] call_requires(*kelvin, (t,)),
                forall|x: T, t: T| #[trigger] call_requires(*pivot, (x, t)),
                forall|t: T| #[trigger] call_requires(*fourth, (t,)),
                forall|t: T, k: usize, s: T|
                    k < NLAM ==> #[trigger] call_requires(*table_term, (t, k, s)),
                forall|lo: u32, hi: u32, n: usize, k: usize|
                    k < n ==> #[trigger] call_requires(*midpoint, (lo, hi, n, k)),
                forall|x: T, g: GaussianBand| #[trigger] call_requires(*inside, (x, g)),
                forall|x: T, g: GaussianBand| #[trigger] call_requires(*bell, (x, g)),
                forall|t: T, k: usize, s: T|
                    k < GAUSS_POINTS ==> #[trigger] call_requires(*gauss_term, (t, k, s)),
                forall|a: T, b: T| #[trigger] call_requires(*plus, (a, b)),
                law == law_of(passband, mode),
                t == row_temperature(values.len() as int),
                values.len() <= SB_ROWS,
                forall|i: int|
                    0 <= i < values.len() ==> bright_at(
                        law,
                        curves@,
                        pivots@,
                        zero, *kelvin, *pivot, *fourth, *table_term, *midpoint, *inside, *bell,
                        *gauss_term, *plus,
                        row_temperature(i) as u32,
                        #[trigger] values@[i],
                    ),
            decreases SB_ROWS - values.len(),
        {
            let t_eff: T = kelvin(t);
            let value: T = surface_brightness_mode(
                t_eff, passband, mode, curves, pivots, zero, pivot, fourth, table_term,
                midpoint, inside, bell, gauss_term, plus,
            );
            assert(bright_at(
                law,
                curves@,
                pivots@,
                zero, *kelvin, *pivot, *fourth, *table_term, *midpoint, *inside, *bell,
                *gauss_term, *plus, t, value,
            ));
            values.push(value);
            t += SB_DT;
        }
        SBTable { values }
    }

    /// Interpolate surface brightness at a given temperature.
    ///
    /// `place` is where a temperature lies on a table with the given first
    /// temperature and step. `floor` is the whole part of a place, and 0 where
    /// that is negative, `negative` says that a place lies before the first
    /// row, and `blend` interpolates between the two rows around a place.
    pub fn eval<
        X: Copy,
        P: Copy,
        Place: Fn(X, u32, u32) -> P,
        Floor: Fn(P) -> usize,
        Negative: Fn(P) -> bool,
        Blend: Fn(P, usize, T, T) -> T,
    >(
        &self,
        t_eff: X,
        place: &Place,
        floor: &Floor,
        negative: &Negative,
        blend: &Blend,
    ) -> (r: T)
        requires
            forall|x: X, t: u32, dt: u32| #[trigger] call_requires(place, (x, t, dt)),
            forall|p: P| #[trigger] call_requires(floor, (p,)),
            forall|p: P| #[trigger] call_requires(negative, (p,)),
            forall|p: P, k: usize, a: T, b: T| #[trigger] call_requires(blend, (p, k, a, b)),
        ensures
            rows_give(self@, t_eff, place, floor, negative, blend, r),
    {
        let p: P = place(t_eff, SB_T_MIN, SB_DT);
        let k: usize = floor(p);
        match self.rows_at(k, negative(p)) {
            Lookup::Entry(v) => v,
            Lookup::Between(a, b) => blend(p, k, a, b),
        }
    }

    /// The rows to use at a place whose whole part is `floor`. `below` says
    /// that the place lies before the first row.
    pub fn rows_at(&self, floor: usize, below: bool) -> (r: Lookup<T>)
        ensures
            r == brightness_lookup(self@, floor as int, below),
    {
        proof {
            use_type_invariant(self);
        }
        if floor >= self.values.len() - 1 {
            return Lookup::Entry(self.values[self.values.len() - 1]);
        }
        if below {
            return Lookup::Entry(self.values[0]);
        }
        Lookup::Between(self.values[floor], self.values[floor + 1])
    }
}

/// `r` is what the rows of a brightness table give at a temperature.
pub open spec fn rows_give<
    X,
    P,
    T,
    Place: Fn(X, u32, u32) -> P,
    Floor: Fn(P) -> usize,
    Negative: Fn(P) -> bool,
    Blend: Fn(P, usize, T, T) -> T,
>(
    rows: Seq<T>,
    t_eff: X,
    place: &Place,
    floor: &Floor,
    negative: &Negative,
    blend: &Blend,
    r: T,
) -> bool {
    exists|p: P, k: usize, below: bool|
        {
            &&& #[trigger] call_ensures(place, (t_eff, SB_T_MIN, SB_DT), p)
            &&& #[trigger] call_ensures(floor, (p,), k)
            &&& #[trigger] call_ensures(negative, (p,), below)
            &&& lookup_gives(brightness_lookup(rows, k as int, below), p, k, *blend, r)
        }
}

/// What a brightness table gives at a position whose whole part is `floor`:
/// the last row from there on up, the first row below the table, and two
/// neighbouring rows in between.
pub open spec fn brightness_lookup<T>(rows: Seq<T>, floor: int, below: bool) -> Lookup<T> {
    if floor >= rows.len() - 1 {
        Lookup::Entry(rows.last())
    } else if below {
        Lookup::Entry(rows[0])
    } else {
        Lookup::Between(rows[floor], rows[floor + 1])
    }
}

// ---------------------------------------------------------------------------
// Laws
// ---------------------------------------------------------------------------

/// Case does not matter in a passband name: every name is listed in lower case,
/// so any ASCII spelling that lowers to it reads as the same value, and two
/// spellings that differ only in the case of ASCII letters read alike.
pub proof fn passband_names_ignore_case(a: Seq<char>, b: Seq<char>)
    requires
        text::ascii_lowercase(a) == text::ascii_lowercase(b),
    ensures
        Passband::named(text::ascii_lowercase(a)) == Passband::named(text::ascii_lowercase(b)),
        Passband::named(a) is Some ==> text::ascii_lowercase(a) == a && Passband::named(
            text::ascii_lowercase(b),
        ) == Passband::named(a),
{
    names_are_spelled_plainly(a);
}

/// A passband name with each underscore written as a hyphen.
pub open spec fn hyphenated(name: Seq<char>) -> Seq<char> {
    Seq::new(
        name.len(),
        |i: int|
            if name[i] == '_' {
                '-'
            } else {
                name[i]
            },
    )
}

/// Underscore and hyphen are interchangeable in a passband name: names that
/// differ in nothing else read as the same passband, or both as none.
pub proof fn underscores_and_hyphens_read_alike(a: Seq<char>, b: Seq<char>)
    requires
        hyphenated(a) == hyphenated(b),
    ensures
        Passband::named(a) == Passband::named(b),
{
    names_are_spelled_plainly(a);
    names_are_spelled_plainly(b);
}

/// The listed names are in lower case, and each that holds an underscore is
/// listed with a hyphen in its place too.
proof fn names_are_spelled_plainly(name: Seq<char>)
    ensures
        Passband::named(name) is Some ==> text::ascii_lowercase(name) == name,
        Passband::named(name) == Passband::named(hyphenated(name)),
{
    reveal_strlit("bolometric");
    reveal_strlit("bol");
    reveal_strlit("ztf_g");
    reveal_strlit("ztf-g");
    reveal_strlit("g");
    reveal_strlit("ztf_r");
    reveal_strlit("ztf-r");
    reveal_strlit("r");
    reveal_strlit("johnson_v");
    reveal_strlit("johnson-v");
    reveal_strlit("lsst_u");
    reveal_strlit("lsst-u");
    reveal_strlit("u");
    reveal_strlit("lsst_g");
    reveal_strlit("lsst-g");
    reveal_strlit("lsst_r");
    reveal_strlit("lsst-r");
    reveal_strlit("lsst_i");
    reveal_strlit("lsst-i");
    reveal_strlit("i");
    reveal_strlit("lsst_z");
    reveal_strlit("lsst-z");
    reveal_strlit("z");
    reveal_strlit("lsst_y");
    reveal_strlit("lsst-y");
    reveal_strlit("y");
    if Passband::named(name) is Some {
        assert(text::ascii_lowercase(name) =~= name);
    }
    plain_name(name, "bolometric"@);
    plain_name(name, "bol"@);
    plain_name(name, "g"@);
    plain_name(name, "r"@);
    plain_name(name, "u"@);
    plain_name(name, "i"@);
    plain_name(name, "z"@);
    plain_name(name, "y"@);
    paired_name(name, "ztf_g"@, "ztf-g"@, 3);
    paired_name(name, "ztf_r"@, "ztf-r"@, 3);
    paired_name(name, "johnson_v"@, "johnson-v"@, 7);
    paired_name(name, "lsst_u"@, "lsst-u"@, 4);
    paired_name(name, "lsst_g"@, "lsst-g"@, 4);
    paired_name(name, "lsst_r"@, "lsst-r"@, 4);
    paired_name(name, "lsst_i"@, "lsst-i"@, 4);
    paired_name(name, "lsst_z"@, "lsst-z"@, 4);
    paired_name(name, "lsst_y"@, "lsst-y"@, 4);
}

proof fn plain_name(name: Seq<char>, word: Seq<char>)
    requires
        forall|i: int| 0 <= i < word.len() ==> #[trigger] word[i] != '_' && word[i] != '-',
    ensures
        hyphenated(name) == word <==> name == word,
{
    if hyphenated(name) == word {
        assert forall|i: int| 0 <= i < name.len() implies name[i] == word[i] by {
            assert(hyphenated(name)[i] == word[i]);
        }
        assert(name =~= word);
    }
    if name == word {
        assert(hyphenated(name) =~= word);
    }
}

proof fn paired_name(name: Seq<char>, under: Seq<char>, hyphen: Seq<char>, at: int)
    requires
        0 <= at < hyphen.len() == under.len(),
        under[at] == '_',
        hyphen[at] == '-',
        forall|i: int|
            0 <= i < hyphen.len() && i != at ==> {
                &&& #[trigger] hyphen[i] == under[i]
                &&& hyphen[i] != '_'
                &&& hyphen[i] != '-'
            },
    ensures
        hyphenated(name) != under,
        hyphenated(name) == hyphen <==> name == under || name == hyphen,
{
    if hyphenated(name) == under {
        assert(hyphenated(name)[at] == '_');
    }
    if hyphenated(name) == hyphen {
        assert forall|i: int| 0 <= i < name.len() && i != at implies name[i] == hyphen[i] by {
            assert(hyphenated(name)[i] == hyphen[i]);
        }
        assert(hyphenated(name)[at] == '-');
        if name[at] == '_' {
            assert(name =~= under);
        } else {
            assert(name =~= hyphen);
        }
    }
    if name == under || name == hyphen {
        assert(hyphenated(name) =~= hyphen);
    }
}

/// Case does not matter in a band mode: every name is listed in lower case, so
/// any ASCII spelling that lowers to it reads as the same value, and two
/// spellings that differ only in the case of ASCII letters read alike.
pub proof fn band_mode_names_ignore_case(a: Seq<char>, b: Seq<char>)
    requires
        text::ascii_lowercase(a) == text::ascii_lowercase(b),
    ensures
        BandMode::named(text::ascii_lowercase(a)) == BandMode::named(text::ascii_lowercase(b)),
        BandMode::named(a) is Some ==> text::ascii_lowercase(a) == a && BandMode::named(
            text::ascii_lowercase(b),
        ) == BandMode::named(a),
{
    reveal_strlit("integrated");
    reveal_strlit("integrate");
    reveal_strlit("full");
    reveal_strlit("table");
    reveal_strlit("effective");
    reveal_strlit("eff");
    reveal_strlit("pivot");
    reveal_strlit("mono");
    if BandMode::named(a) is Some {
        assert(text::ascii_lowercase(a) =~= a);
    }
}

/// The index of an LSST band is its place in the ugrizy order, and every other
/// band has none.
pub proof fn lsst_slots_follow_ugrizy(passband: Passband)
    ensures
        forall|i: int|
            0 <= i < ugrizy_bands().len() ==> lsst_slot(#[trigger] ugrizy_bands()[i]) == Some(
                i as usize,
            ),
        lsst_slot(passband) matches Some(i) ==> i < ugrizy_bands().len()
            && ugrizy_bands()[i as int] == passband,
        lsst_slot(passband) is None <==> !ugrizy_bands().contains(passband),
{
    if let Some(i) = lsst_slot(passband) {
        assert(ugrizy_bands()[i as int] == passband);
    }
}

/// Only LSST honours the band mode.
pub proof fn only_lsst_honours_the_mode(passband: Passband)
    ensures
        law_of(passband, BandMode::Integrated) == law_of(passband, BandMode::Effective)
            <==> lsst_slot(passband) is None,
{
}

/// Linear limb-darkening coefficients decrease toward the red.
pub proof fn limb_darkening_decreases_toward_the_red(i: int, j: int)
    requires
        0 <= i < j < ugrizy_bands().len(),
    ensures
        ugrizy_bands()[i].limb_darkening() > ugrizy_bands()[j].limb_darkening(),
{
}

/// Tables are read for LSST alone: an LSST band transmits, and is integrated
/// over, the table at its own index, and no other band reads a table or a
/// pivot wavelength in either mode.
pub proof fn tables_are_for_lsst_alone(passband: Passband, mode: BandMode)
    ensures
        lsst_slot(passband) matches Some(i) ==> {
            &&& transmission_of(passband) == Transmission::Table(i)
            &&& law_of(passband, BandMode::Integrated) == BrightnessLaw::Table(i)
            &&& law_of(passband, BandMode::Effective) == BrightnessLaw::Pivot(i)
        },
        lsst_slot(passband) is None ==> {
            &&& !(transmission_of(passband) is Table)
            &&& !(law_of(passband, mode) is Table)
            &&& !(law_of(passband, mode) is Pivot)
        },
{
}

/// A Gaussian band peaks inside its window, and the window inside the sampled
/// range.
pub proof fn gaussian_bands_peak_in_their_window(passband: Passband)
    ensures
        transmission_of(passband) matches Transmission::Gaussian(g) ==> GAUSS_LO_NM <= g.from_nm
            < g.peak_nm < g.to_nm <= GAUSS_HI_NM && g.width_nm > 0,
{
}

/// A table gives back what it was built from. A temperature is known here by
/// its place on the table, `p`, with the whole part `k`. Below the table the
/// brightness at 2000 K comes out, and from its last row on that at 10000 K.
/// Anywhere else it is the blend of the brightnesses at the tabulated
/// temperatures on either side, which lie one step apart.
pub proof fn tables_clamp_at_their_ends_and_blend_between<
    X,
    P,
    T,
    Kelvin: Fn(u32) -> T,
    Pivot: Fn(T, T) -> T,
    Fourth: Fn(T) -> T,
    TableTerm: Fn(T, usize, T) -> Option<T>,
    Midpoint: Fn(u32, u32, usize, usize) -> T,
    Inside: Fn(T, GaussianBand) -> bool,
    Bell: Fn(T, GaussianBand) -> T,
    GaussTerm: Fn(T, usize, T) -> Option<T>,
    Plus: Fn(T, T) -> T,
    Place: Fn(X, u32, u32) -> P,
    Floor: Fn(P) -> usize,
    Negative: Fn(P) -> bool,
    Blend: Fn(P, usize, T, T) -> T,
>(
    law: BrightnessLaw,
    curves: Seq<Vec<T>>,
    pivots: Seq<T>,
    zero: T,
    kelvin: Kelvin,
    pivot: Pivot,
    fourth: Fourth,
    table_term: TableTerm,
    midpoint: Midpoint,
    inside: Inside,
    bell: Bell,
    gauss_term: GaussTerm,
    plus: Plus,
    rows: Seq<T>,
    t_eff: X,
    place: &Place,
    floor: &Floor,
    negative: &Negative,
    blend: &Blend,
    p: P,
    k: usize,
    below: bool,
    r: T,
)
    requires
        rows_built(
            law, curves, pivots, zero, kelvin, pivot, fourth, table_term, midpoint, inside,
            bell, gauss_term, plus, rows,
        ),
        rows_give(rows, t_eff, place, floor, negative, blend, r),
        forall|x: P| #[trigger] call_ensures(place, (t_eff, SB_T_MIN, SB_DT), x) ==> x == p,
        forall|n: usize| #[trigger] call_ensures(floor, (p,), n) ==> n == k,
        forall|b: bool| #[trigger] call_ensures(negative, (p,), b) ==> b == below,
    ensures
        k >= SB_ROWS - 1 ==> bright_at(
            law, curves, pivots, zero, kelvin, pivot, fourth, table_term, midpoint, inside,
            bell, gauss_term, plus, SB_T_MAX, r,
        ),
        k < SB_ROWS - 1 && below ==> bright_at(
            law, curves, pivots, zero, kelvin, pivot, fourth, table_term, midpoint, inside,
            bell, gauss_term, plus, SB_T_MIN, r,
        ),
        k < SB_ROWS - 1 && !below ==> exists|a: T, b: T|
            {
                &&& bright_at(
                    law, curves, pivots, zero, kelvin, pivot, fourth, table_term, midpoint,
                    inside, bell, gauss_term, plus,
                    (SB_T_MIN + SB_DT * k) as u32,
                    a,
                )
                &&& bright_at(
                    law, curves, pivots, zero, kelvin, pivot, fourth, table_term, midpoint,
                    inside, bell, gauss_term, plus,
                    (SB_T_MIN + SB_DT * k + SB_DT) as u32,
                    b,
                )
                &&& #[trigger] call_ensures(blend, (p, k, a, b), r)
            },
{
    let last = rows[SB_ROWS - 1];
    assert(row_temperature(SB_ROWS - 1) == SB_T_MAX);
    assert(bright_at(
        law, curves, pivots, zero, kelvin, pivot, fourth, table_term, midpoint, inside, bell,
        gauss_term, plus,
        row_temperature(SB_ROWS - 1) as u32,
        last,
    ));
    let first = rows[0];
    assert(row_temperature(0) == SB_T_MIN);
    assert(bright_at(
        law, curves, pivots, zero, kelvin, pivot, fourth, table_term, midpoint, inside, bell,
        gauss_term, plus,
        row_temperature(0) as u32,
        first,
    ));
    if k < SB_ROWS - 1 && !below {
        let a = rows[k as int];
        let b = rows[k + 1];
        assert(bright_at(
            law, curves, pivots, zero, kelvin, pivot, fourth, table_term, midpoint, inside,
            bell, gauss_term, plus,
            row_temperature(k as int) as u32,
            a,
        ));
        assert(bright_at(
            law, curves, pivots, zero, kelvin, pivot, fourth, table_term, midpoint, inside,
            bell, gauss_term, plus,
            row_temperature(k + 1) as u32,
            b,
        ));
        assert(row_temperature(k + 1) == SB_T_MIN + SB_DT * k + SB_DT);
        assert(call_ensures(blend, (p, k, a, b), r));
    }
}

/// At each of the 161 tabulated temperatures, both ends among them, the very
/// value comes out that the table was built with there: where the place `p` is
/// that of row `k`, so that a blend with the next row is row `k` alone, the
/// brightness at the temperature of row `k` comes out.
pub proof fn tabulated_temperatures_read_back<
    X,
    P,
    T,
    Kelvin: Fn(u32) -> T,
    Pivot: Fn(T, T) -> T,
    Fourth: Fn(T) -> T,
    TableTerm: Fn(T, usize, T) -> Option<T>,
    Midpoint: Fn(u32, u32, usize, usize) -> T,
    Inside: Fn(T, GaussianBand) -> bool,
    Bell: Fn(T, GaussianBand) -> T,
    GaussTerm: Fn(T, usize, T) -> Option<T>,
    Plus: Fn(T, T) -> T,
    Place: Fn(X, u32, u32) -> P,
    Floor: Fn(P) -> usize,
    Negative: Fn(P) -> bool,
    Blend: Fn(P, usize, T, T) -> T,
>(
    law: BrightnessLaw,
    curves: Seq<Vec<T>>,
    pivots: Seq<T>,
    zero: T,
    kelvin: Kelvin,
    pivot: Pivot,
    fourth: Fourth,
    table_term: TableTerm,
    midpoint: Midpoint,
    inside: Inside,
    bell: Bell,
    gauss_term: GaussTerm,
    plus: Plus,
    rows: Seq<T>,
    t_eff: X,
    place: &Place,
    floor: &Floor,
    negative: &Negative,
    blend: &Blend,
    p: P,
    k: usize,
    r: T,
)
    requires
        rows_built(
            law, curves, pivots, zero, kelvin, pivot, fourth, table_term, midpoint, inside,
            bell, gauss_term, plus, rows,
        ),
        rows_give(rows, t_eff, place, floor, negative, blend, r),
        k < SB_ROWS,
        forall|x: P| #[trigger] call_ensures(place, (t_eff, SB_T_MIN, SB_DT), x) ==> x == p,
        forall|n: usize| #[trigger] call_ensures(floor, (p,), n) ==> n == k,
        forall|b: bool| #[trigger] call_ensures(negative, (p,), b) ==> !b,
        forall|a: T, b: T, x: T| #[trigger] call_ensures(blend, (p, k, a, b), x) ==> x == a,
    ensures
        bright_at(
            law, curves, pivots, zero, kelvin, pivot, fourth, table_term, midpoint, inside,
            bell, gauss_term, plus,
            (SB_T_MIN + SB_DT * k) as u32,
            r,
        ),
{
    assert(bright_at(
        law, curves, pivots, zero, kelvin, pivot, fourth, table_term, midpoint, inside, bell,
        gauss_term, plus,
        row_temperature(k as int) as u32,
        rows[k as int],
    ));
}

/// The brightness table runs from 2000 K to 10000 K in 161 rows.
pub proof fn rows_span_the_temperature_range()
    ensures
        row_temperature(0) == SB_T_MIN,
        row_temperature(SB_ROWS - 1) == SB_T_MAX,
        forall|i: int|
            #![trigger row_temperature(i)]
            row_temperature(i + 1) - row_temperature(i) == SB_DT,
{
}

} // verus!
