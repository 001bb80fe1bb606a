//! Template banks: the table of systems to synthesize and the rows that come
//! out of it.
//!
//! The table is comma-separated and names its columns; their order does not
//! matter. `family` is contact, detached or semidetached, and it decides how
//! `r1` and `r2` are read.

use vstd::prelude::*;
use crate::params::EBParams;
use crate::passband;
use crate::star::Star;
use crate::text;
use crate::text::same_text;
use crate::EBType;

verus! {

// ---------------------------------------------------------------------------
// Columns
// ---------------------------------------------------------------------------

/// The first position at or after `from` where `cells` holds `name`.
pub open spec fn position_from(cells: Seq<Seq<char>>, name: Seq<char>, from: int) -> Option<int>
    decreases cells.len() - from,
{
    if from < 0 || from >= cells.len() {
        None
    } else if cells[from] == name {
        Some(from)
    } else {
        position_from(cells, name, from + 1)
    }
}

/// The first position where `cells` holds `name`.
pub open spec fn position_of(cells: Seq<Seq<char>>, name: Seq<char>) -> Option<int> {
    position_from(cells, name, 0)
}

/// `position_from` finds the name where there is one, and nothing before it.
pub proof fn position_is_first(cells: Seq<Seq<char>>, name: Seq<char>, from: int)
    requires
        0 <= from <= cells.len(),
    ensures
        match position_from(cells, name, from) {
            Some(i) => {
                &&& from <= i < cells.len()
                &&& cells[i] == name
                &&& forall|j: int| from <= j < i ==> #[trigger] cells[j] != name
            },
            None => forall|j: int| from <= j < cells.len() ==> #[trigger] cells[j] != name,
        },
    decreases cells.len() - from,
{
    if from < cells.len() && cells[from] != name {
        position_is_first(cells, name, from + 1);
    }
}

/// The first position where `cells` holds `name`.
pub fn position(cells: &Vec<String>, name: &str) -> (r: Option<usize>)
    ensures
        match r {
            Some(i) => position_of(text::views(cells@), name@) == Some(i as int) && i < cells.len(),
            None => position_of(text::views(cells@), name@) is None,
        },
{
    let ghost all = text::views(cells@);
    let mut i: usize = 0;
    while i < cells.len()
        invariant
            i <= cells.len(),
            all == text::views(cells@),
            position_of(all, name@) == position_from(all, name@, i as int),
        decreases cells.len() - i,
    {
        assert(all[i as int] == cells@[i as int]@);
        if same_text(cells[i].as_str(), name) {
            return Some(i);
        }
        i += 1;
    }
    None
}

/// The columns a bank must have, in the order in which they are looked for.
pub open spec fn column_names() -> Seq<Seq<char>> {
    seq![
        "family"@,
        "q"@,
        "inclination"@,
        "temperature_ratio"@,
        "primary_temperature"@,
        "r1"@,
        "r2"@,
        "companion_fill"@,
        "filling_component"@,
    ]
}

/// Where each column of a bank stands.
#[derive(Debug, Clone, Copy, PartialEq, Eq, Structural)]
pub struct Columns {
    pub family: usize,
    pub q: usize,
    pub inclination: usize,
    pub temperature_ratio: usize,
    pub primary_temperature: usize,
    pub r1: usize,
    pub r2: usize,
    pub companion_fill: usize,
    pub filling_component: usize,
}

impl Columns {
    /// The place of the column with the name at `k` in `column_names`.
    pub open spec fn slot(&self, k: int) -> usize {
        if k == 0 {
            self.family
        } else if k == 1 {
            self.q
        } else if k == 2 {
            self.inclination
        } else if k == 3 {
            self.temperature_ratio
        } else if k == 4 {
            self.primary_temperature
        } else if k == 5 {
            self.r1
        } else if k == 6 {
            self.r2
        } else if k == 7 {
            self.companion_fill
        } else {
            self.filling_component
        }
    }

    /// These are the columns of a header with the fields `cells`.
    pub open spec fn head(&self, cells: Seq<Seq<char>>) -> bool {
        forall|k: int|
            0 <= k < column_names().len() ==> position_of(
                cells,
                #[trigger] column_names()[k],
            ) == Some(self.slot(k) as int)
    }

    /// The columns that a header names, or the name of the first that it lacks.
    pub fn from_header(header: &str) -> (r: Result<Columns, String>)
        ensures
            match r {
                Ok(columns) => columns.head(text::fields_of(header@)),
                Err(name) => exists|k: int|
                    {
                        &&& 0 <= k < column_names().len()
                        &&& name@ == #[trigger] column_names()[k]
                        &&& position_of(text::fields_of(header@), name@) is None
                        &&& forall|j: int|
                            0 <= j < k ==> position_of(
                                text::fields_of(header@),
                                #[trigger] column_names()[j],
                            ) is Some
                    },
            },
    {
        let cells: Vec<String> = text::fields(header);
        let family: usize = match position(&cells, "family") {
            Some(i) => i,
            None => {
                assert(column_names()[0] == "family"@);
                return Err("family".to_owned());
            },
        };
        let q: usize = match position(&cells, "q") {
            Some(i) => i,
            None => {
                assert(column_names()[1] == "q"@);
                return Err("q".to_owned());
            },
        };
        let inclination: usize = match position(&cells, "inclination") {
            Some(i) => i,
            None => {
                assert(column_names()[2] == "inclination"@);
                return Err("inclination".to_owned());
            },
        };
        let temperature_ratio: usize = match position(&cells, "temperature_ratio") {
            Some(i) => i,
            None => {
                assert(column_names()[3] == "temperature_ratio"@);
                return Err("temperature_ratio".to_owned());
            },
        };
        let primary_temperature: usize = match position(&cells, "primary_temperature") {
            Some(i) => i,
            None => {
                assert(column_names()[4] == "primary_temperature"@);
                return Err("primary_temperature".to_owned());
            },
        };
        let r1: usize = match position(&cells, "r1") {
            Some(i) => i,
            None => {
                assert(column_names()[5] == "r1"@);
                return Err("r1".to_owned());
            },
        };
        let r2: usize = match position(&cells, "r2") {
            Some(i) => i,
            None => {
                assert(column_names()[6] == "r2"@);
                return Err("r2".to_owned());
            },
        };
        let companion_fill: usize = match position(&cells, "companion_fill") {
            Some(i) => i,
            None => {
                assert(column_names()[7] == "companion_fill"@);
                return Err("companion_fill".to_owned());
            },
        };
        let filling_component: usize = match position(&cells, "filling_component") {
            Some(i) => i,
            None => {
                assert(column_names()[8] == "filling_component"@);
                return Err("filling_component".to_owned());
            },
        };
        Ok(
            Columns {
                family,
                q,
                inclination,
                temperature_ratio,
                primary_temperature,
                r1,
                r2,
                companion_fill,
                filling_component,
            },
        )
    }
}

// ---------------------------------------------------------------------------
// Rows
// ---------------------------------------------------------------------------

/// One system of a bank, before its numbers are read.
#[derive(Debug)]
pub struct SpecRow {
    pub family: String,
    pub q: String,
    pub inclination: String,
    pub temperature_ratio: String,
    pub primary_temperature: String,
    pub r1: String,
    pub r2: String,
    pub companion_fill: String,
    pub filling_component: String,
}

impl SpecRow {
    /// The text in the column with the name at `k` in `column_names`.
    pub open spec fn cell(&self, k: int) -> Seq<char> {
        if k == 0 {
            self.family@
        } else if k == 1 {
            self.q@
        } else if k == 2 {
            self.inclination@
        } else if k == 3 {
            self.temperature_ratio@
        } else if k == 4 {
            self.primary_temperature@
        } else if k == 5 {
            self.r1@
        } else if k == 6 {
            self.r2@
        } else if k == 7 {
            self.companion_fill@
        } else {
            self.filling_component@
        }
    }

    /// This row is what `columns` find in the fields `cells`.
    pub open spec fn reads(&self, cells: Seq<Seq<char>>, columns: Columns) -> bool {
        forall|k: int|
            0 <= k < column_names().len() ==> columns.slot(k) < cells.len()
                && #[trigger] self.cell(k) == cells[columns.slot(k) as int]
    }

    /// The row that `columns` find in a line, or None if the line is too short
    /// for one of them.
    pub fn read(line: &str, columns: &Columns) -> (r: Option<SpecRow>)
        ensures
            match r {
                Some(row) => row.reads(text::fields_of(line@), *columns),
                None => exists|k: int|
                    0 <= k < column_names().len() && #[trigger] columns.slot(k)
                        >= text::fields_of(line@).len(),
            },
    {
        let cells: Vec<String> = text::fields(line);
        let ghost all = text::views(cells@);
        assert(forall|i: int| 0 <= i < all.len() ==> #[trigger] all[i] == cells@[i]@);
        let n: usize = cells.len();
        if columns.family >= n {
            assert(columns.slot(0) == columns.family);
            return None;
        }
        if columns.q >= n {
            assert(columns.slot(1) == columns.q);
            return None;
        }
        if columns.inclination >= n {
            assert(columns.slot(2) == columns.inclination);
            return None;
        }
        if columns.temperature_ratio >= n {
            assert(columns.slot(3) == columns.temperature_ratio);
            return None;
        }
        if columns.primary_temperature >= n {
            assert(columns.slot(4) == columns.primary_temperature);
            return None;
        }
        if columns.r1 >= n {
            assert(columns.slot(5) == columns.r1);
            return None;
        }
        if columns.r2 >= n {
            assert(columns.slot(6) == columns.r2);
            return None;
        }
        if columns.companion_fill >= n {
            assert(columns.slot(7) == columns.companion_fill);
            return None;
        }
        if columns.filling_component >= n {
            assert(columns.slot(8) == columns.filling_component);
            return None;
        }
        Some(
            SpecRow {
                family: cells[columns.family].clone(),
                q: cells[columns.q].clone(),
                inclination: cells[columns.inclination].clone(),
                temperature_ratio: cells[columns.temperature_ratio].clone(),
                primary_temperature: cells[columns.primary_temperature].clone(),
                r1: cells[columns.r1].clone(),
                r2: cells[columns.r2].clone(),
                companion_fill: cells[columns.companion_fill].clone(),
                filling_component: cells[columns.filling_component].clone(),
            },
        )
    }
}

/// The indices of the lines that are not blank, in order.
pub open spec fn filled_lines(lines: Seq<Seq<char>>) -> Seq<int>
    decreases lines.len(),
{
    if lines.len() == 0 {
        seq![]
    } else {
        let rest = filled_lines(lines.drop_last());
        if text::trimmed(lines.last()).len() > 0 {
            rest.push(lines.len() - 1)
        } else {
            rest
        }
    }
}

/// The first line of a text, or an empty one.
pub open spec fn header_of(src: Seq<char>) -> Seq<char> {
    if text::lines_of(src).len() > 0 {
        text::lines_of(src)[0]
    } else {
        seq![]
    }
}

/// The lines of a text after the first.
pub open spec fn body_of(src: Seq<char>) -> Seq<Seq<char>> {
    if text::lines_of(src).len() > 0 {
        text::lines_of(src).skip(1)
    } else {
        seq![]
    }
}

/// One line of a bank that is not blank.
#[derive(Debug)]
pub struct BankRow {
    /// The number of the line, counted from 0 after the header.
    pub n: usize,
    /// The system on it, or None if the line is too short.
    pub row: Option<SpecRow>,
}

impl BankRow {
    /// This is line `n` with the fields `cells`.
    pub open spec fn shows(&self, n: int, cells: Seq<Seq<char>>, columns: Columns) -> bool {
        &&& self.n == n
        &&& match self.row {
            Some(row) => row.reads(cells, columns),
            None => exists|k: int|
                0 <= k < column_names().len() && #[trigger] columns.slot(k) >= cells.len(),
        }
    }
}

/// The rows of `rows` are the filled lines of `body`, in order.
pub open spec fn rows_show(
    rows: Seq<BankRow>,
    body: Seq<Seq<char>>,
    filled: Seq<int>,
    columns: Columns,
) -> bool {
    &&& rows.len() == filled.len()
    &&& forall|k: int|
        0 <= k < rows.len() ==> (#[trigger] rows[k]).shows(
            filled[k],
            text::fields_of(body[filled[k]]),
            columns,
        )
}

/// The systems of a bank, or the name of the first column that its header
/// lacks. Blank lines are skipped.
pub fn bank_rows(src: &str) -> (r: Result<Vec<BankRow>, String>)
    ensures
        match r {
            Ok(rows) => exists|columns: Columns|
                {
                    &&& #[trigger] columns.head(text::fields_of(header_of(src@)))
                    &&& rows_show(rows@, body_of(src@), filled_lines(body_of(src@)), columns)
                },
            Err(name) => exists|k: int|
                {
                    &&& 0 <= k < column_names().len()
                    &&& name@ == #[trigger] column_names()[k]
                    &&& position_of(text::fields_of(header_of(src@)), name@) is None
                    &&& forall|j: int|
                        0 <= j < k ==> position_of(
                            text::fields_of(header_of(src@)),
                            #[trigger] column_names()[j],
                        ) is Some
                },
        },
{
    let lines: Vec<String> = text::lines(src);
    let ghost all = text::views(lines@);
    let ghost body = body_of(src@);
    let header: String = if lines.len() > 0 {
        lines[0].clone()
    } else {
        String::new()
    };
    assert(header@ =~= header_of(src@));
    let columns: Columns = match Columns::from_header(header.as_str()) {
        Ok(c) => c,
        Err(name) => {
            return Err(name);
        },
    };
    let mut out: Vec<BankRow> = Vec::new();
    let mut i: usize = 1;
    assert(body.take(0) =~= seq![]);
    while i < lines.len()
        invariant
            1 <= i,
            lines.len() > 0 ==> i <= lines.len() && body == all.skip(1),
            lines.len() == 0 ==> i == 1 && body.len() == 0,
            all == text::views(lines@),
            rows_show(out@, body, filled_lines(body.take(i - 1)), columns),
        decreases lines.len() - i,
    {
        let ghost before = filled_lines(body.take(i - 1));
        assert(body.take(i as int).drop_last() =~= body.take(i - 1));
        assert(body.take(i as int).last() == lines@[i as int]@);
        let trimmed: String = text::trim(lines[i].as_str());
        if !trimmed.as_str().is_empty() {
            let row: Option<SpecRow> = SpecRow::read(lines[i].as_str(), &columns);
            let ghost shown = out@;
            out.push(BankRow { n: i - 1, row });
            assert(body[i - 1] == lines@[i as int]@);
            assert(filled_lines(body.take(i as int)) == before.push(i - 1));
        }
        i += 1;
    }
    assert(body.take(i - 1) =~= body);
    assert(columns.head(text::fields_of(header_of(src@))));
    Ok(out)
}

// ---------------------------------------------------------------------------
// Families
// ---------------------------------------------------------------------------

/// The kind of system on a row.
#[derive(Debug, Clone, Copy, PartialEq, Eq, Structural)]
pub enum Family {
    Contact,
    Detached,
    SemiDetached,
}

impl Family {
    /// The family called `name`, if there is one.
    pub open spec fn named(name: Seq<char>) -> Option<Family> {
        if name == "contact"@ {
            Some(Family::Contact)
        } else if name == "detached"@ {
            Some(Family::Detached)
        } else if name == "semidetached"@ {
            Some(Family::SemiDetached)
        } else {
            None
        }
    }

    /// The family called `name`, in lower case exactly.
    pub fn from_name(name: &str) -> (r: Option<Family>)
        ensures
            r == Family::named(name@),
    {
        if same_text(name, "contact") {
            Some(Family::Contact)
        } else if same_text(name, "detached") {
            Some(Family::Detached)
        } else if same_text(name, "semidetached") {
            Some(Family::SemiDetached)
        } else {
            None
        }
    }

    /// The type of system to synthesize.
    pub open spec fn kind(self) -> EBType {
        match self {
            Family::Contact => EBType::Contact,
            Family::Detached => EBType::Detached,
            Family::SemiDetached => EBType::SemiDetached,
        }
    }

    /// The type of system to synthesize.
    pub fn eb_type(self) -> (r: EBType)
        ensures
            r == self.kind(),
    {
        match self {
            Family::Contact => EBType::Contact,
            Family::Detached => EBType::Detached,
            Family::SemiDetached => EBType::SemiDetached,
        }
    }
}

/// Where a star's filling factor comes from.
#[derive(Debug, Clone, Copy, PartialEq, Eq, Structural)]
pub enum FilloutSource {
    /// Its radius column, which is a filling factor already.
    AsGiven,
    /// Its radius column, converted from a fractional radius.
    FromRadius,
    /// It fills its lobe.
    Full,
    /// The companion_fill column.
    CompanionFill,
}

/// Where the filling factor of `star` comes from, when `filling` is the star
/// that fills its lobe in a semidetached system.
pub open spec fn fillout_of(family: Family, filling: Star, star: Star) -> FilloutSource {
    match family {
        Family::Contact => FilloutSource::AsGiven,
        Family::Detached => FilloutSource::FromRadius,
        Family::SemiDetached => if star == filling {
            FilloutSource::Full
        } else {
            FilloutSource::CompanionFill
        },
    }
}

/// The star that a `filling_component` column names: the primary if it says so,
/// and the secondary otherwise.
pub open spec fn star_named(component: Seq<char>) -> Star {
    if component == "primary"@ {
        Star::Primary
    } else {
        Star::Secondary
    }
}

/// The star that a `filling_component` column names.
pub fn filling_star(component: &str) -> (r: Star)
    ensures
        r == star_named(component@),
{
    if same_text(component, "primary") {
        Star::Primary
    } else {
        Star::Secondary
    }
}

/// Where the filling factor of `star` comes from.
pub fn fillout_source(family: Family, filling: Star, star: Star) -> (r: FilloutSource)
    ensures
        r == fillout_of(family, filling, star),
{
    match family {
        Family::Contact => FilloutSource::AsGiven,
        Family::Detached => FilloutSource::FromRadius,
        Family::SemiDetached => if star == filling {
            FilloutSource::Full
        } else {
            FilloutSource::CompanionFill
        },
    }
}

/// The coarsest surface grid.
pub const GRID_LEAST: usize = 20;

/// The finest surface grid.
pub const GRID_MOST: usize = 400;

/// The surface grid of a system for which `wanted` would resolve the smaller
/// star. Contact binaries have no small star and take the coarsest grid.
pub open spec fn grid_of(family: Family, wanted: usize) -> usize {
    if family == Family::Contact || wanted < GRID_LEAST {
        GRID_LEAST
    } else if wanted > GRID_MOST {
        GRID_MOST
    } else {
        wanted
    }
}

/// The surface grid of a system for which `wanted` would resolve the smaller
/// star.
pub fn grid_size(family: Family, wanted: usize) -> (r: usize)
    ensures
        r == grid_of(family, wanted),
{
    match family {
        Family::Contact => GRID_LEAST,
        _ => if wanted < GRID_LEAST {
            GRID_LEAST
        } else if wanted > GRID_MOST {
            GRID_MOST
        } else {
            wanted
        },
    }
}

// ---------------------------------------------------------------------------
// Systems
// ---------------------------------------------------------------------------

/// The numbers on a row.
#[derive(Debug)]
pub struct RowNumbers<T> {
    pub q: T,
    pub inclination: T,
    pub temperature_ratio: T,
    pub primary_temperature: T,
    pub r1: T,
    pub r2: T,
    pub companion_fill: T,
}

/// `x` is the number that the text of a cell reads as.
pub open spec fn cell_reads<T, Number: Fn(&str) -> T>(
    number: &Number,
    cell: Seq<char>,
    x: T,
) -> bool {
    exists|s: &str| s@ == cell && #[trigger] call_ensures(number, (s,), x)
}

/// `numbers` are the numbers on a row, each from its own column.
pub open spec fn row_reads<T, Number: Fn(&str) -> T>(
    number: &Number,
    row: SpecRow,
    numbers: RowNumbers<T>,
) -> bool {
    &&& cell_reads(number, row.q@, numbers.q)
    &&& cell_reads(number, row.inclination@, numbers.inclination)
    &&& cell_reads(number, row.temperature_ratio@, numbers.temperature_ratio)
    &&& cell_reads(number, row.primary_temperature@, numbers.primary_temperature)
    &&& cell_reads(number, row.r1@, numbers.r1)
    &&& cell_reads(number, row.r2@, numbers.r2)
    &&& cell_reads(number, row.companion_fill@, numbers.companion_fill)
}

/// The number in a cell.
fn read_cell<T, Number: Fn(&str) -> T>(number: &Number, cell: &String) -> (r: T)
    requires
        forall|s: &str| #[trigger] call_requires(number, (s,)),
    ensures
        cell_reads(number, cell@, r),
{
    let s: &str = cell.as_str();
    number(s)
}

/// `fillout` is the filling factor of a star with `radius` in its column.
pub open spec fn fill_follows<
    T,
    Convert: Fn(T, T, Star) -> T,
    Hundredths: Fn(u32) -> T,
>(
    convert: &Convert,
    hundredths: &Hundredths,
    source: FilloutSource,
    numbers: RowNumbers<T>,
    radius: T,
    star: Star,
    fillout: T,
) -> bool {
    match source {
        FilloutSource::AsGiven => fillout == radius,
        FilloutSource::FromRadius => call_ensures(convert, (numbers.q, radius, star), fillout),
        FilloutSource::Full => call_ensures(hundredths, (100,), fillout),
        FilloutSource::CompanionFill => fillout == numbers.companion_fill,
    }
}

fn fillout_from<T: Copy, Convert: Fn(T, T, Star) -> T, Hundredths: Fn(u32) -> T>(
    convert: &Convert,
    hundredths: &Hundredths,
    source: FilloutSource,
    numbers: &RowNumbers<T>,
    radius: T,
    star: Star,
) -> (r: T)
    requires
        forall|q: T, x: T, s: Star| #[trigger] call_requires(convert, (q, x, s)),
        forall|h: u32| #[trigger] call_requires(hundredths, (h,)),
    ensures
        fill_follows(convert, hundredths, source, *numbers, radius, star, r),
{
    match source {
        FilloutSource::AsGiven => radius,
        FilloutSource::FromRadius => convert(numbers.q, radius, star),
        FilloutSource::Full => hundredths(100),
        FilloutSource::CompanionFill => numbers.companion_fill,
    }
}

/// `params` are those of a row: its own numbers, a limb darkening of one half,
/// and of `base` what a bank does not say of a system.
pub open spec fn params_follow<
    T,
    Convert: Fn(T, T, Star) -> T,
    Hundredths: Fn(u32) -> T,
    Times: Fn(T, T) -> T,
    Wanted: Fn(T, T) -> usize,
>(
    convert: &Convert,
    hundredths: &Hundredths,
    times: &Times,
    wanted: &Wanted,
    family: Family,
    filling: Star,
    numbers: RowNumbers<T>,
    base: EBParams<T>,
    params: EBParams<T>,
) -> bool {
    &&& params.eb_type == family.kind()
    &&& params.q == numbers.q
    &&& params.inclination == numbers.inclination
    &&& fill_follows(
        convert,
        hundredths,
        fillout_of(family, filling, Star::Primary),
        numbers,
        numbers.r1,
        Star::Primary,
        params.fillout1,
    )
    &&& fill_follows(
        convert,
        hundredths,
        fillout_of(family, filling, Star::Secondary),
        numbers,
        numbers.r2,
        Star::Secondary,
        params.fillout2,
    )
    &&& params.t_eff1 == numbers.primary_temperature
    &&& call_ensures(
        times,
        (numbers.primary_temperature, numbers.temperature_ratio),
        params.t_eff2,
    )
    &&& call_ensures(hundredths, (50,), params.ld1)
    &&& params.ld2 == params.ld1
    &&& exists|n: usize|
        {
            &&& #[trigger] call_ensures(wanted, (numbers.r1, numbers.r2), n)
            &&& params.n_grid == grid_of(family, n)
        }
    &&& params.phi0 == base.phi0
    &&& params.l3 == base.l3
    &&& params.passband == base.passband
}

/// The parameters of the system on a row, or None if there is no such family.
///
/// `number` reads a cell, `convert` turns a mass ratio and the fractional
/// radius of a star into its filling factor, `hundredths` is the number that
/// many hundredths make, `times` multiplies, and `wanted` is the grid that
/// resolves the smaller of two stars.
pub fn system_params<
    T: Copy,
    Number: Fn(&str) -> T,
    Convert: Fn(T, T, Star) -> T,
    Hundredths: Fn(u32) -> T,
    Times: Fn(T, T) -> T,
    Wanted: Fn(T, T) -> usize,
>(
    row: &SpecRow,
    base: &EBParams<T>,
    number: &Number,
    convert: &Convert,
    hundredths: &Hundredths,
    times: &Times,
    wanted: &Wanted,
) -> (r: Option<EBParams<T>>)
    requires
        forall|s: &str| #[trigger] call_requires(number, (s,)),
        forall|q: T, x: T, s: Star| #[trigger] call_requires(convert, (q, x, s)),
        forall|h: u32| #[trigger] call_requires(hundredths, (h,)),
        forall|x: T, y: T| #[trigger] call_requires(times, (x, y)),
        forall|x: T, y: T| #[trigger] call_requires(wanted, (x, y)),
    ensures
        r is Some <==> Family::named(row.family@) is Some,
        r matches Some(params) ==> exists|numbers: RowNumbers<T>|
            {
                &&& #[trigger] row_reads(number, *row, numbers)
                &&& params_follow(
                    convert,
                    hundredths,
                    times,
                    wanted,
                    Family::named(row.family@)->0,
                    star_named(row.filling_component@),
                    numbers,
                    *base,
                    params,
                )
            },
{
    let family: Family = match Family::from_name(row.family.as_str()) {
        Some(family) => family,
        None => {
            return None;
        },
    };
    let filling: Star = filling_star(row.filling_component.as_str());
    let numbers: RowNumbers<T> = RowNumbers {
        q: read_cell(number, &row.q),
        inclination: read_cell(number, &row.inclination),
        temperature_ratio: read_cell(number, &row.temperature_ratio),
        primary_temperature: read_cell(number, &row.primary_temperature),
        r1: read_cell(number, &row.r1),
        r2: read_cell(number, &row.r2),
        companion_fill: read_cell(number, &row.companion_fill),
    };
    assert(row_reads(number, *row, numbers));
    let fillout1: T = fillout_from(
        convert,
        hundredths,
        fillout_source(family, filling, Star::Primary),
        &numbers,
        numbers.r1,
        Star::Primary,
    );
    let fillout2: T = fillout_from(
        convert,
        hundredths,
        fillout_source(family, filling, Star::Secondary),
        &numbers,
        numbers.r2,
        Star::Secondary,
    );
    let half: T = hundredths(50);
    Some(
        EBParams {
            eb_type: family.eb_type(),
            q: numbers.q,
            inclination: numbers.inclination,
            fillout1,
            fillout2,
            t_eff1: numbers.primary_temperature,
            t_eff2: times(numbers.primary_temperature, numbers.temperature_ratio),
            ld1: half,
            ld2: half,
            phi0: base.phi0,
            l3: base.l3,
            n_grid: grid_size(family, wanted(numbers.r1, numbers.r2)),
            passband: base.passband,
        },
    )
}

// ---------------------------------------------------------------------------
// Output
// ---------------------------------------------------------------------------

/// A row of `n` times NaN.
pub open spec fn nan_cells(n: nat) -> Seq<Seq<char>> {
    Seq::new(n, |i: int| "NaN"@)
}

/// The rows a bank holds for one system: one per band, with the fluxes
/// separated by spaces, or, for a system that could not be built, one row of
/// NaN per LSST band.
pub open spec fn output_of(curves: Option<Seq<Seq<Seq<char>>>>, n_phases: nat) -> Seq<Seq<char>> {
    match curves {
        Some(list) => Seq::new(list.len(), |b: int| text::joined(list[b])),
        None => Seq::new(
            passband::ugrizy_bands().len(),
            |b: int| text::joined(nan_cells(n_phases)),
        ),
    }
}

/// The views of a list of lists of texts.
pub open spec fn deep_views(lists: Seq<Vec<String>>) -> Seq<Seq<Seq<char>>> {
    Seq::new(lists.len(), |b: int| text::views(lists[b]@))
}

fn nan_row(n_phases: usize) -> (r: String)
    ensures
        r@ == text::joined(nan_cells(n_phases as nat)),
{
    let mut cells: Vec<String> = Vec::new();
    while cells.len() < n_phases
        invariant
            cells.len() <= n_phases,
            text::views(cells@) == nan_cells(cells.len() as nat),
        decreases n_phases - cells.len(),
    {
        let ghost before = text::views(cells@);
        cells.push("NaN".to_owned());
        assert(text::views(cells@) =~= before.push("NaN"@));
        assert(text::views(cells@) =~= nan_cells(cells.len() as nat));
    }
    text::join(&cells)
}

/// The rows a bank holds for one system, given the fluxes of each band as text.
pub fn output_rows(curves: Option<&Vec<Vec<String>>>, n_phases: usize) -> (r: Vec<String>)
    ensures
        curves is None ==> text::views(r@) == output_of(None, n_phases as nat),
        curves matches Some(list) ==> text::views(r@) == output_of(
            Some(deep_views(list@)),
            n_phases as nat,
        ),
{
    let mut out: Vec<String> = Vec::new();
    match curves {
        Some(list) => {
            let ghost want = output_of(Some(deep_views(list@)), n_phases as nat);
            let mut b: usize = 0;
            while b < list.len()
                invariant
                    b <= list.len(),
                    want == output_of(Some(deep_views(list@)), n_phases as nat),
                    text::views(out@) == want.take(b as int),
                decreases list.len() - b,
            {
                let ghost before = text::views(out@);
                out.push(text::join(&list[b]));
                assert(text::views(out@) =~= before.push(want[b as int]));
                assert(text::views(out@) =~= want.take(b + 1));
                b += 1;
            }
            assert(want.take(b as int) =~= want);
        },
        None => {
            let ghost want = output_of(None, n_phases as nat);
            let bands: usize = passband::ugrizy().len();
            let row: String = nan_row(n_phases);
            let mut b: usize = 0;
            while b < bands
                invariant
                    b <= bands == passband::ugrizy_bands().len(),
                    want == output_of(None, n_phases as nat),
                    row@ == text::joined(nan_cells(n_phases as nat)),
                    text::views(out@) == want.take(b as int),
                decreases bands - b,
            {
                let ghost before = text::views(out@);
                out.push(row.clone());
                assert(text::views(out@) =~= before.push(want[b as int]));
                assert(text::views(out@) =~= want.take(b + 1));
                b += 1;
            }
            assert(want.take(b as int) =~= want);
        },
    }
    out
}

// ---------------------------------------------------------------------------
// Laws
// ---------------------------------------------------------------------------

/// The order of the columns does not matter: where header and row are
/// rearranged alike, and no column name stands twice in the header, the same
/// system is read.
pub proof fn column_order_does_not_matter(
    header: Seq<Seq<char>>,
    cells: Seq<Seq<char>>,
    moved_header: Seq<Seq<char>>,
    moved_cells: Seq<Seq<char>>,
    from: spec_fn(int) -> int,
    columns: Columns,
    moved_columns: Columns,
    row: SpecRow,
    moved_row: SpecRow,
)
    requires
        cells.len() == header.len(),
        moved_header.len() == header.len(),
        moved_cells.len() == header.len(),
        forall|i: int| 0 <= i < header.len() ==> 0 <= #[trigger] from(i) < header.len(),
        forall|i: int| 0 <= i < header.len() ==> moved_header[i] == header[#[trigger] from(i)],
        forall|i: int| 0 <= i < header.len() ==> moved_cells[i] == cells[#[trigger] from(i)],
        forall|i: int, j: int|
            0 <= i < j < header.len() && #[trigger] header[i] == #[trigger] header[j]
                ==> !column_names().contains(header[i]),
        columns.head(header),
        moved_columns.head(moved_header),
        row.reads(cells, columns),
        moved_row.reads(moved_cells, moved_columns),
    ensures
        forall|k: int|
            0 <= k < column_names().len() ==> #[trigger] moved_row.cell(k) == row.cell(k),
{
    assert forall|k: int| 0 <= k < column_names().len() implies #[trigger] moved_row.cell(k)
        == row.cell(k) by {
        let name = column_names()[k];
        position_is_first(header, name, 0);
        position_is_first(moved_header, name, 0);
        let here = columns.slot(k) as int;
        let there = moved_columns.slot(k) as int;
        assert(position_of(header, name) == Some(here));
        assert(position_of(moved_header, name) == Some(there));
        assert(header[from(there)] == name);
        assert(column_names().contains(name));
        if from(there) < here {
            assert(header[from(there)] == header[here]);
        }
        if here < from(there) {
            assert(header[here] == header[from(there)]);
        }
        assert(row.cell(k) == cells[here]);
    }
}

/// Six rows per system, built or not, so that rows stay aligned with the
/// systems. The entries of a row are the fluxes of its band, separated by
/// spaces; a system that could not be built has as many entries as there are
/// phases, all NaN.
pub proof fn rows_stay_aligned(curves: Seq<Seq<Seq<char>>>, n_phases: nat)
    requires
        curves.len() == passband::ugrizy_bands().len(),
        forall|b: int, k: int|
            0 <= b < curves.len() && 0 <= k < curves[b].len() ==> text::is_word(
                #[trigger] curves[b][k],
            ),
    ensures
        output_of(None, n_phases).len() == 6,
        output_of(Some(curves), n_phases).len() == 6,
        forall|b: int|
            0 <= b < 6 ==> {
                &&& text::words_of(#[trigger] output_of(None, n_phases)[b]).len() == n_phases
                &&& text::words_of(output_of(None, n_phases)[b]) == nan_cells(n_phases)
            },
        forall|b: int|
            0 <= b < 6 ==> text::words_of(#[trigger] output_of(Some(curves), n_phases)[b])
                == curves[b],
{
    reveal_strlit("NaN");
    assert forall|i: int| 0 <= i < n_phases implies text::is_word(
        #[trigger] nan_cells(n_phases)[i],
    ) by {
        assert(nan_cells(n_phases)[i] == "NaN"@);
    }
    text::joined_words_come_apart(nan_cells(n_phases));
    assert forall|b: int| 0 <= b < 6 implies text::words_of(
        #[trigger] output_of(Some(curves), n_phases)[b],
    ) == curves[b] by {
        text::joined_words_come_apart(curves[b]);
    }
}

/// A bank never asks for a grid that is too fine to be doubled.
pub proof fn bank_grids_can_be_doubled(family: Family, wanted: usize)
    ensures
        GRID_LEAST <= grid_of(family, wanted) <= GRID_MOST,
        grid_of(family, wanted) * 2 <= usize::MAX,
{
}

/// In a semidetached system exactly one star fills its lobe, the one named, and
/// the other sits at the companion's fill. In every other family both stars are
/// treated alike, whichever is named.
pub proof fn one_star_fills_its_lobe(family: Family, filling: Star)
    ensures
        family == Family::SemiDetached ==> {
            &&& fillout_of(family, filling, filling) == FilloutSource::Full
            &&& fillout_of(family, filling, filling.other()) == FilloutSource::CompanionFill
        },
        family != Family::SemiDetached ==> {
            &&& fillout_of(family, filling, filling) == fillout_of(family, filling, filling.other())
            &&& fillout_of(family, filling, filling) != FilloutSource::Full
        },
{
}

} // verus!
