//! LSST ugrizy throughput tables.
//!
//! A table is text: comment lines that start with `#`, then one row per grid
//! point with two columns, wavelength in nm and throughput between 0 and 1, on
//! a uniform 0.1 nm grid from 300 to 1150 nm. The rows and their columns are
//! found here; reading a column as a number is the caller's, and its outcome
//! comes back for the grid check.

use vstd::prelude::*;
use crate::text;

verus! {

/// First wavelength of the tabulated grid, nm.
pub const LAM_LO_NM: u32 = 300;

/// Last wavelength of the tabulated grid, nm.
pub const LAM_HI_NM: u32 = 1150;

/// Grid points per nm.
pub const LAM_STEPS_PER_NM: u32 = 10;

/// Number of grid points, 300 to 1150 nm inclusive.
pub const NLAM: usize = 8501;

/// Number of LSST bands.
pub const LSST_BANDS: usize = 6;

/// The name of each LSST band in ugrizy order.
pub open spec fn name_of(index: int) -> Seq<char> {
    if index == 0 {
        "u"@
    } else if index == 1 {
        "g"@
    } else if index == 2 {
        "r"@
    } else if index == 3 {
        "i"@
    } else if index == 4 {
        "z"@
    } else {
        "y"@
    }
}

/// The name of an LSST band, for error messages.
pub fn band_name(index: usize) -> (r: &'static str)
    requires
        index < LSST_BANDS,
    ensures
        r@ == name_of(index as int),
{
    if index == 0 {
        "u"
    } else if index == 1 {
        "g"
    } else if index == 2 {
        "r"
    } else if index == 3 {
        "i"
    } else if index == 4 {
        "z"
    } else {
        "y"
    }
}

// ---------------------------------------------------------------------------
// Rows
// ---------------------------------------------------------------------------

/// Whether a trimmed line holds a row: it is neither empty nor a comment.
pub open spec fn holds_row(line: Seq<char>) -> bool {
    line.len() > 0 && line[0] != '#'
}

/// The trimmed lines of `lines` that hold rows.
pub open spec fn rows_among(lines: Seq<Seq<char>>) -> Seq<Seq<char>>
    decreases lines.len(),
{
    if lines.len() == 0 {
        seq![]
    } else {
        let rest = rows_among(lines.drop_last());
        let line = text::trimmed(lines.last());
        if holds_row(line) {
            rest.push(line)
        } else {
            rest
        }
    }
}

/// The rows of a table, as trimmed lines.
pub open spec fn rows_of(src: Seq<char>) -> Seq<Seq<char>> {
    rows_among(text::lines_of(src))
}

/// One row of a table, before its columns are read as numbers.
#[derive(Debug)]
pub struct DataRow {
    /// The row without the white space around it.
    pub line: String,
    /// The first column, if there is one.
    pub wavelength: Option<String>,
    /// The second column, if there is one.
    pub throughput: Option<String>,
}

/// `cell` is column `k` of `line`, or none where the line has no such column.
pub open spec fn is_column(cell: Option<String>, line: Seq<char>, k: int) -> bool {
    match cell {
        Some(c) => k < text::words_of(line).len() && c@ == text::words_of(line)[k],
        None => k >= text::words_of(line).len(),
    }
}

impl DataRow {
    /// This row is `line` with its first two columns.
    pub open spec fn shows(&self, line: Seq<char>) -> bool {
        &&& self.line@ == line
        &&& is_column(self.wavelength, line, 0)
        &&& is_column(self.throughput, line, 1)
    }
}

/// The rows of a table with their columns.
pub fn data_rows(src: &str) -> (r: Vec<DataRow>)
    ensures
        r@.len() == rows_of(src@).len(),
        forall|k: int| 0 <= k < r@.len() ==> (#[trigger] r@[k]).shows(rows_of(src@)[k]),
{
    let lines: Vec<String> = text::lines(src);
    let ghost all = text::views(lines@);
    let mut out: Vec<DataRow> = Vec::new();
    let mut n: usize = 0;
    assert(all.take(0) =~= seq![]);
    while n < lines.len()
        invariant
            n <= lines.len(),
            all == text::views(lines@),
            out@.len() == rows_among(all.take(n as int)).len(),
            forall|k: int|
                0 <= k < out@.len() ==> (#[trigger] out@[k]).shows(
                    rows_among(all.take(n as int))[k],
                ),
        decreases lines.len() - n,
    {
        assert(all.take(n + 1).drop_last() =~= all.take(n as int));
        assert(all.take(n + 1).last() == lines@[n as int]@);
        let line: String = text::trim(lines[n].as_str());
        let skip: bool = line.as_str().is_empty() || starts_comment(line.as_str());
        if !skip {
            let words: Vec<String> = text::words(line.as_str());
            let wavelength: Option<String> = column(&words, 0);
            let throughput: Option<String> = column(&words, 1);
            out.push(DataRow { line, wavelength, throughput });
        }
        n += 1;
    }
    assert(all.take(n as int) =~= all);
    out
}

fn starts_comment(line: &str) -> (r: bool)
    requires
        line@.len() > 0,
    ensures
        r == (line@[0] == '#'),
{
    line.get_char(0) == '#'
}

fn column(words: &Vec<String>, k: usize) -> (r: Option<String>)
    ensures
        match r {
            Some(c) => k < words@.len() && c@ == words@[k as int]@,
            None => k >= words@.len(),
        },
{
    if k < words.len() {
        Some(words[k].clone())
    } else {
        None
    }
}

// ---------------------------------------------------------------------------
// The grid check
// ---------------------------------------------------------------------------

/// What the columns of a row read as.
#[derive(Debug)]
pub struct Reading<T> {
    /// Whether the wavelength is the grid's at this row, or none where the
    /// column is missing or no number.
    pub on_grid: Option<bool>,
    /// The throughput, or none where the column is missing or no number.
    pub throughput: Option<T>,
}

/// Why a table is not one on the declared grid.
#[derive(Debug, Clone, Copy, PartialEq, Eq, Structural)]
pub enum TableError {
    /// The wavelength of this row is missing or no number.
    BadWavelength(usize),
    /// The throughput of this row is missing or no number.
    BadThroughput(usize),
    /// The wavelength of this row is not the grid's.
    OffGrid(usize),
    /// The table has this many rows.
    RowCount(usize),
}

impl<T> Reading<T> {
    /// What is wrong with this reading as row `k`, if anything.
    pub open spec fn fault(&self, k: int) -> Option<TableError> {
        if self.on_grid is None {
            Some(TableError::BadWavelength(k as usize))
        } else if self.throughput is None {
            Some(TableError::BadThroughput(k as usize))
        } else if self.on_grid == Some(false) {
            Some(TableError::OffGrid(k as usize))
        } else {
            None
        }
    }
}

/// The first `n` readings are all in order.
pub open spec fn faultless<T>(readings: Seq<Reading<T>>, n: int) -> bool {
    forall|k: int| 0 <= k < n ==> (#[trigger] readings[k]).fault(k) is None
}

/// `r` is what the readings of a table amount to: the throughputs where every
/// row is in order and there are as many rows as grid points, and otherwise
/// the fault of the first row that has one, or the number of rows.
pub open spec fn amounts_to<T>(readings: Seq<Reading<T>>, r: Result<Vec<T>, TableError>) -> bool {
    match r {
        Ok(trans) => {
            &&& readings.len() == NLAM
            &&& faultless(readings, readings.len() as int)
            &&& trans@.len() == NLAM
            &&& forall|k: int|
                0 <= k < NLAM ==> Some(#[trigger] trans@[k]) == readings[k].throughput
        },
        Err(TableError::RowCount(n)) => {
            &&& n == readings.len()
            &&& n != NLAM
            &&& faultless(readings, n as int)
        },
        Err(e) => exists|k: int|
            {
                &&& 0 <= k < readings.len()
                &&& faultless(readings, k)
                &&& (#[trigger] readings[k]).fault(k) == Some(e)
            },
    }
}

/// Throughput on the declared grid from the readings of a table's rows.
pub fn check_grid<T: Copy>(readings: &Vec<Reading<T>>) -> (r: Result<Vec<T>, TableError>)
    ensures
        amounts_to(readings@, r),
{
    let mut trans: Vec<T> = Vec::new();
    let mut k: usize = 0;
    while k < readings.len()
        invariant
            k <= readings.len(),
            faultless(readings@, k as int),
            trans@.len() == k,
            forall|j: int| 0 <= j < k ==> Some(#[trigger] trans@[j]) == readings@[j].throughput,
        decreases readings.len() - k,
    {
        match readings[k].on_grid {
            None => {
                assert(readings@[k as int].fault(k as int) == Some(TableError::BadWavelength(k)));
                return Err(TableError::BadWavelength(k));
            },
            Some(on_grid) => {
                match readings[k].throughput {
                    None => {
                        assert(readings@[k as int].fault(k as int) == Some(
                            TableError::BadThroughput(k),
                        ));
                        return Err(TableError::BadThroughput(k));
                    },
                    Some(t) => {
                        if !on_grid {
                            assert(readings@[k as int].fault(k as int) == Some(
                                TableError::OffGrid(k),
                            ));
                            return Err(TableError::OffGrid(k));
                        }
                        trans.push(t);
                    },
                }
            },
        }
        k += 1;
    }
    if trans.len() != NLAM {
        return Err(TableError::RowCount(trans.len()));
    }
    Ok(trans)
}

/// `r` is what column `k` of `line` reads as, none where there is no such
/// column.
pub open spec fn column_reads<T, Number: Fn(&str) -> Option<T>>(
    number: Number,
    line: Seq<char>,
    k: int,
    r: Option<T>,
) -> bool {
    if k < text::words_of(line).len() {
        exists|cell: &str|
            cell@ == text::words_of(line)[k] && #[trigger] call_ensures(number, (cell,), r)
    } else {
        r is None
    }
}

/// `reading` is what `line` reads as in row `k`.
pub open spec fn row_reads<
    T,
    Number: Fn(&str) -> Option<T>,
    OnGrid: Fn(T, u32, u32, usize) -> bool,
>(number: Number, on_grid: OnGrid, line: Seq<char>, k: int, reading: Reading<T>) -> bool {
    &&& exists|lam: Option<T>|
        {
            &&& #[trigger] column_reads(number, line, 0, lam)
            &&& match (lam, reading.on_grid) {
                (Some(l), Some(g)) => call_ensures(
                    on_grid,
                    (l, LAM_LO_NM, LAM_STEPS_PER_NM, k as usize),
                    g,
                ),
                (None, None) => true,
                _ => false,
            }
        }
    &&& column_reads(number, line, 1, reading.throughput)
}

/// `readings` are what the rows of a table read as.
pub open spec fn table_reads<
    T,
    Number: Fn(&str) -> Option<T>,
    OnGrid: Fn(T, u32, u32, usize) -> bool,
>(number: Number, on_grid: OnGrid, rows: Seq<Seq<char>>, readings: Seq<Reading<T>>) -> bool {
    &&& readings.len() == rows.len()
    &&& forall|k: int|
        0 <= k < rows.len() ==> row_reads(number, on_grid, rows[k], k, #[trigger] readings[k])
}

fn read_column<T, Number: Fn(&str) -> Option<T>>(
    number: &Number,
    cell: &Option<String>,
) -> (r: Option<T>)
    requires
        forall|s: &str| #[trigger] call_requires(*number, (s,)),
    ensures
        cell is None ==> r is None,
        cell matches Some(c) ==> exists|s: &str|
            s@ == c@ && #[trigger] call_ensures(*number, (s,), r),
{
    match cell {
        None => None,
        Some(c) => number(c.as_str()),
    }
}

/// Parse one table into throughput on the declared grid.
///
/// `number` reads a column as a number, with none where it is not one, and
/// `on_grid` says whether a wavelength is that of a row on a grid with the given
/// first wavelength and points per nm. The wavelength column is checked rather
/// than ignored: the grid is a constant here, so a table on a different one
/// would otherwise shift every wavelength silently.
pub fn parse<T: Copy, Number: Fn(&str) -> Option<T>, OnGrid: Fn(T, u32, u32, usize) -> bool>(
    src: &str,
    number: Number,
    on_grid: OnGrid,
) -> (r: Result<Vec<T>, TableError>)
    requires
        forall|s: &str| #[trigger] call_requires(number, (s,)),
        forall|l: T, lo: u32, n: u32, k: usize| #[trigger] call_requires(on_grid, (l, lo, n, k)),
    ensures
        exists|readings: Seq<Reading<T>>|
            {
                &&& #[trigger] table_reads(number, on_grid, rows_of(src@), readings)
                &&& amounts_to(readings, r)
            },
{
    let rows: Vec<DataRow> = data_rows(src);
    let ghost lines = rows_of(src@);
    let mut readings: Vec<Reading<T>> = Vec::new();
    let mut k: usize = 0;
    while k < rows.len()
        invariant
            k <= rows.len(),
            rows@.len() == lines.len(),
            lines == rows_of(src@),
            forall|j: int| 0 <= j < rows@.len() ==> (#[trigger] rows@[j]).shows(lines[j]),
            forall|s: &str| #[trigger] call_requires(number, (s,)),
            forall|l: T, lo: u32, n: u32, j: usize| #[trigger]
                call_requires(on_grid, (l, lo, n, j)),
            readings@.len() == k,
            forall|j: int|
                0 <= j < k ==> row_reads(number, on_grid, lines[j], j, #[trigger] readings@[j]),
        decreases rows.len() - k,
    {
        let row: &DataRow = &rows[k];
        assert(row.shows(lines[k as int]));
        let lam: Option<T> = read_column(&number, &row.wavelength);
        assert(column_reads(number, lines[k as int], 0, lam));
        let at: Option<bool> = match lam {
            Some(l) => Some(on_grid(l, LAM_LO_NM, LAM_STEPS_PER_NM, k)),
            None => None,
        };
        let throughput: Option<T> = read_column(&number, &row.throughput);
        assert(column_reads(number, lines[k as int], 1, throughput));
        let reading: Reading<T> = Reading { on_grid: at, throughput };
        assert(row_reads(number, on_grid, lines[k as int], k as int, reading));
        readings.push(reading);
        k += 1;
    }
    assert(table_reads(number, on_grid, lines, readings@));
    check_grid(&readings)
}

// ---------------------------------------------------------------------------
// Curves and pivots
// ---------------------------------------------------------------------------

/// Throughput of one LSST band on the uniform grid, out of all six in ugrizy
/// order.
pub fn lsst_curve<'a, C>(curves: &'a Vec<C>, index: usize) -> (r: &'a C)
    requires
        curves.len() == LSST_BANDS,
        index < LSST_BANDS,
    ensures
        *r == curves@[index as int],
{
    &curves[index]
}

/// Pivot wavelength of one LSST band, out of all six in ugrizy order.
pub fn lsst_pivot_nm<T: Copy>(pivots: &Vec<T>, index: usize) -> (r: T)
    requires
        pivots.len() == LSST_BANDS,
        index < LSST_BANDS,
    ensures
        r == pivots@[index as int],
{
    pivots[index]
}

/// How the interval between grid points `k` and `k + 1` takes a running sum
/// from `before` to `after`.
pub open spec fn interval_adds<S, T, Term: Fn(usize, S, S) -> T, Plus: Fn(T, T) -> T>(
    curve: Seq<S>,
    term: Term,
    plus: Plus,
    k: int,
    before: T,
    after: T,
) -> bool {
    exists|t: T|
        {
            &&& #[trigger] call_ensures(term, (k as usize, curve[k], curve[k + 1]), t)
            &&& call_ensures(plus, (before, t), after)
        }
}

/// `sums` starts at `zero` and takes in the intervals of the grid one by one.
pub open spec fn running_intervals<S, T, Term: Fn(usize, S, S) -> T, Plus: Fn(T, T) -> T>(
    curve: Seq<S>,
    zero: T,
    term: Term,
    plus: Plus,
    sums: Seq<T>,
) -> bool {
    &&& 0 < sums.len() <= curve.len()
    &&& sums[0] == zero
    &&& forall|k: int|
        0 <= k < sums.len() - 1 ==> interval_adds(
            curve,
            term,
            plus,
            k,
            #[trigger] sums[k],
            sums[k + 1],
        )
}

/// The trapezoidal sums from which a band's pivot wavelength is made.
///
/// `term` is the share of the interval from grid point `k` to the next, given
/// the throughput at both ends, and `plus` adds it.
pub fn pivot_sums<S: Copy, T: Copy, Term: Fn(usize, S, S) -> T, Plus: Fn(T, T) -> T>(
    curve: &Vec<S>,
    zero: T,
    term: Term,
    plus: Plus,
) -> (total: T)
    requires
        curve.len() == NLAM,
        forall|k: usize, s0: S, s1: S|
            k < NLAM - 1 ==> #[trigger] call_requires(term, (k, s0, s1)),
        forall|a: T, b: T| #[trigger] call_requires(plus, (a, b)),
    ensures
        exists|sums: Seq<T>|
            {
                &&& sums.len() == NLAM
                &&& #[trigger] running_intervals(curve@, zero, term, plus, sums)
                &&& total == sums.last()
            },
{
    let mut total: T = zero;
    let ghost mut sums: Seq<T> = seq![zero];
    let mut k: usize = 0;
    while k < NLAM - 1
        invariant
            k <= NLAM - 1,
            curve.len() == NLAM,
            forall|j: usize, s0: S, s1: S|
                j < NLAM - 1 ==> #[trigger] call_requires(term, (j, s0, s1)),
            forall|a: T, b: T| #[trigger] call_requires(plus, (a, b)),
            sums.len() == k + 1,
            running_intervals(curve@, zero, term, plus, sums),
            total == sums.last(),
        decreases NLAM - k,
    {
        let ghost before = total;
        let t: T = term(k, curve[k], curve[k + 1]);
        total = plus(total, t);
        assert(interval_adds(curve@, term, plus, k as int, before, total));
        proof {
            let more = sums.push(total);
            assert forall|j: int| 0 <= j < more.len() - 1 implies interval_adds(
                curve@,
                term,
                plus,
                j,
                #[trigger] more[j],
                more[j + 1],
            ) by {
                if j < k {
                    assert(more[j] == sums[j]);
                    assert(more[j + 1] == sums[j + 1]);
                }
            }
            sums = more;
        }
        k += 1;
    }
    total
}

// ---------------------------------------------------------------------------
// Laws
// ---------------------------------------------------------------------------

/// The grid runs from 300 to 1150 nm inclusive in steps of 0.1 nm.
pub proof fn grid_spans_the_declared_range()
    ensures
        LAM_LO_NM * LAM_STEPS_PER_NM + (NLAM - 1) == LAM_HI_NM * LAM_STEPS_PER_NM,
{
}

proof fn rows_among_append(a: Seq<Seq<char>>, b: Seq<Seq<char>>)
    ensures
        rows_among(a + b) == rows_among(a) + rows_among(b),
    decreases b.len(),
{
    if b.len() == 0 {
        assert(a + b =~= a);
        assert(rows_among(a) + rows_among(b) =~= rows_among(a));
    } else {
        assert((a + b).drop_last() =~= a + b.drop_last());
        rows_among_append(a, b.drop_last());
        assert(rows_among(a + b) =~= rows_among(a) + rows_among(b));
    }
}

/// A line between two parts of a table adds its own row, if it holds one.
pub proof fn rows_of_one_line(a: Seq<char>, line: Seq<char>, b: Seq<char>)
    requires
        a.len() > 0 ==> a.last() == '\n',
        !line.contains('\n'),
    ensures
        rows_of(a + line.push('\n') + b) == rows_of(a) + (if holds_row(text::trimmed(line)) {
            seq![text::trimmed(line)]
        } else {
            seq![]
        }) + rows_of(b),
{
    let between = line.push('\n');
    text::lines_append(a, between);
    assert((a + between).last() == '\n');
    text::lines_append(a + between, b);
    text::one_line(line);
    text::chomping_keeps_the_trimmed_line(line);
    rows_among_append(text::lines_of(a), text::lines_of(between));
    rows_among_append(text::lines_of(a) + text::lines_of(between), text::lines_of(b));
    let one = seq![text::chomped(line)];
    assert(one.drop_last() =~= seq![]);
    assert(one.last() == text::chomped(line));
    assert(rows_among(one.drop_last()) =~= seq![]);
    if holds_row(text::trimmed(line)) {
        assert(rows_among(one) =~= seq![text::trimmed(line)]);
    } else {
        assert(rows_among(one) =~= seq![]);
    }
}

/// A line at the open end of a table adds its own row, if it holds one.
pub proof fn rows_of_last_line(a: Seq<char>, line: Seq<char>)
    requires
        a.len() > 0 ==> a.last() == '\n',
        !line.contains('\n'),
    ensures
        rows_of(a + line) == rows_of(a) + (if holds_row(text::trimmed(line)) {
            seq![text::trimmed(line)]
        } else {
            seq![]
        }),
{
    text::lines_append(a, line);
    text::open_line(line);
    rows_among_append(text::lines_of(a), text::lines_of(line));
    if line.len() > 0 {
        let one = seq![line];
        assert(one.drop_last() =~= seq![]);
        assert(one.last() == line);
        assert(rows_among(one.drop_last()) =~= seq![]);
        if holds_row(text::trimmed(line)) {
            assert(rows_among(one) =~= seq![text::trimmed(line)]);
        } else {
            assert(rows_among(one) =~= seq![]);
        }
    } else {
        assert(text::trimmed(line) =~= line);
        assert(rows_among(text::lines_of(line)) =~= seq![]);
    }
}

/// A comment or blank line changes nothing, wherever it stands: a line that
/// holds no row, put between two parts of a table or left open at its end,
/// leaves the rows as they are.
pub proof fn lines_without_rows_change_nothing(a: Seq<char>, line: Seq<char>, b: Seq<char>)
    requires
        a.len() > 0 ==> a.last() == '\n',
        !line.contains('\n'),
        !holds_row(text::trimmed(line)),
    ensures
        rows_of(a + line.push('\n') + b) == rows_of(a + b),
        rows_of(a + b) == rows_of(a) + rows_of(b),
        rows_of(a + line) == rows_of(a),
{
    text::lines_append(a, b);
    rows_among_append(text::lines_of(a), text::lines_of(b));
    rows_of_one_line(a, line, b);
    rows_of_last_line(a, line);
    assert(rows_of(a) + seq![] =~= rows_of(a));
}

/// White space around a line of a table changes nothing, wherever the line
/// stands, at the open end of the table too.
pub proof fn blanks_around_lines_change_nothing(
    a: Seq<char>,
    pre: Seq<char>,
    line: Seq<char>,
    post: Seq<char>,
    b: Seq<char>,
)
    requires
        a.len() > 0 ==> a.last() == '\n',
        text::is_blank(pre),
        text::is_blank(post),
        !pre.contains('\n'),
        !line.contains('\n'),
        !post.contains('\n'),
    ensures
        rows_of(a + (pre + line + post).push('\n') + b) == rows_of(a + line.push('\n') + b),
        rows_of(a + (pre + line + post)) == rows_of(a + line),
{
    let padded = pre + line + post;
    assert(!padded.contains('\n')) by {
        if padded.contains('\n') {
            let i = choose|i: int| 0 <= i < padded.len() && padded[i] == '\n';
            if i < pre.len() {
                assert(pre[i] == '\n');
            } else if i < pre.len() + line.len() {
                assert(line[i - pre.len()] == '\n');
            } else {
                assert(post[i - pre.len() - line.len()] == '\n');
            }
        }
    }
    text::blanks_around_are_trimmed(pre, line, post);
    rows_of_one_line(a, padded, b);
    rows_of_one_line(a, line, b);
    rows_of_last_line(a, padded);
    rows_of_last_line(a, line);
}

/// A table is without fault exactly when every one of its rows is on the grid
/// and has a throughput.
pub proof fn faultless_exactly_on_the_grid<T>(readings: Seq<Reading<T>>)
    ensures
        faultless(readings, readings.len() as int) <==> (forall|k: int|
            0 <= k < readings.len() ==> (#[trigger] readings[k]).on_grid == Some(true)
                && readings[k].throughput is Some),
{
    if faultless(readings, readings.len() as int) {
        assert forall|k: int| 0 <= k < readings.len() implies (
        #[trigger] readings[k]).on_grid == Some(true) && readings[k].throughput is Some by {
            assert(readings[k].fault(k) is None);
        }
    }
}

} // verus!
