//! What a throughput table comes to.
//!
//! The contracts of `lsst_tables` speak of rows, readings and faults. The laws
//! here say what is read from the lines and columns themselves, where each given
//! function has one answer, named by a function whose name ends in `_is`.

use vstd::prelude::*;

use crate::lsst_tables;
use crate::lsst_tables::{DataRow, Reading, TableError};
use crate::sum;
use crate::text;

verus! {

/// The rows of a table come line by line: a line, closed by a line feed or left
/// open at the end, is a row without the white space around it, unless it is
/// blank or starts with `#`.
pub proof fn rows_come_line_by_line(before: Seq<char>, line: Seq<char>, after: Seq<char>)
    requires
        before.len() > 0 ==> before[before.len() - 1] == '\n',
        !line.contains('\n'),
    ensures
        lsst_tables::rows_of(seq![]) == Seq::<Seq<char>>::empty(),
        text::trimmed(line).len() == 0 || text::trimmed(line)[0] == '#' ==> {
            &&& lsst_tables::rows_of(before + line.push('\n') + after) == lsst_tables::rows_of(
                before,
            ) + lsst_tables::rows_of(after)
            &&& lsst_tables::rows_of(before + line) == lsst_tables::rows_of(before)
        },
        text::trimmed(line).len() > 0 && text::trimmed(line)[0] != '#' ==> {
            &&& lsst_tables::rows_of(before + line.push('\n') + after) == lsst_tables::rows_of(
                before,
            ) + seq![text::trimmed(line)] + lsst_tables::rows_of(after)
            &&& lsst_tables::rows_of(before + line) == lsst_tables::rows_of(before) + seq![
                text::trimmed(line),
            ]
        },
{
    let nothing = Seq::<Seq<char>>::empty();
    text::open_line(seq![]);
    assert(lsst_tables::rows_of(seq![]) =~= nothing);
    lsst_tables::rows_of_one_line(before, line, after);
    lsst_tables::rows_of_last_line(before, line);
    assert(lsst_tables::rows_of(before) + nothing =~= lsst_tables::rows_of(before));
}

/// A row shows its line, the first column of it and the second, where it has
/// them.
pub proof fn a_row_shows_its_first_two_columns(row: DataRow, line: Seq<char>)
    requires
        row.shows(line),
    ensures
        row.line@ == line,
        row.wavelength is Some <==> text::words_of(line).len() >= 1,
        row.wavelength matches Some(cell) ==> cell@ == text::words_of(line)[0],
        row.throughput is Some <==> text::words_of(line).len() >= 2,
        row.throughput matches Some(cell) ==> cell@ == text::words_of(line)[1],
{
}

/// A table is refused at the first row that is at fault: for its wavelength where
/// that is no number, else for its throughput where that is no number, else for
/// being off the grid. A table without such a row is refused for its length
/// unless it has 8501 rows, and otherwise gives their throughputs in order.
pub proof fn the_first_fault_of_a_table_counts<T>(
    readings: Seq<Reading<T>>,
    r: Result<Vec<T>, TableError>,
    good: spec_fn(int) -> bool,
    k: int,
)
    requires
        lsst_tables::amounts_to(readings, r),
        forall|j: int|
            0 <= j < readings.len() ==> (#[trigger] good(j) <==> readings[j].on_grid == Some(true)
                && readings[j].throughput is Some),
    ensures
        r is Ok <==> readings.len() == 8501 && forall|j: int|
            0 <= j < readings.len() ==> #[trigger] good(j),
        r matches Ok(trans) ==> {
            &&& trans@.len() == 8501
            &&& forall|j: int|
                0 <= j < 8501 ==> readings[j].throughput == Some(#[trigger] trans@[j])
        },
        readings.len() != 8501 && (forall|j: int| 0 <= j < readings.len() ==> #[trigger] good(j))
            ==> (r matches Err(TableError::RowCount(n)) && n == readings.len()),
        0 <= k < readings.len() && !good(k) && (forall|j: int| 0 <= j < k ==> #[trigger] good(j))
            ==> {
            &&& readings[k].on_grid is None ==> r == Err::<Vec<T>, TableError>(
                TableError::BadWavelength(k as usize),
            )
            &&& readings[k].on_grid is Some && readings[k].throughput is None ==> r == Err::<
                Vec<T>,
                TableError,
            >(TableError::BadThroughput(k as usize))
            &&& readings[k].on_grid is Some && readings[k].throughput is Some ==> r == Err::<
                Vec<T>,
                TableError,
            >(TableError::OffGrid(k as usize))
        },
{
    assert forall|j: int| 0 <= j < readings.len() implies (#[trigger] good(j) <==> readings[j].fault(
        j,
    ) is None) by {
        if let Some(on_grid) = readings[j].on_grid {
            assert(on_grid || !on_grid);
        }
    }
    match r {
        Ok(trans) => {
            assert forall|j: int| 0 <= j < readings.len() implies #[trigger] good(j) by {
                assert(readings[j].fault(j) is None);
            }
        },
        Err(TableError::RowCount(n)) => {
            assert forall|j: int| 0 <= j < readings.len() implies #[trigger] good(j) by {
                assert(readings[j].fault(j) is None);
            }
        },
        Err(e) => {
            let at = choose|at: int|
                {
                    &&& 0 <= at < readings.len()
                    &&& lsst_tables::faultless(readings, at)
                    &&& (#[trigger] readings[at]).fault(at) == Some(e)
                };
            assert(!good(at));
            if 0 <= k < readings.len() && !good(k) && (forall|j: int|
                0 <= j < k ==> #[trigger] good(j)) {
                if k < at {
                    assert(readings[k].fault(k) is None);
                }
                assert(at == k);
            }
        },
    }
}

/// What a table parses to, in terms of what the given functions answer: each row
/// is read by its first two words, the wavelength is held against a grid of ten
/// points per nanometre from 300 nm on, and the throughputs of 8501 rows without
/// fault come out in order.
pub proof fn a_table_is_read_row_by_row<
    T,
    Number: Fn(&str) -> Option<T>,
    OnGrid: Fn(T, u32, u32, usize) -> bool,
>(
    rows: Seq<Seq<char>>,
    number: Number,
    on_grid: OnGrid,
    readings: Seq<Reading<T>>,
    number_is: spec_fn(Seq<char>) -> Option<T>,
    on_grid_is: spec_fn(T, u32, u32, usize) -> bool,
)
    requires
        lsst_tables::table_reads(number, on_grid, rows, readings),
        forall|s: &str, x: Option<T>| #[trigger]
            call_ensures(number, (s,), x) ==> x == number_is(s@),
        forall|l: T, lo: u32, n: u32, k: usize, b: bool| #[trigger]
            call_ensures(on_grid, (l, lo, n, k), b) ==> b == on_grid_is(l, lo, n, k),
    ensures
        readings.len() == rows.len(),
        forall|k: int|
            #![trigger readings[k]]
            #![trigger rows[k]]
            0 <= k < rows.len() ==> {
                let words = text::words_of(rows[k]);
                &&& words.len() == 0 ==> readings[k].on_grid is None
                &&& words.len() > 0 ==> (match number_is(words[0]) {
                    None => readings[k].on_grid is None,
                    Some(l) => readings[k].on_grid == Some(on_grid_is(l, 300, 10, k as usize)),
                })
                &&& words.len() <= 1 ==> readings[k].throughput is None
                &&& words.len() > 1 ==> readings[k].throughput == number_is(words[1])
            },
{
    assert forall|k: int|
        #![trigger readings[k]]
        #![trigger rows[k]]
        0 <= k < rows.len() implies {
        let words = text::words_of(rows[k]);
        &&& words.len() == 0 ==> readings[k].on_grid is None
        &&& words.len() > 0 ==> (match number_is(words[0]) {
            None => readings[k].on_grid is None,
            Some(l) => readings[k].on_grid == Some(on_grid_is(l, 300, 10, k as usize)),
        })
        &&& words.len() <= 1 ==> readings[k].throughput is None
        &&& words.len() > 1 ==> readings[k].throughput == number_is(words[1])
    } by {
        assert(lsst_tables::row_reads(number, on_grid, rows[k], k, readings[k]));
        let lam = choose|lam: Option<T>|
            {
                &&& #[trigger] lsst_tables::column_reads(number, rows[k], 0, lam)
                &&& match (lam, readings[k].on_grid) {
                    (Some(l), Some(g)) => call_ensures(on_grid, (l, 300u32, 10u32, k as usize), g),
                    (None, None) => true,
                    _ => false,
                }
            };
        assert(lsst_tables::column_reads(number, rows[k], 0, lam));
        assert(lsst_tables::column_reads(number, rows[k], 1, readings[k].throughput));
    }
}

/// The sums behind a pivot wavelength, in terms of what the given functions
/// answer: the shares of all 8500 intervals of the grid, first to last.
pub proof fn pivots_take_in_every_interval<S, T, Term: Fn(usize, S, S) -> T, Plus: Fn(T, T) -> T>(
    curve: Seq<S>,
    zero: T,
    term: Term,
    plus: Plus,
    sums: Seq<T>,
    term_is: spec_fn(usize, S, S) -> T,
    plus_is: spec_fn(T, T) -> T,
    step: spec_fn(int, T) -> T,
)
    requires
        sums.len() == 8501,
        lsst_tables::running_intervals(curve, zero, term, plus, sums),
        forall|k: usize, a: S, b: S, x: T| #[trigger]
            call_ensures(term, (k, a, b), x) ==> x == term_is(k, a, b),
        forall|a: T, b: T, x: T| #[trigger] call_ensures(plus, (a, b), x) ==> x == plus_is(a, b),
        forall|k: int, x: T|
            0 <= k < 8500 ==> #[trigger] step(k, x) == plus_is(
                x,
                term_is(k as usize, curve[k], curve[k + 1]),
            ),
    ensures
        sums.last() == sum::fold(8500, zero, step),
{
    assert forall|k: int| 0 <= k < 8500 implies #[trigger] sums[k + 1] == step(k, sums[k]) by {
        assert(lsst_tables::interval_adds(curve, term, plus, k, sums[k], sums[k + 1]));
    }
    sum::sums_fold(8500, zero, step, sums);
}

} // verus!
