//! What a bank comes to.
//!
//! The contracts of `bank` speak of columns, filled lines and sources of filling
//! factors. The laws here say what is read from the lines and cells themselves.

use vstd::prelude::*;

use crate::bank;
use crate::bank::{BankRow, Columns, Family, RowNumbers, SpecRow};
use crate::params::EBParams;
use crate::star::Star;
use crate::text;
use crate::EBType;

verus! {

/// The first of some cells that holds `name` stands at `at`.
pub open spec fn named_at(cells: Seq<Seq<char>>, name: Seq<char>, at: int) -> bool {
    &&& 0 <= at < cells.len()
    &&& cells[at] == name
    &&& forall|j: int| 0 <= j < at ==> #[trigger] cells[j] != name
}

/// A position is found exactly where a cell holds the name, and it is that of the
/// first such cell.
pub proof fn a_name_stands_where_it_is_first(cells: Seq<Seq<char>>, name: Seq<char>)
    ensures
        bank::position_of(cells, name) matches Some(i) ==> named_at(cells, name, i),
        bank::position_of(cells, name) is None <==> !cells.contains(name),
{
    bank::position_is_first(cells, name, 0);
    if let Some(i) = bank::position_of(cells, name) {
        assert(cells.contains(cells[i]));
    }
}

/// The nine columns of a bank, in the order in which a missing one is reported.
pub proof fn the_columns_of_a_bank()
    ensures
        bank::column_names() =~= seq![
            "family"@,
            "q"@,
            "inclination"@,
            "temperature_ratio"@,
            "primary_temperature"@,
            "r1"@,
            "r2"@,
            "companion_fill"@,
            "filling_component"@,
        ],
{
}

/// Each column of a bank stands where its own name first stands in the header.
pub proof fn columns_stand_under_their_names(columns: Columns, header: Seq<char>)
    requires
        columns.head(text::fields_of(header)),
    ensures
        named_at(text::fields_of(header), "family"@, columns.family as int),
        named_at(text::fields_of(header), "q"@, columns.q as int),
        named_at(text::fields_of(header), "inclination"@, columns.inclination as int),
        named_at(text::fields_of(header), "temperature_ratio"@, columns.temperature_ratio as int),
        named_at(
            text::fields_of(header),
            "primary_temperature"@,
            columns.primary_temperature as int,
        ),
        named_at(text::fields_of(header), "r1"@, columns.r1 as int),
        named_at(text::fields_of(header), "r2"@, columns.r2 as int),
        named_at(text::fields_of(header), "companion_fill"@, columns.companion_fill as int),
        named_at(text::fields_of(header), "filling_component"@, columns.filling_component as int),
{
    let cells = text::fields_of(header);
    let names = bank::column_names();
    assert forall|k: int| 0 <= k < 9 implies named_at(
        cells,
        #[trigger] names[k],
        columns.slot(k) as int,
    ) by {
        a_name_stands_where_it_is_first(cells, names[k]);
    }
    assert(names[0] == "family"@);
    assert(names[1] == "q"@);
    assert(names[2] == "inclination"@);
    assert(names[3] == "temperature_ratio"@);
    assert(names[4] == "primary_temperature"@);
    assert(names[5] == "r1"@);
    assert(names[6] == "r2"@);
    assert(names[7] == "companion_fill"@);
    assert(names[8] == "filling_component"@);
}

/// The header of a bank is its first line, and an empty one where there is no
/// line at all.
pub proof fn the_header_is_the_first_line(src: Seq<char>)
    ensures
        text::lines_of(src).len() > 0 ==> bank::header_of(src) == text::lines_of(src)[0],
        text::lines_of(src).len() == 0 ==> bank::header_of(src) == Seq::<char>::empty(),
{
}

/// Every line after the header that is not blank gives exactly one row, in the
/// order of the lines, and there are no other rows. A row has the number of its
/// line, counted from 0 after the header, and holds what stands on that line in
/// each column; it is missing where the line is too short for one of them.
pub proof fn every_filled_line_gives_one_row(
    src: Seq<char>,
    columns: Columns,
    rows: Seq<BankRow>,
)
    requires
        bank::rows_show(
            rows,
            bank::body_of(src),
            bank::filled_lines(bank::body_of(src)),
            columns,
        ),
    ensures
        forall|i: int|
            1 <= i < text::lines_of(src).len() && text::trimmed(
                #[trigger] text::lines_of(src)[i],
            ).len() > 0 ==> exists|k: int| 0 <= k < rows.len() && (#[trigger] rows[k]).n == i - 1,
        forall|j: int, k: int|
            0 <= j < k < rows.len() ==> (#[trigger] rows[j]).n < (#[trigger] rows[k]).n,
        forall|k: int|
            0 <= k < rows.len() ==> {
                let i = (#[trigger] rows[k]).n + 1;
                &&& 1 <= i < text::lines_of(src).len()
                &&& text::trimmed(text::lines_of(src)[i]).len() > 0
                &&& row_holds(rows[k].row, text::fields_of(text::lines_of(src)[i]), columns)
            },
{
    let lines = text::lines_of(src);
    let body = bank::body_of(src);
    let filled = bank::filled_lines(body);
    filled_lines_are_those_not_blank(body);
    assert forall|i: int| 1 <= i < lines.len() && text::trimmed(#[trigger] lines[i]).len() > 0
        implies exists|k: int| 0 <= k < rows.len() && (#[trigger] rows[k]).n == i - 1 by {
        assert(body[i - 1] == lines[i]);
        assert(filled.contains(i - 1));
        let k = choose|k: int| 0 <= k < filled.len() && filled[k] == i - 1;
        assert(rows[k].shows(filled[k], text::fields_of(body[filled[k]]), columns));
    }
    assert forall|j: int, k: int| 0 <= j < k < rows.len() implies (#[trigger] rows[j]).n
        < (#[trigger] rows[k]).n by {
        assert(filled[j] < filled[k]);
        assert(rows[j].shows(filled[j], text::fields_of(body[filled[j]]), columns));
        assert(rows[k].shows(filled[k], text::fields_of(body[filled[k]]), columns));
    }
    assert forall|k: int| 0 <= k < rows.len() implies {
        let i = (#[trigger] rows[k]).n + 1;
        &&& 1 <= i < lines.len()
        &&& text::trimmed(lines[i]).len() > 0
        &&& row_holds(rows[k].row, text::fields_of(lines[i]), columns)
    } by {
        assert(rows[k].shows(filled[k], text::fields_of(body[filled[k]]), columns));
        assert(filled.contains(filled[k]));
        let i = rows[k].n + 1;
        assert(body[filled[k]] == lines[i]);
        let cells = text::fields_of(lines[i]);
        assert(columns.slot(0) == columns.family);
        assert(columns.slot(1) == columns.q);
        assert(columns.slot(2) == columns.inclination);
        assert(columns.slot(3) == columns.temperature_ratio);
        assert(columns.slot(4) == columns.primary_temperature);
        assert(columns.slot(5) == columns.r1);
        assert(columns.slot(6) == columns.r2);
        assert(columns.slot(7) == columns.companion_fill);
        assert(columns.slot(8) == columns.filling_component);
        if let Some(row) = rows[k].row {
            assert(row.cell(0) == cells[columns.slot(0) as int]);
            assert(row.cell(1) == cells[columns.slot(1) as int]);
            assert(row.cell(2) == cells[columns.slot(2) as int]);
            assert(row.cell(3) == cells[columns.slot(3) as int]);
            assert(row.cell(4) == cells[columns.slot(4) as int]);
            assert(row.cell(5) == cells[columns.slot(5) as int]);
            assert(row.cell(6) == cells[columns.slot(6) as int]);
            assert(row.cell(7) == cells[columns.slot(7) as int]);
            assert(row.cell(8) == cells[columns.slot(8) as int]);
        }
    }
}

/// `row` holds what stands in each column, or is missing where there are too few
/// cells for one of them.
pub open spec fn row_holds(
    row: Option<SpecRow>,
    cells: Seq<Seq<char>>,
    columns: Columns,
) -> bool {
    match row {
        Some(row) => {
            &&& columns.family < cells.len()
            &&& row.family@ == cells[columns.family as int]
            &&& columns.q < cells.len()
            &&& row.q@ == cells[columns.q as int]
            &&& columns.inclination < cells.len()
            &&& row.inclination@ == cells[columns.inclination as int]
            &&& columns.temperature_ratio < cells.len()
            &&& row.temperature_ratio@ == cells[columns.temperature_ratio as int]
            &&& columns.primary_temperature < cells.len()
            &&& row.primary_temperature@ == cells[columns.primary_temperature as int]
            &&& columns.r1 < cells.len()
            &&& row.r1@ == cells[columns.r1 as int]
            &&& columns.r2 < cells.len()
            &&& row.r2@ == cells[columns.r2 as int]
            &&& columns.companion_fill < cells.len()
            &&& row.companion_fill@ == cells[columns.companion_fill as int]
            &&& columns.filling_component < cells.len()
            &&& row.filling_component@ == cells[columns.filling_component as int]
        },
        None => {
            ||| columns.family >= cells.len()
            ||| columns.q >= cells.len()
            ||| columns.inclination >= cells.len()
            ||| columns.temperature_ratio >= cells.len()
            ||| columns.primary_temperature >= cells.len()
            ||| columns.r1 >= cells.len()
            ||| columns.r2 >= cells.len()
            ||| columns.companion_fill >= cells.len()
            ||| columns.filling_component >= cells.len()
        },
    }
}

proof fn filled_lines_are_those_not_blank(lines: Seq<Seq<char>>)
    ensures
        forall|i: int| #[trigger]
            bank::filled_lines(lines).contains(i) <==> 0 <= i < lines.len() && text::trimmed(
                lines[i],
            ).len() > 0,
        forall|j: int, k: int|
            0 <= j < k < bank::filled_lines(lines).len() ==> #[trigger] bank::filled_lines(
                lines,
            )[j] < #[trigger] bank::filled_lines(lines)[k],
    decreases lines.len(),
{
    if lines.len() > 0 {
        let front = lines.drop_last();
        let rest = bank::filled_lines(front);
        let all = bank::filled_lines(lines);
        filled_lines_are_those_not_blank(front);
        assert forall|i: int| #[trigger] all.contains(i) <==> 0 <= i < lines.len() && text::trimmed(
            lines[i],
        ).len() > 0 by {
            if rest.contains(i) {
                let k = choose|k: int| 0 <= k < rest.len() && rest[k] == i;
                assert(all[k] == i);
            }
            if i == lines.len() - 1 && text::trimmed(lines.last()).len() > 0 {
                assert(all[rest.len() as int] == i);
            }
            if 0 <= i < front.len() {
                assert(front[i] == lines[i]);
                assert(rest.contains(i) <==> text::trimmed(front[i]).len() > 0);
            }
            if all.contains(i) {
                let k = choose|k: int| 0 <= k < all.len() && all[k] == i;
                if k < rest.len() {
                    assert(rest[k] == i);
                    assert(rest.contains(i));
                }
            }
        }
        assert forall|j: int, k: int| 0 <= j < k < all.len() implies #[trigger] all[j]
            < #[trigger] all[k] by {
            assert(rest.contains(rest[j]));
            if k < rest.len() {
                assert(rest[j] < rest[k]);
            }
        }
    }
}

/// A final line feed does not matter to a bank: where a text does not end in one,
/// the same columns are found and the same rows are read with a line feed at its
/// end.
pub proof fn a_final_line_feed_does_not_matter(
    src: Seq<char>,
    columns: Columns,
    rows: Seq<BankRow>,
)
    requires
        src.len() > 0,
        src[src.len() - 1] != '\n',
    ensures
        text::fields_of(bank::header_of(src.push('\n'))) == text::fields_of(bank::header_of(src)),
        columns.head(text::fields_of(bank::header_of(src.push('\n')))) <==> columns.head(
            text::fields_of(bank::header_of(src)),
        ),
        bank::rows_show(
            rows,
            bank::body_of(src.push('\n')),
            bank::filled_lines(bank::body_of(src.push('\n'))),
            columns,
        ) <==> bank::rows_show(
            rows,
            bank::body_of(src),
            bank::filled_lines(bank::body_of(src)),
            columns,
        ),
{
    let ended = src.push('\n');
    let (front, tail) = last_line(src);
    text::lines_append(front, tail);
    text::lines_append(front, tail.push('\n'));
    assert(front + tail =~= src);
    assert(front + tail.push('\n') =~= ended);
    text::open_line(tail);
    text::one_line(tail);
    let lines = text::lines_of(src);
    let more = text::lines_of(ended);
    assert(lines == text::lines_of(front) + seq![tail]);
    assert(more == text::lines_of(front) + seq![text::chomped(tail)]);
    text::chomping_keeps_the_trimmed_line(tail);
    if tail[tail.len() - 1] == '\r' {
        text::fields_ignore_a_carriage_return(tail.drop_last());
        assert(tail.drop_last().push('\r') =~= tail);
    }
    assert(text::fields_of(text::chomped(tail)) == text::fields_of(tail));
    assert forall|i: int| 0 <= i < lines.len() implies text::fields_of(#[trigger] more[i])
        == text::fields_of(lines[i]) && text::trimmed(more[i]) == text::trimmed(lines[i]) by {
        if i < lines.len() - 1 {
            assert(more[i] == lines[i]);
        }
    }
    let body = bank::body_of(src);
    let longer = bank::body_of(ended);
    assert forall|i: int| 0 <= i < body.len() implies text::fields_of(#[trigger] longer[i])
        == text::fields_of(body[i]) && text::trimmed(longer[i]) == text::trimmed(body[i]) by {
        assert(longer[i] == more[i + 1]);
        assert(body[i] == lines[i + 1]);
    }
    filled_alike(body, longer);
    let filled = bank::filled_lines(body);
    filled_lines_are_those_not_blank(body);
    assert forall|k: int| 0 <= k < filled.len() implies text::fields_of(
        longer[#[trigger] filled[k]],
    ) == text::fields_of(body[filled[k]]) by {
        assert(filled.contains(filled[k]));
    }
}

proof fn filled_alike(lines: Seq<Seq<char>>, others: Seq<Seq<char>>)
    requires
        lines.len() == others.len(),
        forall|i: int|
            0 <= i < lines.len() ==> text::trimmed(#[trigger] others[i]) == text::trimmed(lines[i]),
    ensures
        bank::filled_lines(others) == bank::filled_lines(lines),
    decreases lines.len(),
{
    if lines.len() > 0 {
        let front = lines.drop_last();
        let other_front = others.drop_last();
        assert forall|i: int| 0 <= i < front.len() implies text::trimmed(#[trigger] other_front[i])
            == text::trimmed(front[i]) by {
            assert(other_front[i] == others[i]);
        }
        filled_alike(front, other_front);
        assert(text::trimmed(others[lines.len() - 1]) == text::trimmed(lines[lines.len() - 1]));
    }
}

/// A text that does not end in a line feed is what stands up to its last line
/// feed, and a line without one.
proof fn last_line(src: Seq<char>) -> (parts: (Seq<char>, Seq<char>))
    requires
        src.len() > 0,
        src[src.len() - 1] != '\n',
    ensures
        parts.0 + parts.1 == src,
        parts.0.len() > 0 ==> parts.0.last() == '\n',
        parts.1.len() > 0,
        !parts.1.contains('\n'),
    decreases src.len(),
{
    if src.len() == 1 || src[src.len() - 2] == '\n' {
        let at = src.len() - 1;
        assert(src.take(at) + src.skip(at) =~= src);
        assert forall|i: int| 0 <= i < src.skip(at).len() implies src.skip(at)[i] != '\n' by {
            assert(src.skip(at)[i] == src[src.len() - 1]);
        }
        (src.take(at), src.skip(at))
    } else {
        let (front, tail) = last_line(src.drop_last());
        let longer = tail.push(src.last());
        assert(front + longer =~= (front + tail).push(src.last()));
        assert((front + tail).push(src.last()) =~= src);
        assert forall|i: int| 0 <= i < longer.len() implies longer[i] != '\n' by {
            if i < tail.len() {
                assert(tail.contains(tail[i]));
            }
        }
        (front, longer)
    }
}

/// The parameters of a system, in terms of what the given functions answer: each
/// cell is read from its own column. A contact binary takes its filling factors as
/// they stand and the coarsest grid; a detached one converts the radius of each
/// star; in a semidetached one the primary fills its lobe where it is named, and
/// otherwise the secondary, and the other star is at the companion's fill. Outside
/// contact the grid is the one that is wanted, between 20 and 400.
pub proof fn a_row_says_its_system<
    T,
    Number: Fn(&str) -> T,
    Convert: Fn(T, T, Star) -> T,
    Hundredths: Fn(u32) -> T,
    Times: Fn(T, T) -> T,
    Wanted: Fn(T, T) -> usize,
>(
    row: SpecRow,
    base: EBParams<T>,
    number: &Number,
    convert: &Convert,
    hundredths: &Hundredths,
    times: &Times,
    wanted: &Wanted,
    family: Family,
    numbers: RowNumbers<T>,
    params: EBParams<T>,
    number_is: spec_fn(Seq<char>) -> T,
    convert_is: spec_fn(T, T, Star) -> T,
    hundredths_is: spec_fn(u32) -> T,
    times_is: spec_fn(T, T) -> T,
    wanted_is: spec_fn(T, T) -> usize,
)
    requires
        Family::named(row.family@) == Some(family),
        bank::row_reads(number, row, numbers),
        bank::params_follow(
            convert,
            hundredths,
            times,
            wanted,
            family,
            bank::star_named(row.filling_component@),
            numbers,
            base,
            params,
        ),
        forall|s: &str, x: T| #[trigger] call_ensures(number, (s,), x) ==> x == number_is(s@),
        forall|q: T, r: T, s: Star, x: T| #[trigger]
            call_ensures(convert, (q, r, s), x) ==> x == convert_is(q, r, s),
        forall|h: u32, x: T| #[trigger]
            call_ensures(hundredths, (h,), x) ==> x == hundredths_is(h),
        forall|a: T, b: T, x: T| #[trigger]
            call_ensures(times, (a, b), x) ==> x == times_is(a, b),
        forall|a: T, b: T, n: usize| #[trigger]
            call_ensures(wanted, (a, b), n) ==> n == wanted_is(a, b),
    ensures
        params.q == number_is(row.q@),
        params.inclination == number_is(row.inclination@),
        params.t_eff1 == number_is(row.primary_temperature@),
        params.t_eff2 == times_is(
            number_is(row.primary_temperature@),
            number_is(row.temperature_ratio@),
        ),
        params.ld1 == hundredths_is(50),
        params.ld2 == hundredths_is(50),
        params.phi0 == base.phi0,
        params.l3 == base.l3,
        params.passband == base.passband,
        row.family@ == "contact"@ || row.family@ == "detached"@ || row.family@ == "semidetached"@,
        row.family@ == "contact"@ ==> {
            &&& params.eb_type == EBType::Contact
            &&& params.fillout1 == number_is(row.r1@)
            &&& params.fillout2 == number_is(row.r2@)
            &&& params.n_grid == 20
        },
        row.family@ == "detached"@ ==> {
            &&& params.eb_type == EBType::Detached
            &&& params.fillout1 == convert_is(
                number_is(row.q@),
                number_is(row.r1@),
                Star::Primary,
            )
            &&& params.fillout2 == convert_is(
                number_is(row.q@),
                number_is(row.r2@),
                Star::Secondary,
            )
        },
        row.family@ == "semidetached"@ ==> {
            &&& params.eb_type == EBType::SemiDetached
            &&& row.filling_component@ == "primary"@ ==> {
                &&& params.fillout1 == hundredths_is(100)
                &&& params.fillout2 == number_is(row.companion_fill@)
            }
            &&& row.filling_component@ != "primary"@ ==> {
                &&& params.fillout1 == number_is(row.companion_fill@)
                &&& params.fillout2 == hundredths_is(100)
            }
        },
        row.family@ != "contact"@ ==> {
            let n = wanted_is(number_is(row.r1@), number_is(row.r2@));
            &&& n < 20 ==> params.n_grid == 20
            &&& 20 <= n <= 400 ==> params.n_grid == n
            &&& n > 400 ==> params.n_grid == 400
        },
{
    reveal_strlit("contact");
    reveal_strlit("detached");
    reveal_strlit("semidetached");
    assert("contact"@.len() == 7 && "detached"@.len() == 8 && "semidetached"@.len() == 12);
}

/// There is a system on a row exactly where its family is one of the three.
pub proof fn there_are_three_families(name: Seq<char>)
    ensures
        Family::named(name) is Some <==> name == "contact"@ || name == "detached"@ || name
            == "semidetached"@,
{
}

/// Lists of texts are seen text by text.
pub proof fn lists_are_seen_text_by_text(list: Seq<String>, lists: Seq<Vec<String>>)
    ensures
        text::views(list).len() == list.len(),
        forall|i: int| 0 <= i < list.len() ==> #[trigger] text::views(list)[i] == list[i]@,
        bank::deep_views(lists).len() == lists.len(),
        forall|b: int|
            0 <= b < lists.len() ==> #[trigger] bank::deep_views(lists)[b] == text::views(
                lists[b]@,
            ),
{
}

/// A bank holds one row for each curve, in order, with the entries of that curve;
/// for a system that could not be built, six rows with as many NaN as there are
/// phases.
pub proof fn every_curve_has_its_row(curves: Seq<Seq<Seq<char>>>, n_phases: nat)
    requires
        forall|b: int, k: int|
            0 <= b < curves.len() && 0 <= k < curves[b].len() ==> text::is_word(
                #[trigger] curves[b][k],
            ),
    ensures
        bank::output_of(Some(curves), n_phases).len() == curves.len(),
        forall|b: int|
            0 <= b < curves.len() ==> text::words_of(
                #[trigger] bank::output_of(Some(curves), n_phases)[b],
            ) == curves[b],
        forall|b: int|
            0 <= b < curves.len() ==> #[trigger] bank::output_of(Some(curves), n_phases)[b]
                == text::joined(curves[b]),
        bank::output_of(None, n_phases).len() == 6,
        forall|b: int|
            0 <= b < 6 ==> #[trigger] bank::output_of(None, n_phases)[b] == text::joined(
                Seq::new(n_phases, |k: int| "NaN"@),
            ),
{
    assert forall|b: int| 0 <= b < curves.len() implies text::words_of(
        #[trigger] bank::output_of(Some(curves), n_phases)[b],
    ) == curves[b] by {
        text::joined_words_come_apart(curves[b]);
    }
    assert(bank::nan_cells(n_phases) =~= Seq::new(n_phases, |k: int| "NaN"@));
}

} // verus!
