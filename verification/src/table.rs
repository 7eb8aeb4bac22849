//! Rendering of time measurements as a text table.
use tabled::object::Segment;
use tabled::{Alignment, Modify, Style};
use vstd::prelude::*;
use crate::text::is_digit;

verus! {

/// The pieces of `s` between the occurrences of `sep` (one more piece than
/// there are separators; empty pieces included).
pub open spec fn split_on(s: Seq<char>, sep: char) -> Seq<Seq<char>>
    decreases s.len(),
{
    if s.len() == 0 {
        seq![Seq::empty()]
    } else {
        let rest = split_on(s.drop_last(), sep);
        if s.last() == sep {
            rest.push(Seq::empty())
        } else {
            rest.update(rest.len() - 1, rest.last().push(s.last()))
        }
    }
}

/// `s` without the spaces at its start.
pub open spec fn trim_leading_spaces(s: Seq<char>) -> Seq<char>
    decreases s.len(),
{
    if s.len() > 0 && s[0] == ' ' {
        trim_leading_spaces(s.drop_first())
    } else {
        s
    }
}

/// `s` without the spaces at its start and at its end.
pub open spec fn trim_spaces(s: Seq<char>) -> Seq<char> {
    trim_leading_spaces(crate::text::trim_trailing_spaces(s))
}

/// The lines of a text: its pieces between line breaks.
pub open spec fn text_lines(s: Seq<char>) -> Seq<Seq<char>> {
    split_on(s, '\n')
}

/// The cells of a table line: its pieces between the column separators
/// `|`, without the spaces around them.
pub open spec fn line_cells(line: Seq<char>) -> Seq<Seq<char>> {
    split_on(line, '|').map_values(|f: Seq<char>| trim_spaces(f))
}

/// `line` shows the cells of `row`, in order, followed only by empty cells
/// (the cells that even out rows shorter than the widest one).
pub open spec fn shows_row(line: Seq<char>, row: Seq<Seq<char>>) -> bool {
    let cells = line_cells(line);
    &&& cells.len() >= row.len()
    &&& forall|k: int|
        0 <= k < cells.len() ==> #[trigger] cells[k] == if k < row.len() {
            row[k]
        } else {
            Seq::<char>::empty()
        }
}

/// A table whose every line is one row: a header of at least one cell,
/// none holding a line break, and data cells of digits only.
pub open spec fn is_plain_table(header: Seq<Seq<char>>, records: Seq<Seq<Seq<char>>>) -> bool {
    &&& header.len() >= 1
    &&& forall|j: int| 0 <= j < header.len() ==> !(#[trigger] header[j]).contains('\n')
    &&& forall|i: int, j: int|
        0 <= i < records.len() && 0 <= j < records[i].len() ==> is_digit_text(
            #[trigger] records[i][j],
        )
}

/// Every character of `s` is a digit.
pub open spec fn is_digit_text(s: Seq<char>) -> bool {
    forall|c: int| 0 <= c < s.len() ==> is_digit(#[trigger] s[c])
}

/// The text that `tabled` renders for a table with the header row `header`
/// and the data rows `records`, in `Style::psql()` with every cell
/// right-aligned.
pub uninterp spec fn psql_table(header: Seq<Seq<char>>, records: Seq<Seq<Seq<char>>>) -> Seq<char>;

/// Builds a table with `tabled::builder::Builder` (one `add_record` per
/// row, `set_columns` for the header), styles it with `Style::psql()` and
/// `Modify::new(Segment::all()).with(Alignment::right())`, and renders it
/// with `to_string`. The full rendering (column widths, the separator
/// line) is named, not described: the same header and rows give the same
/// text. What the contract states besides, for a plain table (see
/// `is_plain_table`), is how tabled 0.10 / papergrid 0.7 lay it out: a cell
/// without a line break takes one line, so each row takes exactly one
/// line (papergrid's `print_grid`, one line per row of height one); the
/// psql style has no top, bottom or side borders and one horizontal line,
/// under the header, printed only when data rows follow; lines are joined
/// by `\n` with none at the end; within a row the cells stand in order,
/// separated by `|`, each between spaces (padding and alignment), and rows
/// shorter than the widest are evened out with empty cells
/// (`Builder::fix_rows`). So the text has the header line, then the
/// separator line and one line per data row, in the order given.
#[verifier::external_body]
pub(crate) fn render_psql_table(header: &Vec<String>, records: &Vec<Vec<String>>) -> (r: String)
    ensures
        r@ == psql_table(header.deep_view(), records.deep_view()),
        is_plain_table(header.deep_view(), records.deep_view()) ==> text_lines(r@).len() == if records@.len() == 0 {
            1
        } else {
            records@.len() + 2
        },
        is_plain_table(header.deep_view(), records.deep_view()) ==> forall|i: int|
            #![trigger records.deep_view()[i]]
            0 <= i < records@.len() ==> shows_row(text_lines(r@)[i + 2], records.deep_view()[i]),
{
    let mut builder = tabled::builder::Builder::default();
    for record in records.iter() {
        builder.add_record(record.clone());
    }
    builder.set_columns(header.clone());
    builder.build().with(Style::psql()).with(Modify::new(Segment::all()).with(Alignment::right())).to_string()
}

} // verus!
