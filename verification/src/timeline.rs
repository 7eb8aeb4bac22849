//! A sequence of named measurements taken while a task runs, and the table
//! that puts the sequences of many tasks side by side.
use vstd::prelude::*;
use vstd::string::StringExecFns;
use crate::clock::{span_millis, Timestamp};
use crate::table::{is_digit_text, is_plain_table, psql_table, render_psql_table, shows_row, text_lines};
use crate::text::{decimal, is_decimal_numeral, lemma_decimal_digits, lemma_decimal_is_numeral, push_decimal};

verus! {

/// Named points in time, in the order in which they were taken.
pub struct Timeline {
    measurements: Vec<(String, Timestamp)>,
}

/// The name and time of each measurement, in order.
pub open spec fn measurements_view(m: Seq<(String, Timestamp)>) -> Seq<(Seq<char>, Timestamp)> {
    m.map_values(|e: (String, Timestamp)| (e.0@, e.1))
}

impl View for Timeline {
    type V = Seq<(Seq<char>, Timestamp)>;

    closed spec fn view(&self) -> Seq<(Seq<char>, Timestamp)> {
        measurements_view(self.measurements@)
    }
}

/// The measurements were taken in the order of their times: none is
/// earlier than one before it.
pub open spec fn chronological(t: Seq<(Seq<char>, Timestamp)>) -> bool {
    forall|i: int, j: int| 0 <= i <= j < t.len() ==> t[i].1.nanos <= t[j].1.nanos
}

/// The names of the measurements, in order.
pub open spec fn names(t: Seq<(Seq<char>, Timestamp)>) -> Seq<Seq<char>> {
    t.map_values(|e: (Seq<char>, Timestamp)| e.0)
}

/// Whole milliseconds from `start` to each measurement (zero for those taken before `start`).
pub open spec fn millis_from(t: Seq<(Seq<char>, Timestamp)>, start: Timestamp) -> Seq<u128> {
    t.map_values(|e: (Seq<char>, Timestamp)| span_millis(start, e.1) as u128)
}

/// The name of the first measurement of every timeline.
pub open spec fn init_name() -> Seq<char> {
    seq!['i', 'n', 'i', 't']
}

impl Timeline {
    /// A timeline whose one measurement, `init`, is taken at `at`.
    pub fn new_at(at: Timestamp) -> (r: Timeline)
        ensures
            r@ == seq![(init_name(), at)],
    {
        let mut t = Timeline { measurements: Vec::new() };
        proof {
            reveal_strlit("init");
        }
        t.add_at("init", at);
        assert("init"@ =~= init_name());
        assert(t@ =~= seq![(init_name(), at)]);
        t
    }

    /// A timeline whose one measurement, `init`, is taken now.
    pub fn new() -> (r: Timeline)
        ensures
            r@.len() == 1,
            r@[0].0 == init_name(),
            chronological(r@),
    {
        Timeline::new_at(Timestamp::now())
    }

    /// Records the measurement `log_name` taken at `at`.
    pub fn add_at(&mut self, log_name: &str, at: Timestamp)
        ensures
            final(self)@ == old(self)@.push((log_name@, at)),
    {
        let name = String::from_str(log_name);
        self.measurements.push((name, at));
        assert(measurements_view(self.measurements@) =~= measurements_view(
            old(self).measurements@,
        ).push((log_name@, at)));
    }

    /// Records the measurement `log_name`, taken now. A clock that was set
    /// back since the last measurement reads as the time of that measurement,
    /// so that the measurements never go back in time.
    pub fn add(&mut self, log_name: &str)
        ensures
            final(self)@.len() == old(self)@.len() + 1,
            final(self)@.drop_last() == old(self)@,
            final(self)@.last().0 == log_name@,
            old(self)@.len() > 0 ==> old(self)@.last().1.nanos <= final(self)@.last().1.nanos,
            chronological(old(self)@) ==> chronological(final(self)@),
    {
        let n = self.measurements.len();
        let at = if n > 0 {
            Timestamp::now_not_before(&self.measurements[n - 1].1)
        } else {
            Timestamp::now()
        };
        proof {
            if n > 0 {
                assert(self@.last().1 == self.measurements@[n - 1].1);
            }
        }
        self.add_at(log_name, at);
    }

    /// The names of the measurements, in order.
    pub fn get_cols(&self) -> (r: Vec<String>)
        ensures
            r.deep_view() == names(self@),
    {
        let mut r: Vec<String> = Vec::new();
        let mut i: usize = 0;
        while i < self.measurements.len()
            invariant
                i <= self.measurements@.len(),
                r@.len() == i,
                forall|j: int| 0 <= j < i ==> #[trigger] r@[j]@ == names(self@)[j],
            decreases self.measurements@.len() - i,
        {
            r.push(self.measurements[i].0.clone());
            i = i + 1;
        }
        assert(r.deep_view() =~= names(self@));
        r
    }

    /// Whole milliseconds from `start` to each measurement, in order.
    pub fn get_vals(&self, start: Timestamp) -> (r: Vec<u128>)
        ensures
            r@ == millis_from(self@, start),
    {
        let mut r: Vec<u128> = Vec::new();
        let mut i: usize = 0;
        while i < self.measurements.len()
            invariant
                i <= self.measurements@.len(),
                r@ == millis_from(self@, start).take(i as int),
            decreases self.measurements@.len() - i,
        {
            r.push(self.measurements[i].1.millis_since(&start));
            i = i + 1;
            assert(r@ =~= millis_from(self@, start).take(i as int));
        }
        assert(millis_from(self@, start).take(i as int) =~= millis_from(self@, start));
        r
    }
}

/// A timeline has one value per measurement name: names and values line up.
pub proof fn lemma_names_align_with_values(t: Seq<(Seq<char>, Timestamp)>, start: Timestamp)
    ensures
        names(t).len() == millis_from(t, start).len(),
        names(t).len() == t.len(),
{
}

/// The values of a chronological timeline never decrease, from any start,
/// and an earlier start never gives smaller values than a later one.
pub proof fn lemma_chronological_values(t: Seq<(Seq<char>, Timestamp)>, s1: Timestamp, s2: Timestamp)
    requires
        chronological(t),
        s1.nanos <= s2.nanos,
    ensures
        forall|i: int, j: int|
            0 <= i <= j < t.len() ==> #[trigger] millis_from(t, s2)[i] <= #[trigger] millis_from(
                t,
                s2,
            )[j],
        forall|i: int| 0 <= i < t.len() ==> #[trigger] millis_from(t, s2)[i] <= millis_from(t, s1)[i],
{
    assert forall|i: int, j: int| 0 <= i <= j < t.len() implies #[trigger] millis_from(t, s2)[i]
        <= #[trigger] millis_from(t, s2)[j] by {
        crate::clock::lemma_span_monotonic(s2, s2, t[i].1, t[j].1);
    }
    assert forall|i: int| 0 <= i < t.len() implies #[trigger] millis_from(t, s2)[i] <= millis_from(
        t,
        s1,
    )[i] by {
        crate::clock::lemma_span_monotonic(s1, s2, t[i].1, t[i].1);
    }
}

/// The cells of a table row: each value in decimal.
pub open spec fn decimal_cells(vals: Seq<u128>) -> Seq<Seq<char>> {
    vals.map_values(|v: u128| decimal(v as nat))
}

/// The message given in place of a table when there is no timeline.
pub open spec fn no_timeline_message() -> Seq<char> {
    "At least one Logs struct is required to print a table."@
}

/// The table of `logs`: the header holds the measurement names of the first
/// timeline; row `i` holds, for timeline `i`, the whole milliseconds from
/// `start` to each of its measurements. Without any timeline, a message
/// stands in place of the table.
pub open spec fn logs_table_text(logs: Seq<Seq<(Seq<char>, Timestamp)>>, start: Timestamp) -> Seq<char> {
    if logs.len() == 0 {
        no_timeline_message()
    } else {
        psql_table(
            names(logs[0]),
            logs.map_values(|t: Seq<(Seq<char>, Timestamp)>| decimal_cells(millis_from(t, start))),
        )
    }
}

/// The views of a list of timelines.
pub open spec fn timelines_view(logs: Seq<Timeline>) -> Seq<Seq<(Seq<char>, Timestamp)>> {
    logs.map_values(|t: Timeline| t@)
}

/// Renders each value of `vals` in decimal.
fn decimal_row(vals: &Vec<u128>) -> (r: Vec<String>)
    ensures
        r.deep_view() == decimal_cells(vals@),
{
    let mut r: Vec<String> = Vec::new();
    let mut i: usize = 0;
    while i < vals.len()
        invariant
            i <= vals@.len(),
            r@.len() == i,
            forall|j: int| 0 <= j < i ==> #[trigger] r@[j]@ == decimal_cells(vals@)[j],
        decreases vals@.len() - i,
    {
        let mut cell = String::new();
        push_decimal(&mut cell, vals[i]);
        r.push(cell);
        i = i + 1;
    }
    assert(r.deep_view() =~= decimal_cells(vals@));
    r
}

/// The table of the measurements of `logs` measured from `start`, one row
/// per timeline under the names of the first timeline's measurements, or a
/// message when `logs` is empty.
pub fn logs_table(logs: &Vec<Timeline>, start: Timestamp) -> (r: String)
    ensures
        r@ == logs_table_text(timelines_view(logs@), start),
        has_plain_header(timelines_view(logs@)) ==> text_lines(r@).len() == logs@.len() + 2,
        has_plain_header(timelines_view(logs@)) ==> forall|i: int|
            #![trigger timelines_view(logs@)[i]]
            0 <= i < logs@.len() ==> shows_row(
                text_lines(r@)[i + 2],
                decimal_cells(millis_from(timelines_view(logs@)[i], start)),
            ),
{
    if logs.len() == 0 {
        let msg = String::from_str("At least one Logs struct is required to print a table.");
        proof {
            reveal_strlit("At least one Logs struct is required to print a table.");
        }
        return msg;
    }
    let columns = logs[0].get_cols();
    let mut records: Vec<Vec<String>> = Vec::new();
    let mut i: usize = 0;
    let ghost cells = timelines_view(logs@).map_values(
        |t: Seq<(Seq<char>, Timestamp)>| decimal_cells(millis_from(t, start)),
    );
    while i < logs.len()
        invariant
            i <= logs@.len(),
            cells == timelines_view(logs@).map_values(
                |t: Seq<(Seq<char>, Timestamp)>| decimal_cells(millis_from(t, start)),
            ),
            records@.len() == i,
            forall|j: int| 0 <= j < i ==> #[trigger] records@[j].deep_view() == cells[j],
        decreases logs@.len() - i,
    {
        let vals = logs[i].get_vals(start);
        let row = decimal_row(&vals);
        records.push(row);
        i = i + 1;
    }
    assert(records.deep_view() =~= cells);
    proof {
        assert forall|a: int, b: int|
            0 <= a < cells.len() && 0 <= b < cells[a].len() implies is_digit_text(
            #[trigger] cells[a][b],
        ) by {
            let vals = millis_from(timelines_view(logs@)[a], start);
            assert(cells[a] == decimal_cells(vals));
            lemma_decimal_digits(vals[b] as nat);
        }
        if has_plain_header(timelines_view(logs@)) {
            assert(is_plain_table(columns.deep_view(), records.deep_view()));
        }
    }
    let r = render_psql_table(&columns, &records);
    proof {
        if has_plain_header(timelines_view(logs@)) {
            assert forall|i: int|
                #![trigger timelines_view(logs@)[i]]
                0 <= i < logs@.len() implies shows_row(
                text_lines(r@)[i + 2],
                decimal_cells(millis_from(timelines_view(logs@)[i], start)),
            ) by {
                assert(records.deep_view()[i] == cells[i]);
            }
        }
    }
    r
}

/// There is a first timeline, it has a measurement, and no measurement
/// name of it holds a line break: the table's header takes one line.
pub open spec fn has_plain_header(logs: Seq<Seq<(Seq<char>, Timestamp)>>) -> bool {
    &&& logs.len() > 0
    &&& logs[0].len() > 0
    &&& forall|j: int| 0 <= j < logs[0].len() ==> !(#[trigger] logs[0][j]).0.contains('\n')
}

/// Each cell of a table row is the usual decimal numeral of its value.
pub proof fn lemma_cells_are_numerals(vals: Seq<u128>)
    ensures
        decimal_cells(vals).len() == vals.len(),
        forall|k: int|
            0 <= k < vals.len() ==> is_decimal_numeral(#[trigger] decimal_cells(vals)[k], vals[k] as nat),
{
    assert forall|k: int| 0 <= k < vals.len() implies is_decimal_numeral(
        #[trigger] decimal_cells(vals)[k],
        vals[k] as nat,
    ) by {
        lemma_decimal_is_numeral(vals[k] as nat);
    }
}

} // verus!
