//! Points in time and the wall-clock time of day.
//!
//! A [`Timestamp`] is a reading of the system clock in nanoseconds since the
//! Unix epoch. Spans between two readings saturate at zero, as
//! `std::time::Instant::duration_since` does, and are truncated to whole
//! milliseconds or microseconds as `Duration::as_millis` / `as_micros` do.
//! Readings taken for one timeline are kept from going back (see
//! [`Timestamp::now_not_before`]), as readings of a monotonic clock never do.
//! A [`ClockTime`] is a time of day, rendered as `HH:MM:SS.fff` or
//! `HH:MM:SS.ffffff`; the local time of day itself is read by the program,
//! since finding it reads the machine's time-zone settings.
use vstd::prelude::*;
use crate::text::{
    decimal, digit_char, is_digit, lemma_decimal_digits, lemma_decimal_len_bound, pow10,
    push_char, push_zero_padded, zero_padded,
};

verus! {

/// A reading of the system clock: nanoseconds since the Unix epoch.
#[derive(Clone, Copy, Debug, PartialEq, Eq, Structural)]
pub struct Timestamp {
    pub nanos: u128,
}

/// Nanoseconds from `earlier` to `later`, or zero when `later` is not after `earlier`.
pub open spec fn span_nanos(earlier: Timestamp, later: Timestamp) -> nat {
    if later.nanos >= earlier.nanos {
        (later.nanos - earlier.nanos) as nat
    } else {
        0
    }
}

/// Whole milliseconds from `earlier` to `later` (zero when `later` is not after `earlier`).
pub open spec fn span_millis(earlier: Timestamp, later: Timestamp) -> nat {
    span_nanos(earlier, later) / 1_000_000
}

/// Whole microseconds from `earlier` to `later` (zero when `later` is not after `earlier`).
pub open spec fn span_micros(earlier: Timestamp, later: Timestamp) -> nat {
    span_nanos(earlier, later) / 1_000
}

/// A span to a point that is not after its start is empty, in every unit.
pub proof fn lemma_span_empty_unless_after(earlier: Timestamp, later: Timestamp)
    requires
        later.nanos <= earlier.nanos,
    ensures
        span_nanos(earlier, later) == 0,
        span_millis(earlier, later) == 0,
        span_micros(earlier, later) == 0,
{
}

/// A later point is no nearer to a start than an earlier one, and an earlier
/// start is no nearer to a point than a later start, in every unit.
pub proof fn lemma_span_monotonic(s1: Timestamp, s2: Timestamp, a: Timestamp, b: Timestamp)
    requires
        s1.nanos <= s2.nanos,
        a.nanos <= b.nanos,
    ensures
        span_nanos(s2, a) <= span_nanos(s1, b),
        span_millis(s2, a) <= span_millis(s1, b),
        span_micros(s2, a) <= span_micros(s1, b),
{
    vstd::arithmetic::div_mod::lemma_div_is_ordered(
        span_nanos(s2, a) as int,
        span_nanos(s1, b) as int,
        1_000_000,
    );
    vstd::arithmetic::div_mod::lemma_div_is_ordered(
        span_nanos(s2, a) as int,
        span_nanos(s1, b) as int,
        1_000,
    );
}

/// Whole milliseconds are whole microseconds truncated to thousands.
pub proof fn lemma_millis_are_truncated_micros(earlier: Timestamp, later: Timestamp)
    ensures
        span_millis(earlier, later) == span_micros(earlier, later) / 1000,
{
    vstd::arithmetic::div_mod::lemma_div_denominator(span_nanos(earlier, later) as int, 1000, 1000);
}

/// A reading of the system clock, as std gives it.
#[verifier::external_type_specification]
#[verifier::external_body]
pub struct ExSystemTime(std::time::SystemTime);

/// Reads the system clock with `std::time::SystemTime::now()`. Nothing is
/// claimed of the reading: it depends on the machine's clock.
#[verifier::external_body]
fn system_clock_now() -> std::time::SystemTime {
    std::time::SystemTime::now()
}

/// Measures `t` from `UNIX_EPOCH` with `SystemTime::duration_since`, as
/// whole nanoseconds (`Duration::as_nanos`); `None` when `t` lies before the
/// epoch (`duration_since` returns an error). A `SystemTime` is opaque here,
/// so nothing is claimed of the number.
#[verifier::external_body]
fn nanos_since_unix_epoch(t: &std::time::SystemTime) -> Option<u128> {
    match t.duration_since(std::time::UNIX_EPOCH) {
        Ok(d) => Some(d.as_nanos()),
        Err(_) => None,
    }
}

impl Timestamp {
    /// The time stamp `nanos` nanoseconds after the Unix epoch.
    pub fn from_nanos(nanos: u128) -> (r: Timestamp)
        ensures
            r.nanos == nanos,
    {
        Timestamp { nanos }
    }

    /// The time stamp of a clock reading: `reading` nanoseconds after the
    /// Unix epoch, or the epoch itself when the clock read a time before it
    /// (`None`).
    pub fn from_clock_reading(reading: Option<u128>) -> (r: Timestamp)
        ensures
            r.nanos == match reading {
                Some(nanos) => nanos,
                None => 0,
            },
    {
        match reading {
            Some(nanos) => Timestamp { nanos },
            None => Timestamp { nanos: 0 },
        }
    }

    /// The present time, read from the system clock. A clock set before the
    /// Unix epoch reads as the epoch itself. Which time comes back depends on
    /// the clock; [`Timestamp::from_clock_reading`] states what each reading gives.
    pub fn now() -> (r: Timestamp) {
        Timestamp::from_clock_reading(nanos_since_unix_epoch(&system_clock_now()))
    }

    /// `self`, or `floor` when `self` comes before it.
    pub fn not_before(&self, floor: &Timestamp) -> (r: Timestamp)
        ensures
            r.nanos == if self.nanos < floor.nanos {
                floor.nanos
            } else {
                self.nanos
            },
    {
        if self.nanos < floor.nanos {
            *floor
        } else {
            *self
        }
    }

    /// The present time, read from the system clock, or `floor` when the
    /// clock reads an earlier time (it was set back): a sequence of readings
    /// taken this way never goes back.
    pub fn now_not_before(floor: &Timestamp) -> (r: Timestamp)
        ensures
            r.nanos >= floor.nanos,
    {
        Timestamp::now().not_before(floor)
    }

    /// Nanoseconds from `earlier` to `self`, saturating at zero.
    pub fn nanos_since(&self, earlier: &Timestamp) -> (r: u128)
        ensures
            r == span_nanos(*earlier, *self),
    {
        if self.nanos >= earlier.nanos {
            self.nanos - earlier.nanos
        } else {
            0
        }
    }

    /// Whole milliseconds from `earlier` to `self`, saturating at zero.
    pub fn millis_since(&self, earlier: &Timestamp) -> (r: u128)
        ensures
            r == span_millis(*earlier, *self),
    {
        self.nanos_since(earlier) / 1_000_000
    }

    /// Whole microseconds from `earlier` to `self`, saturating at zero.
    pub fn micros_since(&self, earlier: &Timestamp) -> (r: u128)
        ensures
            r == span_micros(*earlier, *self),
    {
        self.nanos_since(earlier) / 1_000
    }
}

/// The local time of day. `nanosecond` runs past `999_999_999` only during
/// a leap second, which shows as second `60`.
#[derive(Clone, Copy, Debug, PartialEq, Eq, Structural)]
pub struct ClockTime {
    pub hour: u32,
    pub minute: u32,
    pub second: u32,
    pub nanosecond: u32,
}

impl ClockTime {
    /// The ranges that a time of day takes.
    pub open spec fn is_valid(self) -> bool {
        &&& self.hour < 24
        &&& self.minute < 60
        &&& self.second < 60
        &&& self.nanosecond < 2_000_000_000
    }
}

/// The two-digit rendering of `v` (`v < 100`), with a zero in front of a single digit.
pub open spec fn two_digits(v: nat) -> Seq<char> {
    seq![digit_char((v / 10) as int), digit_char((v % 10) as int)]
}

/// `HH:MM:SS` followed by a point and `digits` digits of the fraction of the
/// second, where `fraction` is that fraction as a whole number.
pub open spec fn clock_text(t: ClockTime, fraction: nat, digits: nat) -> Seq<char> {
    two_digits(t.hour as nat) + seq![':'] + two_digits(t.minute as nat) + seq![':'] + two_digits(
        (t.second + t.nanosecond / 1_000_000_000) as nat,
    ) + seq!['.'] + zero_padded(fraction, digits)
}

/// `HH:MM:SS.ffffff`: the time of day with microseconds.
pub open spec fn clock_text_micros(t: ClockTime) -> Seq<char> {
    clock_text(t, (t.nanosecond / 1_000 % 1_000_000) as nat, 6)
}

/// `HH:MM:SS.fff`: the time of day with milliseconds.
pub open spec fn clock_text_millis(t: ClockTime) -> Seq<char> {
    clock_text(t, (t.nanosecond / 1_000_000 % 1_000) as nat, 3)
}

/// The shape of a rendered time of day with `digits` fraction digits:
/// `DD:DD:DD.` followed by `digits` digits.
pub open spec fn is_clock_shaped(s: Seq<char>, digits: nat) -> bool {
    &&& s.len() == 9 + digits
    &&& s[2] == ':'
    &&& s[5] == ':'
    &&& s[8] == '.'
    &&& forall|i: int|
        0 <= i < s.len() && i != 2 && i != 5 && i != 8 ==> is_digit(#[trigger] s[i])
}

/// Every rendered time of day has the fixed shape `DD:DD:DD.` and `digits`
/// fraction digits, when the fraction has at most `digits` digits.
pub proof fn lemma_clock_text_shape(t: ClockTime, fraction: nat, digits: nat)
    requires
        t.is_valid(),
        digits >= 1,
        fraction < pow10(digits),
    ensures
        is_clock_shaped(clock_text(t, fraction, digits), digits),
{
    lemma_decimal_len_bound(fraction, digits);
    lemma_decimal_digits(fraction);
    let z = zero_padded(fraction, digits);
    assert(z.len() == digits);
    assert forall|i: int| 0 <= i < z.len() implies is_digit(#[trigger] z[i]) by {
        let d = decimal(fraction);
        if d.len() < digits {
            let k = digits - d.len();
            if i >= k {
                assert(z[i] == d[i - k]);
            }
        }
    }
    let s = clock_text(t, fraction, digits);
    assert forall|i: int| 0 <= i < s.len() && i != 2 && i != 5 && i != 8 implies is_digit(
        #[trigger] s[i],
    ) by {
        if i >= 9 {
            assert(s[i] == z[i - 9]);
        }
    }
}

/// `HH:MM:SS.ffffff` and `HH:MM:SS.fff` always take that shape.
pub proof fn lemma_clock_texts_shaped(t: ClockTime)
    requires
        t.is_valid(),
    ensures
        is_clock_shaped(clock_text_micros(t), 6),
        is_clock_shaped(clock_text_millis(t), 3),
{
    reveal_with_fuel(pow10, 7);
    lemma_clock_text_shape(t, (t.nanosecond / 1_000 % 1_000_000) as nat, 6);
    lemma_clock_text_shape(t, (t.nanosecond / 1_000_000 % 1_000) as nat, 3);
}

/// Appends the two-digit rendering of `v`.
fn push_two_digits(s: &mut String, v: u32)
    requires
        v < 100,
    ensures
        final(s)@ == old(s)@ + two_digits(v as nat),
{
    let ghost start = s@;
    push_char(s, ((48 + v / 10) as u8) as char);
    push_char(s, ((48 + v % 10) as u8) as char);
    assert(s@ =~= start + two_digits(v as nat));
}

/// Appends `HH:MM:SS.` followed by `fraction` zero-padded to `digits` digits.
fn push_clock_text(s: &mut String, t: &ClockTime, fraction: u32, digits: usize)
    requires
        t.is_valid(),
    ensures
        final(s)@ == old(s)@ + clock_text(*t, fraction as nat, digits as nat),
{
    let ghost start = s@;
    push_two_digits(s, t.hour);
    push_char(s, ':');
    push_two_digits(s, t.minute);
    push_char(s, ':');
    push_two_digits(s, t.second + t.nanosecond / 1_000_000_000);
    push_char(s, '.');
    push_zero_padded(s, fraction as u128, digits);
    assert(s@ =~= start + clock_text(*t, fraction as nat, digits as nat));
}

/// Renders `t` as `HH:MM:SS.ffffff`.
pub fn format_clock_micros(t: &ClockTime) -> (r: String)
    requires
        t.is_valid(),
    ensures
        r@ == clock_text_micros(*t),
        is_clock_shaped(r@, 6),
{
    proof {
        lemma_clock_texts_shaped(*t);
    }
    let mut s = String::new();
    push_clock_text(&mut s, t, t.nanosecond / 1_000 % 1_000_000, 6);
    s
}

/// Renders `t` as `HH:MM:SS.fff`.
pub fn format_clock_millis(t: &ClockTime) -> (r: String)
    requires
        t.is_valid(),
    ensures
        r@ == clock_text_millis(*t),
        is_clock_shaped(r@, 3),
{
    proof {
        lemma_clock_texts_shaped(*t);
    }
    let mut s = String::new();
    push_clock_text(&mut s, t, t.nanosecond / 1_000_000 % 1_000, 3);
    s
}

} // verus!
