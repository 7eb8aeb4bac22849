//! Timelines of events recorded while a request task runs, and collections
//! of such timelines that share their event markers.
use vstd::prelude::*;
pub use vstd::hash_map::StringHashMap;
use vstd::string::StringExecFns;
use crate::clock::{span_micros, span_millis, Timestamp};

verus! {

/// An event: a name and the time at which it was captured. An `Event` gains
/// its meaning in a relation or collection such as a [`Timeline`].
#[derive(Debug)]
pub struct Event(String, Timestamp);

/// An event's name and the whole microseconds from a start point to it.
#[derive(Debug)]
pub struct EventSinceStart(String, u128);

impl View for Event {
    type V = (Seq<char>, Timestamp);

    closed spec fn view(&self) -> (Seq<char>, Timestamp) {
        (self.0@, self.1)
    }
}

impl View for EventSinceStart {
    type V = (Seq<char>, u128);

    closed spec fn view(&self) -> (Seq<char>, u128) {
        (self.0@, self.1)
    }
}

impl Event {
    /// The event `name`, captured now.
    pub fn new(name: &str) -> (r: Event)
        ensures
            r@.0 == name@,
    {
        Event::at(name, Timestamp::now())
    }

    /// The event `name`, captured at `at`.
    pub fn at(name: &str, at: Timestamp) -> (r: Event)
        ensures
            r@.0 == name@,
            r@.1 == at,
    {
        Event(String::from_str(name), at)
    }

    /// The name of the event.
    pub fn name(&self) -> (r: &str)
        ensures
            r@ == self@.0,
    {
        self.0.as_str()
    }

    /// The time at which the event was captured.
    pub fn time(&self) -> (r: Timestamp)
        ensures
            r == self@.1,
    {
        self.1
    }
}

impl EventSinceStart {
    /// The entry for the event `name`, `micros` microseconds after the start point.
    pub fn new(name: &str, micros: u128) -> (r: EventSinceStart)
        ensures
            r@ == (name@, micros),
    {
        EventSinceStart(String::from_str(name), micros)
    }

    /// The name of the event.
    pub fn name(&self) -> (r: &str)
        ensures
            r@ == self@.0,
    {
        self.0.as_str()
    }

    /// Whole microseconds from the start point to the event.
    pub fn micros(&self) -> (r: u128)
        ensures
            r == self@.1,
    {
        self.1
    }
}

/// Name and time of each event, in order.
pub open spec fn events_view(events: Seq<Event>) -> Seq<(Seq<char>, Timestamp)> {
    events.map_values(|e: Event| e@)
}

/// Name and microsecond offset of each entry, in order.
pub open spec fn since_start_view(entries: Seq<EventSinceStart>) -> Seq<(Seq<char>, u128)> {
    entries.map_values(|e: EventSinceStart| e@)
}

/// What a [`Timeline`] holds: the time at which it was created and its
/// events, in the order in which they were recorded.
pub struct TimelineView {
    pub created_at: Timestamp,
    pub events: Seq<(Seq<char>, Timestamp)>,
}

/// Timeline, or sequence, of events that were recorded over a timespan by
/// the `event()` method.
#[derive(Debug)]
pub struct Timeline {
    created_at: Timestamp,
    events: Vec<Event>,
}

impl View for Timeline {
    type V = TimelineView;

    closed spec fn view(&self) -> TimelineView {
        TimelineView { created_at: self.created_at, events: events_view(self.events@) }
    }
}

/// The events of `t` were captured in order, none before the timeline was
/// created and none before an event recorded ahead of it.
pub open spec fn chronological(t: TimelineView) -> bool {
    &&& t.events.len() > 0 ==> t.created_at.nanos <= t.events[0].1.nanos
    &&& forall|i: int, j: int|
        0 <= i <= j < t.events.len() ==> t.events[i].1.nanos <= t.events[j].1.nanos
}

/// The values never decrease.
pub open spec fn nondecreasing(s: Seq<u128>) -> bool {
    forall|i: int, j: int| 0 <= i <= j < s.len() ==> s[i] <= s[j]
}

/// The event names, in order.
pub open spec fn event_names(events: Seq<(Seq<char>, Timestamp)>) -> Seq<Seq<char>> {
    events.map_values(|e: (Seq<char>, Timestamp)| e.0)
}

/// Each event's name with the whole microseconds from `start` to it.
pub open spec fn micros_from(events: Seq<(Seq<char>, Timestamp)>, start: Timestamp) -> Seq<
    (Seq<char>, u128),
> {
    events.map_values(|e: (Seq<char>, Timestamp)| (e.0, span_micros(start, e.1) as u128))
}

/// The whole milliseconds from `start` to each event.
pub open spec fn event_millis_from(events: Seq<(Seq<char>, Timestamp)>, start: Timestamp) -> Seq<
    u128,
> {
    events.map_values(|e: (Seq<char>, Timestamp)| span_millis(start, e.1) as u128)
}

/// The name of the first event of every timeline.
pub open spec fn init_event_name() -> Seq<char> {
    seq!['i', 'n', 'i', 't']
}

/// The time points of the entries named `name`, in order.
pub open spec fn values_named(entries: Seq<(Seq<char>, u128)>, name: Seq<char>) -> Seq<u128>
    decreases entries.len(),
{
    if entries.len() == 0 {
        Seq::empty()
    } else {
        let rest = values_named(entries.drop_last(), name);
        if entries.last().0 == name {
            rest.push(entries.last().1)
        } else {
            rest
        }
    }
}

/// `m` after appending, entry by entry, each entry's time point to the list
/// under the entry's name (an absent name starts with an empty list).
pub open spec fn filled(m: Map<Seq<char>, Seq<u128>>, entries: Seq<(Seq<char>, u128)>) -> Map<
    Seq<char>,
    Seq<u128>,
>
    decreases entries.len(),
{
    if entries.len() == 0 {
        m
    } else {
        let prev = filled(m, entries.drop_last());
        let e = entries.last();
        let list = if prev.contains_key(e.0) {
            prev[e.0]
        } else {
            Seq::empty()
        };
        prev.insert(e.0, list.push(e.1))
    }
}

/// After filling, a name has a list exactly when it had one before or some
/// entry carries it, and its list is the list it had (or an empty one)
/// followed by the time points of the entries with that name, in order.
pub proof fn lemma_filled_lists(m: Map<Seq<char>, Seq<u128>>, entries: Seq<(Seq<char>, u128)>, name: Seq<char>)
    ensures
        filled(m, entries).contains_key(name) <==> (m.contains_key(name) || values_named(
            entries,
            name,
        ).len() > 0),
        filled(m, entries).contains_key(name) ==> filled(m, entries)[name] == (if m.contains_key(
            name,
        ) {
            m[name]
        } else {
            Seq::empty()
        }) + values_named(entries, name),
    decreases entries.len(),
{
    if entries.len() > 0 {
        lemma_filled_lists(m, entries.drop_last(), name);
        let prev = filled(m, entries.drop_last());
        let base = if m.contains_key(name) {
            m[name]
        } else {
            Seq::<u128>::empty()
        };
        if entries.last().0 == name {
            if prev.contains_key(name) {
                assert(base + values_named(entries, name) =~= (base + values_named(
                    entries.drop_last(),
                    name,
                )).push(entries.last().1));
            } else {
                assert(values_named(entries.drop_last(), name).len() == 0);
                assert(base =~= Seq::<u128>::empty());
                assert(base + values_named(entries, name) =~= Seq::<u128>::empty().push(
                    entries.last().1,
                ));
            }
        }
    }
}

/// The event names, the microsecond offsets and the millisecond values of a
/// timeline line up: one of each per event, the offsets carry the event
/// names, and each millisecond value is its microsecond offset truncated to
/// whole milliseconds.
pub proof fn lemma_columns_align_with_values(events: Seq<(Seq<char>, Timestamp)>, start: Timestamp)
    ensures
        event_names(events).len() == events.len(),
        event_millis_from(events, start).len() == events.len(),
        micros_from(events, start).len() == events.len(),
        forall|i: int|
            0 <= i < events.len() ==> (#[trigger] micros_from(events, start)[i]).0 == event_names(
                events,
            )[i] && event_millis_from(events, start)[i] == micros_from(events, start)[i].1 / 1000,
{
    assert forall|i: int| 0 <= i < events.len() implies (#[trigger] micros_from(
        events,
        start,
    )[i]).0 == event_names(events)[i] && event_millis_from(events, start)[i] == micros_from(
        events,
        start,
    )[i].1 / 1000 by {
        let n = crate::clock::span_nanos(start, events[i].1) as int;
        vstd::arithmetic::div_mod::lemma_div_denominator(n, 1000, 1000);
    }
}

/// The time points of entries no later than `bound` under one name are no later than `bound`.
proof fn lemma_values_named_bounded(entries: Seq<(Seq<char>, u128)>, name: Seq<char>, bound: u128)
    requires
        forall|i: int| 0 <= i < entries.len() ==> (#[trigger] entries[i]).1 <= bound,
    ensures
        forall|k: int|
            0 <= k < values_named(entries, name).len() ==> #[trigger] values_named(entries, name)[k]
                <= bound,
    decreases entries.len(),
{
    if entries.len() > 0 {
        let rest = entries.drop_last();
        assert forall|i: int| 0 <= i < rest.len() implies (#[trigger] rest[i]).1 <= bound by {
            assert(rest[i] == entries[i]);
        }
        lemma_values_named_bounded(rest, name, bound);
        assert(entries.last() == entries[entries.len() - 1]);
        let vn = values_named(entries, name);
        let vr = values_named(rest, name);
        assert forall|k: int| 0 <= k < vn.len() implies #[trigger] vn[k] <= bound by {
            if k < vr.len() {
                assert(vn[k] == vr[k]);
            }
        }
    }
}

/// Entries in the order of their time points keep that order under each name.
pub proof fn lemma_values_named_sorted(entries: Seq<(Seq<char>, u128)>, name: Seq<char>)
    requires
        forall|i: int, j: int| 0 <= i <= j < entries.len() ==> entries[i].1 <= entries[j].1,
    ensures
        nondecreasing(values_named(entries, name)),
    decreases entries.len(),
{
    if entries.len() > 0 {
        let rest = entries.drop_last();
        let last = entries.last();
        assert forall|i: int, j: int| 0 <= i <= j < rest.len() implies rest[i].1 <= rest[j].1 by {
            assert(rest[i] == entries[i] && rest[j] == entries[j]);
        }
        lemma_values_named_sorted(rest, name);
        assert forall|i: int| 0 <= i < rest.len() implies (#[trigger] rest[i]).1 <= last.1 by {
            assert(rest[i] == entries[i]);
        }
        lemma_values_named_bounded(rest, name, last.1);
    }
}

/// In a chronological timeline the microsecond offsets and millisecond
/// values from any start never decrease; an earlier start never gives
/// smaller values than a later one; and the offsets filled in under each
/// name keep the order in which the events were recorded.
pub proof fn lemma_chronological_values(t: TimelineView, s1: Timestamp, s2: Timestamp, name: Seq<char>)
    requires
        chronological(t),
        s1.nanos <= s2.nanos,
    ensures
        forall|i: int, j: int|
            0 <= i <= j < t.events.len() ==> (#[trigger] micros_from(t.events, s2)[i]).1 <= (
            #[trigger] micros_from(t.events, s2)[j]).1,
        nondecreasing(event_millis_from(t.events, s2)),
        forall|i: int|
            0 <= i < t.events.len() ==> #[trigger] event_millis_from(t.events, s2)[i]
                <= event_millis_from(t.events, s1)[i],
        nondecreasing(values_named(micros_from(t.events, t.created_at), name)),
{
    let ev = t.events;
    assert forall|i: int, j: int| 0 <= i <= j < ev.len() implies (#[trigger] micros_from(
        ev,
        s2,
    )[i]).1 <= (#[trigger] micros_from(ev, s2)[j]).1 by {
        crate::clock::lemma_span_monotonic(s2, s2, ev[i].1, ev[j].1);
    }
    assert forall|i: int, j: int| 0 <= i <= j < ev.len() implies event_millis_from(ev, s2)[i]
        <= event_millis_from(ev, s2)[j] by {
        crate::clock::lemma_span_monotonic(s2, s2, ev[i].1, ev[j].1);
    }
    assert forall|i: int| 0 <= i < ev.len() implies #[trigger] event_millis_from(ev, s2)[i]
        <= event_millis_from(ev, s1)[i] by {
        crate::clock::lemma_span_monotonic(s1, s2, ev[i].1, ev[i].1);
    }
    let c = t.created_at;
    assert forall|i: int, j: int| 0 <= i <= j < ev.len() implies micros_from(ev, c)[i].1
        <= micros_from(ev, c)[j].1 by {
        crate::clock::lemma_span_monotonic(c, c, ev[i].1, ev[j].1);
    }
    lemma_values_named_sorted(micros_from(ev, c), name);
}

/// The lists of a map from names to vectors of time points.
pub open spec fn lists(m: Map<Seq<char>, Vec<u128>>) -> Map<Seq<char>, Seq<u128>> {
    m.map_values(|v: Vec<u128>| v@)
}

/// Copies the values of `v`.
fn copy_values(v: &Vec<u128>) -> (r: Vec<u128>)
    ensures
        r@ == v@,
{
    let mut r: Vec<u128> = Vec::new();
    let mut i: usize = 0;
    while i < v.len()
        invariant
            i <= v@.len(),
            r@ == v@.take(i as int),
        decreases v@.len() - i,
    {
        r.push(v[i]);
        i = i + 1;
        assert(r@ =~= v@.take(i as int));
    }
    assert(v@.take(i as int) =~= v@);
    r
}

impl Timeline {
    /// A timeline created at `created_at` whose first event, `init`, was
    /// captured at `init_at`.
    pub fn new_at(created_at: Timestamp, init_at: Timestamp) -> (r: Timeline)
        ensures
            r@.created_at == created_at,
            r@.events == seq![(init_event_name(), init_at)],
    {
        let mut timeline = Timeline { created_at, events: Vec::new() };
        proof {
            reveal_strlit("init");
        }
        timeline.event_at("init", init_at);
        assert("init"@ =~= init_event_name());
        assert(timeline@.events =~= seq![(init_event_name(), init_at)]);
        timeline
    }

    /// A timeline created now, whose first event is `init`.
    pub fn new() -> (r: Timeline)
        ensures
            r@.events.len() == 1,
            r@.events[0].0 == init_event_name(),
            chronological(r@),
    {
        let mut timeline = Timeline { created_at: Timestamp::now(), events: Vec::new() };
        proof {
            reveal_strlit("init");
        }
        timeline.event("init");
        assert("init"@ =~= init_event_name());
        timeline
    }

    /// Adds the event `name`, captured at `at`.
    pub fn event_at(&mut self, name: &str, at: Timestamp)
        ensures
            final(self)@.created_at == old(self)@.created_at,
            final(self)@.events == old(self)@.events.push((name@, at)),
    {
        self.events.push(Event::at(name, at));
        assert(events_view(self.events@) =~= events_view(old(self).events@).push((name@, at)));
    }

    /// Adds the event `name`, captured now. A clock that was set back since
    /// the last event (or, for the first, since the timeline's creation)
    /// reads as the time of that event, so that events never go back in time.
    pub fn event(&mut self, name: &str)
        ensures
            final(self)@.created_at == old(self)@.created_at,
            final(self)@.events.len() == old(self)@.events.len() + 1,
            final(self)@.events.drop_last() == old(self)@.events,
            final(self)@.events.last().0 == name@,
            old(self)@.events.len() > 0 ==> old(self)@.events.last().1.nanos
                <= final(self)@.events.last().1.nanos,
            old(self)@.created_at.nanos <= final(self)@.events.last().1.nanos,
            chronological(old(self)@) ==> chronological(final(self)@),
    {
        let n = self.events.len();
        let at = if n > 0 {
            let last = self.events[n - 1].1;
            Timestamp::now_not_before(&last).not_before(&self.created_at)
        } else {
            Timestamp::now_not_before(&self.created_at)
        };
        proof {
            if n > 0 {
                assert(self@.events.last().1 == self.events@[n - 1].1);
            }
        }
        self.event_at(name, at);
    }

    /// The timeline created at `created_at` that holds `events`, in order.
    pub fn from_parts(created_at: Timestamp, events: Vec<Event>) -> (r: Timeline)
        ensures
            r@.created_at == created_at,
            r@.events == events_view(events@),
    {
        Timeline { created_at, events }
    }

    /// The time at which the timeline was created.
    pub fn created_at(&self) -> (r: Timestamp)
        ensures
            r == self@.created_at,
    {
        self.created_at
    }

    /// The events, in the order in which they were recorded.
    pub fn events(&self) -> (r: &Vec<Event>)
        ensures
            events_view(r@) == self@.events,
    {
        &self.events
    }

    /// Each event's name with the whole microseconds from `start` to it, in order.
    pub fn from_start(&self, start: Timestamp) -> (r: Vec<EventSinceStart>)
        ensures
            since_start_view(r@) == micros_from(self@.events, start),
    {
        let mut r: Vec<EventSinceStart> = Vec::new();
        let mut i: usize = 0;
        while i < self.events.len()
            invariant
                i <= self.events@.len(),
                r@.len() == i,
                forall|j: int|
                    0 <= j < i ==> (#[trigger] r@[j]).0@ == self.events@[j].0@ && r@[j].1
                        == span_micros(start, self.events@[j].1),
            decreases self.events@.len() - i,
        {
            let event = &self.events[i];
            r.push(EventSinceStart(event.0.clone(), event.1.micros_since(&start)));
            i = i + 1;
        }
        assert(since_start_view(r@) =~= micros_from(self@.events, start));
        r
    }

    /// The event names, in order.
    pub fn get_cols(&self) -> (r: Vec<String>)
        ensures
            r.deep_view() == event_names(self@.events),
    {
        let mut r: Vec<String> = Vec::new();
        let mut i: usize = 0;
        while i < self.events.len()
            invariant
                i <= self.events@.len(),
                r@.len() == i,
                forall|j: int| 0 <= j < i ==> #[trigger] r@[j]@ == self.events@[j].0@,
            decreases self.events@.len() - i,
        {
            r.push(self.events[i].0.clone());
            i = i + 1;
        }
        assert(r.deep_view() =~= event_names(self@.events));
        r
    }

    /// The whole milliseconds from `start` to each event, in order.
    pub fn get_vals(&self, start: Timestamp) -> (r: Vec<u128>)
        ensures
            r@ == event_millis_from(self@.events, start),
    {
        let mut r: Vec<u128> = Vec::new();
        let mut i: usize = 0;
        while i < self.events.len()
            invariant
                i <= self.events@.len(),
                r@.len() == i,
                forall|j: int|
                    0 <= j < i ==> #[trigger] r@[j] == span_millis(start, self.events@[j].1),
            decreases self.events@.len() - i,
        {
            r.push(self.events[i].1.millis_since(&start));
            i = i + 1;
        }
        assert(r@ =~= event_millis_from(self@.events, start));
        r
    }

    /// Appends, for each event in order, the whole microseconds from the
    /// timeline's creation to the event to the list under the event's name
    /// (a name not yet in `map` starts with an empty list).
    pub fn fill_map(&self, map: &mut StringHashMap<Vec<u128>>)
        ensures
            lists(final(map)@) == filled(lists(old(map)@), micros_from(self@.events, self@.created_at)),
    {
        let entries = self.from_start(self.created_at);
        let ghost target = micros_from(self@.events, self.created_at);
        let mut i: usize = 0;
        while i < entries.len()
            invariant
                i <= entries@.len(),
                since_start_view(entries@) == target,
                lists(map@) == filled(lists(old(map)@), target.take(i as int)),
            decreases entries@.len() - i,
        {
            let entry = &entries[i];
            let mut list = match map.get(entry.0.as_str()) {
                Some(v) => copy_values(v),
                None => Vec::new(),
            };
            list.push(entry.1);
            map.insert(entry.0.clone(), list);
            proof {
                let e = target[i as int];
                assert(target.take(i + 1).drop_last() =~= target.take(i as int));
                assert(target.take(i + 1).last() == e);
                assert(lists(map@) =~= filled(lists(old(map)@), target.take(i + 1)));
            }
            i = i + 1;
        }
        assert(target.take(i as int) =~= target);
    }

    /// The text form of a timeline: `<Timeline>`.
    pub fn to_string(&self) -> (r: String)
        ensures
            r@ == seq!['<', 'T', 'i', 'm', 'e', 'l', 'i', 'n', 'e', '>'],
    {
        proof {
            reveal_strlit("<Timeline>");
        }
        String::from_str("<Timeline>")
    }
}

/// Collection of multiple `Timeline`s which share the same event markers
/// and a shared start point.
pub struct TimelineCollection {
    created_at: Timestamp,
    timelines: Vec<Timeline>,
}

/// What a [`TimelineCollection`] holds: its creation time and its timelines.
pub struct CollectionView {
    pub created_at: Timestamp,
    pub timelines: Seq<TimelineView>,
}

impl View for TimelineCollection {
    type V = CollectionView;

    closed spec fn view(&self) -> CollectionView {
        CollectionView {
            created_at: self.created_at,
            timelines: self.timelines@.map_values(|t: Timeline| t@),
        }
    }
}

impl TimelineCollection {
    /// An empty collection created at `created_at`.
    pub fn new_at(created_at: Timestamp) -> (r: TimelineCollection)
        ensures
            r@.created_at == created_at,
            r@.timelines.len() == 0,
    {
        let r = TimelineCollection { created_at, timelines: Vec::new() };
        assert(r@.timelines =~= Seq::<TimelineView>::empty());
        r
    }

    /// An empty collection created now.
    pub fn new() -> (r: TimelineCollection)
        ensures
            r@.timelines.len() == 0,
    {
        TimelineCollection::new_at(Timestamp::now())
    }

    /// Adds `timeline` after the timelines already in the collection.
    pub fn add(&mut self, timeline: Timeline)
        ensures
            final(self)@.created_at == old(self)@.created_at,
            final(self)@.timelines == old(self)@.timelines.push(timeline@),
    {
        self.timelines.push(timeline);
        assert(final(self)@.timelines =~= old(self)@.timelines.push(timeline@));
    }

    /// The event names of the first timeline, which the others share.
    pub fn get_columns(&self) -> (r: Vec<String>)
        requires
            self@.timelines.len() > 0,
        ensures
            r.deep_view() == event_names(self@.timelines[0].events),
    {
        self.timelines[0].get_cols()
    }

    /// The time at which the collection was created.
    pub fn created_at(&self) -> (r: Timestamp)
        ensures
            r == self@.created_at,
    {
        self.created_at
    }

    /// The timelines, in the order in which they were added.
    pub fn timelines(&self) -> (r: &Vec<Timeline>)
        ensures
            r@.map_values(|t: Timeline| t@) == self@.timelines,
    {
        &self.timelines
    }

    /// Printing a collection shows nothing.
    pub fn print(&self) {
    }
}

} // verus!
