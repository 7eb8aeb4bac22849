use async_vs_threads::clock::Timestamp;
use async_vs_threads::client::timeline::{StringHashMap, Timeline as EventTimeline, TimelineCollection, Event};
use async_vs_threads::timeline::{logs_table, Timeline};
use tabled::builder::Builder;
use tabled::object::Segment;
use tabled::{Alignment, Modify, Style};

fn at(nanos: u128) -> Timestamp {
    Timestamp::from_nanos(nanos)
}

const MS: u128 = 1_000_000;

fn sample_log(offset_ms: u128) -> Timeline {
    let mut t = Timeline::new_at(at(10 * MS + offset_ms * MS));
    t.add_at("client created", at(25 * MS + offset_ms * MS + 400_000));
    t.add_at("got response", at(1_250 * MS + offset_ms * MS));
    t
}

#[test]
fn new_log_starts_with_init() {
    let t = Timeline::new();
    assert_eq!(t.get_cols(), vec!["init".to_string()]);
    let t = Timeline::new_at(at(5 * MS));
    assert_eq!(t.get_cols(), vec!["init".to_string()]);
    assert_eq!(t.get_vals(at(0)), vec![5]);
}

#[test]
fn log_columns_and_values() {
    let t = sample_log(0);
    assert_eq!(t.get_cols(), vec!["init", "client created", "got response"]);
    assert_eq!(t.get_vals(at(10 * MS)), vec![0, 15, 1240]);
    assert_eq!(t.get_vals(at(0)), vec![10, 25, 1250]);
    assert_eq!(t.get_vals(at(30 * MS)), vec![0, 0, 1220]);
}

#[test]
fn log_add_appends_a_named_measurement() {
    let mut t = Timeline::new();
    t.add("drop task");
    assert_eq!(t.get_cols(), vec!["init", "drop task"]);
    assert_eq!(t.get_vals(at(u128::MAX)), vec![0, 0]);
}

fn reference_table(columns: Vec<String>, rows: Vec<Vec<u128>>) -> String {
    let mut builder = Builder::default();
    for values in rows {
        builder.add_record(values.iter().map(|v| v.to_string()));
    }
    builder.set_columns(columns);
    builder
        .build()
        .with(Style::psql())
        .with(Modify::new(Segment::all()).with(Alignment::right()))
        .to_string()
}

#[test]
fn logs_table_of_no_logs_is_a_message() {
    assert_eq!(
        logs_table(&Vec::new(), at(0)),
        "At least one Logs struct is required to print a table."
    );
}

#[test]
fn logs_table_of_two_logs() {
    let logs = vec![sample_log(0), sample_log(3)];
    let table = logs_table(&logs, at(10 * MS));
    let expected = reference_table(
        vec!["init".into(), "client created".into(), "got response".into()],
        vec![vec![0, 15, 1240], vec![3, 18, 1243]],
    );
    assert_eq!(table, expected);
    assert!(table.contains("client created"));
    assert!(table.contains("1243"));
}

#[test]
fn logs_table_renders_psql_right_aligned() {
    let logs = vec![Timeline::new_at(at(7 * MS))];
    let table = logs_table(&logs, at(0));
    assert_eq!(table, " init \n------\n    7 ");
}

#[test]
fn event_accessors() {
    let e = Event::at("barrier released", at(42));
    assert_eq!(e.name(), "barrier released");
    assert_eq!(e.time(), at(42));
    let e = Event::new("got response");
    assert_eq!(e.name(), "got response");
}

fn sample_timeline() -> EventTimeline {
    let mut t = EventTimeline::new_at(at(1_000_000), at(1_002_500));
    t.event_at("client created", at(1_900_000));
    t.event_at("got response", at(3_000_000_000));
    t.event_at("client created", at(3_000_500_000));
    t
}

#[test]
fn timeline_from_start_in_micros() {
    let t = sample_timeline();
    let entries = t.from_start(at(1_000_000));
    let got: Vec<(String, u128)> = entries.iter().map(|e| (e.name().to_string(), e.micros())).collect();
    assert_eq!(
        got,
        vec![
            ("init".to_string(), 2),
            ("client created".to_string(), 900),
            ("got response".to_string(), 2_999_000),
            ("client created".to_string(), 2_999_500),
        ]
    );
}

#[test]
fn timeline_columns_and_millis() {
    let t = sample_timeline();
    assert_eq!(t.get_cols(), vec!["init", "client created", "got response", "client created"]);
    assert_eq!(t.get_vals(at(0)), vec![1, 1, 3000, 3000]);
    assert_eq!(t.get_vals(at(2_000_000_000)), vec![0, 0, 1000, 1000]);
}

#[test]
fn timeline_millis_are_truncated_micros() {
    let t = sample_timeline();
    let start = at(999_999);
    let micros: Vec<u128> = t.from_start(start).iter().map(|e| e.micros() / 1000).collect();
    assert_eq!(t.get_vals(start), micros);
    assert_eq!(t.get_cols().len(), t.get_vals(start).len());
}

#[test]
fn timeline_created_now_starts_with_init() {
    let mut t = EventTimeline::new();
    t.event("drop task");
    assert_eq!(t.get_cols(), vec!["init", "drop task"]);
    assert_eq!(t.to_string(), "<Timeline>");
}

#[test]
fn fill_map_groups_time_points_by_name() {
    let t = sample_timeline();
    let mut map: StringHashMap<Vec<u128>> = StringHashMap::new();
    map.insert("got response".to_string(), vec![7]);
    t.fill_map(&mut map);
    assert_eq!(map.get("init"), Some(&vec![2]));
    assert_eq!(map.get("client created"), Some(&vec![900, 2_999_500]));
    assert_eq!(map.get("got response"), Some(&vec![7, 2_999_000]));
    assert_eq!(map.get("drop task"), None);
    assert_eq!(map.len(), 3);
}

#[test]
fn fill_map_twice_appends_again() {
    let t = EventTimeline::new_at(at(0), at(5_000));
    let mut map: StringHashMap<Vec<u128>> = StringHashMap::new();
    t.fill_map(&mut map);
    t.fill_map(&mut map);
    assert_eq!(map.get("init"), Some(&vec![5, 5]));
}

#[test]
fn collection_columns_come_from_the_first_timeline() {
    let mut c = TimelineCollection::new_at(at(0));
    c.add(sample_timeline());
    let mut other = EventTimeline::new_at(at(0), at(0));
    other.event_at("other", at(0));
    c.add(other);
    assert_eq!(c.get_columns(), vec!["init", "client created", "got response", "client created"]);
    assert_eq!(c.timelines().len(), 2);
    assert_eq!(c.created_at(), at(0));
    c.print();
}

fn nondecreasing(v: &[u128]) -> bool {
    v.windows(2).all(|w| w[0] <= w[1])
}

#[test]
fn log_measurements_taken_now_never_go_back() {
    let mut t = Timeline::new();
    t.add("a");
    t.add("b");
    t.add("c");
    assert!(nondecreasing(&t.get_vals(at(0))));
}

#[test]
fn log_add_after_a_future_measurement_reads_that_time() {
    let mut t = Timeline::new_at(at(u128::MAX - 5 * MS));
    t.add("later");
    assert_eq!(t.get_vals(at(0)), vec![(u128::MAX - 5 * MS) / MS, (u128::MAX - 5 * MS) / MS]);
}

#[test]
fn events_captured_now_never_go_back() {
    let mut t = EventTimeline::new();
    t.event("a");
    t.event("a");
    let offsets: Vec<u128> = t.from_start(t.created_at()).iter().map(|e| e.micros()).collect();
    assert!(nondecreasing(&offsets));
    let mut map: StringHashMap<Vec<u128>> = StringHashMap::new();
    t.fill_map(&mut map);
    let a = map.get("a").unwrap();
    assert_eq!(a.len(), 2);
    assert!(a[0] <= a[1]);
    assert_eq!(map.get("init").map(|v| v.len()), Some(1));
}

#[test]
fn event_after_a_future_creation_reads_the_creation_time() {
    let mut t = EventTimeline::new_at(at(u128::MAX - 7), at(u128::MAX - 7));
    t.event("later");
    assert_eq!(t.events()[1].time(), at(u128::MAX - 7));
}

#[test]
fn earlier_starts_give_larger_values() {
    let t = sample_timeline();
    let early = t.get_vals(at(0));
    let late = t.get_vals(at(1_500_000));
    for (e, l) in early.iter().zip(late.iter()) {
        assert!(e >= l);
    }
}
