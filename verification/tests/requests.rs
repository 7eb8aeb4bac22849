use async_vs_threads::client::requests::{
    barrier_size, completion_millis, echo_url, echoed_id, local_url, progress_line, request_count,
    sleep_overhead_millis, sleep_url,
};
use async_vs_threads::task::TaskId;

#[test]
fn sleep_urls() {
    assert_eq!(sleep_url(0), "http://127.0.0.1:5000/sleep/0");
    assert_eq!(sleep_url(17), "http://127.0.0.1:5000/sleep/17");
    assert_eq!(sleep_url(u32::MAX), format!("http://127.0.0.1:5000/sleep/{}", u32::MAX));
}

#[test]
fn local_urls() {
    assert_eq!(local_url(31), "http://0.0.0.0:8080/31");
}

#[test]
fn echo_urls_carry_the_task_label() {
    let id = TaskId(4);
    assert_eq!(echo_url(&id), "http://167.235.133.26:80/get?id=[Task 4  ]");
    assert_eq!(echo_url(&id), format!("http://167.235.133.26:80/get?id={}", id.to_string()));
}

#[test]
fn request_counts_read_the_number_unsigned() {
    assert_eq!(request_count(0), 0);
    assert_eq!(request_count(250), 250);
    assert_eq!(request_count(i32::MAX), i32::MAX as u32);
    assert_eq!(request_count(-1), u32::MAX);
    assert_eq!(request_count(i32::MIN), 2147483648);
    for n in [-5i32, -100000, 7, 65536] {
        assert_eq!(request_count(n), n as u32);
    }
}

#[test]
fn completion_millis_keep_the_low_bits() {
    assert_eq!(completion_millis(0), 0);
    assert_eq!(completion_millis(2048), 2048);
    assert_eq!(completion_millis(2147483647), i32::MAX);
    assert_eq!(completion_millis(2147483648), i32::MIN);
    assert_eq!(completion_millis(4294967295), -1);
    assert_eq!(completion_millis(4294967296 + 5), 5);
    for ms in [123u128, 3_000_000_000, u128::MAX, 1 << 40] {
        assert_eq!(completion_millis(ms), ms as i32);
    }
}

#[test]
fn barrier_holds_half_the_tasks() {
    assert_eq!(barrier_size(10), 5);
    assert_eq!(barrier_size(7), 3);
    assert_eq!(barrier_size(1), 0);
}

#[test]
fn sleep_overhead() {
    assert_eq!(sleep_overhead_millis(2013, 2000), 13);
    assert_eq!(sleep_overhead_millis(2000, 2000), 0);
}

#[test]
fn progress_lines() {
    assert_eq!(
        progress_line("12:00:01.250", 7, "Start request"),
        "12:00:01.250 ( 0007 ) - Start request"
    );
    assert_eq!(
        progress_line("x", 123456, "Create task"),
        format!("{} ( {:0pad$} ) - {}", "x", 123456, "Create task", pad = 4)
    );
}

#[test]
fn echoed_ids_of_json_answers() {
    let body = br#"{"args": {"id": "[Task 4  ]"}, "url": "http://x/get"}"#;
    assert_eq!(echoed_id(body), Some("\"[Task 4  ]\"".to_string()));
    assert_eq!(echoed_id(br#"{"args": {"id": 17}}"#), Some("17".to_string()));
    assert_eq!(echoed_id(br#"{"args": {}}"#), None);
    assert_eq!(echoed_id(br#"{"headers": {"id": 1}}"#), None);
    assert_eq!(echoed_id(b"not json"), None);
}
