//! The requests that the benchmark clients send, and the numbers they report.
use vstd::prelude::*;
use vstd::string::StringExecFns;
use crate::task::{task_label, TaskId};
use crate::text::{
    decimal, is_decimal_numeral, is_zero_padded_numeral, lemma_decimal_is_numeral,
    lemma_space_padded_numeral, lemma_zero_padded_is_numeral, push_decimal, push_zero_padded,
    space_padded, trim_trailing_spaces, zero_padded,
};

verus! {

/// The address of the sleep endpoint of the local test server for request `id`:
/// `http://127.0.0.1:5000/sleep/{id}`.
pub open spec fn sleep_url_text(id: u32) -> Seq<char> {
    "http://127.0.0.1:5000/sleep/"@ + decimal(id as nat)
}

/// The address that the plain thread clients ask for request `id`:
/// `http://0.0.0.0:8080/{id}`.
pub open spec fn local_url_text(id: u32) -> Seq<char> {
    "http://0.0.0.0:8080/"@ + decimal(id as nat)
}

/// The address of the echo endpoint that the task client asks for task `id`,
/// carrying the task's label: `http://167.235.133.26:80/get?id={label}`.
pub open spec fn echo_url_text(id: u32) -> Seq<char> {
    "http://167.235.133.26:80/get?id="@ + task_label(id)
}

/// The sleep address is the endpoint `http://127.0.0.1:5000/sleep/`
/// followed by the usual decimal numeral of the request number.
pub proof fn lemma_sleep_url_names_the_request(id: u32)
    ensures
        sleep_url_text(id).take("http://127.0.0.1:5000/sleep/"@.len() as int)
            == "http://127.0.0.1:5000/sleep/"@,
        is_decimal_numeral(
            sleep_url_text(id).skip("http://127.0.0.1:5000/sleep/"@.len() as int),
            id as nat,
        ),
{
    let p = "http://127.0.0.1:5000/sleep/"@;
    lemma_decimal_is_numeral(id as nat);
    assert(sleep_url_text(id).take(p.len() as int) =~= p);
    assert(sleep_url_text(id).skip(p.len() as int) =~= decimal(id as nat));
}

/// The plain thread clients' address is `http://0.0.0.0:8080/` followed by
/// the usual decimal numeral of the request number.
pub proof fn lemma_local_url_names_the_request(id: u32)
    ensures
        local_url_text(id).take("http://0.0.0.0:8080/"@.len() as int) == "http://0.0.0.0:8080/"@,
        is_decimal_numeral(local_url_text(id).skip("http://0.0.0.0:8080/"@.len() as int), id as nat),
{
    let p = "http://0.0.0.0:8080/"@;
    lemma_decimal_is_numeral(id as nat);
    assert(local_url_text(id).take(p.len() as int) =~= p);
    assert(local_url_text(id).skip(p.len() as int) =~= decimal(id as nat));
}

/// The echo address is `http://167.235.133.26:80/get?id=` followed by the
/// task's label: `[Task `, the usual decimal numeral of the task number
/// left-aligned in at least three characters (spaces after it only), and `]`.
pub proof fn lemma_echo_url_names_the_task(id: u32)
    ensures
        ({
            let u = echo_url_text(id);
            let p = "http://167.235.133.26:80/get?id="@;
            let field = u.subrange(p.len() + 6int, u.len() - 1);
            &&& u.take(p.len() as int) == p
            &&& u.subrange(p.len() as int, p.len() + 6int) == seq!['[', 'T', 'a', 's', 'k', ' ']
            &&& u.last() == ']'
            &&& field.len() >= 3
            &&& is_decimal_numeral(trim_trailing_spaces(field), id as nat)
            &&& forall|i: int|
                trim_trailing_spaces(field).len() <= i < field.len() ==> #[trigger] field[i] == ' '
            &&& field.len() > 3 ==> trim_trailing_spaces(field) == field
        }),
{
    let u = echo_url_text(id);
    let p = "http://167.235.133.26:80/get?id="@;
    let f = space_padded(decimal(id as nat), 3);
    lemma_space_padded_numeral(id as nat, 3);
    assert(u.take(p.len() as int) =~= p);
    assert(u.subrange(p.len() as int, p.len() + 6int) =~= seq!['[', 'T', 'a', 's', 'k', ' ']);
    assert(u.subrange(p.len() + 6int, u.len() - 1) =~= f);
}

/// The address of the sleep endpoint of the local test server for request `id`.
pub fn sleep_url(id: u32) -> (r: String)
    ensures
        r@ == sleep_url_text(id),
{
    let mut s = String::from_str("http://127.0.0.1:5000/sleep/");
    push_decimal(&mut s, id as u128);
    s
}

/// The address that the plain thread clients ask for request `id`.
pub fn local_url(id: u32) -> (r: String)
    ensures
        r@ == local_url_text(id),
{
    let mut s = String::from_str("http://0.0.0.0:8080/");
    push_decimal(&mut s, id as u128);
    s
}

/// The address of the echo endpoint for task `task`.
pub fn echo_url(task: &TaskId) -> (r: String)
    ensures
        r@ == echo_url_text(task.0),
{
    let mut s = String::from_str("http://167.235.133.26:80/get?id=");
    let label = task.to_string();
    s.append(label.as_str());
    s
}

/// The text of the member `inner` of the member `outer` of the JSON
/// document `body`, as `serde_json` renders that value, or `None` when
/// `body` is no JSON document or holds no such member.
pub uninterp spec fn json_member_text(body: Seq<u8>, outer: Seq<char>, inner: Seq<char>) -> Option<
    Seq<char>,
>;

/// Parses `body` with `serde_json::from_slice::<serde_json::Value>`, takes
/// `.get(outer)` and then `.get(inner)`, and renders that value with
/// `to_string`. A parse error or a missing member gives `None`. What comes
/// back depends on the arguments alone and is named `json_member_text`,
/// not described.
#[verifier::external_body]
fn json_member(body: &[u8], outer: &str, inner: &str) -> (r: Option<String>)
    ensures
        r matches Some(s) ==> json_member_text(body@, outer@, inner@) == Some(s@),
        r is None ==> json_member_text(body@, outer@, inner@) is None,
{
    match serde_json::from_slice::<serde_json::Value>(body) {
        Ok(document) => match document.get(outer) {
            Some(member) => match member.get(inner) {
                Some(value) => Some(value.to_string()),
                None => None,
            },
            None => None,
        },
        Err(_) => None,
    }
}

/// Where the echo endpoint puts the task's id: the member `id` of the
/// member `args` of its answer.
pub open spec fn echoed_id_text(body: Seq<u8>) -> Option<Seq<char>> {
    json_member_text(body, seq!['a', 'r', 'g', 's'], seq!['i', 'd'])
}

/// The `args.id` that the echo endpoint sends back in its JSON answer
/// `body`, as JSON text (a string keeps its quotes), or `None` when the
/// answer is no JSON document or holds no `args.id`.
pub fn echoed_id(body: &[u8]) -> (r: Option<String>)
    ensures
        r matches Some(s) ==> echoed_id_text(body@) == Some(s@),
        r is None ==> echoed_id_text(body@) is None,
{
    proof {
        reveal_strlit("args");
        reveal_strlit("id");
    }
    assert("args"@ =~= seq!['a', 'r', 'g', 's']);
    assert("id"@ =~= seq!['i', 'd']);
    json_member(body, "args", "id")
}

/// The number of requests that a run with the requested count `n` starts:
/// `n` read as an unsigned 32-bit number (a negative `n` wraps around).
pub open spec fn request_count_of(n: i32) -> nat {
    if n >= 0 {
        n as nat
    } else {
        (n + 0x1_0000_0000) as nat
    }
}

/// The number of requests that a run with the requested count `n` starts.
pub fn request_count(n: i32) -> (r: u32)
    ensures
        r == request_count_of(n),
{
    if n >= 0 {
        n as u32
    } else {
        let shifted: i32 = n + 2147483647 + 1;
        (shifted as u32) + 2147483648
    }
}

/// `ms` as a signed 32-bit number: its low 32 bits in two's complement.
pub open spec fn wrapped_i32(ms: nat) -> int {
    let low = ms % 0x1_0000_0000;
    if low < 0x8000_0000 {
        low as int
    } else {
        low - 0x1_0000_0000
    }
}

/// The run time in milliseconds as the clients report it: the low 32 bits
/// of `ms`, as a signed number.
pub fn completion_millis(ms: u128) -> (r: i32)
    ensures
        r == wrapped_i32(ms as nat),
{
    let low: u128 = ms % 0x1_0000_0000;
    if low < 0x8000_0000 {
        low as i32
    } else {
        let above: i32 = (low - 0x8000_0000) as i32;
        above - 2147483647 - 1
    }
}

/// The number of tasks that wait at the start barrier when `n` tasks run: half of them.
pub fn barrier_size(n: u32) -> (r: usize)
    ensures
        r == n / 2,
{
    (n / 2) as usize
}

/// The run time beyond the sleep of each task: the elapsed milliseconds,
/// kept to their low 64 bits, less the sleep.
pub fn sleep_overhead_millis(elapsed_ms: u128, sleep_ms: u64) -> (r: u64)
    requires
        elapsed_ms % 0x1_0000_0000_0000_0000 >= sleep_ms,
    ensures
        r == elapsed_ms % 0x1_0000_0000_0000_0000 - sleep_ms,
{
    let low: u64 = (elapsed_ms % 0x1_0000_0000_0000_0000) as u64;
    low - sleep_ms
}

/// A progress line of the plain thread clients: the time of day, the
/// request number in four digits and the message, `{clock} ( {id} ) - {text}`.
pub open spec fn progress_line_text(clock: Seq<char>, id: u32, text: Seq<char>) -> Seq<char> {
    clock + " ( "@ + zero_padded(id as nat, 4) + " ) - "@ + text
}

/// A progress line is the time of day, ` ( `, the request number written
/// with at least four digits, ` ) - ` and the message.
pub proof fn lemma_progress_line_parts(clock: Seq<char>, id: u32, text: Seq<char>)
    ensures
        ({
            let l = progress_line_text(clock, id, text);
            let start = clock.len() + 3int;
            let end = l.len() - 5int - text.len();
            &&& l.take(clock.len() as int) == clock
            &&& l.subrange(clock.len() as int, start) == " ( "@
            &&& start <= end
            &&& is_zero_padded_numeral(l.subrange(start, end), id as nat, 4)
            &&& l.subrange(end, end + 5) == " ) - "@
            &&& l.skip(end + 5) == text
        }),
{
    let l = progress_line_text(clock, id, text);
    let z = zero_padded(id as nat, 4);
    lemma_zero_padded_is_numeral(id as nat, 4);
    reveal_strlit(" ( ");
    reveal_strlit(" ) - ");
    let start = clock.len() + 3int;
    let end = l.len() - 5int - text.len();
    assert(l =~= clock + " ( "@ + z + " ) - "@ + text);
    assert(l.take(clock.len() as int) =~= clock);
    assert(l.subrange(clock.len() as int, start) =~= " ( "@);
    assert(l.subrange(start, end) =~= z);
    assert(l.subrange(end, end + 5) =~= " ) - "@);
    assert(l.skip(end + 5) =~= text);
}

/// A progress line of the plain thread clients.
pub fn progress_line(clock: &str, id: u32, text: &str) -> (r: String)
    ensures
        r@ == progress_line_text(clock@, id, text@),
{
    let mut s = String::from_str(clock);
    s.append(" ( ");
    push_zero_padded(&mut s, id as u128, 4);
    s.append(" ) - ");
    s.append(text);
    s
}

} // verus!
