# async_vs_threads

Helpers for benchmarking concurrent HTTP clients built on threads and on
async tasks, written in Verus with their behaviour proved.

- `src/clock.rs`: clock readings (`Timestamp`, nanoseconds since the Unix
  epoch), readings kept from going back, spans between them; a time of day
  rendered as `HH:MM:SS.ffffff` / `HH:MM:SS.fff`.
- `src/text.rs`: decimal rendering and padding.
- `src/task.rs`: task numbers and their `[Task n]` labels.
- `src/timeline.rs`: named measurements of one task and the table of many.
- `src/table.rs`: the table rendering, done by `tabled`.
- `src/client/timeline.rs`: event timelines of request tasks, their
  microsecond offsets, grouping by event name, collections of timelines.
- `src/client/requests.rs`: request addresses, the `args.id` of the echo
  server's JSON answer, and the numbers the clients report.
- `app/`: the command-line programs (threads, tokio tasks, hyper, ureq,
  reqwest), reading the local time of day, tracing set-up, CSV export and
  printing.
