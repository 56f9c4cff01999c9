# hq_monitor

A monitor for a market data feed. It reads the market time from the header
of the market file, compares it with the local time during trading hours,
and raises alarms when the two drift apart. Active alarms are kept without
duplicates, and every alarm raised or disabled is logged per date.

Layout:

- `src/` — the verified library:
  - `text.rs`: decimal text of integers, reading `u32` fields, quoting;
  - `config.rs`: the configuration, trading sessions, `HHMMSS` seconds;
  - `alarm.rs`: alarms and the set of active alarms, with their laws;
  - `manager.rs`: the alarm manager and its per-date log, with their laws;
  - `biz.rs`: the market check on the header of the market file;
  - `monitor.rs`: the decisions of the main loop;
  - `views.rs`: text served by the web pages.
- `tests/` — tests of the library.
- `app/` — the program: configuration and calendar files, the clock,
  reading the market file, the main loop and a small HTTP server.
