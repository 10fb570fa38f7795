# almanac

A calendar for agents and their artifacts: scheduled agent work rendered as
standard iCalendar feeds (RFC 5545 / 7986 / 9253), with artifact-lineage
checkmarks: ✅ when an input is materialized, ❌ when it is missing, ⚠️ when
its version is too old.

- `src/` is the library, verified with Verus: the data model, event
  ingestion, the lineage engine, ICS rendering, the server's state store and
  answers, the agent tools and the command line's computations. Calls into
  `icalendar`, `chrono` and `sha2` go through the items in `src/trusted.rs`
  and `src/ical/ics.rs`, whose contracts are trusted.
- `app/` is the program around it: the `almanac` command line, the axum HTTP
  server, the MCP stdio server, and the JSON forms of the library's types.
- `tests/` exercises the library on concrete values.

The dashboard page reads its template, CSS and script from the directory
named by `ALMANAC_DASHBOARD_DIR` (default `dashboard`).
