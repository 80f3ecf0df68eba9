# emberflow

The local-first runtime for agentic workflow tracking: tracks with their briefs and plans,
tasks with their leases, the events agents record, and the projections and views derived
from them, served to agent clients over MCP.

The library under `src/` is written in Verus. Each public function states what it returns
and what it changes in `requires` / `ensures` clauses over a mathematical model of the
store, and Verus proves the code against them.

- `records.rs`, `rows.rs`, `store.rs`: the tables of the store, each kept in its listing
  order (by creation time and id, or by position and key),
  and every read and write of them (leases, dirty projection targets, the delete cascade).
- `service.rs`: the runtime: events applied to tasks and tracks, runtime status, resume,
  transparency and overview views, resource reads, projected files and their refresh.
- `surface.rs`, `server.rs`, `framing.rs`: the MCP surface, the stdio session that answers
  requests, and how each input line is read.
- `projections.rs`, `views.rs`, `json.rs`, `text.rs`: projection rules, JSON documents and
  their compact text, text helpers.
- `layout.rs`, `install.rs`, `keys.rs`, `protocol.rs`, `clock.rs`: workspace layout and
  configuration, client installation edits, key names, the protocol's vocabularies, time.
- `laws.rs`: properties that span several functions, stated and proved as lemmas.

`app/` holds the program around the library: started as `emberflow-mcp` it is the stdio MCP
server (framing, the SQLite file, projected files on disk), otherwise the `install` /
`doctor` command line. `tests/` runs the
library on concrete cases.
