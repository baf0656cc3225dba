# OpsCodex

A local-first runtime for an AIOps agent: it investigates incidents with tools,
keeps every step in an event log, and proposes changes that people approve.

`src/` is the library, verified with Verus. It decides; it does no input or
output.

- `runtime`: turns and tool calls as step machines, the context for the model,
  events and their envelopes, recovery, remediation and its execution
- `store`: event logs, projections, forks, leases, migration
- `evidence`: evidence, diagnoses and their citations, artifacts, redaction
- `extensions`: capabilities, custom tools, MCP servers, skills, supervision
- `action`, `policy`: change requests, the audit chain, approvals
- `model`, `server`, `cli`, `ops`, `telemetry`, `config`, `runbook`: the edges
- `json`, `json_map`, `json_read`, `text`, `time`, `digest`, `url_text`,
  `uuid_text`, `order`: what the rest is written in

`app/` is the program around it: arguments, files, SQLite, processes, HTTP.
`tests/` runs the library on concrete values.
