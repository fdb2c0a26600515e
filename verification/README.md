# vta-agent-memory

Durable memory for coding agents, stored in the user's own Verifiable Trust
Agent (VTA) rather than in the tool.

The decisions live in a library that is verified with Verus; the program around
it connects, reads and writes files, and speaks MCP.

## The library (`src/`)

| Module | What it decides |
|---|---|
| `record`, `record_laws` | Keys (`<type>/<slug>`), records and their stored form, limits, summaries |
| `rank`, `order`, `listing` | Scoring and ranking, stable sorting, key order |
| `store`, `store_laws` | What is asked of the agent's memory and what is made of its answers |
| `server` | The memory tools: what parameters mean, what is answered, paging, fencing |
| `answers` | How those answers are written, and which of them go inside a fence |
| `fence`, `fence_laws` | Marking recalled text as data, in delimiters it cannot forge |
| `cli` | What the commands and the session-start hook print |
| `config`, `files`, `lazy` | The configuration, where files are, connecting on first use |
| `pnm`, `setup`, `enrol` | Finding the operator's agent, setting up, enrolling a machine |
| `text`, `json`, `lists` | Strings as sequences of characters, JSON, lists |

Every function says in its contract what it returns for every input; one that
draws randomness or reads the clock says what holds of every outcome, and beside
it stands one that takes what was drawn or read. What holds of several functions
together is a public proof function whose name starts with `law_`: a saved memory comes back; recall returns only matches, leaves out
nothing there was room for, and does not depend on the order of a listing;
following the pages of a listing shows every memory once; nothing inside a fence
can be taken for its delimiters; nothing is written that was not proved to work;
a failure to connect is never latched.

## What is taken on trust

- `String::push` appends one character.
- `getrandom::fill` gives bytes, or an error; nothing is claimed of them.
- `chrono::Utc::now` and `to_rfc3339` give a text that ends with the offset of UTC.
- `serde_json::to_string` of a string is that string's JSON form, spelt out in
  `json::json_text`.

## The program (`app/`)

`main` and the commands, the tool server, the files' shapes, and the connection.
Setup and enrolment are driven from here, one step at a time: the library says
what to do next, and is told what became of it.

```
vta-agent-memory init --vta-did <did:…> --context <id>
vta-agent-memory connect
vta-agent-memory setup --vta <did:… | pnm-name> [--context <id>] [--use-session] [--force]
vta-agent-memory serve                       # MCP over stdio (the default)
vta-agent-memory recall [--query Q] [--type T] [--limit N] [--full] [--format text|json]
vta-agent-memory list [--type T]
vta-agent-memory forget <key>
vta-agent-memory doctor
```

`setup` and `connect` end with how to enable the plugin. `--host` and
`--host-command` say in which coding agent, by its name and by the command that
starts it.
