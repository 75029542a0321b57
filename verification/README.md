# Andromeda

The logic of a cloud agent server, written in [Verus](https://github.com/verus-lang/verus): runs
of an agent loop whose tools are executed by the client, with streaming, steering, follow-ups,
checkpoints that survive a restart, plans, nested subagents and a summarised context.

## Layout

`src/` is the verified library. Nothing in it does I/O: where a run needs the world, the library
says what it asks for and takes what came back.

| Module | What it holds |
|--------|---------------|
| `protocol`, `json`, `text`, `keyed`, `dup` | wire types, JSON values and their text, text primitives, maps by text, deep copies |
| `config` | the configuration and its defaults |
| `store` | checkpoints and the rule by which they are written |
| `runtime` | runs under way: steering, waiters for client tools, the subscriber |
| `llm` | requests to the provider, and its stream turned into chunks |
| `agent` | limits, follow-ups, middlewares, server tools, summaries |
| `agent::orchestrator` | the loop of a run, as a step from what happened to what is asked for next |
| `api` | answers to requests, taking a run up again, the frames of events |
| `agent_loop`, `event_stream`, `liter_backend`, `stub_backend`, `types`, `backend`, `error` | the loop with tools in the same process |
| `lite` | a smaller server that keeps its runs in memory only |

The rules of the loop are spec functions in `agent/orchestrator/rules.rs`; the steps that run are in
`steps.rs` beside it, and what holds of every run is in `laws.rs`.

`app/` is the server around the library: HTTP, files, the clock of the runtime and the client of the
provider. `tests/` runs the library.

## Running

Copy `extras/config.example.toml` to `config.toml`, set `api_key`, and start the server. It listens on
`127.0.0.1:8080` unless `listen` says otherwise.
