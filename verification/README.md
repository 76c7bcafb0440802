# phi-core

The core of an LLM agent runtime: conversation and session records, context
compaction, provider request bodies and stream decoders, tool argument
handling, skills, and the MCP result mapping.

## Layout

- `src/` — the library, verified with Verus. Every public function states in
  its contract what it returns or changes, over spec functions and views
  (`Seq`, `Map`, ...). Laws that span several functions are public proof
  functions named `law_*`.
  - `context/` — token estimates, the context tracker, message compaction,
    compaction blocks and their assembly into a context, skills.
  - `provider/` — request bodies for each API, stream decoders, errors, the
    scripted mock provider and the provider registry.
  - `session/` — the session model and the recorder that files agent events.
  - `tools/` — tool registry and the logic of the built-in tools.
  - `mcp/` — turning MCP tool results into tool results.
- `app/` — the runtime around the library: HTTP streaming, processes, files,
  MCP transports, and settings that involve clocks or fractions.
- `tests/` — tests of the library.

Calls into outside crates that only compute (JSON re-printing, lowercasing,
durations, the clock) go through small trusted wrappers whose contracts are
documented where they are declared.
