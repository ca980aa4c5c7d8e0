# rig-core

The rules by which a client talks to model providers, verified with Verus:

- `src/json`: JSON values, their order of keys, and the way to and from `serde_json`.
- `src/http_client`: errors and their texts, the bound on error messages, bearer authentication, and
  what comes of a response.
- `src/providers`: sanitizing JSON schemas for OpenAI, keeping image payloads out of printed
  requests, and the Fireworks provider.

`app` holds what does I/O: the HTTP clients, the environment and serialization. `tests` runs the
library with the crates that it builds on.

Each module states what a function returns as a spec function on mathematical values. The laws that
relate several calls are the public proof functions whose names begin with `law_`.
