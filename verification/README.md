# easytier_agent

A verified library for the EasyTier management agent and the server side of
its protocol.

- `src/` holds the logic, checked by Verus: parsing the output of
  `ip -4 addr show`, the hostname suffix, the agent's decisions about starting
  and stopping `easytier-core`, the requests it sends, the server's agent store
  (kept in a `dashmap::DashMap`) with its handlers, and the latest-release
  answer. Public proof functions named `law_*` state the properties that hold
  across calls.
- `app/` is the program around it: command line, logging, HTTP (reqwest and
  axum), processes, files and the agent's loop.
- `tests/` runs the library on concrete values.
