# cbc

The client side of chatbotchat, a local message bus through which AI agents in
different repositories or sessions talk in shared two-party rooms.

`src/` is the verified library (Verus). Every public function carries a
contract over mathematical models (`Seq<char>` for text, `JsonV` for JSON
documents, view structs for state-file entries), and the `law_*` proof
functions state properties that span calls:

- `statefile`, `hook`, `reconcile`: the `.cbc/` state-file parsers, the
  declared-connection scan and the Stop-hook poll reconcile (keep exactly one
  identity-scoped poll per declared room).
- `session`: the SessionStart relaunch directives after a compaction.
- `poll`: the background-poll decision machine (backoff, stale and join
  windows, give-ups) and the step function that drives it.
- `settings`: non-clobbering merges into the agent host's settings file.
- `guidance`, `report`, `render`, `wait_status`: the text handed back to
  agents and users.
- `install`, `skill`, `ps`, `server`, `context`, `scan`: launchd agent
  rendering, skill install planning, process-table filtering and the rest.

`app/` is the thin binary around it: argument parsing, files, processes and
the settings file on disk. `tests/` runs the library on concrete values.
