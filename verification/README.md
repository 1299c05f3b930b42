# mcdebug_launcher

A Minecraft launcher library for automated debugging: instance and server
management, launch argument assembly, log and crash diagnosis, game-control
protocol helpers, and the decisions of the agent API. The logic is written
in Verus and proved against its contracts.

- `src/` — the verified library. Each module states its model in spec
  functions and proves its executable functions against it; cross-function
  properties stand as `law_*` proof functions.
- `tests/` — tests of the library on concrete values.
- `app/` — the unverified shell: files, processes, sockets, JSON forms of
  the library's records, and the few computations on floating point.

Calls into outside crates (`regex`, `sha1`, `sha2`) go through small
trusted wrappers whose contracts name or state what the crate returns.
