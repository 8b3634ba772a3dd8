# dawmcp

An MCP server that drives a live DAW (REAPER through a file-IPC Lua bridge,
Audacity through `mod-script-pipe`), with its logic verified by Verus.

- `src/` is the verified library: the `__startup.lua` hook merge, install
  decisions and status lines, REAPER and Audacity discovery (candidate
  paths, process filtering, install de-duplication, `PATH` lookup, bridge
  directory choice), the bridge protocol (request ids and file names,
  request framing, heartbeat freshness, polling, reading the response),
  the `mod-script-pipe` framing and reply reading, the Audacity command
  plan (transport, tracks, `Export2`, `Save`, `Undo`), the command line
  (`--daw=reaper|audacity`), and the reading of the bridge's results.
  Laws about these are public proof functions: the merge replaces only the
  span from the first start marker through the first end marker after it
  and keeps every other character, a reinstall changes nothing on every
  file without a stray start marker, and a single block is never
  duplicated; request ids never collide; installs found exist, are unique
  and are complete. Every bridge call ends by its deadline (`poll_step`).
- `app/` is the binary: argument handling, file and pipe I/O, process
  listing, the async backends and the MCP tool surface, which hand plain
  values to the library and act on what it decides.
- `tests/` runs the library on concrete values.
