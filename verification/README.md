# supervisord

A process supervisor: it starts the programs of a configuration directory,
restarts them after they exit when they ask for it, and takes `start`,
`stop` and `status` requests from a local socket and a web dashboard.

- `src/` is the library, proved with Verus: the process table and the
  requests on it (`state`, `ipc`, `web`), the supervision state machine
  (`supervise`), the start of the daemon (`daemon`), configuration loading
  rules (`config`), platform conventions (`platform`), service installer
  decisions (`install`), command-line helpers (`cli`), text helpers
  (`text`, `sorting`) and the laws that tie them together (`laws`).
- `app/` is the executable around it: argument parsing, sockets, the HTTP
  server, child processes, signals, files and the system service managers.
- `tests/` runs the library on concrete values.
