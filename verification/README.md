# crew

The core of a crew: separate coding agents turned into a coordinated team of
roles that reach each other through a localhost broker.

- `src/` is the library, verified with Verus. It holds what a crew decides and
  computes: channels and lanes, the crew config, token budgets, rules of
  engagement, the client and the MCP server's tools, the General's commands, the
  cockpit, and the texts all of them show.
- `app/` is the `crew` program around it: arguments, HTTP, files, the terminal.
- `tests/` runs the library.

A call to the broker is planned by the library as a request and settled from the
reply; the program only carries the request. Each function's contract says what
it returns or changes, and each module ends with the laws that hold of it.
