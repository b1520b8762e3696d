# portkill

Finds the processes that hold a port and frees the port by ending them.

- `src/` is the library, verified with Verus. It decides which sockets belong to
  a port (`platform::linux`, `platform::macos`, `platform::windows`), which
  processes own them, which of those may be ended and how (`kill_pid` of each
  platform), and how a whole run goes (`kill`). It does no input or output:
  what the system says comes in as plain values, and what is to be done goes out
  as plain values.
- `app/` reads the system's tables and carries out the actions.
- `tests/` runs the library on small tables.

Each module states its laws as public proof functions whose names start with
`law_`.
