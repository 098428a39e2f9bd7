# basilisk

A terminal emulator's core, written in Verus: the escape-sequence parser, the
terminal state it drives (screen, scrollback, cursor, modes, hyperlinks,
images), sixel and Kitty graphics decoding, glyph and emoji atlases, key
bindings and input handling, the session multiplexer and its IPC framing, SSH
known-hosts checking, configuration and metrics. Each function states in its
contract what it does, and Verus proves the code against it.

## Layout

- `src/` — the verified library. `ansi/` parses output and dispatches
  sequences to a `Handler`; `term/` holds the terminal state; `render/` the
  atlases, cell styles and the sixel decoder; `input/` bindings, keyboard,
  mouse and the window front end; `mux/` sessions, windows, IPC and
  persistence; `ssh/` known hosts and the client's key checks. Calls into
  outside crates and the standard library that Verus cannot see stand behind
  small trusted wrappers whose contracts say what the outside code does.
- `tests/` — tests run against the compiled library.
- `app/` — the program around the library: command line, windowing and GPU
  rendering, the pseudo-terminal, sockets and files, the SSH transport.
