# terax_linuxkit

The verified core of Terax's iOS backend, where an embedded LinuxKit guest
serves the terminal, the shell tools and the file explorer.

- `src/` is the library, verified with Verus:
  - `linuxkit`: the typed request/response protocol and the backend that
    carries it (the transport still answers every request with an
    "unwired" error that names the command);
  - `mobile_fs`, `mobile_shell`: the mobile filesystem and shell commands
    built on that backend, and the checks on each kind of reply;
  - `native`: the text handling around the native engine: the script that
    wraps a one-shot command, its sentinel trailer and the parser that reads
    it back, shell quoting, and the status checks around the C entry points;
  - `bridge`: the line protocol of the USB debug bridge;
  - `paths`, `settings`, `text`: path and URL forms, and the character
    helpers the rest is written with.
- `tests/` exercises the library on concrete values.
- `app/` is the Tauri application around it: commands, the engine's C entry
  points, the debug bridge's sockets and the serde forms of the types.
