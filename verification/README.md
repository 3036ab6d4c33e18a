# omarkeyd

A credential daemon for KeePass databases. It keeps the decrypted vault in
memory, answers newline-delimited JSON requests on a Unix socket, puts secrets on
the Wayland clipboard or types them, and locks itself on idle, on session lock and
before sleep. `omarkey` is its command-line client.

- `src/` is the library: configuration, search, the vault, the wire protocol, the
  daemon's decisions. Every function has a contract that Verus proves, but for the
  small ones marked `external_body`, which call another crate and say what they
  take from it on trust. What holds of several functions together is proved in the
  public proof functions whose names begin with `law_`.
- `app/` is the program around it: files, sockets, processes, timers, D-Bus and
  the KeePass file format. Run under the name `omarkey` it is the client, under
  any other name the daemon.
- `tests/` runs the library on concrete values.

A request that needs nothing from outside is answered by `Daemon::handle_line` at
once. One that needs a prompt, the clipboard or the keyboard comes back as a
`Step`; the program carries it out and hands the outcome to `finish_unlock`,
`finish_copy` or `finish_type`.
