# crossscp

The core of a file transfer client (SFTP, SCP, FTP/FTPS, local), written in
Verus. Verus proves the library's functions against their contracts, with
these exceptions: the few wrappers that call `std` or `suppaftp` directly
(`push_char`, `io_error_text`, the three listing parsers in `ftp`) and the
specifications given to `Instant::now`, `Instant::elapsed` and
`Duration::as_millis` are believed, not proved; and `CancellationToken`
states nothing about its shared flag, which other threads may set at any
time.

The in-memory stores (sessions, credentials, known hosts) are keyed by
strings. vstd's specifications of `HashMap` and `BTreeMap` give nothing that
can be proved for `String` keys, so the stores keep their entries in
`table::SortedTable`, a vector kept in increasing key order; it lists
entries in the order a `BTreeMap` would.

## Layout

- `src/` – the verified library:
  - `session`, `config` – session profiles and the tab-separated session file
    (rendering and parsing, with a proved round trip);
  - `security`, `prompts`, `cancel` – credentials, prompt brokers, cancellation;
  - `masks` – include/exclude file masks with `*` and `?` wildcards;
  - `transfer` – overwrite decisions and the transfer queue with its invariants;
  - `protocol`, `table`, `text` – capabilities, numbered conflict names, name
    ordering, sorted tables and the text helpers the parsers rest on;
  - `sftp`, `ssh`, `scp`, `ftp`, `webdav`, `s3`, `http`, `local` – connection
    settings, authentication plans, host-key verification and the known-hosts
    file, remote path rules, listing-line parsing and the local copy steps;
  - `cli` – argument parsing and the planning of each command.
- `app/` – the command-line program: file and network I/O through `ssh2` and
  `suppaftp`, the file-backed stores, and the loops that perform what the
  library plans.
- `tests/` – tests of the library on concrete values.
