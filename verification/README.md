# rdpm

A portable remote-desktop profile manager. Its core is a Verus library whose
behaviour is stated in `requires`/`ensures` contracts and proved; the
Windows program around it is ordinary Rust.

## Layout

- `src/` — the verified library:
  - `server`: the server tree (groups, entries), lookup by id, in-place
    edits, server counts;
  - `search`: case-insensitive and pinyin-initial search, tree filtering;
  - `dialog`: the server form, its validation and the edit round trip;
  - `session`, `reconnect`: session status, native host events, back-off;
  - `tabs`, `geometry`: tab book-keeping and the window commands it emits;
  - `workspace`, `workspace_manager`, `scheduler`: saved sessions and the
    staggered restore order;
  - `vault`, `secret`, `dpapi`: the credential vault;
  - `controller`: the main window's state and operations;
  - `text`, `ident`: string helpers and calls into `std` and `uuid`.
- `tests/` — tests of the library on concrete values.
- `app/` — the program: paths and JSON files, DPAPI on Windows, the native
  RDP host (FFI), live sessions, the clock, logging and the async restore
  loop.
