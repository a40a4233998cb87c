# starryfuse

FUSE for a small kernel: the wire format, the device that the daemon reads
requests from and writes replies to, and the filesystem operations on top. With
it comes the logic that loads the FUSE module when its device is first used and
unloads it when nobody uses it any more.

- `src/` is the library. Its functions have contracts that Verus proves, but for
  the few trusted ones named below, and the properties that span functions are
  public proof functions named `law_...`.
- `app/` joins the library to the kernel: filesystem traits, locks, waiting, and
  the actions that the library decides on.
- `tests/` runs the library on concrete requests, replies and daemons.

The library trusts a few functions of other crates, each behind a wrapper whose
comment says what is relied on: UTF-8 decoding (`src/text.rs`), permission bits
and device numbers (`src/node.rs`), path components and joining (`src/path.rs`),
and the mapping of the kernel's symbol table (`src/symbols.rs`).
