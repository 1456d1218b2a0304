# firefly_helper

The verified core of an in-process helper for a game client. Once loaded
into the client, it waits for the game module, redirects the client's web
requests for the official service hosts to a local server (keeping the
request path), and makes a few dithering routines return at once.

Layout:

- `src/` — the library, verified with Verus:
  - `lib.rs`: the loader's decisions (when to start, when to wait, which
    modules to enable at which addresses);
  - `text.rs`: UTF-16 encoding and decoding, with round-trip lemmas;
  - `marshal.rs`: managed (IL2CPP) string objects and NUL-terminated byte
    strings;
  - `util.rs`: wide module names, PE header fields, byte-pattern scans;
  - `modules/`: module kinds, the module manager (one module per kind), the
    URL redirection rule and the values the hook routines return.
- `tests/` — tests of the library on concrete values.
- `app/` — the DLL itself: entry points, raw memory access, hooking and
  printing, around the library.
