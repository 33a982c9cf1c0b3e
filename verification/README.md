# crown

The decisions behind a keyboard's crown dial, verified with Verus: how its
packets and the diverted keys become input edges, how a capture session diverts
controls and hands them back, which session runs and what its inputs dispatch,
how crown modes are cycled, edited, indicated and shown, and which applications
profiles are offered for.

- `src/` is the library. Every function has a contract; the functions named
  `law_*` state what holds across functions.
- `tests/` runs the library.
- `app/` is the code around it: devices, windows, threads, the console and the
  config file.
