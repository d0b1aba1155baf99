# neomacs_core

Verified parts of an Emacs-compatible editor and of the driver that builds it.

- `src/` is the library. Its functions carry contracts that Verus proves. The exceptions are
  a few wrappers around outside crates and the standard library, each marked as such, with
  a comment that says what is claimed of the outside function.
  - The build: `build_options`, `driver`, `pipeline`, `generation`, `lisp_tree`,
    `lisp_jobs`, `makefile`, `waves`, `disk`, `fingerprint`, `repo_policy`.
  - Windows and frames: `window_*`, `frame_*`, with Lisp values in `lisp`. What every
    command on them keeps stands in `session`.
  - The cache and the dispatch of compiled code: `jit_cache`, `jit_dispatch`,
    and the special variables that are there from the start: `bootstrap_vars`.
  - Sockets and logs: `local_socket`, `logging`.
  - Text and paths: `text`, `paths`.
- `tests/` runs the library.
- `app/` is the driver as a program, with the system calls that the library does not
  make.

What a function reads from disk it is handed as a `Disk`, a snapshot of the paths it
looks at. What it would do there it returns as a value, and `app/` performs it.

Statements about several functions at once are the proof functions whose names start
with `law_`.
