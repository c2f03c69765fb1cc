# prune

Prune finds caches, build leftovers and other regenerable data, shows exactly what it found,
and removes only what the user approves. This crate is its engine, written in Verus: every
decision it makes carries a contract that the verifier proves.

## Layout

- `src/` — the verified library.
  - `safety` — the whitelist of removable roots, protected paths and trees, and the verdict
    every path gets before anything touches it.
  - `providers` — the built-in and user-defined providers: where each looks, what it offers,
    and the registry that orders them and settles overlaps.
  - `scan`, `engine` — putting a scan together (ordering, overlap removal, totals), planning a
    cleanup as a dry run, and executing a plan one target at a time with a fresh check of
    each path.
  - `analyzer` — the disk analyzer's directory tree, largest files and file-type statistics.
  - `apps`, `platform` — applications and their leftovers, protected paths and startup items
    for macOS and Windows.
  - `docker`, `system`, `ops`, `settings`, `fs`, `cli` — reading Docker's output, process
    protection and when a reading of the machine may be reused, the operation log, settings,
    sizes and removal steps, and what each command-line subcommand decides.
  - `binary64` — rounding to the nearest `f64`, carried out on integers, for the figures
    whose digits come from float arithmetic (human-readable sizes, Docker's sizes).
- `app/` — the `prune` command line: arguments, the file system, processes and printing.
- `tests/` — tests of the library.

The file system, processes and the terminal are the command line's part: it reads what the
disk says and hands the library plain values, and it carries out the steps the library
decides.

## Paths

`paths` reads a path the way `std::path::Path` does: a path that begins with a drive (`C:`) or
with two backslashes is read the Windows way, with `\` and `/` both separating components and
the drive letter compared without regard to case; any other path is read the Unix way. The
safety policy compares paths in that component form, on macOS and on Windows alike.
