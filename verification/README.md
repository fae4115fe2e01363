# cpac

A trust-aware front end for pacman and the AUR: it scores packages from their
metadata, checks PKGBUILDs for suspicious patterns, compares them with a
community trust database before an installation, and audits the installed
system.

The library under `src/` is verified with Verus: every public function states
its result in its contract, and the properties that span functions (score
ranges, ordering of search results and audit warnings, idempotent merges of
the trust database, version ordering) are proved as proof functions named
`law_*`.

- `src/text.rs`, `src/order.rs`: text and ordering helpers with their models.
- `src/backends/`: package sources, pacman output parsing, AUR records,
  install backends.
- `src/trust/`: trust scoring, recommendations, PKGBUILD diffs.
- `src/sanitize.rs`: anomaly detection and PKGBUILD redaction.
- `src/compare.rs`, `src/trust_db.rs`: the pre-flight check and the local
  trust database.
- `src/audit.rs`, `src/resolver.rs`, `src/install.rs`, `src/config.rs`,
  `src/upgrade.rs`, `src/cli.rs`: the decisions of the commands.
- `src/display.rs`: what the terminal shows, as lines of styled pieces.

`app/` is the program around the library: command line, processes, network,
files, caches and terminal colors. `tests/` runs the library on examples.
