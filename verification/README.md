# markdownpreview

A fast, minimal markdown preview reader with live reload: a small HTTP server
shows markdown files in a tabbed browser page and reloads a file's preview when
it is saved.

The logic is a library verified with Verus (`src/`); the program around it
(`app/`) does the I/O.

- `src/store.rs` — the open files: a map from file id to entry, in tab order.
- `src/url.rs` — request URLs: path, query string, percent-decoding.
- `src/server.rs` — routes and what each request answers and changes
  (closing, opening by path, uploading, reloading a watched file, the info JSON).
- `src/ids.rs` — file ids made from names, and how a free one is found.
- `src/renderer.rs`, `src/template.rs` — markdown to HTML (pulldown-cmark) and
  the tabbed application page.
- `src/text.rs`, `src/unicode.rs` — string helpers, UTF-8, the Unicode
  character classes used.
- `src/cli.rs`, `src/clock.rs`, `src/icon.rs` — the theme option and banner,
  version stamps, and the tray icon's image.
- `app/` — command line, HTTP server (tiny_http), file watcher (notify),
  browser opening, Ctrl+C handling, and the Windows tray.
