# cliphist-ui

A GTK4 clipboard-history popup for Wayland on top of `cliphist` and
`wl-copy`, with its logic written in Verus and proved against its contracts.

## Layout

- `src/` — the verified library.
  - `text.rs`: character-level string helpers (whitespace, ASCII lowering,
    trimming, word splitting) with their specifications.
  - `model.rs`: parsing `cliphist list` lines into entries, their kinds,
    labels, MIME types and search text.
  - `config.rs`: the settings, their defaults, reading them from a JSON5
    document section by section, and the settings/style/cache paths.
  - `thumbnails.rs`: thumbnail jobs, cache file names, stale-file detection,
    rounded corners and making the PNG thumbnail.
  - `launch.rs`: command-line arguments and the list's key bindings.
  - `session.rs`: the popup's state machine; every reaction is a transition
    of `SessionView` that also lists the effects to carry out.
  - `properties.rs`: properties that span several reactions.
  - `placement.rs`: layer-shell anchors and margins.
  - `clipboard.rs`: what `wl-copy` and `cliphist` are handed, and which entry
    to copy when a listed one went stale.
- `app/` — the GTK program: widgets, signals, processes, threads and files.
  It turns events into session calls and carries out the returned effects.
- `tests/` — tests of the library.
