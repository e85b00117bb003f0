# window_jump

Slot-based window jumping for X11 desktops (Ubuntu GNOME): slots 1 to 9
hold rules (`WM_CLASS` and a piece of the title) that find a window again,
and `window-jump activate N` brings the slot's window to the front. The
matching, the store, the listings, the font choice and the state of the
configuration GUI are a Verus library whose contracts are proved; the
program around it runs the X11 tools, reads and writes the files and draws
the GUI.

Layout:

- `src/` — the verified library
  - `matching.rs` finding a slot's window (and never guessing among several)
  - `suggest.rs` proposing a title piece and a label for a captured window
  - `model.rs`, `store.rs` the rules, the hints and how the files combine
  - `wmctrl.rs`, `order.rs` reading and sorting the window listing
  - `cli.rs`, `view.rs`, `editor.rs` what the commands and the GUI decide and show
  - `fonts.rs` choosing the Japanese UI font
  - `shell.rs`, `text.rs`, `numfmt.rs`, `split.rs`, `presentation.rs` text helpers
- `tests/` — tests of the library
- `app/` — the program: command line (clap), GUI (eframe), JSON files (serde), X11 tools
