# pyro

The logic of Pyro, a Windows screenshot tool, as a library verified with
Verus: every public function in `src/` carries a `requires` / `ensures`
contract that Verus proves, and the laws that tie functions together (undo and redo,
text round trips, colour conversions, moves and crops) stand as public
proof functions.

Layout:

- `src/`: the verified library.
  - `hotkey`, `shortcuts`, `keybindings`, `settings`, `settings_form`:
    parsing, formatting and recording of the capture hotkey and the editor
    shortcuts, and the settings form turned into a configuration.
  - `config`, `colors`, `filename`, `pipeline`: configuration defaults and
    validation, colour parsing, file name templates, and the decisions of a
    capture run (target, clipboard, editor, output, hotkey reload).
  - `geometry`, `layout`: rectangles, points and the monitor layout report.
  - `overlay`, `editor`, `annotation`, `toolbar`, `snapshot`, `render`:
    the region selection overlay and the region editor as state machines
    (pointer, keys, wheel, undo/redo), the annotations' geometry, and what
    the editor paints.
  - `raster`, `text_raster`, `glyph`, `text`: pixel work on captured frames
    (crop, bitmap for the clipboard, outline, pixelate, blur, text in the
    5x7 font) and string helpers.
  - `pinned`, `tray`: the pinned capture window and the tray menu.
- `tests/`: tests of the library.
- `app/`: the `pyro` command line around the library (argument handling,
  configuration file, clipboard and PNG output, anti-aliased strokes). The
  Windows user interface itself is reported as unavailable on other
  systems.
