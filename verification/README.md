# ceos

A text editor for large log and JSON files. The editing logic is a library
verified with Verus; a thin egui window drives it.

## Layout

- `src/` — the verified library.
  - `buffer`, `position`, `selection`, `text_area`: the text as lines of
    characters, the caret and the selection, and every editing operation
    (typing, line breaks, backspace, delete, caret moves, copy and cut).
  - `input`, `editor`: what an input event or an application event does to
    the editor's state.
  - `action`, `keys`, `shortcut`, `keyboard_handler`: key bindings, their
    names and the shortcut parser.
  - `search`, `search_toolbar`: plain, case-insensitive and regular-expression
    matchers, and the wrapping search over the whole text.
  - `syntax`: the tokenizer that colors JSON values and log levels.
  - `highlight`, `model`: highlighted words and their colors.
  - `progress`: the progress of loading, saving and other long operations.
  - `event`, `options`, `range`, `number`, `paths`, `render`, `misc`, `strings`,
    `text_tool`, `utf8_text`: commands, settings and text helpers.
- `tests/` — tests of the library.
- `app/` — the window: painting, menus, files, threads and the log.
