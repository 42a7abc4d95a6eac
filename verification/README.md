# textual_widgets

State, layout and text-rendering logic of a family of terminal widgets, written
in Verus: every function in `src/` carries a contract and is proved against it.

## Layout

- `src/` — the verified library.
  - `data_table` — rows, columns, keys, cursor, scrolling, sorting, events and
    the rendered text of a data table.
  - `footer`, `header`, `key_panel`, `help_panel`, `link`, `list_item`,
    `digits`, `directory_tree` — the other widgets: their state machines,
    event and message handling, hit testing and rendered text.
  - `content_box`, `border` — how a widget's rendered lines are placed in its
    box (line pad, content alignment, padding) and framed by its border.
  - `layout` — container geometry: even splits, grid tracks, hit testing,
    focus cycling; how a row shares its width and composes its children's
    lines, how a dock hands out bands and composes its items' lines, and how
    a grid joins its cells' lines.
  - `input`, `input_render`, `text_edit`, `validation` — the single-line
    text input: typing rules, editing commands, clipboard, validation,
    completion and cursor blink;
    the runs its line is drawn as; and the editing primitives beneath
    (grapheme clusters via `unicode_segmentation`, word boundaries, the key
    map). Restriction patterns go through `regex`.
  - `event`, `style`, `widget_core`, `scroll`, `helpers`, `text`, `cells` —
    the event and message model, style values, shared helpers, text
    utilities and the cell-width calls into `rich_rs`.
- `tests/` — tests run against the compiled library.
- `app/` — the parts that talk to the outside world: crossterm key events,
  the wall clock, the environment, the file system and opening links.

Laws that relate several operations are stated as public proof functions
named `law_*` next to the operations they concern.
