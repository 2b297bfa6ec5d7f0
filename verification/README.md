# keymap

A verified library for showing keyboard shortcuts: it reads keymap files written in XML
(the JetBrains keymap format) and draws an ANSI tenkeyless keyboard into a terminal
screen buffer.

- `src/parser`: a small XML reader (tags, attributes, text, comments, CDATA). `grammar`
  states each parser as a function on character sequences; `xml` holds the executable
  parsers, proved to compute exactly those functions, and the element types.
- `src/widget`: the keyboard. `keyboard` places every key of the layout and builds the key
  cap widgets; `border` plans the strokes of a key cap's border and joins neighbouring
  borders; `label` spells the label of each key; `render` draws key caps and keyboards into
  ratatui's buffer, seen through a model of its cells.
- `src/styling`: colors and styles, and the palette the keyboard is drawn with.
- `app/`: conversions from and to crossterm's key codes and ratatui's types, and ratatui's
  widget traits for the key cap and keyboard widgets.

Everything under `src/` is verified with Verus, on top of a few trusted items: wrappers
whose contracts Verus takes as given. They are `is_alphanumeric` (std's
`char::is_alphanumeric`) in `parser::scan`, `char_string` (`String::from(char)`) in
`widget::label`, and, in `widget::render`, the declarations of ratatui's `Buffer`, `Style`
and `Color`, the names `buffer_cells`, `buffer_area` and `rendered_label`, the conversions
`term_color` and `term_style`, and the calls `cell_symbol`, `set_cell_char`,
`set_cell_style`, `render_label` and `clip_to_buffer`. Each says in its doc comment what it
claims of the outside code. `tests/` holds the tests.
