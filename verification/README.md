# mdui

Renders Markdown for the terminal: headings with coloured rules and icons, tables drawn
with box-drawing characters, framed code blocks with a language icon, nested and task
lists, block quotes, links, footnotes, and text wrapped to the terminal's width (at most
120 columns). A pager shows the rendering with scrolling and search.

- `src/` is the verified library. `render` reads the events that `pulldown-cmark` produces
  and writes the terminal text; `blocks` and `table` draw the block-level elements;
  `measure` holds display widths, wrapping and truncation; `style` the escape sequences;
  `text` character utilities; `pager` the pager's key handling, search and status bar.
- `app/` is the `mdui` command: argument parsing, reading the file or standard input,
  writing to the terminal, and the pager's screen loop.
- `tests/` exercises the library on concrete documents, keys and strings.
