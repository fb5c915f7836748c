# carbonyl

The terminal renderer of a browser that draws web pages in a terminal: a
grid of cells, each showing four colored quarter blocks and possibly one
column of a grapheme, with a navigation bar on the first row.

The library is written in Verus and every function in `src/` is verified
against its contract:

- `gfx`, `cell`: colors, points, sizes, rectangles and terminal cells.
- `screen`: the mathematical model of the screen and the specification of
  every drawing operation (fills, text, text boxes, bitmaps, background
  scrubbing and normalization, frames).
- `renderer`: the renderer itself, a double-buffered grid that records what
  was last painted and returns, frame by frame, the cells to paint again.
- `navigation`: the navigation bar (back, forward, reload, address field).
- `bridge`: the decisions of the C interface (a new set of text items, the
  size of a bitmap, what an input event asks of the browser).
- `text`: the Unicode segmentation and width computations, called through
  `unicode-segmentation` and `unicode-width`.
- `laws`: properties that span several operations, proved.

`app/` holds the C interface and the terminal output; `tests/` runs the
library on concrete values.
