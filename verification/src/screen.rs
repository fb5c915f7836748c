use vstd::prelude::*;

use crate::cell::{blank_cell, solid, Cell, CellView, GraphemeView, Quadrant};
use crate::arith::{ceil_div, clamp, round_div, trunc_div};
use crate::gfx::{Color, Point, Rect, Size};
use crate::navigation::{nav_elements, ElementView, NavView};
use crate::text::{display_width, extended_graphemes};

verus! {

/// The area that the text drawn at a position covers, recorded so that the
/// background under it can be scrubbed again after each new bitmap.
#[derive(Clone, Copy, Debug, PartialEq, Eq)]
pub struct TextMask {
    pub col: usize,
    pub row: usize,
    pub width: usize,
}

/// The mathematical state of the terminal screen that a renderer draws on.
///
/// The grid holds `size.height + 1` rows of `size.width` cells: row 0 is the
/// navigation bar, the page starts at row 1. Each entry is the pair
/// (cell as last painted, cell as drawn now).
pub ghost struct Screen {
    pub cells: Seq<(CellView, CellView)>,
    pub size: Size,
    pub background: Color,
    pub masks: Seq<TextMask>,
}

/// The grid holds one navigation row and `height` page rows of `width`
/// cells, and every index the renderer computes fits its integer types.
pub open spec fn screen_wf(s: Screen) -> bool {
    let w = s.size.width as int;
    let h = s.size.height as int;
    &&& s.cells.len() == w + w * h
    &&& w + w * h <= u32::MAX
    &&& w <= i32::MAX
    &&& h <= i32::MAX
}

/// The grid that `set_size` builds: `height + 1` rows of blank cells, each
/// knowing its own column and row, painted and drawn alike.
pub open spec fn fresh_grid(size: Size) -> Seq<(CellView, CellView)> {
    let w = size.width as int;
    let h = size.height as int;
    Seq::new(
        (w + w * h) as nat,
        |i: int| (blank_cell((i % w) as u32, (i / w) as u32), blank_cell((i % w) as u32, (i / w) as u32)),
    )
}

/// Every current cell with its grapheme removed.
pub open spec fn cleared_text(cells: Seq<(CellView, CellView)>) -> Seq<(CellView, CellView)> {
    Seq::new(cells.len(), |i: int| (cells[i].0, apply_op(CellOp::ClearText, cells[i].1)))
}

/// The values of both images of every cell.
pub open spec fn cells_view(cells: Seq<(Cell, Cell)>) -> Seq<(CellView, CellView)> {
    Seq::new(cells.len(), |i: int| (cells[i].0@, cells[i].1@))
}

/// What a drawing pass does to each cell it covers.
#[derive(Clone, Copy, Debug, PartialEq, Eq)]
pub enum CellOp {
    /// Paint the whole cell in one color and remove its grapheme.
    Fill(Color),
    /// Paint the cell's background in one color, keeping its grapheme.
    Background(Color),
    /// Remove the cell's grapheme, keeping its colors.
    ClearText,
}

/// A cell after `op`.
pub open spec fn apply_op(op: CellOp, c: CellView) -> CellView {
    match op {
        CellOp::Fill(color) => CellView { col: c.col, row: c.row, quadrant: solid(color), grapheme: None },
        CellOp::Background(color) => CellView { col: c.col, row: c.row, quadrant: solid(color), grapheme: c.grapheme },
        CellOp::ClearText => CellView { col: c.col, row: c.row, quadrant: c.quadrant, grapheme: None },
    }
}

/// Index of column `x` of row `r` in a grid `w` cells wide.
pub open spec fn row_start(r: int, w: int, x: int) -> int {
    r * w + x
}

/// Whether cell index `i` lies in one of the rows `y .. y + height`, between
/// columns `x` and `x + width`, of a grid `w` cells wide.
pub open spec fn in_region(i: int, w: int, x: int, y: int, width: int, height: int) -> bool {
    exists|r: int|
        #![trigger row_start(r, w, x)]
        y <= r < y + height && row_start(r, w, x) <= i < row_start(r, w, x) + width
}

/// The current image of every cell in the region, changed by `op`.
pub open spec fn paint_region(
    cells: Seq<(CellView, CellView)>,
    w: int,
    x: int,
    y: int,
    width: int,
    height: int,
    op: CellOp,
) -> Seq<(CellView, CellView)> {
    Seq::new(
        cells.len(),
        |i: int|
            if in_region(i, w, x, y, width, height) {
                (cells[i].0, apply_op(op, cells[i].1))
            } else {
                cells[i]
            },
    )
}

impl CellOp {
    /// Applies the operation to one cell.
    pub fn apply(self, cell: &mut Cell)
        ensures
            final(cell)@ == apply_op(self, old(cell)@),
    {
        match self {
            CellOp::Fill(color) => {
                cell.grapheme = None;
                cell.quadrant = (color, color, color, color);
            },
            CellOp::Background(color) => {
                cell.quadrant = (color, color, color, color);
            },
            CellOp::ClearText => {
                cell.grapheme = None;
            },
        }
    }
}

/// The width of the viewport in cells.
pub open spec fn vw(s: Screen) -> int {
    s.size.width as int
}

/// The height of the viewport in cells, the navigation row aside.
pub open spec fn vh(s: Screen) -> int {
    s.size.height as int
}

/// The cells that `fill_rect` covers for a rectangle given in page pixels
/// (a cell is 2 pixels wide and 4 high, the page starts at row 1):
/// (left, right, top, bottom), clamped to the viewport.
pub open spec fn fill_bounds(s: Screen, rect: Rect) -> (int, int, int, int) {
    let ox = rect.origin.x as int;
    let oy = rect.origin.y as int;
    let sw = rect.size.width as int;
    let sh = rect.size.height as int;
    (
        clamp(ox / 2, vw(s)),
        clamp((ox + sw) / 2, vw(s)),
        clamp(oy / 4 + 1, vh(s)),
        clamp((oy + sh) / 4 + 1, vh(s)),
    )
}

/// The screen after `fill_rect(rect, color)`: the covered cells are painted
/// in `color` without graphemes; a fill of the whole page also becomes the
/// page background.
pub open spec fn spec_fill_rect(s: Screen, rect: Rect, color: Color) -> Screen {
    let (left, right, top, bottom) = fill_bounds(s, rect);
    if left >= right || top >= bottom {
        s
    } else {
        Screen {
            cells: paint_region(s.cells, vw(s), left, top, right - left, bottom - top, CellOp::Fill(color)),
            background: if left == 0 && top == 1 && right == vw(s) && bottom == vh(s) {
                color
            } else {
                s.background
            },
            ..s
        }
    }
}

/// The largest difference between the channels of two colors.
pub open spec fn color_distance(a: Color, b: Color) -> u8 {
    let dr = if a.r >= b.r { a.r - b.r } else { b.r - a.r };
    let dg = if a.g >= b.g { a.g - b.g } else { b.g - a.g };
    let db = if a.b >= b.b { a.b - b.b } else { b.b - a.b };
    let m = if dr >= dg { dr } else { dg };
    (if m >= db { m } else { db }) as u8
}

/// How far a color may be from the page background and still count as it.
pub open spec fn background_threshold() -> u8 {
    28
}

/// Whether all four colors of a quadrant are within the threshold of `background`.
pub open spec fn matches_background(q: Quadrant, background: Color) -> bool {
    &&& color_distance(q.0, background) <= background_threshold()
    &&& color_distance(q.1, background) <= background_threshold()
    &&& color_distance(q.2, background) <= background_threshold()
    &&& color_distance(q.3, background) <= background_threshold()
}

/// The current image of every cell without a grapheme whose colors are all
/// close to the page background, painted in the page background.
pub open spec fn normalized(cells: Seq<(CellView, CellView)>, background: Color) -> Seq<(CellView, CellView)> {
    Seq::new(
        cells.len(),
        |i: int|
            if cells[i].1.grapheme is None && matches_background(cells[i].1.quadrant, background) {
                (cells[i].0, apply_op(CellOp::Background(background), cells[i].1))
            } else {
                cells[i]
            },
    )
}

/// The average of the four colors of a quadrant, folded left to right.
pub open spec fn quadrant_color(q: Quadrant) -> Color {
    q.0.spec_avg_with(q.1).spec_avg_with(q.2).spec_avg_with(q.3)
}

/// The color of the current image of the cell at column `x`, row `y`.
pub open spec fn cell_color(s: Screen, x: int, y: int) -> Color {
    quadrant_color(s.cells[y * vw(s) + x].1.quadrant)
}

/// The samples taken on row `y` beside columns `left .. right`: two cells
/// left of it when there is room, and the cell right of it when there is one.
pub open spec fn row_side_samples(s: Screen, left: int, right: int, y: int) -> Seq<Color> {
    (if left > 1 {
        seq![cell_color(s, left - 2, y)]
    } else {
        Seq::<Color>::empty()
    }) + (if right < vw(s) {
        seq![cell_color(s, right, y)]
    } else {
        Seq::<Color>::empty()
    })
}

/// The side samples of rows `top .. bottom`, row by row.
pub open spec fn side_samples(s: Screen, left: int, right: int, top: int, bottom: int) -> Seq<Color>
    decreases bottom - top,
{
    if bottom <= top {
        Seq::empty()
    } else {
        side_samples(s, left, right, top, bottom - 1) + row_side_samples(s, left, right, bottom - 1)
    }
}

/// The colors of columns `left .. right` of row `y`.
pub open spec fn span_samples(s: Screen, left: int, right: int, y: int) -> Seq<Color> {
    Seq::new(if right > left { (right - left) as nat } else { 0 }, |k: int| cell_color(s, left + k, y))
}

/// Every sample taken around a text block: the sides of each row, then the
/// row above it, then the row below it, where those rows exist.
pub open spec fn text_samples(s: Screen, left: int, right: int, top: int, bottom: int) -> Seq<Color> {
    side_samples(s, left, right, top, bottom) + (if top > 0 {
        span_samples(s, left, right, top - 1)
    } else {
        Seq::<Color>::empty()
    }) + (if bottom < vh(s) {
        span_samples(s, left, right, bottom)
    } else {
        Seq::<Color>::empty()
    })
}

/// The sum of the channels of a color.
pub open spec fn brightness(c: Color) -> int {
    c.r + c.g + c.b
}

/// Whether every cell that is sampled around a block lies in the grid: the
/// last side samples, and the last cell of the spans above and below it.
pub open spec fn samples_in_grid(s: Screen, left: int, right: int, top: int, bottom: int) -> bool {
    let len = s.cells.len() as int;
    let w = vw(s);
    &&& top < bottom && left > 1 ==> (bottom - 1) * w + left - 2 < len
    &&& top < bottom && right < w ==> (bottom - 1) * w + right < len
    &&& top > 0 && left < right ==> (top - 1) * w + right - 1 < len
    &&& bottom < vh(s) && left < right ==> bottom * w + right - 1 < len
}

/// The brightest color of a non-empty sequence, the last one among equals.
pub open spec fn brightest(cs: Seq<Color>) -> Color
    decreases cs.len(),
{
    if cs.len() <= 1 {
        cs[0]
    } else {
        let m = brightest(cs.drop_last());
        if brightness(cs.last()) >= brightness(m) {
            cs.last()
        } else {
            m
        }
    }
}

/// The background sampled around a text block, if any sample exists.
pub open spec fn sample_background(s: Screen, left: int, right: int, top: int, bottom: int) -> Option<Color> {
    let samples = text_samples(s, left, right, top, bottom);
    if samples.len() == 0 {
        None
    } else {
        Some(brightest(samples))
    }
}

/// The block that `scrub_text_background` repaints for text at column `col`,
/// row `row`, `width` columns wide: (left, right, top, bottom).
pub open spec fn scrub_bounds(s: Screen, col: int, row: int, width: int) -> (int, int, int, int) {
    (clamp(col - 2, vw(s)), clamp(col + width + 8, vw(s)), clamp(row, vh(s) - 1), clamp(row + 2, vh(s)))
}

/// The screen after the background behind a text block is repainted in
/// the brightest color sampled around it, or in the page background.
pub open spec fn spec_scrub(s: Screen, col: int, row: int, width: int) -> Screen {
    let (left, right, top, bottom) = scrub_bounds(s, col, row, width);
    if vw(s) == 0 || vh(s) == 0 || left >= right || top >= bottom {
        s
    } else {
        let background = match sample_background(s, left, right, top, bottom) {
            Some(c) => c,
            None => s.background,
        };
        Screen {
            cells: paint_region(s.cells, vw(s), left, top, right - left, bottom - top, CellOp::Background(background)),
            ..s
        }
    }
}

/// One terminal column taken by a grapheme: the grapheme, which of its
/// columns this is, and how many columns it takes.
pub ghost struct Slot {
    pub char: Seq<char>,
    pub index: usize,
    pub width: usize,
}

/// The columns that one grapheme cluster `width` columns wide takes, one
/// slot per column.
pub open spec fn cluster_slots(g: Seq<char>, width: usize) -> Seq<Slot> {
    Seq::new(width as nat, |j: int| Slot { char: g, index: j as usize, width })
}

/// The columns that one grapheme takes, one slot per column of its width.
pub open spec fn grapheme_slots(g: Seq<char>) -> Seq<Slot> {
    cluster_slots(g, display_width(g))
}

/// The columns that a sequence of grapheme clusters takes, in order, the
/// cluster at `k` being `widths[k]` columns wide.
pub open spec fn slots_of(gs: Seq<Seq<char>>, widths: Seq<usize>) -> Seq<Slot>
    decreases gs.len(),
{
    if gs.len() == 0 {
        Seq::empty()
    } else {
        slots_of(gs.drop_last(), widths.take(gs.len() - 1)) + cluster_slots(gs.last(), widths[gs.len() - 1])
    }
}

/// The displayed width of each grapheme of a sequence.
pub open spec fn grapheme_widths(gs: Seq<Seq<char>>) -> Seq<usize> {
    Seq::new(gs.len(), |i: int| display_width(gs[i]))
}

/// The columns that a sequence of graphemes takes, in order.
pub open spec fn text_slots(gs: Seq<Seq<char>>) -> Seq<Slot> {
    slots_of(gs, grapheme_widths(gs))
}

/// The texts of a sequence of strings.
pub open spec fn strings_view(v: Seq<String>) -> Seq<Seq<char>> {
    Seq::new(v.len(), |i: int| v[i]@)
}

/// A cell after a grapheme column is written over it in `color`: the
/// grapheme it shows is replaced unless it already shows the same grapheme
/// text in the same color.
pub open spec fn put_slot(c: CellView, slot: Slot, color: Color) -> CellView {
    let next = GraphemeView { char: slot.char, index: slot.index, width: slot.width, color };
    match c.grapheme {
        None => CellView { grapheme: Some(next), ..c },
        Some(prev) => if prev.color != color || prev.char != slot.char {
            CellView { grapheme: Some(next), ..c }
        } else {
            c
        },
    }
}

/// The cells from index `start` on, each written with the next slot, as far
/// as there are slots and cells.
pub open spec fn write_slots(
    cells: Seq<(CellView, CellView)>,
    start: int,
    slots: Seq<Slot>,
    color: Color,
) -> Seq<(CellView, CellView)> {
    Seq::new(
        cells.len(),
        |i: int|
            if start <= i < start + slots.len() {
                (cells[i].0, put_slot(cells[i].1, slots[i - start], color))
            } else {
                cells[i]
            },
    )
}

/// The cell index at which text drawn at `origin` (in page pixels) starts,
/// computed with Rust's integer division.
pub open spec fn text_index(s: Screen, origin: Point) -> int {
    trunc_div(origin.x as int, 2) + trunc_div(origin.y + 1, 4) * vw(s)
}

/// The first cell written by text drawn at `origin`: past the end of the
/// grid when the index is negative or too large.
pub open spec fn text_start(s: Screen, origin: Point) -> int {
    let index = text_index(s, origin);
    if index < 0 || index > s.cells.len() {
        s.cells.len() as int
    } else {
        index
    }
}

/// The column of the text mask for text drawn at `origin`.
pub open spec fn text_col(origin: Point) -> int {
    (if origin.x < 0 { 0 } else { origin.x as int }) / 2
}

/// The row of the text mask for text drawn at `origin`.
pub open spec fn text_row(origin: Point) -> int {
    (if origin.y + 1 < 0 { 0 } else { origin.y + 1 }) / 4
}

/// The screen after a line of text is written at `origin` in `color`: its
/// mask is recorded, the background behind it is scrubbed, then its
/// grapheme columns are written cell after cell from `text_start`.
pub open spec fn spec_write_text(s: Screen, text: Seq<char>, origin: Point, color: Color) -> Screen {
    let width = display_width(text);
    let col = text_col(origin);
    let row = text_row(origin);
    let s1 = Screen { masks: s.masks.push(TextMask { col: col as usize, row: row as usize, width }), ..s };
    let s2 = spec_scrub(s1, col, row, width as int);
    Screen {
        cells: write_slots(s2.cells, text_start(s2, origin), text_slots(extended_graphemes(text)), color),
        ..s2
    }
}

/// The cells that a text box at `origin` of `size` (in page pixels) covers,
/// rounded to the nearest cell: (left, right, top, bottom).
pub open spec fn box_bounds(s: Screen, origin: Point, size: Size) -> (int, int, int, int) {
    let x = round_div(origin.x as int, 2);
    let y = round_div(origin.y + 4, 4);
    let w = round_div(size.width as int, 2);
    let h = round_div(size.height as int, 4);
    (clamp(x, vw(s)), clamp(x + w, vw(s)), clamp(y, vh(s)), clamp(y + h, vh(s)))
}

/// Whether `draw_text` treats its arguments as a text box to clear rather
/// than a line of text to write.
pub open spec fn is_text_box(size: Size) -> bool {
    size.width > 2 && size.height > 2
}

/// The screen after `draw_text`: a text box clears the graphemes of the
/// cells it covers; a line of text is written.
pub open spec fn spec_draw_text(s: Screen, text: Seq<char>, origin: Point, size: Size, color: Color) -> Screen {
    if is_text_box(size) {
        let (left, right, top, bottom) = box_bounds(s, origin, size);
        Screen { cells: paint_region(s.cells, vw(s), left, top, right - left, bottom - top, CellOp::ClearText), ..s }
    } else {
        spec_write_text(s, text, origin, color)
    }
}

/// Whether the integer arithmetic that places a line of text stays within
/// `i32`, as Rust requires of it.
pub open spec fn text_position_fits(s: Screen, origin: Point) -> bool {
    &&& origin.y < i32::MAX
    &&& i32::MIN <= trunc_div(origin.y + 1, 4) * vw(s) <= i32::MAX
    &&& i32::MIN <= text_index(s, origin) <= i32::MAX
}

/// The color of pixel (`x`, `y`) of a bitmap stored as 4 bytes per pixel in
/// the order red, green, blue, alpha (RGBA8888), `row_length` pixels per row.
pub open spec fn pixel(p: Seq<u8>, row_length: int, x: int, y: int) -> Color {
    let base = (x + y * row_length) * 4;
    Color { r: p[base], g: p[base + 1], b: p[base + 2] }
}

/// The average of pixel (`x`, `y`) and the pixel below it.
pub open spec fn pixel_pair(p: Seq<u8>, row_length: int, x: int, y: int) -> Color {
    pixel(p, row_length, x, y).spec_avg_with(pixel(p, row_length, x, y + 1))
}

/// The quadrant that shows the 2 by 4 pixel block of column `col`, page
/// row `row`: each quarter is the average of two vertically adjacent pixels.
pub open spec fn bitmap_quadrant(p: Seq<u8>, row_length: int, col: int, row: int) -> Quadrant {
    let x = 2 * col;
    let y = 4 * row;
    (
        pixel_pair(p, row_length, x, y),
        pixel_pair(p, row_length, x + 1, y),
        pixel_pair(p, row_length, x + 1, y + 2),
        pixel_pair(p, row_length, x, y + 2),
    )
}

/// The page cells that a bitmap update of `rect` (in page pixels) covers,
/// widened to whole cells and clamped to the viewport: (left, right, top, bottom).
pub open spec fn bitmap_bounds(s: Screen, rect: Rect) -> (int, int, int, int) {
    let ox = if rect.origin.x < 0 { 0 } else { rect.origin.x as int };
    let oy = if rect.origin.y < 0 { 0 } else { rect.origin.y as int };
    let left = clamp(ox / 2, vw(s));
    let top = clamp(oy / 4, vh(s));
    let r = clamp(ceil_div(ox + rect.size.width, 2), vw(s));
    let b = clamp(ceil_div(oy + rect.size.height, 4), vh(s));
    (left, if r < left { left } else { r }, top, if b < top { top } else { b })
}

/// Whether a bitmap of `len` bytes covers the whole viewport, as
/// `draw_background` asks before it draws anything.
pub open spec fn bitmap_covers_viewport(s: Screen, len: int) -> bool {
    len >= vw(s) * vh(s) * 8 * 4
}

/// Whether every pixel that `draw_background` reads lies in the bitmap.
pub open spec fn bitmap_fits(s: Screen, len: int, pixels_size: Size, rect: Rect) -> bool {
    let (left, right, top, bottom) = bitmap_bounds(s, rect);
    bitmap_covers_viewport(s, len) && left < right && top < bottom ==> 4 * ((2 * right - 1) + (4 * bottom - 1)
        * pixels_size.width) + 2 < len
}

/// Whether cell index `i` of a grid `w` cells wide lies in page rows
/// `top .. bottom` (grid rows `top + 1 .. bottom + 1`), columns `left .. right`.
#[verifier::opaque]
pub open spec fn in_bitmap_block(i: int, w: int, left: int, right: int, top: int, bottom: int) -> bool {
    w > 0 && top + 1 <= i / w < bottom + 1 && left <= i % w < right
}

/// The cells of page rows `top .. bottom` (grid rows `top + 1 .. bottom + 1`)
/// and columns `left .. right`, each given the quadrant of its pixel block.
pub open spec fn paint_bitmap(
    cells: Seq<(CellView, CellView)>,
    w: int,
    left: int,
    right: int,
    top: int,
    bottom: int,
    p: Seq<u8>,
    row_length: int,
) -> Seq<(CellView, CellView)> {
    Seq::new(
        cells.len(),
        |i: int|
            if in_bitmap_block(i, w, left, right, top, bottom) {
                (
                    cells[i].0,
                    CellView { quadrant: bitmap_quadrant(p, row_length, i % w, i / w - 1), ..cells[i].1 },
                )
            } else {
                cells[i]
            },
    )
}

/// The screen after the background behind each text mask is scrubbed, in order.
pub open spec fn scrub_masks(s: Screen, masks: Seq<TextMask>) -> Screen
    decreases masks.len(),
{
    if masks.len() == 0 {
        s
    } else {
        let m = masks.last();
        spec_scrub(scrub_masks(s, masks.drop_last()), m.col as int, m.row as int, m.width as int)
    }
}

/// The screen after `draw_background`: nothing changes unless the bitmap
/// covers the viewport; then the covered cells take the colors of their
/// pixel blocks and the background behind every text mask is scrubbed again.
pub open spec fn spec_draw_background(s: Screen, p: Seq<u8>, pixels_size: Size, rect: Rect) -> Screen {
    if !bitmap_covers_viewport(s, p.len() as int) {
        s
    } else {
        let (left, right, top, bottom) = bitmap_bounds(s, rect);
        let painted = Screen {
            cells: paint_bitmap(s.cells, vw(s), left, right, top, bottom, p, pixels_size.width as int),
            ..s
        };
        scrub_masks(painted, s.masks)
    }
}

/// The screen after one piece of the navigation bar is drawn: its cells
/// are filled with its background, then its text is written.
pub open spec fn draw_element(s: Screen, e: (Point, ElementView)) -> Screen {
    let origin = e.0;
    let element = e.1;
    let filled = spec_fill_rect(
        s,
        Rect { origin, size: Size { width: display_width(element.text) as u32, height: 1 } },
        element.background,
    );
    spec_draw_text(
        filled,
        element.text,
        Point { x: (origin.x * 2) as i32, y: origin.y },
        Size { width: 0, height: 0 },
        element.foreground,
    )
}

/// The screen after the pieces of the navigation bar are drawn in order.
pub open spec fn draw_elements(s: Screen, es: Seq<(Point, ElementView)>) -> Screen
    decreases es.len(),
{
    if es.len() == 0 {
        s
    } else {
        draw_element(draw_elements(s, es.drop_last()), es.last())
    }
}

/// The screen as a frame shows it: the navigation bar drawn, then the
/// background noise normalized.
pub open spec fn spec_frame(s: Screen, n: NavView) -> Screen {
    let drawn = draw_elements(s, nav_elements(n));
    Screen { cells: normalized(drawn.cells, drawn.background), ..drawn }
}

/// Every cell whose painted image differs from its current image, in
/// order: its index and its current image.
pub open spec fn changed_cells(cells: Seq<(CellView, CellView)>) -> Seq<(int, CellView)>
    decreases cells.len(),
{
    if cells.len() == 0 {
        Seq::empty()
    } else {
        let before = changed_cells(cells.drop_last());
        if cells.last().0 != cells.last().1 {
            before.push((cells.len() - 1, cells.last().1))
        } else {
            before
        }
    }
}

/// A cell with its painted image brought up to date: colors and grapheme
/// taken from the current image.
pub open spec fn painted(c: (CellView, CellView)) -> (CellView, CellView) {
    (CellView { quadrant: c.1.quadrant, grapheme: c.1.grapheme, ..c.0 }, c.1)
}

/// The grid after cell `index` is marked as painted.
pub open spec fn mark_painted(cells: Seq<(CellView, CellView)>, index: int) -> Seq<(CellView, CellView)> {
    cells.update(index, painted(cells[index]))
}

/// The grid after the cells of a frame are marked as painted, in order.
pub open spec fn mark_all(cells: Seq<(CellView, CellView)>, frame: Seq<(int, CellView)>) -> Seq<(CellView, CellView)>
    decreases frame.len(),
{
    if frame.len() == 0 {
        cells
    } else {
        mark_painted(mark_all(cells, frame.drop_last()), frame.last().0)
    }
}

/// Every cell marked as painted.
pub open spec fn synced(cells: Seq<(CellView, CellView)>) -> Seq<(CellView, CellView)> {
    Seq::new(cells.len(), |i: int| painted(cells[i]))
}

/// The grid with every cell below index `end` marked as painted.
pub open spec fn synced_below(cells: Seq<(CellView, CellView)>, end: int) -> Seq<(CellView, CellView)> {
    Seq::new(cells.len(), |i: int| if i < end { painted(cells[i]) } else { cells[i] })
}

/// One past the index of the last cell marked, once the first `count`
/// cells of a frame are marked as painted.
pub open spec fn frame_reach(frame: Seq<(int, CellView)>, count: int) -> int {
    if count <= 0 {
        0
    } else {
        frame[count - 1].0 + 1
    }
}

/// The values of the cells of a frame, with their indices.
pub open spec fn frame_views(cells: Seq<(usize, Cell)>) -> Seq<(int, CellView)> {
    Seq::new(cells.len(), |i: int| (cells[i].0 as int, cells[i].1@))
}

} // verus!
