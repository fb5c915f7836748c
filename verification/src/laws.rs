use vstd::prelude::*;

use crate::bridge::{apply_text_items, spec_text_frame};
use crate::cell::{blank_cell, solid, CellView};
use crate::gfx::{Color, Point, Rect, Size};
use crate::navigation::{
    address_column,
    is_printable,
    spec_keypress,
    spec_mouse_up,
    ActionView,
    Key,
    NavView,
};
use crate::screen::{
    cell_color,
    changed_cells,
    frame_reach,
    synced_below,
    mark_all,
    mark_painted,
    painted,
    cleared_text,
    color_distance,
    draw_elements,
    fresh_grid,
    in_region,
    matches_background,
    normalized,
    paint_bitmap,
    paint_region,
    row_side_samples,
    row_start,
    sample_background,
    screen_wf,
    scrub_bounds,
    scrub_masks,
    side_samples,
    span_samples,
    spec_draw_background,
    spec_draw_text,
    spec_fill_rect,
    spec_frame,
    spec_scrub,
    spec_write_text,
    synced,
    text_samples,
    vh,
    vw,
    CellOp,
    Screen,
};

verus! {

/// Two grids have the same cells at the same positions, and the same
/// painted images: only the current images may differ, and only in their
/// colors and graphemes.
pub open spec fn keeps_positions(a: Seq<(CellView, CellView)>, b: Seq<(CellView, CellView)>) -> bool {
    &&& a.len() == b.len()
    &&& forall|i: int|
        0 <= i < a.len() ==> (#[trigger] b[i]).0 == a[i].0 && b[i].1.col == a[i].1.col && b[i].1.row == a[i].1.row
}

/// Every cell of a freshly sized grid knows its place: the cell at column
/// `col` of row `row` (row 0 being the navigation bar) is blank and records
/// that column and row, in both images.
pub proof fn law_grid_positions(size: Size, row: int, col: int)
    requires
        size.width >= 1,
        0 <= col < size.width,
        0 <= row <= size.height,
    ensures
        0 <= row * size.width + col < fresh_grid(size).len(),
        fresh_grid(size)[row * size.width + col].0 == blank_cell(col as u32, row as u32),
        fresh_grid(size)[row * size.width + col].1 == blank_cell(col as u32, row as u32),
{
    let w = size.width as int;
    let h = size.height as int;
    assert(0 <= row * w + col < w + w * h) by (nonlinear_arith)
        requires
            0 <= col < w,
            0 <= row <= h,
    ;
    vstd::arithmetic::div_mod::lemma_fundamental_div_mod_converse_div(row * w + col, w, row, col);
    vstd::arithmetic::div_mod::lemma_fundamental_div_mod_converse_mod(row * w + col, w, row, col);
}

proof fn lemma_scrub_keeps_positions(s: Screen, col: int, row: int, width: int)
    ensures
        keeps_positions(s.cells, spec_scrub(s, col, row, width).cells),
        spec_scrub(s, col, row, width).size == s.size,
        spec_scrub(s, col, row, width).masks == s.masks,
        spec_scrub(s, col, row, width).background == s.background,
{
}

proof fn lemma_write_text_keeps_positions(s: Screen, text: Seq<char>, origin: Point, color: Color)
    ensures
        keeps_positions(s.cells, spec_write_text(s, text, origin, color).cells),
        spec_write_text(s, text, origin, color).size == s.size,
        spec_write_text(s, text, origin, color).background == s.background,
{
}

proof fn lemma_draw_text_keeps_positions(s: Screen, text: Seq<char>, origin: Point, size: Size, color: Color)
    ensures
        keeps_positions(s.cells, spec_draw_text(s, text, origin, size, color).cells),
        spec_draw_text(s, text, origin, size, color).size == s.size,
        spec_draw_text(s, text, origin, size, color).background == s.background,
{
    lemma_write_text_keeps_positions(s, text, origin, color);
}

proof fn lemma_fill_rect_keeps_positions(s: Screen, rect: Rect, color: Color)
    ensures
        keeps_positions(s.cells, spec_fill_rect(s, rect, color).cells),
        spec_fill_rect(s, rect, color).size == s.size,
        spec_fill_rect(s, rect, color).masks == s.masks,
{
}

proof fn lemma_scrub_masks_keeps_positions(s: Screen, masks: Seq<crate::screen::TextMask>)
    ensures
        keeps_positions(s.cells, scrub_masks(s, masks).cells),
        scrub_masks(s, masks).size == s.size,
    decreases masks.len(),
{
    if masks.len() > 0 {
        lemma_scrub_masks_keeps_positions(s, masks.drop_last());
        let m = masks.last();
        lemma_scrub_keeps_positions(scrub_masks(s, masks.drop_last()), m.col as int, m.row as int, m.width as int);
    }
}

proof fn lemma_draw_elements_keeps_positions(s: Screen, es: Seq<(Point, crate::navigation::ElementView)>)
    ensures
        keeps_positions(s.cells, draw_elements(s, es).cells),
        draw_elements(s, es).size == s.size,
    decreases es.len(),
{
    if es.len() > 0 {
        lemma_draw_elements_keeps_positions(s, es.drop_last());
        let d = draw_elements(s, es.drop_last());
        let e = es.last();
        let filled = spec_fill_rect(
            d,
            Rect { origin: e.0, size: Size { width: crate::text::display_width(e.1.text) as u32, height: 1 } },
            e.1.background,
        );
        lemma_fill_rect_keeps_positions(
            d,
            Rect { origin: e.0, size: Size { width: crate::text::display_width(e.1.text) as u32, height: 1 } },
            e.1.background,
        );
        lemma_draw_text_keeps_positions(
            filled,
            e.1.text,
            Point { x: (e.0.x * 2) as i32, y: e.0.y },
            Size { width: 0, height: 0 },
            e.1.foreground,
        );
    }
}

proof fn lemma_text_items_keep_positions(s: Screen, items: Seq<(Seq<char>, Point, Size, Color)>)
    ensures
        keeps_positions(s.cells, apply_text_items(s, items).cells),
        apply_text_items(s, items).size == s.size,
    decreases items.len(),
{
    if items.len() > 0 {
        lemma_text_items_keep_positions(s, items.drop_last());
        let t = apply_text_items(s, items.drop_last());
        let (text, origin, size, color) = items.last();
        lemma_fill_rect_keeps_positions(t, Rect { origin, size }, color);
        lemma_draw_text_keeps_positions(t, text, origin, size, color);
    }
}

/// Drawing never moves a cell nor touches what was last painted: filling,
/// writing text, clearing text boxes, drawing a bitmap and replacing the
/// text of a frame change only the colors and graphemes of the current
/// image of the cells, and keep the viewport size.
pub proof fn law_drawing_keeps_positions(
    s: Screen,
    rect: Rect,
    color: Color,
    text: Seq<char>,
    origin: Point,
    size: Size,
    pixels: Seq<u8>,
    pixels_size: Size,
    items: Seq<(Seq<char>, Point, Size, Color)>,
)
    ensures
        keeps_positions(s.cells, spec_fill_rect(s, rect, color).cells),
        spec_fill_rect(s, rect, color).size == s.size,
        keeps_positions(s.cells, spec_draw_text(s, text, origin, size, color).cells),
        spec_draw_text(s, text, origin, size, color).size == s.size,
        keeps_positions(s.cells, spec_draw_background(s, pixels, pixels_size, rect).cells),
        spec_draw_background(s, pixels, pixels_size, rect).size == s.size,
        keeps_positions(s.cells, spec_text_frame(s, items).cells),
        spec_text_frame(s, items).size == s.size,
{
    lemma_fill_rect_keeps_positions(s, rect, color);
    lemma_draw_text_keeps_positions(s, text, origin, size, color);
    let (left, right, top, bottom) = crate::screen::bitmap_bounds(s, rect);
    let painted = Screen {
        cells: paint_bitmap(s.cells, crate::screen::vw(s), left, right, top, bottom, pixels, pixels_size.width as int),
        ..s
    };
    lemma_scrub_masks_keeps_positions(painted, s.masks);
    let cleared = Screen { cells: cleared_text(s.cells), masks: Seq::empty(), ..s };
    lemma_text_items_keep_positions(cleared, items);
}

proof fn lemma_no_changes(cells: Seq<(CellView, CellView)>)
    requires
        forall|i: int| 0 <= i < cells.len() ==> (#[trigger] cells[i]).0 == cells[i].1,
    ensures
        changed_cells(cells) == Seq::<(int, CellView)>::empty(),
    decreases cells.len(),
{
    if cells.len() > 0 {
        let prefix = cells.drop_last();
        assert forall|i: int| 0 <= i < prefix.len() implies (#[trigger] prefix[i]).0 == prefix[i].1 by {
            assert(prefix[i] == cells[i]);
        }
        lemma_no_changes(prefix);
    }
}

/// The cells that a frame lists lie in the grid.
proof fn lemma_changed_in_grid(cells: Seq<(CellView, CellView)>)
    ensures
        forall|j: int|
            0 <= j < changed_cells(cells).len() ==> 0 <= #[trigger] changed_cells(cells)[j].0 < cells.len(),
    decreases cells.len(),
{
    if cells.len() > 0 {
        let prefix = cells.drop_last();
        lemma_changed_in_grid(prefix);
        let before = changed_cells(prefix);
        assert forall|j: int| 0 <= j < changed_cells(cells).len() implies 0 <= #[trigger] changed_cells(cells)[j].0
            < cells.len() by {
            if j < before.len() {
                assert(changed_cells(cells)[j] == before[j]);
            }
        }
    }
}

/// Marking cells of a grid as painted leaves a cell added after them alone.
proof fn lemma_mark_all_push(cells: Seq<(CellView, CellView)>, e: (CellView, CellView), frame: Seq<(int, CellView)>)
    requires
        forall|j: int| 0 <= j < frame.len() ==> 0 <= #[trigger] frame[j].0 < cells.len(),
    ensures
        mark_all(cells.push(e), frame) == mark_all(cells, frame).push(e),
        mark_all(cells, frame).len() == cells.len(),
    decreases frame.len(),
{
    if frame.len() > 0 {
        let prefix = frame.drop_last();
        assert forall|j: int| 0 <= j < prefix.len() implies 0 <= #[trigger] prefix[j].0 < cells.len() by {
            assert(prefix[j] == frame[j]);
        }
        lemma_mark_all_push(cells, e, prefix);
        let i = frame.last().0;
        assert(mark_painted(mark_all(cells, prefix).push(e), i) =~= mark_painted(mark_all(cells, prefix), i).push(e));
    }
}

/// Marking, in order, every cell that a frame lists as painted marks every
/// cell of the grid painted: cells left out of the frame already showed
/// what they show.
pub proof fn law_marking_the_frame_syncs(cells: Seq<(CellView, CellView)>)
    ensures
        mark_all(cells, changed_cells(cells)) == synced(cells),
    decreases cells.len(),
{
    if cells.len() > 0 {
        let prefix = cells.drop_last();
        let last = cells.last();
        law_marking_the_frame_syncs(prefix);
        lemma_changed_in_grid(prefix);
        lemma_mark_all_push(prefix, last, changed_cells(prefix));
        assert(prefix.push(last) =~= cells);
        assert(mark_all(cells, changed_cells(prefix)) == synced(prefix).push(last));
        if last.0 != last.1 {
            let frame = changed_cells(cells);
            assert(frame.drop_last() == changed_cells(prefix));
            assert(mark_painted(synced(prefix).push(last), cells.len() - 1) =~= synced(cells));
        } else {
            assert(painted(last) == last);
            assert(synced(prefix).push(last) =~= synced(cells));
        }
    }
}

/// The cells that a frame lists come in grid order, each one changed, and
/// every cell between two of them, or after the last, is unchanged.
proof fn lemma_frame_in_order(cells: Seq<(CellView, CellView)>)
    ensures
        forall|j: int|
            0 <= j < changed_cells(cells).len() ==> 0 <= #[trigger] changed_cells(cells)[j].0 < cells.len()
                && cells[changed_cells(cells)[j].0].0 != cells[changed_cells(cells)[j].0].1,
        forall|j: int, i: int|
            0 <= j < changed_cells(cells).len() && frame_reach(changed_cells(cells), j) <= i
                < #[trigger] changed_cells(cells)[j].0 ==> #[trigger] cells[i].0 == cells[i].1,
        forall|j: int|
            0 < j < changed_cells(cells).len() ==> frame_reach(changed_cells(cells), j)
                <= #[trigger] changed_cells(cells)[j].0,
        forall|i: int|
            frame_reach(changed_cells(cells), changed_cells(cells).len() as int) <= i < cells.len()
                ==> #[trigger] cells[i].0 == cells[i].1,
    decreases cells.len(),
{
    if cells.len() > 0 {
        let prefix = cells.drop_last();
        let last = cells.last();
        lemma_frame_in_order(prefix);
        let before = changed_cells(prefix);
        let f = changed_cells(cells);
        assert forall|i: int| 0 <= i < prefix.len() implies cells[i] == #[trigger] prefix[i] by {}
        if last.0 != last.1 {
            assert(f == before.push((cells.len() - 1, last.1)));
            assert forall|j: int| 0 <= j < before.len() implies frame_reach(f, j) == #[trigger] frame_reach(
                before,
                j,
            ) by {}
            assert(frame_reach(f, before.len() as int) == frame_reach(before, before.len() as int));
            assert forall|j: int, i: int|
                0 <= j < f.len() && frame_reach(f, j) <= i < #[trigger] f[j].0 implies #[trigger] cells[i].0
                == cells[i].1 by {
                if j < before.len() {
                    assert(f[j] == before[j]);
                    assert(cells[i] == prefix[i]);
                } else {
                    assert(cells[i] == prefix[i]);
                }
            }
        } else {
            assert(f == before);
            assert forall|j: int, i: int|
                0 <= j < f.len() && frame_reach(f, j) <= i < #[trigger] f[j].0 implies #[trigger] cells[i].0
                == cells[i].1 by {
                assert(cells[i] == prefix[i]);
            }
            assert forall|i: int| frame_reach(f, f.len() as int) <= i < cells.len() implies #[trigger] cells[i].0
                == cells[i].1 by {
                if i < prefix.len() {
                    assert(cells[i] == prefix[i]);
                }
            }
        }
    }
}

/// Painting stops part way through a frame: once its first `count` cells
/// are marked as painted, every cell up to the last one marked shows what
/// it should, and every cell after it is as it was, so that the next frame
/// lists it again.
pub proof fn law_partial_paint(cells: Seq<(CellView, CellView)>, count: int)
    requires
        0 <= count <= changed_cells(cells).len(),
    ensures
        mark_all(cells, changed_cells(cells).take(count)) == synced_below(
            cells,
            frame_reach(changed_cells(cells), count),
        ),
    decreases count,
{
    let f = changed_cells(cells);
    lemma_frame_in_order(cells);
    if count == 0 {
        assert(f.take(0) =~= Seq::<(int, CellView)>::empty());
        assert(synced_below(cells, 0) =~= cells);
    } else {
        law_partial_paint(cells, count - 1);
        assert(f.take(count).drop_last() =~= f.take(count - 1));
        let idx = f[count - 1].0;
        let reach = frame_reach(f, count - 1);
        let prev = synced_below(cells, reach);
        assert(reach <= idx);
        assert(mark_painted(prev, idx) =~= synced_below(cells, idx + 1)) by {
            assert forall|i: int| 0 <= i < cells.len() implies #[trigger] mark_painted(prev, idx)[i]
                == synced_below(cells, idx + 1)[i] by {
                if reach <= i < idx {
                    assert(cells[i].0 == cells[i].1);
                }
            }
        }
    }
}

/// A painted frame leaves nothing to paint: once every cell that `render`
/// lists has been marked as painted, each cell's painted and current
/// images are equal, so the next frame lists only the cells drawn over in
/// between. The frame keeps every cell in place.
pub proof fn law_render_syncs(s: Screen, n: NavView)
    requires
        forall|i: int|
            0 <= i < s.cells.len() ==> (#[trigger] s.cells[i]).0.col == s.cells[i].1.col && s.cells[i].0.row
                == s.cells[i].1.row,
    ensures
        keeps_positions(s.cells, spec_frame(s, n).cells),
        mark_all(spec_frame(s, n).cells, changed_cells(spec_frame(s, n).cells)) == synced(spec_frame(s, n).cells),
        forall|i: int|
            0 <= i < synced(spec_frame(s, n).cells).len() ==> #[trigger] synced(spec_frame(s, n).cells)[i].0 == synced(
                spec_frame(s, n).cells,
            )[i].1,
        changed_cells(synced(spec_frame(s, n).cells)) == Seq::<(int, CellView)>::empty(),
{
    let drawn = draw_elements(s, crate::navigation::nav_elements(n));
    lemma_draw_elements_keeps_positions(s, crate::navigation::nav_elements(n));
    let f = spec_frame(s, n).cells;
    assert forall|i: int| 0 <= i < f.len() implies f[i].0.col == f[i].1.col && f[i].0.row == f[i].1.row by {
        assert(drawn.cells[i].0 == s.cells[i].0);
    }
    law_marking_the_frame_syncs(f);
    let c = synced(f);
    assert forall|i: int| 0 <= i < c.len() implies (#[trigger] c[i]).0 == c[i].1 by {
        assert(f[i].0.col == f[i].1.col);
    }
    lemma_no_changes(c);
}

proof fn lemma_paint_region_idempotent(
    cells: Seq<(CellView, CellView)>,
    w: int,
    x: int,
    y: int,
    width: int,
    height: int,
    op: CellOp,
)
    ensures
        paint_region(paint_region(cells, w, x, y, width, height, op), w, x, y, width, height, op) == paint_region(
            cells,
            w,
            x,
            y,
            width,
            height,
            op,
        ),
{
    assert(paint_region(paint_region(cells, w, x, y, width, height, op), w, x, y, width, height, op) =~= paint_region(
        cells,
        w,
        x,
        y,
        width,
        height,
        op,
    ));
}

/// Filling a rectangle twice in the same color is filling it once.
pub proof fn law_fill_rect_idempotent(s: Screen, rect: Rect, color: Color)
    ensures
        spec_fill_rect(spec_fill_rect(s, rect, color), rect, color) == spec_fill_rect(s, rect, color),
{
    let (left, right, top, bottom) = crate::screen::fill_bounds(s, rect);
    if !(left >= right || top >= bottom) {
        lemma_paint_region_idempotent(
            s.cells,
            crate::screen::vw(s),
            left,
            top,
            right - left,
            bottom - top,
            CellOp::Fill(color),
        );
    }
}

/// Every color is at distance 0 of itself, and the distance between two
/// colors does not depend on their order.
pub proof fn law_color_distance(a: Color, b: Color)
    ensures
        color_distance(a, a) == 0,
        color_distance(a, b) == color_distance(b, a),
        color_distance(a, b) == 0 <==> a == b,
{
}

/// Averaging a color with itself gives it back, and the average does not
/// depend on the order of the two colors.
pub proof fn law_avg_with(a: Color, b: Color)
    ensures
        a.spec_avg_with(a) == a,
        a.spec_avg_with(b) == b.spec_avg_with(a),
{
}

/// Normalizing the background noise twice is normalizing it once: a cell
/// repainted in the page background stays so.
pub proof fn law_normalize_idempotent(cells: Seq<(CellView, CellView)>, background: Color)
    ensures
        normalized(normalized(cells, background), background) == normalized(cells, background),
{
    assert(color_distance(background, background) == 0);
    assert(matches_background(solid(background), background));
    assert(normalized(normalized(cells, background), background) =~= normalized(cells, background));
}

/// Clearing the text twice is clearing it once, and no current image keeps
/// a grapheme afterwards.
pub proof fn law_clear_text(cells: Seq<(CellView, CellView)>)
    ensures
        cleared_text(cleared_text(cells)) == cleared_text(cells),
        forall|i: int| 0 <= i < cells.len() ==> (#[trigger] cleared_text(cells)[i]).1.grapheme is None,
{
    assert(cleared_text(cleared_text(cells)) =~= cleared_text(cells));
}

/// In the address field, erasing right after typing a character gives the
/// field back as it was.
pub proof fn law_erase_undoes_typing(n: NavView, key: Key)
    requires
        n.editing,
        is_printable(key.char),
    ensures
        spec_keypress(spec_keypress(n, key).0, Key { char: 0x7f }).0 == n,
        spec_keypress(n, key).1 == ActionView::Ignore,
{
    assert(n.url.push(key.char as char).drop_last() =~= n.url);
}

/// Clicking the address field and pressing enter asks to load exactly the
/// address shown, and gives the keyboard back to the page; keys reach the
/// page only while the field does not have the keyboard.
pub proof fn law_enter_submits_address(n: NavView, x: i32)
    requires
        x >= address_column(),
    ensures
        ({
            let clicked = spec_mouse_up(n, Point { x, y: 0 });
            let entered = spec_keypress(clicked.0, Key { char: 0x0d });
            &&& clicked.0.editing
            &&& entered.1 == ActionView::GoTo(n.url)
            &&& !entered.0.editing
            &&& entered.0.url == n.url
        }),
        forall|key: Key| !n.editing ==> #[trigger] spec_keypress(n, key) == (n, ActionView::Forward),
{
}

/// A cell outside a block of rows `top .. bottom` and columns
/// `left .. right` of a grid `w` cells wide lies outside its region.
proof fn lemma_outside_block(x: int, y: int, w: int, left: int, right: int, top: int, bottom: int)
    requires
        0 <= x < w,
        0 <= y,
        0 <= left <= right <= w,
        !(left <= x < right && top <= y < bottom),
    ensures
        !in_region(y * w + x, w, left, top, right - left, bottom - top),
{
    if in_region(y * w + x, w, left, top, right - left, bottom - top) {
        let r = choose|r: int|
            #![trigger row_start(r, w, left)]
            top <= r < top + (bottom - top) && row_start(r, w, left) <= y * w + x < row_start(r, w, left) + (right
                - left);
        if r < y {
            assert((r + 1) * w <= y * w) by (nonlinear_arith)
                requires
                    r + 1 <= y,
                    w >= 0,
            ;
            assert(r * w + w == (r + 1) * w) by (nonlinear_arith);
        } else if r > y {
            assert((y + 1) * w <= r * w) by (nonlinear_arith)
                requires
                    y + 1 <= r,
                    w >= 0,
            ;
            assert(y * w + w == (y + 1) * w) by (nonlinear_arith);
        }
    }
}

proof fn lemma_side_samples_agree(a: Screen, b: Screen, left: int, right: int, top: int, bottom: int)
    requires
        vw(a) == vw(b),
        forall|x: int, y: int|
            0 <= x < vw(a) && top <= y < bottom && !(left <= x < right) ==> #[trigger] cell_color(a, x, y)
                == cell_color(b, x, y),
        0 <= left <= right <= vw(a),
    ensures
        side_samples(a, left, right, top, bottom) == side_samples(b, left, right, top, bottom),
    decreases bottom - top,
{
    if bottom > top {
        lemma_side_samples_agree(a, b, left, right, top, bottom - 1);
        if left > 1 {
            assert(cell_color(a, left - 2, bottom - 1) == cell_color(b, left - 2, bottom - 1));
        }
        if right < vw(a) {
            assert(cell_color(a, right, bottom - 1) == cell_color(b, right, bottom - 1));
        }
        assert(row_side_samples(a, left, right, bottom - 1) =~= row_side_samples(b, left, right, bottom - 1));
    }
}

/// Scrubbing the background behind the same text twice is scrubbing it
/// once: the samples lie outside the block that is repainted, so the second
/// pass finds the same color.
pub proof fn law_scrub_idempotent(s: Screen, col: int, row: int, width: int)
    requires
        screen_wf(s),
    ensures
        spec_scrub(spec_scrub(s, col, row, width), col, row, width) == spec_scrub(s, col, row, width),
{
    let w = vw(s);
    let h = vh(s);
    let (left, right, top, bottom) = scrub_bounds(s, col, row, width);
    if w == 0 || h == 0 || left >= right || top >= bottom {
        return;
    }
    let once = spec_scrub(s, col, row, width);
    assert forall|x: int, y: int| 0 <= x < w && 0 <= y <= h && !(left <= x < right && top <= y < bottom) implies
        #[trigger] cell_color(once, x, y) == cell_color(s, x, y)
    by {
        lemma_outside_block(x, y, w, left, right, top, bottom);
        crate::renderer::lemma_cell_index(y, x, w, h);
    }
    lemma_side_samples_agree(once, s, left, right, top, bottom);
    if top > 0 {
        assert(span_samples(once, left, right, top - 1) =~= span_samples(s, left, right, top - 1));
    }
    if bottom < h {
        assert(span_samples(once, left, right, bottom) =~= span_samples(s, left, right, bottom));
    }
    assert(text_samples(once, left, right, top, bottom) == text_samples(s, left, right, top, bottom));
    let background = match sample_background(s, left, right, top, bottom) {
        Some(c) => c,
        None => s.background,
    };
    lemma_paint_region_idempotent(s.cells, w, left, top, right - left, bottom - top, CellOp::Background(background));
}

/// The size read back after `set_size` is the size set, and the grid is
/// well formed for it.
pub proof fn law_get_size_after_set_size(s: Screen, size: Size)
    requires
        size.width >= 1,
        size.width + size.width * size.height <= u32::MAX,
        size.width <= i32::MAX,
        size.height <= i32::MAX,
    ensures
        (Screen { cells: fresh_grid(size), size, ..s }).size == size,
        screen_wf(Screen { cells: fresh_grid(size), size, ..s }),
{
}

} // verus!
