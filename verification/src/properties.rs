use vstd::prelude::*;

use crate::arith::round_div;
use crate::cell::{CellView, Quadrant};
use crate::gfx::{Color, Point, Rect, Size};
use crate::navigation::{nav_elements, ElementView, NavView};
use crate::text::{display_width, extended_graphemes};
use crate::screen::{
    bitmap_covers_viewport,
    box_bounds,
    brightest,
    draw_element,
    draw_elements,
    spec_fill_rect,
    spec_frame,
    spec_write_text,
    text_slots,
    text_start,
    in_region,
    paint_bitmap,
    scrub_bounds,
    scrub_masks,
    spec_draw_background,
    spec_scrub,
    TextMask,
    matches_background,
    normalized,
    row_start,
    sample_background,
    screen_wf,
    spec_draw_text,
    text_samples,
    vh,
    vw,
    Screen,
};

verus! {

/// Whether every channel of `c` lies within `t` of the same channel of `base`.
pub open spec fn channels_within(c: Color, base: Color, t: int) -> bool {
    &&& -t <= c.r - base.r <= t
    &&& -t <= c.g - base.g <= t
    &&& -t <= c.b - base.b <= t
}

/// Whether all four quarters of a quadrant lie within `t` of `base`, channel
/// by channel.
pub open spec fn quarters_within(q: Quadrant, base: Color, t: int) -> bool {
    &&& channels_within(q.0, base, t)
    &&& channels_within(q.1, base, t)
    &&& channels_within(q.2, base, t)
    &&& channels_within(q.3, base, t)
}

/// The sum of the red, green and blue channels of a color.
pub open spec fn channel_sum(c: Color) -> int {
    c.r as int + c.g as int + c.b as int
}

/// A quadrant counts as the page background exactly when each of its four
/// quarters lies within 28 of it in every channel. The test therefore does
/// not depend on the order of the quarters.
pub proof fn law_background_match_is_per_quarter(q: Quadrant, background: Color)
    ensures
        matches_background(q, background) <==> quarters_within(q, background, 28),
        matches_background(q, background) == matches_background((q.1, q.2, q.3, q.0), background),
        matches_background(q, background) == matches_background((q.1, q.0, q.2, q.3), background),
{
}

/// Normalizing the background noise repaints in the page background exactly
/// the cells that show no grapheme and whose four quarters all lie within
/// 28 of the page background in every channel; every other cell is left as
/// it is, and no painted image changes.
pub proof fn law_normalize_repaints_only_noise(cells: Seq<(CellView, CellView)>, background: Color, i: int)
    requires
        0 <= i < cells.len(),
    ensures
        normalized(cells, background)[i].0 == cells[i].0,
        cells[i].1.grapheme is None && quarters_within(cells[i].1.quadrant, background, 28) ==> normalized(
            cells,
            background,
        )[i].1 == (CellView { quadrant: (background, background, background, background), ..cells[i].1 }),
        !(cells[i].1.grapheme is None && quarters_within(cells[i].1.quadrant, background, 28)) ==> normalized(
            cells,
            background,
        )[i] == cells[i],
{
    law_background_match_is_per_quarter(cells[i].1.quadrant, background);
}

/// The brightest color of a non-empty sequence is one of its colors, no
/// color has a larger sum of channels, and every color after it has a
/// smaller sum: among equally bright colors the last one is chosen.
pub proof fn law_brightest_is_the_last_maximum(cs: Seq<Color>)
    requires
        cs.len() > 0,
    ensures
        forall|k: int| 0 <= k < cs.len() ==> channel_sum(#[trigger] cs[k]) <= channel_sum(brightest(cs)),
        exists|k: int|
            0 <= k < cs.len() && cs[k] == brightest(cs) && forall|j: int|
                k < j < cs.len() ==> channel_sum(#[trigger] cs[j]) < channel_sum(brightest(cs)),
    decreases cs.len(),
{
    if cs.len() == 1 {
        assert(cs[0] == brightest(cs));
    } else {
        let rest = cs.drop_last();
        law_brightest_is_the_last_maximum(rest);
        let m = brightest(rest);
        let n = cs.len() - 1;
        assert forall|k: int| 0 <= k < n implies #[trigger] cs[k] == rest[k] by {}
        if channel_sum(cs.last()) >= channel_sum(m) {
            assert(brightest(cs) == cs.last());
            assert forall|k: int| 0 <= k < cs.len() implies channel_sum(#[trigger] cs[k]) <= channel_sum(
                brightest(cs),
            ) by {
                if k < n {
                    assert(cs[k] == rest[k]);
                }
            }
            assert(cs[n] == brightest(cs));
        } else {
            assert(brightest(cs) == m);
            let k0 = choose|k: int|
                0 <= k < rest.len() && rest[k] == m && forall|j: int|
                    k < j < rest.len() ==> channel_sum(#[trigger] rest[j]) < channel_sum(m);
            assert(cs[k0] == m);
            assert forall|j: int| k0 < j < cs.len() implies channel_sum(#[trigger] cs[j]) < channel_sum(
                brightest(cs),
            ) by {
                if j < n {
                    assert(cs[j] == rest[j]);
                }
            }
            assert forall|k: int| 0 <= k < cs.len() implies channel_sum(#[trigger] cs[k]) <= channel_sum(
                brightest(cs),
            ) by {
                if k < n {
                    assert(cs[k] == rest[k]);
                }
            }
        }
    }
}

/// The color sampled behind a text block is one of the samples taken
/// around it, none of them has a larger sum of red, green and blue, and the
/// last of the brightest is taken; there is none exactly when no sample is
/// taken.
pub proof fn law_text_background_is_brightest_sample(s: Screen, left: int, right: int, top: int, bottom: int)
    ensures
        sample_background(s, left, right, top, bottom) is None <==> text_samples(s, left, right, top, bottom).len()
            == 0,
        sample_background(s, left, right, top, bottom) matches Some(c) ==> {
            let samples = text_samples(s, left, right, top, bottom);
            &&& forall|k: int| 0 <= k < samples.len() ==> channel_sum(#[trigger] samples[k]) <= channel_sum(c)
            &&& exists|k: int|
                0 <= k < samples.len() && samples[k] == c && forall|j: int|
                    k < j < samples.len() ==> channel_sum(#[trigger] samples[j]) < channel_sum(c)
        },
{
    let samples = text_samples(s, left, right, top, bottom);
    if samples.len() > 0 {
        law_brightest_is_the_last_maximum(samples);
    }
}

/// Where a row of a grid `w` cells wide starts and ends decides the row of a
/// cell: a cell of row `row` at column `col` lies between the columns
/// `left .. right` of row `r` only when `r` is `row`.
proof fn lemma_row_of_cell(w: int, row: int, col: int, r: int, left: int, right: int)
    requires
        0 <= col < w,
        0 <= left <= right <= w,
        row_start(r, w, left) <= row * w + col < row_start(r, w, left) + (right - left),
    ensures
        r == row,
        left <= col < right,
{
    assert(r == row) by (nonlinear_arith)
        requires
            0 <= col < w,
            0 <= left <= right <= w,
            r * w + left <= row * w + col < r * w + right,
    {
        if r < row {
            assert((row - r) * w >= w);
            assert(row * w - r * w == (row - r) * w);
        } else if r > row {
            assert((r - row) * w >= w);
            assert(r * w - row * w == (r - row) * w);
        }
    }
}

/// A text box clears the graphemes of exactly the cells it covers, rounded
/// to whole cells: the rows from round((y + 4) / 4) on, round(h / 4) of
/// them, and the columns from round(x / 2) on, round(w / 2) of them, as far
/// as the page reaches. Their colors and painted images are kept, and every
/// other cell is left as it is. Moving the box moves the cleared cells with
/// it.
pub proof fn law_text_box_clears_what_it_covers(
    s: Screen,
    text: Seq<char>,
    origin: Point,
    size: Size,
    color: Color,
    row: int,
    col: int,
)
    requires
        screen_wf(s),
        size.width > 2,
        size.height > 2,
        0 <= col < vw(s),
        0 <= row <= vh(s),
    ensures
        ({
            let i = row * vw(s) + col;
            let x = round_div(origin.x as int, 2);
            let y = round_div(origin.y + 4, 4);
            let inside = x <= col < x + round_div(size.width as int, 2) && y <= row < y + round_div(
                size.height as int,
                4,
            ) && row < vh(s);
            let after = spec_draw_text(s, text, origin, size, color).cells;
            &&& 0 <= i < s.cells.len()
            &&& after.len() == s.cells.len()
            &&& inside ==> after[i] == (s.cells[i].0, CellView { grapheme: None, ..s.cells[i].1 })
            &&& !inside ==> after[i] == s.cells[i]
        }),
{
    let w = vw(s);
    let h = vh(s);
    let i = row * w + col;
    assert(0 <= row * w + col < w + w * h) by (nonlinear_arith)
        requires
            0 <= col < w,
            0 <= row <= h,
    ;
    let x = round_div(origin.x as int, 2);
    let y = round_div(origin.y + 4, 4);
    let inside = x <= col < x + round_div(size.width as int, 2) && y <= row < y + round_div(size.height as int, 4)
        && row < h;
    let (left, right, top, bottom) = box_bounds(s, origin, size);
    if inside {
        assert(left <= col < right);
        assert(top <= row < bottom);
        assert(row_start(row, w, left) <= i < row_start(row, w, left) + (right - left));
        assert(in_region(i, w, left, top, right - left, bottom - top));
    } else if in_region(i, w, left, top, right - left, bottom - top) {
        let r = choose|r: int|
            #![trigger row_start(r, w, left)]
            top <= r < top + (bottom - top) && row_start(r, w, left) <= i < row_start(r, w, left) + (right - left);
        lemma_row_of_cell(w, row, col, r, left, right);
        assert(false);
    }
}

/// Whether cell `i` lies in the block that is scrubbed behind the text of mask `m`.
pub open spec fn in_mask_block(s: Screen, m: TextMask, i: int) -> bool {
    let (left, right, top, bottom) = scrub_bounds(s, m.col as int, m.row as int, m.width as int);
    in_region(i, vw(s), left, top, right - left, bottom - top)
}

/// Scrubbing keeps the size of the screen, the painted images, and every
/// grapheme; it changes only the colors of the cells of the mask's block.
proof fn lemma_scrub_keeps(s: Screen, m: TextMask, i: int)
    requires
        0 <= i < s.cells.len(),
    ensures
        spec_scrub(s, m.col as int, m.row as int, m.width as int).size == s.size,
        spec_scrub(s, m.col as int, m.row as int, m.width as int).cells.len() == s.cells.len(),
        spec_scrub(s, m.col as int, m.row as int, m.width as int).cells[i].0 == s.cells[i].0,
        spec_scrub(s, m.col as int, m.row as int, m.width as int).cells[i].1.grapheme == s.cells[i].1.grapheme,
        !in_mask_block(s, m, i) ==> spec_scrub(s, m.col as int, m.row as int, m.width as int).cells[i] == s.cells[i],
{
}

/// A cell of the mask's block, scrubbed, shows one solid color, the same
/// for the whole block.
proof fn lemma_scrub_block_solid(s: Screen, m: TextMask, i: int, j: int)
    requires
        0 <= i < s.cells.len(),
        0 <= j < s.cells.len(),
        in_mask_block(s, m, i),
        in_mask_block(s, m, j),
    ensures
        ({
            let q = spec_scrub(s, m.col as int, m.row as int, m.width as int).cells[i].1.quadrant;
            &&& q == spec_scrub(s, m.col as int, m.row as int, m.width as int).cells[j].1.quadrant
            &&& q.0 == q.1 && q.1 == q.2 && q.2 == q.3
        }),
{
    let (left, right, top, bottom) = scrub_bounds(s, m.col as int, m.row as int, m.width as int);
    let w = vw(s);
    let r = choose|r: int|
        #![trigger row_start(r, w, left)]
        top <= r < top + (bottom - top) && row_start(r, w, left) <= i < row_start(r, w, left) + (right - left);
    assert(left < right);
    assert(top < bottom);
    assert(w > 0);
    assert(right <= w);
    if vh(s) == 0 {
        assert(top == -1 && bottom == 0);
        assert(r == -1);
        assert(row_start(r, w, left) == left - w);
        assert(false);
    }
}

/// Scrubbing the masks in order keeps the size of the screen, the painted
/// images and every grapheme.
proof fn lemma_scrub_masks_keeps(s: Screen, masks: Seq<TextMask>, i: int)
    requires
        0 <= i < s.cells.len(),
    ensures
        scrub_masks(s, masks).size == s.size,
        scrub_masks(s, masks).cells.len() == s.cells.len(),
        scrub_masks(s, masks).cells[i].0 == s.cells[i].0,
        scrub_masks(s, masks).cells[i].1.grapheme == s.cells[i].1.grapheme,
    decreases masks.len(),
{
    if masks.len() > 0 {
        lemma_scrub_masks_keeps(s, masks.drop_last(), i);
        lemma_scrub_keeps(scrub_masks(s, masks.drop_last()), masks.last(), i);
    }
}

/// After the masks are scrubbed in order, the block of one of them shows a
/// single solid color wherever no later mask's block reaches.
proof fn lemma_scrub_masks_block_solid(s: Screen, masks: Seq<TextMask>, k: int, i: int, j: int)
    requires
        0 <= k < masks.len(),
        0 <= i < s.cells.len(),
        0 <= j < s.cells.len(),
        in_mask_block(s, masks[k], i),
        in_mask_block(s, masks[k], j),
        forall|l: int| k < l < masks.len() ==> !in_mask_block(s, #[trigger] masks[l], i) && !in_mask_block(s, masks[l], j),
    ensures
        ({
            let q = scrub_masks(s, masks).cells[i].1.quadrant;
            &&& q == scrub_masks(s, masks).cells[j].1.quadrant
            &&& q.0 == q.1 && q.1 == q.2 && q.2 == q.3
        }),
    decreases masks.len(),
{
    let rest = masks.drop_last();
    let prev = scrub_masks(s, rest);
    lemma_scrub_masks_keeps(s, rest, i);
    lemma_scrub_masks_keeps(s, rest, j);
    let m = masks.last();
    if k == masks.len() - 1 {
        lemma_scrub_block_solid(prev, m, i, j);
    } else {
        assert(rest[k] == masks[k]);
        assert forall|l: int| k < l < rest.len() implies !in_mask_block(s, #[trigger] rest[l], i) && !in_mask_block(
            s,
            rest[l],
            j,
        ) by {
            assert(rest[l] == masks[l]);
        }
        lemma_scrub_masks_block_solid(s, rest, k, i, j);
        assert(!in_mask_block(s, masks[masks.len() - 1], i));
        lemma_scrub_keeps(prev, m, i);
        lemma_scrub_keeps(prev, m, j);
    }
}

/// Drawing a bitmap that covers the viewport scrubs the background behind
/// the recorded text again: the block of a text mask shows one solid color
/// in every cell that no later mask's block reaches, whatever the bitmap
/// under it. It keeps every grapheme and every painted image.
pub proof fn law_bitmap_scrubs_text_again(
    s: Screen,
    pixels: Seq<u8>,
    pixels_size: Size,
    rect: Rect,
    k: int,
    i: int,
    j: int,
)
    requires
        bitmap_covers_viewport(s, pixels.len() as int),
        0 <= k < s.masks.len(),
        0 <= i < s.cells.len(),
        0 <= j < s.cells.len(),
        in_mask_block(s, s.masks[k], i),
        in_mask_block(s, s.masks[k], j),
        forall|l: int|
            k < l < s.masks.len() ==> !in_mask_block(s, #[trigger] s.masks[l], i) && !in_mask_block(s, s.masks[l], j),
    ensures
        ({
            let after = spec_draw_background(s, pixels, pixels_size, rect).cells;
            let q = after[i].1.quadrant;
            &&& q == after[j].1.quadrant
            &&& q.0 == q.1 && q.1 == q.2 && q.2 == q.3
            &&& after[i].1.grapheme == s.cells[i].1.grapheme
            &&& after[i].0 == s.cells[i].0
        }),
{
    let (left, right, top, bottom) = crate::screen::bitmap_bounds(s, rect);
    let painted = Screen {
        cells: paint_bitmap(s.cells, vw(s), left, right, top, bottom, pixels, pixels_size.width as int),
        ..s
    };
    assert forall|l: int| 0 <= l < s.masks.len() implies (in_mask_block(painted, #[trigger] s.masks[l], i)
        == in_mask_block(s, s.masks[l], i) && in_mask_block(painted, s.masks[l], j) == in_mask_block(
        s,
        s.masks[l],
        j,
    )) by {}
    lemma_scrub_masks_block_solid(painted, s.masks, k, i, j);
    lemma_scrub_masks_keeps(painted, s.masks, i);
}

/// Whether cell `i` is one of the cells in which the text of a piece of the
/// navigation bar is written.
pub open spec fn in_element_text(s: Screen, e: (Point, ElementView), i: int) -> bool {
    let start = text_start(s, Point { x: (e.0.x * 2) as i32, y: e.0.y });
    start <= i < start + text_slots(extended_graphemes(e.1.text)).len()
}

/// Writing a line of text gives each cell it covers a grapheme in the
/// text's color, and leaves the graphemes of the other cells alone.
proof fn lemma_write_text_colors(s: Screen, text: Seq<char>, origin: Point, color: Color, i: int)
    requires
        0 <= i < s.cells.len(),
    ensures
        ({
            let after = spec_write_text(s, text, origin, color);
            let start = text_start(s, origin);
            let covered = start <= i < start + text_slots(extended_graphemes(text)).len();
            &&& after.size == s.size
            &&& after.cells.len() == s.cells.len()
            &&& covered ==> (after.cells[i].1.grapheme matches Some(g) && g.color == color)
            &&& !covered ==> after.cells[i].1.grapheme == s.cells[i].1.grapheme
        }),
{
    let width = display_width(text);
    let col = crate::screen::text_col(origin);
    let row = crate::screen::text_row(origin);
    let s1 = Screen { masks: s.masks.push(TextMask { col: col as usize, row: row as usize, width }), ..s };
    let s2 = spec_scrub(s1, col, row, width as int);
    assert(s2.size == s.size && s2.cells.len() == s.cells.len());
    assert(s2.cells[i].1.grapheme == s.cells[i].1.grapheme);
    assert(text_start(s2, origin) == text_start(s, origin));
}

/// Drawing a piece of the bar on the top row writes its text in its
/// foreground color and leaves the graphemes of the other cells alone.
proof fn lemma_draw_element_colors(s: Screen, e: (Point, ElementView), i: int)
    requires
        e.0.y == 0,
        0 <= i < s.cells.len(),
    ensures
        ({
            let after = draw_element(s, e);
            &&& after.size == s.size
            &&& after.cells.len() == s.cells.len()
            &&& in_element_text(s, e, i) ==> (after.cells[i].1.grapheme matches Some(g) && g.color
                == e.1.foreground)
            &&& !in_element_text(s, e, i) ==> after.cells[i].1.grapheme == s.cells[i].1.grapheme
        }),
{
    let rect = Rect { origin: e.0, size: Size { width: display_width(e.1.text) as u32, height: 1 } };
    let filled = spec_fill_rect(s, rect, e.1.background);
    assert(filled == s);
    lemma_write_text_colors(s, e.1.text, Point { x: (e.0.x * 2) as i32, y: e.0.y }, e.1.foreground, i);
}

/// Drawing the pieces of the bar in order leaves in each cell of a piece's
/// text, unless a later piece writes there, a grapheme in that piece's
/// foreground color.
proof fn lemma_draw_elements_colors(s: Screen, es: Seq<(Point, ElementView)>, k: int, i: int)
    requires
        forall|l: int| 0 <= l < es.len() ==> (#[trigger] es[l]).0.y == 0,
        0 <= k < es.len(),
        0 <= i < s.cells.len(),
        in_element_text(s, es[k], i),
        forall|l: int| k < l < es.len() ==> !in_element_text(s, #[trigger] es[l], i),
    ensures
        draw_elements(s, es).size == s.size,
        draw_elements(s, es).cells.len() == s.cells.len(),
        draw_elements(s, es).cells[i].1.grapheme matches Some(g) && g.color == es[k].1.foreground,
    decreases es.len(),
{
    let rest = es.drop_last();
    let last = es.last();
    if k == es.len() - 1 {
        lemma_draw_elements_size(s, rest, i);
        let d = draw_elements(s, rest);
        assert(in_element_text(d, last, i) == in_element_text(s, last, i));
        lemma_draw_element_colors(d, last, i);
    } else {
        assert forall|l: int| 0 <= l < rest.len() implies (#[trigger] rest[l]).0.y == 0 by {
            assert(rest[l] == es[l]);
        }
        assert forall|l: int| k < l < rest.len() implies !in_element_text(s, #[trigger] rest[l], i) by {
            assert(rest[l] == es[l]);
        }
        assert(rest[k] == es[k]);
        lemma_draw_elements_colors(s, rest, k, i);
        let d = draw_elements(s, rest);
        assert(!in_element_text(s, es[es.len() - 1], i));
        assert(in_element_text(d, last, i) == in_element_text(s, last, i));
        lemma_draw_element_colors(d, last, i);
    }
}

/// Drawing pieces of the bar on the top row keeps the size of the screen
/// and its number of cells.
proof fn lemma_draw_elements_size(s: Screen, es: Seq<(Point, ElementView)>, i: int)
    requires
        forall|l: int| 0 <= l < es.len() ==> (#[trigger] es[l]).0.y == 0,
        0 <= i < s.cells.len(),
    ensures
        draw_elements(s, es).size == s.size,
        draw_elements(s, es).cells.len() == s.cells.len(),
    decreases es.len(),
{
    if es.len() > 0 {
        let rest = es.drop_last();
        assert forall|l: int| 0 <= l < rest.len() implies (#[trigger] rest[l]).0.y == 0 by {
            assert(rest[l] == es[l]);
        }
        lemma_draw_elements_size(s, rest, i);
        assert(es[es.len() - 1].0.y == 0);
        lemma_draw_element_colors(draw_elements(s, rest), es.last(), i);
    }
}

/// A frame writes the text of each piece of the navigation bar in that
/// piece's foreground color, which is never the bar's background: each cell
/// of a piece's text that no later piece writes over shows a grapheme in
/// that color.
pub proof fn law_bar_text_in_foreground(s: Screen, n: NavView, k: int, i: int)
    requires
        0 <= k < nav_elements(n).len(),
        0 <= i < s.cells.len(),
        in_element_text(s, nav_elements(n)[k], i),
        forall|l: int| k < l < nav_elements(n).len() ==> !in_element_text(s, #[trigger] nav_elements(n)[l], i),
    ensures
        spec_frame(s, n).cells[i].1.grapheme matches Some(g) && g.color == nav_elements(n)[k].1.foreground
            && g.color != nav_elements(n)[k].1.background,
{
    let es = nav_elements(n);
    assert forall|l: int| 0 <= l < es.len() implies (#[trigger] es[l]).0.y == 0 by {}
    lemma_draw_elements_colors(s, es, k, i);
}

} // verus!
