use vstd::prelude::*;

use vstd::arithmetic::div_mod::{lemma_fundamental_div_mod_converse_div, lemma_fundamental_div_mod_converse_mod};

use crate::cell::{copy_grapheme, Cell, CellView, Grapheme, Quadrant};
use crate::text::{display_width, extended_graphemes, graphemes, str_width};
use crate::gfx::{Color, Point, Rect, Size};
use crate::navigation::{
    nav_elements,
    spec_cursor,
    spec_keypress,
    spec_mouse_up,
    spec_pointer,
    ElementView,
    Key,
    NavView,
    Navigation,
    NavigationAction,
};
use crate::arith::{
    ceil_div_exec,
    clamp_exec,
    floor_div,
    round_div_exec,
    trunc_div,
    trunc_div_exec,
};
use crate::screen::{
    cluster_slots,
    grapheme_widths,
    slots_of,
    strings_view,
    quadrant_color,
    samples_in_grid,
    apply_op,
    bitmap_fits,
    bitmap_quadrant,
    brightest,
    cell_color,
    cells_view,
    changed_cells,
    cleared_text,
    color_distance,
    draw_elements,
    fresh_grid,
    grapheme_slots,
    in_bitmap_block,
    in_region,
    is_text_box,
    matches_background,
    normalized,
    paint_bitmap,
    paint_region,
    pixel,
    pixel_pair,
    row_side_samples,
    row_start,
    sample_background,
    screen_wf,
    scrub_masks,
    side_samples,
    span_samples,
    spec_draw_background,
    spec_draw_text,
    spec_fill_rect,
    spec_frame,
    spec_scrub,
    spec_write_text,
    frame_views,
    mark_painted,
    text_position_fits,
    text_samples,
    text_slots,
    text_start,
    vh,
    vw,
    write_slots,
    CellOp,
    Screen,
    Slot,
    TextMask,
};

verus! {

/// The std I/O error, carried by the results of the event handlers.
#[verifier::external_type_specification]
#[verifier::external_body]
pub struct ExIoError(std::io::Error);

/// What one frame puts on the terminal: the cells to paint, in order, each
/// with its index in the grid, and where the cursor goes afterwards.
#[derive(Debug, PartialEq, Eq)]
pub struct Frame {
    pub cells: Vec<(usize, Cell)>,
    pub cursor: Option<Point>,
}

/// The terminal renderer: a double-buffered grid of cells, the navigation
/// bar drawn over its first row, and the page drawn below.
pub struct Renderer {
    nav: Navigation,
    cells: Vec<(Cell, Cell)>,
    true_color: bool,
    size: Size,
    page_background: Color,
    text_masks: Vec<TextMask>,
}

impl Renderer {
    /// The screen state: both images of every cell, the viewport size, the
    /// page background and the text masks.
    pub closed spec fn screen(&self) -> Screen {
        Screen {
            cells: cells_view(self.cells@),
            size: self.size,
            background: self.page_background,
            masks: self.text_masks@,
        }
    }

    /// The state of the navigation bar.
    pub closed spec fn nav_state(&self) -> NavView {
        self.nav@
    }

    /// Whether the terminal is painted in 24-bit color.
    pub closed spec fn uses_true_color(&self) -> bool {
        self.true_color
    }

    /// The renderer is well formed: its grid matches its viewport size.
    pub open spec fn wf(&self) -> bool {
        screen_wf(self.screen())
    }

    /// A renderer with an empty grid, a black page and 24-bit color off.
    pub fn new() -> (renderer: Renderer)
        ensures
            renderer.wf(),
            renderer.screen() == (Screen {
                cells: Seq::empty(),
                size: Size { width: 0, height: 0 },
                background: Color { r: 0, g: 0, b: 0 },
                masks: Seq::empty(),
            }),
            renderer.nav_state() == (NavView {
                url: Seq::empty(),
                editing: false,
                can_go_back: false,
                can_go_forward: false,
                size: Size { width: 0, height: 0 },
            }),
            !renderer.uses_true_color(),
    {
        let r = Renderer {
            nav: Navigation::new(),
            cells: Vec::with_capacity(0),
            true_color: false,
            size: Size::new(0, 0),
            page_background: Color::black(),
            text_masks: Vec::new(),
        };
        assert(r.screen().cells =~= Seq::empty());
        assert(r.screen().cells.len() == 0);
        assert(0u32 * 0u32 == 0) by (nonlinear_arith);
        r
    }

    /// Paints the terminal in 24-bit color from now on.
    pub fn enable_true_color(&mut self)
        ensures
            final(self).uses_true_color(),
            final(self).screen() == old(self).screen(),
            final(self).nav_state() == old(self).nav_state(),
    {
        self.true_color = true;
    }

    /// Both images of every cell: (as last painted, as drawn now).
    pub fn cells(&self) -> (cells: &Vec<(Cell, Cell)>)
        ensures
            cells_view(cells@) == self.screen().cells,
    {
        &self.cells
    }

    /// The color that the page is painted in.
    pub fn page_background(&self) -> (color: Color)
        ensures
            color == self.screen().background,
    {
        self.page_background
    }

    /// The text masks recorded since the text was last cleared.
    pub fn text_masks(&self) -> (masks: &Vec<TextMask>)
        ensures
            masks@ == self.screen().masks,
    {
        &self.text_masks
    }

    /// Whether the terminal is painted in 24-bit color.
    pub fn is_true_color(&self) -> (enabled: bool)
        ensures
            enabled == self.uses_true_color(),
    {
        self.true_color
    }

    /// The viewport size, in cells.
    pub fn get_size(&self) -> (size: Size)
        ensures
            size == self.screen().size,
    {
        self.size
    }

    /// Resizes the viewport to `size` cells and rebuilds the grid blank.
    pub fn set_size(&mut self, size: Size)
        requires
            size.width >= 1,
            size.width + size.width * size.height <= u32::MAX,
            size.width <= i32::MAX,
            size.height <= i32::MAX,
        ensures
            final(self).wf(),
            final(self).screen() == (Screen { cells: fresh_grid(size), size, ..old(self).screen() }),
            final(self).nav_state() == (NavView { size, ..old(self).nav_state() }),
            final(self).uses_true_color() == old(self).uses_true_color(),
    {
        self.nav.set_size(size);
        self.size = size;

        let mut x: u32 = 0;
        let mut y: u32 = 0;
        let bound = size.width - 1;
        let cells = size.width + size.width * size.height;

        self.cells.clear();
        let mut i: u32 = 0;
        while i < cells
            invariant
                self.size == size,
                self.nav@ == (NavView { size, ..old(self).nav@ }),
                self.true_color == old(self).true_color,
                self.page_background == old(self).page_background,
                self.text_masks == old(self).text_masks,
                bound == size.width - 1,
                cells == size.width + size.width * size.height,
                i <= cells,
                x < size.width,
                y * size.width + x == i,
                self.cells@.len() == i,
                forall|j: int|
                    0 <= j < i ==> (#[trigger] self.cells@[j]).0@ == fresh_grid(size)[j].0
                        && self.cells@[j].1@ == fresh_grid(size)[j].1,
            decreases cells - i,
        {
            proof {
                lemma_fundamental_div_mod_converse_div(i as int, size.width as int, y as int, x as int);
                lemma_fundamental_div_mod_converse_mod(i as int, size.width as int, y as int, x as int);
            }
            self.cells.push((Cell::new(x, y), Cell::new(x, y)));
            if x < bound {
                x += 1;
            } else {
                assert((y + 1) * size.width == y * size.width + size.width) by (nonlinear_arith);
                x = 0;
                y += 1;
            }
            i += 1;
        }
        assert(cells_view(self.cells@) =~= fresh_grid(size));
    }

    /// Removes every grapheme from the current image and forgets the text masks.
    pub fn clear_text(&mut self)
        ensures
            final(self).screen() == (Screen {
                cells: cleared_text(old(self).screen().cells),
                masks: Seq::empty(),
                ..old(self).screen()
            }),
            final(self).nav_state() == old(self).nav_state(),
            final(self).uses_true_color() == old(self).uses_true_color(),
    {
        self.text_masks.clear();
        let ghost before = cells_view(self.cells@);
        let n = self.cells.len();
        let mut i: usize = 0;
        while i < n
            invariant
                n == self.cells@.len(),
                before.len() == n,
                self.nav == old(self).nav,
                self.true_color == old(self).true_color,
                self.size == old(self).size,
                self.page_background == old(self).page_background,
                self.text_masks@ == Seq::<TextMask>::empty(),
                i <= n,
                forall|j: int|
                    0 <= j < i ==> (#[trigger] self.cells@[j]).0@ == cleared_text(before)[j].0
                        && self.cells@[j].1@ == cleared_text(before)[j].1,
                forall|j: int|
                    i <= j < n ==> (#[trigger] self.cells@[j]).0@ == before[j].0 && self.cells@[j].1@ == before[j].1,
            decreases n - i,
        {
            self.cells[i].1.grapheme = None;
            i += 1;
        }
        assert(cells_view(self.cells@) =~= cleared_text(before));
    }

    /// Applies `op` to the current image of every cell in `bounds`, given in
    /// cells: rows `y .. y + height`, columns `x .. x + width` of each row.
    pub fn draw(&mut self, bounds: Rect, op: CellOp)
        requires
            old(self).wf(),
            bounds.size.height > 0 ==> {
                &&& bounds.origin.x >= 0
                &&& bounds.origin.y >= 0
                &&& bounds.origin.y + bounds.size.height <= usize::MAX
                &&& (bounds.origin.y + bounds.size.height - 1) * old(self).screen().size.width + bounds.origin.x
                    + bounds.size.width <= old(self).screen().cells.len()
            },
        ensures
            final(self).wf(),
            final(self).screen() == (Screen {
                cells: paint_region(
                    old(self).screen().cells,
                    old(self).screen().size.width as int,
                    bounds.origin.x as int,
                    bounds.origin.y as int,
                    bounds.size.width as int,
                    bounds.size.height as int,
                    op,
                ),
                ..old(self).screen()
            }),
            final(self).nav_state() == old(self).nav_state(),
            final(self).uses_true_color() == old(self).uses_true_color(),
    {
        let ghost before = cells_view(self.cells@);
        let ghost w = self.size.width as int;
        let ghost ox = bounds.origin.x as int;
        let ghost oy = bounds.origin.y as int;
        let ghost sw = bounds.size.width as int;
        let ghost sh = bounds.size.height as int;
        if bounds.size.height == 0 {
            assert(cells_view(self.cells@) =~= paint_region(before, w, ox, oy, sw, sh, op));
            return;
        }
        let ox_u = bounds.origin.x as usize;
        let top = bounds.origin.y as usize;
        let width = bounds.size.width as usize;
        let viewport_width = self.size.width as usize;
        let bottom = top + bounds.size.height as usize;
        let n = self.cells.len();

        let mut y = top;
        while y < bottom
            invariant
                old(self).wf(),
                n == self.cells@.len(),
                before == cells_view(old(self).cells@),
                before.len() == n,
                self.nav == old(self).nav,
                self.true_color == old(self).true_color,
                self.size == old(self).size,
                self.page_background == old(self).page_background,
                self.text_masks == old(self).text_masks,
                viewport_width == w,
                ox_u == ox,
                top == oy,
                width == sw,
                bottom == oy + sh,
                top <= y <= bottom,
                sh > 0,
                (oy + sh - 1) * w + ox + sw <= n,
                forall|j: int|
                    0 <= j < n ==> (#[trigger] self.cells@[j]).0@ == before[j].0
                        && self.cells@[j].1@ == (if in_region(j, w, ox, oy, sw, y - oy) {
                            apply_op(op, before[j].1)
                        } else {
                            before[j].1
                        }),
            decreases bottom - y,
        {
            assert(y * w <= (oy + sh - 1) * w) by (nonlinear_arith)
                requires
                    y <= oy + sh - 1,
                    w >= 0,
            ;
            let left = y * viewport_width + ox_u;
            let right = left + width;
            assert(left == row_start(y as int, w, ox));
            let mut k = left;
            while k < right
                invariant
                    n == self.cells@.len(),
                    before.len() == n,
                    self.nav == old(self).nav,
                    self.true_color == old(self).true_color,
                    self.size == old(self).size,
                    self.page_background == old(self).page_background,
                    self.text_masks == old(self).text_masks,
                    left == row_start(y as int, w, ox),
                    right == left + sw,
                    right <= n,
                    left <= k <= right,
                    top <= y < bottom,
                    forall|j: int|
                        0 <= j < n ==> (#[trigger] self.cells@[j]).0@ == before[j].0
                            && self.cells@[j].1@ == (if in_region(j, w, ox, oy, sw, y - oy) || (left <= j < k) {
                                apply_op(op, before[j].1)
                            } else {
                                before[j].1
                            }),
                decreases right - k,
            {
                op.apply(&mut self.cells[k].1);
                k += 1;
            }
            assert forall|j: int| 0 <= j < n implies
                (#[trigger] in_region(j, w, ox, oy, sw, y + 1 - oy) <==> (in_region(j, w, ox, oy, sw, y - oy) || (left <= j < right)))
            by {
                if left <= j < right {
                    assert(row_start(y as int, w, ox) <= j);
                }
            }
            y += 1;
        }
        assert(cells_view(self.cells@) =~= paint_region(before, w, ox, oy, sw, sh, op));
    }

    /// Fills the cells under `rect`, given in page pixels, with `color`.
    pub fn fill_rect(&mut self, rect: Rect, color: Color)
        requires
            old(self).wf(),
        ensures
            final(self).wf(),
            final(self).screen() == spec_fill_rect(old(self).screen(), rect, color),
            final(self).nav_state() == old(self).nav_state(),
            final(self).uses_true_color() == old(self).uses_true_color(),
    {
        let vw = self.size.width as i64;
        let vh = self.size.height as i64;
        let ox = rect.origin.x as i64;
        let oy = rect.origin.y as i64;
        let sw = rect.size.width as i64;
        let sh = rect.size.height as i64;
        let left = clamp_exec(floor_div(ox, 2), vw);
        let right = clamp_exec(floor_div(ox + sw, 2), vw);
        let top = clamp_exec(floor_div(oy, 4) + 1, vh);
        let bottom = clamp_exec(floor_div(oy + sh, 4) + 1, vh);

        if left >= right || top >= bottom {
            return;
        }

        if left == 0 && top == 1 && right == vw && bottom == vh {
            self.page_background = color;
        }

        assert((bottom - 1) * vw + right <= vw + vw * vh) by (nonlinear_arith)
            requires
                bottom <= vh,
                right <= vw,
                vw >= 0,
        ;
        assert(self.screen().cells.len() == vw + vw * vh);
        assert(self.screen().size.width == vw);
        self.draw(
            Rect {
                origin: Point::new(left as i32, top as i32),
                size: Size::new((right - left) as u32, (bottom - top) as u32),
            },
            CellOp::Fill(color),
        );
    }

    /// The largest difference between the channels of two colors.
    pub fn color_distance(left: Color, right: Color) -> (d: u8)
        ensures
            d == color_distance(left, right),
    {
        let dr = if left.r >= right.r { left.r - right.r } else { right.r - left.r };
        let dg = if left.g >= right.g { left.g - right.g } else { right.g - left.g };
        let db = if left.b >= right.b { left.b - right.b } else { right.b - left.b };
        let m = if dr >= dg { dr } else { dg };
        if m >= db { m } else { db }
    }

    /// Whether every color of the quadrant is close to `background`.
    pub fn matches_background(quadrant: Quadrant, background: Color) -> (m: bool)
        ensures
            m == matches_background(quadrant, background),
    {
        let threshold: u8 = 28;

        Self::color_distance(quadrant.0, background) <= threshold
            && Self::color_distance(quadrant.1, background) <= threshold
            && Self::color_distance(quadrant.2, background) <= threshold
            && Self::color_distance(quadrant.3, background) <= threshold
    }

    /// Repaints in the page background every cell without text whose
    /// colors are all close to it.
    pub fn normalize_background_noise(&mut self)
        requires
            old(self).wf(),
        ensures
            final(self).wf(),
            final(self).screen() == (Screen {
                cells: normalized(old(self).screen().cells, old(self).screen().background),
                ..old(self).screen()
            }),
            final(self).nav_state() == old(self).nav_state(),
            final(self).uses_true_color() == old(self).uses_true_color(),
    {
        let page_background = self.page_background;
        let ghost before = cells_view(self.cells@);
        let n = self.cells.len();
        let mut i: usize = 0;
        while i < n
            invariant
                n == self.cells@.len(),
                before.len() == n,
                before == cells_view(old(self).cells@),
                page_background == old(self).page_background,
                self.nav == old(self).nav,
                self.true_color == old(self).true_color,
                self.size == old(self).size,
                self.page_background == old(self).page_background,
                self.text_masks == old(self).text_masks,
                i <= n,
                forall|j: int|
                    0 <= j < i ==> (#[trigger] self.cells@[j]).0@ == normalized(before, page_background)[j].0
                        && self.cells@[j].1@ == normalized(before, page_background)[j].1,
                forall|j: int|
                    i <= j < n ==> (#[trigger] self.cells@[j]).0@ == before[j].0 && self.cells@[j].1@ == before[j].1,
            decreases n - i,
        {
            if self.cells[i].1.grapheme.is_none() {
                if Self::matches_background(self.cells[i].1.quadrant, page_background) {
                    self.cells[i].1.quadrant = (page_background, page_background, page_background, page_background);
                }
            }
            i += 1;
        }
        assert(cells_view(self.cells@) =~= normalized(before, page_background));
    }

    /// The average color of the current image of the cell at index
    /// `y * viewport_width + x`.
    fn cell_color(&self, x: usize, y: usize, viewport_width: usize) -> (c: Color)
        requires
            y * viewport_width + x < self.screen().cells.len(),
        ensures
            c == quadrant_color(self.screen().cells[y * viewport_width + x].1.quadrant),
    {
        let len = self.cells.len();
        assert(y * viewport_width >= 0) by (nonlinear_arith);
        let index = y * viewport_width + x;
        let quadrant = self.cells[index].1.quadrant;

        quadrant.0.avg_with(quadrant.1).avg_with(quadrant.2).avg_with(quadrant.3)
    }

    /// The brightest color sampled around the block of columns
    /// `left .. right` and rows `top .. bottom`, if any sample exists: the
    /// last among equally bright samples.
    fn sample_text_background(&self, left: usize, right: usize, top: usize, bottom: usize) -> (sample: Option<Color>)
        requires
            samples_in_grid(self.screen(), left as int, right as int, top as int, bottom as int),
        ensures
            sample == sample_background(self.screen(), left as int, right as int, top as int, bottom as int),
    {
        let ghost s = self.screen();
        let ghost w = vw(s);
        let ghost len = s.cells.len() as int;
        let viewport_width = self.size.width as usize;
        let mut samples: Vec<Color> = Vec::new();

        let mut y = top;
        while y < bottom
            invariant
                s == self.screen(),
                w == viewport_width,
                w == vw(s),
                len == s.cells.len(),
                samples_in_grid(s, left as int, right as int, top as int, bottom as int),
                top <= y,
                y <= bottom || y == top,
                samples@ == side_samples(s, left as int, right as int, top as int, y as int),
            decreases bottom - y,
        {
            let ghost before = samples@;
            assert(y * w <= (bottom - 1) * w) by (nonlinear_arith)
                requires
                    y <= bottom - 1,
                    w >= 0,
            ;
            if left > 1 {
                let c = self.cell_color(left - 2, y, viewport_width);
                samples.push(c);
            }
            if right < viewport_width {
                let c = self.cell_color(right, y, viewport_width);
                samples.push(c);
            }
            assert(samples@ =~= before + row_side_samples(s, left as int, right as int, y as int));
            y += 1;
        }
        if bottom <= top {
            assert(side_samples(s, left as int, right as int, top as int, bottom as int) =~= Seq::<Color>::empty());
        }

        let ghost sides = samples@;
        if top > 0 && left < right {
            let mut x = left;
            while x < right
                invariant
                    s == self.screen(),
                    w == viewport_width,
                    w == vw(s),
                    len == s.cells.len(),
                    samples_in_grid(s, left as int, right as int, top as int, bottom as int),
                    left <= x <= right,
                    0 < top,
                    samples@ == sides + span_samples(s, left as int, right as int, top - 1).take(x - left),
                decreases right - x,
            {
                let c = self.cell_color(x, top - 1, viewport_width);
                samples.push(c);
                assert(span_samples(s, left as int, right as int, top - 1).take(x + 1 - left)
                    =~= span_samples(s, left as int, right as int, top - 1).take(x - left).push(c));
                x += 1;
            }
            assert(span_samples(s, left as int, right as int, top - 1).take(right - left)
                =~= span_samples(s, left as int, right as int, top - 1));
        }
        if top > 0 && left >= right {
            assert(span_samples(s, left as int, right as int, top - 1) =~= Seq::<Color>::empty());
        }

        let ghost above = samples@;
        if bottom < self.size.height as usize && left < right {
            let mut x = left;
            while x < right
                invariant
                    s == self.screen(),
                    w == viewport_width,
                    w == vw(s),
                    len == s.cells.len(),
                    samples_in_grid(s, left as int, right as int, top as int, bottom as int),
                    left <= x <= right,
                    bottom < vh(s),
                    samples@ == above + span_samples(s, left as int, right as int, bottom as int).take(x - left),
                decreases right - x,
            {
                let c = self.cell_color(x, bottom, viewport_width);
                samples.push(c);
                assert(span_samples(s, left as int, right as int, bottom as int).take(x + 1 - left)
                    =~= span_samples(s, left as int, right as int, bottom as int).take(x - left).push(c));
                x += 1;
            }
            assert(span_samples(s, left as int, right as int, bottom as int).take(right - left)
                =~= span_samples(s, left as int, right as int, bottom as int));
        }
        if bottom < self.size.height as usize && left >= right {
            assert(span_samples(s, left as int, right as int, bottom as int) =~= Seq::<Color>::empty());
        }
        assert(samples@ =~= text_samples(s, left as int, right as int, top as int, bottom as int));

        let n = samples.len();
        if n == 0 {
            return None;
        }
        let mut best = samples[0];
        let mut i: usize = 1;
        assert(samples@.take(1).len() == 1);
        while i < n
            invariant
                n == samples@.len(),
                1 <= i <= n,
                best == brightest(samples@.take(i as int)),
            decreases n - i,
        {
            let c = samples[i];
            assert(samples@.take(i + 1).drop_last() =~= samples@.take(i as int));
            if c.r as u16 + c.g as u16 + c.b as u16 >= best.r as u16 + best.g as u16 + best.b as u16 {
                best = c;
            }
            i += 1;
        }
        assert(samples@.take(n as int) =~= samples@);
        Some(best)
    }

    /// Repaints the background behind text at column `col`, row `row`,
    /// `text_width` columns wide (with a margin of 2 columns before it, 8 after
    /// it and one row below it) in the brightest color sampled around that
    /// block, or in the page background when nothing can be sampled.
    pub fn scrub_text_background(&mut self, col: usize, row: usize, text_width: usize)
        requires
            old(self).wf(),
        ensures
            final(self).wf(),
            final(self).screen() == spec_scrub(old(self).screen(), col as int, row as int, text_width as int),
            final(self).nav_state() == old(self).nav_state(),
            final(self).uses_true_color() == old(self).uses_true_color(),
    {
        let viewport_width = self.size.width as usize;
        let viewport_height = self.size.height as usize;
        if viewport_width == 0 || viewport_height == 0 {
            return;
        }

        let left = min_usize(col.saturating_sub(2), viewport_width);
        let right = min_usize(col.saturating_add(text_width).saturating_add(8), viewport_width);
        let top = min_usize(row, viewport_height - 1);
        let bottom = min_usize(row.saturating_add(2), viewport_height);

        if left >= right || top >= bottom {
            return;
        }

        proof {
            lemma_scrub_samples_in_grid(self.screen(), left as int, right as int, top as int, bottom as int);
        }
        let background = match self.sample_text_background(left, right, top, bottom) {
            Some(color) => color,
            None => self.page_background,
        };

        proof {
            let w = viewport_width as int;
            let h = viewport_height as int;
            assert((bottom - 1) * w + right <= w + w * h) by (nonlinear_arith)
                requires
                    bottom <= h,
                    right <= w,
                    w >= 0,
            ;
        }
        self.draw(
            Rect {
                origin: Point::new(left as i32, top as i32),
                size: Size::new((right - left) as u32, (bottom - top) as u32),
            },
            CellOp::Background(background),
        );
    }

    /// Renders some text into the terminal grid. With a `size` larger than
    /// 2 by 2 pixels the call stands for a text box, and the graphemes of the
    /// cells it covers are cleared; otherwise the text is written as one line
    /// from `origin`, given in page pixels.
    pub fn draw_text(&mut self, string: &str, origin: Point, size: Size, color: Color)
        requires
            old(self).wf(),
            !is_text_box(size) ==> text_position_fits(old(self).screen(), origin),
        ensures
            final(self).wf(),
            final(self).screen() == spec_draw_text(old(self).screen(), string@, origin, size, color),
            final(self).nav_state() == old(self).nav_state(),
            final(self).uses_true_color() == old(self).uses_true_color(),
    {
        if size.width > 2 && size.height > 2 {
            let vw = self.size.width as i64;
            let vh = self.size.height as i64;
            let x = round_div_exec(origin.x as i64, 2);
            let y = round_div_exec(origin.y as i64 + 4, 4);
            let w = round_div_exec(size.width as i64, 2);
            let h = round_div_exec(size.height as i64, 4);
            let left = clamp_exec(x, vw);
            let right = clamp_exec(x + w, vw);
            let top = clamp_exec(y, vh);
            let bottom = clamp_exec(y + h, vh);
            proof {
                assert((bottom - 1) * vw + right <= vw + vw * vh) by (nonlinear_arith)
                    requires
                        bottom <= vh,
                        right <= vw,
                        vw >= 0,
                ;
                assert(self.screen().cells.len() == vw + vw * vh);
            }
            self.draw(
                Rect {
                    origin: Point::new(left as i32, top as i32),
                    size: Size::new((right - left) as u32, (bottom - top) as u32),
                },
                CellOp::ClearText,
            );
        } else {
            self.write_text(string, origin, color);
        }
    }

    /// Writes `string` as one line of text at `origin`, in page pixels.
    fn write_text(&mut self, string: &str, origin: Point, color: Color)
        requires
            old(self).wf(),
            text_position_fits(old(self).screen(), origin),
        ensures
            final(self).wf(),
            final(self).screen() == spec_write_text(old(self).screen(), string@, origin, color),
            final(self).nav_state() == old(self).nav_state(),
            final(self).uses_true_color() == old(self).uses_true_color(),
    {
        let len = self.cells.len();
        let viewport_width = self.size.width;

        let text_width = str_width(string);
        let text_row = ((if origin.y + 1 < 0 { 0 } else { origin.y + 1 }) / 4) as usize;
        let text_col = ((if origin.x < 0 { 0 } else { origin.x }) / 2) as usize;

        self.text_masks.push(TextMask { col: text_col, row: text_row, width: text_width });
        self.scrub_text_background(text_col, text_row, text_width);

        let ghost s2 = self.screen();
        let index = trunc_div_exec(origin.x as i64, 2) + trunc_div_exec(origin.y as i64 + 1, 4) * (viewport_width as i64);
        let start: usize = if index < 0 || index > len as i64 { len } else { index as usize };
        assert(start == text_start(s2, origin));

        let clusters = graphemes(string);
        let ghost gs = extended_graphemes(string@);
        let n = clusters.len();
        let mut widths: Vec<usize> = Vec::new();
        let mut k: usize = 0;
        while k < n
            invariant
                n == clusters@.len(),
                n == gs.len(),
                forall|i: int| 0 <= i < n ==> #[trigger] clusters@[i]@ == gs[i],
                0 <= k <= n,
                widths@ == grapheme_widths(gs).take(k as int),
            decreases n - k,
        {
            let width = str_width(clusters[k].as_str());
            assert(grapheme_widths(gs).take(k + 1) =~= grapheme_widths(gs).take(k as int).push(width));
            widths.push(width);
            k += 1;
        }
        proof {
            assert(widths@ =~= grapheme_widths(gs));
            assert(strings_view(clusters@) =~= gs);
        }
        self.write_clusters(start, &clusters, &widths, color);
    }

    /// Writes grapheme clusters in `color`, one terminal column per cell from
    /// cell `start` on, as far as the grid goes: the cluster at `k` takes
    /// `widths[k]` columns. A cell that already shows the same cluster text
    /// in the same color keeps its grapheme.
    pub fn write_clusters(&mut self, start: usize, clusters: &Vec<String>, widths: &Vec<usize>, color: Color)
        requires
            start <= old(self).screen().cells.len(),
            clusters@.len() == widths@.len(),
        ensures
            final(self).screen() == (Screen {
                cells: write_slots(old(self).screen().cells, start as int, slots_of(strings_view(clusters@), widths@), color),
                ..old(self).screen()
            }),
            final(self).nav_state() == old(self).nav_state(),
            final(self).uses_true_color() == old(self).uses_true_color(),
    {
        let len = self.cells.len();
        let ghost s0 = self.screen();
        let ghost base = s0.cells;
        let ghost gs = strings_view(clusters@);
        let ghost ws = widths@;
        let ghost all = slots_of(gs, ws);
        let n = clusters.len();
        let mut pos = start;
        let mut k: usize = 0;
        assert(gs.take(0) =~= Seq::<Seq<char>>::empty());
        assert(slots_of(gs.take(0), ws.take(0)) =~= Seq::<Slot>::empty());
        while k < n
            invariant
                len == self.cells@.len(),
                base.len() == len,
                s0.cells == base,
                s0 == old(self).screen(),
                gs == strings_view(clusters@),
                ws == widths@,
                all == slots_of(gs, ws),
                self.nav@ == old(self).nav@,
                self.true_color == old(self).true_color,
                self.size == s0.size,
                self.page_background == s0.background,
                self.text_masks@ == s0.masks,
                n == clusters@.len(),
                n == widths@.len(),
                0 <= k <= n,
                start <= pos <= len,
                pos == start + slots_of(gs.take(k as int), ws.take(k as int)).len(),
                forall|i: int|
                    0 <= i < len ==> (#[trigger] self.cells@[i]).0@
                        == write_slots(base, start as int, slots_of(gs.take(k as int), ws.take(k as int)), color)[i].0
                        && self.cells@[i].1@
                        == write_slots(base, start as int, slots_of(gs.take(k as int), ws.take(k as int)), color)[i].1,
            decreases n - k,
        {
            let g = &clusters[k];
            let width = widths[k];
            let ghost done = slots_of(gs.take(k as int), ws.take(k as int));
            proof {
                lemma_slots_step(gs, ws, k as int);
            }
            let mut j: usize = 0;
            while j < width
                invariant
                    len == self.cells@.len(),
                    base.len() == len,
                    s0.cells == base,
                    s0 == old(self).screen(),
                    gs == strings_view(clusters@),
                    ws == widths@,
                    all == slots_of(gs, ws),
                    self.nav@ == old(self).nav@,
                    self.true_color == old(self).true_color,
                    self.size == s0.size,
                    self.page_background == s0.background,
                    self.text_masks@ == s0.masks,
                    n == clusters@.len(),
                    n == widths@.len(),
                    0 <= k < n,
                    g@ == gs[k as int],
                    width == ws[k as int],
                    done == slots_of(gs.take(k as int), ws.take(k as int)),
                    slots_of(gs.take(k + 1), ws.take(k + 1)) == done + cluster_slots(gs[k as int], width),
                    0 <= j <= width,
                    start <= pos <= len,
                    pos == start + done.len() + j,
                    forall|i: int|
                        0 <= i < len ==> (#[trigger] self.cells@[i]).0@
                            == write_slots(base, start as int, done + cluster_slots(gs[k as int], width).take(j as int), color)[i].0
                            && self.cells@[i].1@
                            == write_slots(base, start as int, done + cluster_slots(gs[k as int], width).take(j as int), color)[i].1,
                decreases width - j,
            {
                let ghost prefix = done + cluster_slots(gs[k as int], width).take(j as int);
                if pos >= len {
                    proof {
                        lemma_slots_prefix(gs, ws, k + 1, n as int);
                        assert(gs.take(n as int) =~= gs);
                        assert(ws.take(n as int) =~= ws);
                        assert forall|i: int| 0 <= i < prefix.len() implies prefix[i] == all[i] by {
                            assert(prefix[i] == slots_of(gs.take(k + 1), ws.take(k + 1))[i]);
                        }
                        assert(cells_view(self.cells@) =~= write_slots(base, start as int, all, color));
                    }
                    return;
                }
                let replace = match &self.cells[pos].1.grapheme {
                    None => true,
                    Some(previous) => previous.color != color || !(previous.char == *g),
                };
                if replace {
                    self.cells[pos].1.grapheme = Some(Grapheme { color, index: j, width, char: g.clone() });
                }
                proof {
                    let slot = Slot { char: gs[k as int], index: j, width };
                    assert(cluster_slots(gs[k as int], width)[j as int] == slot);
                    assert(done + cluster_slots(gs[k as int], width).take(j + 1) =~= prefix.push(slot));
                }
                pos += 1;
                j += 1;
            }
            assert(cluster_slots(gs[k as int], width).take(width as int) =~= cluster_slots(gs[k as int], width));
            k += 1;
        }
        proof {
            assert(gs.take(n as int) =~= gs);
            assert(ws.take(n as int) =~= ws);
            assert(cells_view(self.cells@) =~= write_slots(base, start as int, all, color));
        }
    }

    /// Draws the background from a pixel array encoded in RGBA8888.
    ///
    /// The bitmap is ignored unless it holds at least a full viewport of
    /// pixels; then the cells under `rect` take its colors, and the
    /// background behind every text mask is scrubbed again.
    pub fn draw_background(&mut self, pixels: &[u8], pixels_size: Size, rect: Rect)
        requires
            old(self).wf(),
            old(self).screen().size.width * old(self).screen().size.height * 8 * 4 <= usize::MAX,
            old(self).screen().size.height * 4 <= usize::MAX,
            bitmap_fits(old(self).screen(), pixels@.len() as int, pixels_size, rect),
        ensures
            final(self).wf(),
            final(self).screen() == spec_draw_background(old(self).screen(), pixels@, pixels_size, rect),
            final(self).nav_state() == old(self).nav_state(),
            final(self).uses_true_color() == old(self).uses_true_color(),
    {
        let viewport_width = self.size.width as usize;
        let viewport_height = self.size.height as usize;

        let plen = pixels.len();
        if plen < viewport_width * viewport_height * 8 * 4 {
            return;
        }

        let ox: i64 = if rect.origin.x < 0 { 0 } else { rect.origin.x as i64 };
        let oy: i64 = if rect.origin.y < 0 { 0 } else { rect.origin.y as i64 };
        let left = clamp_exec(floor_div(ox, 2), viewport_width as i64);
        let top = clamp_exec(floor_div(oy, 4), viewport_height as i64);
        let r = clamp_exec(ceil_div_exec(ox + rect.size.width as i64, 2), viewport_width as i64);
        let b = clamp_exec(ceil_div_exec(oy + rect.size.height as i64, 4), viewport_height as i64);
        let right = if r < left { left } else { r };
        let bottom = if b < top { top } else { b };
        let left = left as usize;
        let top = top as usize;
        let right = right as usize;
        let bottom = bottom as usize;
        let row_length = pixels_size.width as usize;

        let ghost s0 = self.screen();
        let ghost w = viewport_width as int;
        let ghost h = viewport_height as int;
        let n = self.cells.len();
        proof {
            assert forall|i: int| 0 <= i < n implies !in_bitmap_block(i, w, left as int, right as int, top as int, top as int) by {
                reveal(in_bitmap_block);
            }
        }

        let mut y = top;
        while y < bottom && left < right
            invariant
                self.wf(),
                n == self.cells@.len(),
                s0.cells.len() == n,
                s0.size == self.size,
                w == vw(s0),
                h == vh(s0),
                viewport_width == w,
                h * 4 <= usize::MAX,
                self.nav@ == old(self).nav@,
                self.true_color == old(self).true_color,
                self.size == old(self).size,
                self.page_background == old(self).page_background,
                self.text_masks == old(self).text_masks,
                left <= right <= w,
                top <= y <= bottom <= h,
                row_length == pixels_size.width,
                plen == pixels@.len(),
                top < bottom && left < right ==> 4 * ((2 * right - 1) + (4 * bottom - 1) * row_length) + 2 < pixels@.len(),
                forall|i: int|
                    0 <= i < n ==> (#[trigger] self.cells@[i]).0@ == s0.cells[i].0 && self.cells@[i].1@ == (
                    if in_bitmap_block(i, w, left as int, right as int, top as int, y as int) {
                        CellView { quadrant: bitmap_quadrant(pixels@, row_length as int, i % w, i / w - 1), ..s0.cells[i].1 }
                    } else {
                        s0.cells[i].1
                    }),
            decreases bottom - y,
        {
            proof {
                assert(row_length * (4 * bottom - 1) >= 0) by (nonlinear_arith)
                    requires row_length >= 0, bottom >= 1;
                assert((y + 1) * w + right <= w + w * h) by (nonlinear_arith)
                    requires
                        y < h,
                        right <= w,
                        w >= 0,
                ;
            }
            let ghost before = cells_view(self.cells@);
            self.paint_bitmap_row(pixels, row_length, left, right, y, bottom);
            proof {
                assert forall|i: int| 0 <= i < n implies
                    (#[trigger] self.cells@[i]).0@ == s0.cells[i].0 && self.cells@[i].1@ == (
                    if in_bitmap_block(i, w, left as int, right as int, top as int, y + 1) {
                        CellView { quadrant: bitmap_quadrant(pixels@, row_length as int, i % w, i / w - 1), ..s0.cells[i].1 }
                    } else {
                        s0.cells[i].1
                    })
                by {
                    lemma_bitmap_row(i, w, left as int, right as int, top as int, y as int);
                    assert(before[i] == (self.cells@[i].0@, before[i].1));
                }
            }
            y += 1;
        }
        proof {
            if !(left < right) {
                assert forall|i: int| 0 <= i < n implies !in_bitmap_block(i, w, left as int, right as int, top as int, bottom as int) by {
                    reveal(in_bitmap_block);
                }
            }
            let target = paint_bitmap(s0.cells, w, left as int, right as int, top as int, bottom as int, pixels@, row_length as int);
            assert forall|i: int| 0 <= i < n implies #[trigger] cells_view(self.cells@)[i] == target[i] by {
                if left < right {
                    assert(y == bottom);
                } else {
                    reveal(in_bitmap_block);
                }
                assert(self.cells@[i].0@ == s0.cells[i].0);
                assert(self.cells@[i].1@ == target[i].1);
                assert(target[i].0 == s0.cells[i].0);
            }
            assert(cells_view(self.cells@) =~= target);
        }

        let ghost painted = self.screen();
        assert(painted == (Screen { cells: paint_bitmap(s0.cells, w, left as int, right as int, top as int, bottom as int, pixels@, row_length as int), ..s0 }));
        let masks = self.text_masks.len();
        let mut m: usize = 0;
        assert(old(self).screen().masks.take(0) =~= Seq::<TextMask>::empty());
        while m < masks
            invariant
                self.wf(),
                masks == self.text_masks@.len(),
                self.text_masks@ == old(self).screen().masks,
                self.nav@ == old(self).nav@,
                self.true_color == old(self).true_color,
                0 <= m <= masks,
                self.screen() == scrub_masks(painted, old(self).screen().masks.take(m as int)),
            decreases masks - m,
        {
            let mask = self.text_masks[m];
            assert(old(self).screen().masks.take(m + 1).drop_last() =~= old(self).screen().masks.take(m as int));
            self.scrub_text_background(mask.col, mask.row, mask.width);
            m += 1;
        }
        assert(old(self).screen().masks.take(masks as int) =~= old(self).screen().masks);
    }

    /// Gives the cells of page row `y`, columns `left .. right`, the
    /// quadrants of their pixel blocks.
    #[verifier::spinoff_prover]
    #[verifier::rlimit(40)]
    fn paint_bitmap_row(&mut self, pixels: &[u8], row_length: usize, left: usize, right: usize, y: usize, bottom: usize)
        requires
            old(self).wf(),
            left < right <= old(self).screen().size.width,
            y < bottom,
            y * 4 + 3 <= usize::MAX,
            (y + 1) * old(self).screen().size.width + right <= old(self).screen().cells.len(),
            4 * ((2 * right - 1) + (4 * bottom - 1) * row_length) + 2 < pixels@.len(),
        ensures
            final(self).wf(),
            final(self).nav@ == old(self).nav@,
            final(self).true_color == old(self).true_color,
            final(self).size == old(self).size,
            final(self).page_background == old(self).page_background,
            final(self).text_masks == old(self).text_masks,
            final(self).cells@.len() == old(self).cells@.len(),
            forall|i: int|
                0 <= i < old(self).cells@.len() ==> (#[trigger] final(self).cells@[i]).0@ == old(self).cells@[i].0@
                    && final(self).cells@[i].1@ == (
                    if (y + 1) * old(self).screen().size.width + left <= i < (y + 1) * old(self).screen().size.width + right {
                        CellView {
                            quadrant: bitmap_quadrant(pixels@, row_length as int, i - (y + 1) * old(self).screen().size.width, y as int),
                            ..old(self).cells@[i].1@
                        }
                    } else {
                        old(self).cells@[i].1@
                    }),
    {
        let viewport_width = self.size.width as usize;
        let ghost w = viewport_width as int;
        let plen = pixels.len();
        let index = (y + 1) * viewport_width;
        let start = index + left;
        let end = index + right;
        let mut x = left * 2;
        let py = y * 4;
        let mut k = start;
        assert(row_length * (4 * bottom - 1) >= 0) by (nonlinear_arith)
            requires row_length >= 0, bottom >= 1;
        while k < end
            invariant
                self.cells@.len() == old(self).cells@.len(),
                self.nav@ == old(self).nav@,
                self.true_color == old(self).true_color,
                self.size == old(self).size,
                self.page_background == old(self).page_background,
                self.text_masks == old(self).text_masks,
                w == viewport_width,
                w == old(self).screen().size.width,
                index == (y + 1) * w,
                start == index + left,
                end == index + right,
                end <= self.cells@.len(),
                start <= k <= end,
                left < right,
                y < bottom,
                x == 2 * (k - index),
                py == 4 * y,
                plen == pixels@.len(),
                row_length * (4 * bottom - 1) >= 0,
                4 * ((2 * right - 1) + (4 * bottom - 1) * row_length) + 2 < pixels@.len(),
                forall|i: int|
                    0 <= i < self.cells@.len() ==> (#[trigger] self.cells@[i]).0@ == old(self).cells@[i].0@
                        && self.cells@[i].1@ == (if start <= i < k {
                        CellView {
                            quadrant: bitmap_quadrant(pixels@, row_length as int, i - index, y as int),
                            ..old(self).cells@[i].1@
                        }
                    } else {
                        old(self).cells@[i].1@
                    }),
            decreases end - k,
        {
            proof {
                lemma_pixel_in_bounds(x as int, py as int, row_length as int, right as int, bottom as int, plen as int);
                lemma_pixel_in_bounds(x + 1, py as int, row_length as int, right as int, bottom as int, plen as int);
                lemma_pixel_in_bounds(x as int, py + 2, row_length as int, right as int, bottom as int, plen as int);
                lemma_pixel_in_bounds(x + 1, py + 2, row_length as int, right as int, bottom as int, plen as int);
            }
            let quadrant = (
                bitmap_pair(pixels, row_length, x, py),
                bitmap_pair(pixels, row_length, x + 1, py),
                bitmap_pair(pixels, row_length, x + 1, py + 2),
                bitmap_pair(pixels, row_length, x, py + 2),
            );
            self.cells[k].1.quadrant = quadrant;
            x += 2;
            k += 1;
        }
    }

    /// Hands a key press to the navigation bar.
    pub fn keypress(&mut self, key: &Key) -> (result: std::io::Result<NavigationAction>)
        ensures
            result matches Ok(action) && (final(self).nav_state(), action@) == spec_keypress(old(self).nav_state(), *key),
            final(self).screen() == old(self).screen(),
            final(self).uses_true_color() == old(self).uses_true_color(),
    {
        let action = self.nav.keypress(key);

        Ok(action)
    }

    /// Hands a mouse release at `origin`, in cells, to the navigation bar.
    pub fn mouse_up(&mut self, origin: Point) -> (result: std::io::Result<NavigationAction>)
        ensures
            result matches Ok(action) && (final(self).nav_state(), action@) == spec_mouse_up(old(self).nav_state(), origin),
            final(self).screen() == old(self).screen(),
            final(self).uses_true_color() == old(self).uses_true_color(),
    {
        let action = self.nav.mouse_up(origin);

        Ok(action)
    }

    /// Hands a mouse press at `origin`, in cells, to the navigation bar.
    pub fn mouse_down(&mut self, origin: Point) -> (result: std::io::Result<NavigationAction>)
        ensures
            result matches Ok(action) && action@ == spec_pointer(origin),
            final(self).nav_state() == old(self).nav_state(),
            final(self).screen() == old(self).screen(),
            final(self).uses_true_color() == old(self).uses_true_color(),
    {
        let action = self.nav.mouse_down(origin);

        Ok(action)
    }

    /// Hands a mouse move to `origin`, in cells, to the navigation bar.
    pub fn mouse_move(&mut self, origin: Point) -> (result: std::io::Result<NavigationAction>)
        ensures
            result matches Ok(action) && action@ == spec_pointer(origin),
            final(self).nav_state() == old(self).nav_state(),
            final(self).screen() == old(self).screen(),
            final(self).uses_true_color() == old(self).uses_true_color(),
    {
        let action = self.nav.mouse_move(origin);

        Ok(action)
    }

    /// Shows the page's URL and history state in the navigation bar.
    pub fn push_nav(&mut self, url: &str, can_go_back: bool, can_go_forward: bool)
        ensures
            final(self).nav_state() == (NavView { url: url@, can_go_back, can_go_forward, ..old(self).nav_state() }),
            final(self).screen() == old(self).screen(),
            final(self).uses_true_color() == old(self).uses_true_color(),
    {
        self.nav.push(url, can_go_back, can_go_forward)
    }

    /// Composes a frame: draws the navigation bar, normalizes the background
    /// noise, then returns the cells whose current image differs from the
    /// one last painted, to be painted in order, with the position of the
    /// cursor. Each cell is marked painted with [`Renderer::mark_painted`]
    /// as it is written.
    pub fn render(&mut self) -> (frame: Frame)
        requires
            old(self).wf(),
        ensures
            final(self).wf(),
            final(self).screen() == spec_frame(old(self).screen(), old(self).nav_state()),
            frame_views(frame.cells@) == changed_cells(spec_frame(old(self).screen(), old(self).nav_state()).cells),
            frame.cursor == spec_cursor(old(self).nav_state()),
            final(self).nav_state() == old(self).nav_state(),
            final(self).uses_true_color() == old(self).uses_true_color(),
    {
        let elements = self.nav.render();
        let ghost es = nav_elements(self.nav@);
        let ghost s0 = self.screen();
        let count = elements.len();
        let mut e: usize = 0;
        assert(es.take(0) =~= Seq::<(Point, ElementView)>::empty());
        while e < count
            invariant
                self.wf(),
                self.nav@ == old(self).nav@,
                self.true_color == old(self).true_color,
                es == nav_elements(old(self).nav@),
                s0 == old(self).screen(),
                count == elements@.len(),
                count == es.len(),
                forall|i: int|
                    0 <= i < count ==> (#[trigger] elements@[i]).0 == es[i].0 && elements@[i].1@ == es[i].1,
                0 <= e <= count,
                self.screen() == draw_elements(s0, es.take(e as int)),
            decreases count - e,
        {
            let origin = elements[e].0;
            let element = &elements[e].1;
            assert(es.take(e + 1).drop_last() =~= es.take(e as int));
            assert(0 <= e < 4);
            assert(origin.x == 0 || origin.x == 3 || origin.x == 6 || origin.x == 9);
            assert(origin.y == 0);
            let width = str_width(element.text.as_str());
            self.fill_rect(Rect::new(origin.x, origin.y, #[verifier::truncate] (width as u32), 1), element.background);
            proof {
                let p = Point { x: (origin.x * 2) as i32, y: origin.y };
                assert(trunc_div(p.y + 1, 4) == 0);
                assert(trunc_div(p.x as int, 2) == origin.x);
                assert(text_position_fits(self.screen(), p));
            }
            self.draw_text(element.text.as_str(), Point::new(origin.x * 2, origin.y), Size::new(0, 0), element.foreground);
            e += 1;
        }
        assert(es.take(count as int) =~= es);

        self.normalize_background_noise();

        let ghost f = self.screen();
        let n = self.cells.len();
        let mut changed: Vec<(usize, Cell)> = Vec::new();
        let mut i: usize = 0;
        assert(f.cells.take(0) =~= Seq::<(CellView, CellView)>::empty());
        while i < n
            invariant
                n == self.cells@.len(),
                f == self.screen(),
                0 <= i <= n,
                frame_views(changed@) == changed_cells(f.cells.take(i as int)),
            decreases n - i,
        {
            assert(f.cells.take(i + 1).drop_last() =~= f.cells.take(i as int));
            assert(f.cells[i as int] == (self.cells@[i as int].0@, self.cells@[i as int].1@));
            let same = self.cells[i].1.same_as(&self.cells[i].0);
            if !same {
                let current = self.cells[i].1.duplicate();
                let ghost before = changed@;
                changed.push((i, current));
                assert(frame_views(changed@) =~= frame_views(before).push((i as int, current@)));
            }
            i += 1;
        }
        assert(f.cells.take(n as int) =~= f.cells);

        Frame { cells: changed, cursor: self.nav.cursor() }
    }

    /// Marks cell `index` as painted: its painted image takes the colors and
    /// grapheme of its current image. Painting a frame marks each of its
    /// cells just before writing it.
    pub fn mark_painted(&mut self, index: usize)
        requires
            index < old(self).screen().cells.len(),
        ensures
            final(self).screen() == (Screen { cells: mark_painted(old(self).screen().cells, index as int), ..old(self).screen() }),
            final(self).nav_state() == old(self).nav_state(),
            final(self).uses_true_color() == old(self).uses_true_color(),
    {
        let quadrant = self.cells[index].1.quadrant;
        let grapheme = copy_grapheme(&self.cells[index].1.grapheme);
        self.cells[index].0.quadrant = quadrant;
        self.cells[index].0.grapheme = grapheme;
        assert(cells_view(self.cells@) =~= mark_painted(old(self).screen().cells, index as int));
    }

    /// Whether `set_size` accepts `size`: at least one column, and a grid
    /// whose cell count and coordinates fit their integer types.
    pub fn accepts_size(size: Size) -> (accepted: bool)
        ensures
            accepted == (size.width >= 1 && size.width + size.width * size.height <= u32::MAX
                && size.width <= i32::MAX && size.height <= i32::MAX),
    {
        if size.width < 1 || size.width > i32::MAX as u32 || size.height > i32::MAX as u32 {
            return false;
        }
        match size.width.checked_mul(size.height) {
            Some(area) => area <= u32::MAX - size.width,
            None => {
                assert(size.width + size.width * size.height > u32::MAX);
                false
            },
        }
    }

    /// Whether a line of text can be placed at `origin` within `i32`, as
    /// `draw_text` requires of a line.
    pub fn can_place_text(&self, origin: Point) -> (fits: bool)
        requires
            self.wf(),
        ensures
            fits == text_position_fits(self.screen(), origin),
    {
        if origin.y == i32::MAX {
            return false;
        }
        let vw = self.size.width as i64;
        let row = trunc_div_exec(origin.y as i64 + 1, 4);
        assert(-0x2000_0000 <= row <= 0x2000_0000);
        assert(-0x2000_0000 * 0x8000_0000 <= row * vw <= 0x2000_0000 * 0x8000_0000) by (nonlinear_arith)
            requires
                -0x2000_0000 <= row <= 0x2000_0000,
                0 <= vw <= 0x8000_0000,
        ;
        let offset = row * vw;
        let index = trunc_div_exec(origin.x as i64, 2) + offset;
        i32::MIN as i64 <= offset && offset <= i32::MAX as i64 && i32::MIN as i64 <= index && index <= i32::MAX as i64
    }

    /// Whether `draw_background` accepts a bitmap of `pixels_len` bytes,
    /// `pixels_size` pixels, updated over `rect`: every index it computes
    /// fits a `usize` and every pixel it reads lies in the bitmap.
    pub fn can_draw_background(&self, pixels_len: usize, pixels_size: Size, rect: Rect) -> (accepted: bool)
        requires
            self.wf(),
        ensures
            accepted == (self.screen().size.width * self.screen().size.height * 8 * 4 <= usize::MAX
                && self.screen().size.height * 4 <= usize::MAX
                && bitmap_fits(self.screen(), pixels_len as int, pixels_size, rect)),
    {
        let vw = self.size.width as u64;
        let vh = self.size.height as u64;
        assert(vw * vh <= 0x1_0000_0000 * 0x1_0000_0000) by (nonlinear_arith)
            requires vw <= 0x1_0000_0000, vh <= 0x1_0000_0000;
        let area = vw as u128 * vh as u128;
        if area * 32 > usize::MAX as u128 {
            return false;
        }
        if vh as u128 * 4 > usize::MAX as u128 {
            return false;
        }
        let covered = pixels_len as u128 >= area * 32;
        let ox: i64 = if rect.origin.x < 0 { 0 } else { rect.origin.x as i64 };
        let oy: i64 = if rect.origin.y < 0 { 0 } else { rect.origin.y as i64 };
        let left = clamp_exec(floor_div(ox, 2), vw as i64);
        let top = clamp_exec(floor_div(oy, 4), vh as i64);
        let r = clamp_exec(ceil_div_exec(ox + rect.size.width as i64, 2), vw as i64);
        let b = clamp_exec(ceil_div_exec(oy + rect.size.height as i64, 4), vh as i64);
        let right = if r < left { left } else { r };
        let bottom = if b < top { top } else { b };
        if !(covered && left < right && top < bottom) {
            return true;
        }
        let rl = pixels_size.width as u128;
        assert((4 * bottom - 1) * rl <= 0x4_0000_0000 * 0x1_0000_0000) by (nonlinear_arith)
            requires 1 <= bottom <= 0x1_0000_0000, rl <= 0x1_0000_0000;
        let reach = 4 * ((2 * right as u128 - 1) + (4 * bottom as u128 - 1) * rl) + 2;
        assert(reach == 4 * ((2 * right - 1) + (4 * bottom - 1) * pixels_size.width) + 2);
        reach < pixels_len as u128
    }
}

/// The escape sequences that set the terminal's icon and window titles.
pub open spec fn spec_title_sequence(title: Seq<char>) -> Seq<char> {
    "\x1b]0;"@ + title + "\x07"@ + "\x1b]1;"@ + title + "\x07"@ + "\x1b]2;"@ + title + "\x07"@
}

/// The text to write to the terminal to set its titles to `title`.
pub fn title_sequence(title: &str) -> (sequence: String)
    ensures
        sequence@ == spec_title_sequence(title@),
{
    let mut sequence = String::from_str("\x1b]0;");
    sequence.append(title);
    sequence.append("\x07");
    sequence.append("\x1b]1;");
    sequence.append(title);
    sequence.append("\x07");
    sequence.append("\x1b]2;");
    sequence.append(title);
    sequence.append("\x07");
    sequence
}

/// The color of pixel (`x`, `y`) of an RGBA8888 bitmap.
fn bitmap_pixel(pixels: &[u8], row_length: usize, x: usize, y: usize) -> (c: Color)
    requires
        (x + y * row_length) * 4 + 2 < pixels@.len(),
    ensures
        c == pixel(pixels@, row_length as int, x as int, y as int),
{
    assert(y * row_length >= 0) by (nonlinear_arith);
    let len = pixels.len();
    let base = (x + y * row_length) * 4;
    Color::new(pixels[base], pixels[base + 1], pixels[base + 2])
}

/// The average of pixel (`x`, `y`) and the pixel below it.
fn bitmap_pair(pixels: &[u8], row_length: usize, x: usize, y: usize) -> (c: Color)
    requires
        y < usize::MAX,
        (x + (y + 1) * row_length) * 4 + 2 < pixels@.len(),
    ensures
        c == pixel_pair(pixels@, row_length as int, x as int, y as int),
{
    assert(y * row_length <= (y + 1) * row_length) by (nonlinear_arith);
    bitmap_pixel(pixels, row_length, x, y).avg_with(bitmap_pixel(pixels, row_length, x, y + 1))
}

/// Painting page row `y` extends the painted block by one row, and the
/// cells of that row are placed by their column and row.
proof fn lemma_bitmap_row(i: int, w: int, left: int, right: int, top: int, y: int)
    requires
        0 <= left < right <= w,
        top <= y,
        0 <= i,
    ensures
        in_bitmap_block(i, w, left, right, top, y + 1) <==> (in_bitmap_block(i, w, left, right, top, y) || ((y
            + 1) * w + left <= i < (y + 1) * w + right)),
        (y + 1) * w + left <= i < (y + 1) * w + right ==> i % w == i - (y + 1) * w && i / w - 1 == y,
        (y + 1) * w + left <= i < (y + 1) * w + right ==> !in_bitmap_block(i, w, left, right, top, y),
{
    reveal(in_bitmap_block);
    if (y + 1) * w + left <= i < (y + 1) * w + right {
        lemma_fundamental_div_mod_converse_div(i, w, y + 1, i - (y + 1) * w);
        lemma_fundamental_div_mod_converse_mod(i, w, y + 1, i - (y + 1) * w);
    }
    if i / w == y + 1 && left <= i % w < right {
        vstd::arithmetic::div_mod::lemma_fundamental_div_mod(i, w);
        assert(w * (i / w) == (y + 1) * w) by (nonlinear_arith)
            requires i / w == y + 1;
    }
}

/// Every pixel of the two rows that a quarter block reads lies in the bitmap.
proof fn lemma_pixel_in_bounds(x: int, y: int, row_length: int, right: int, bottom: int, len: int)
    requires
        0 <= x <= 2 * right - 1,
        0 <= y,
        y + 1 <= 4 * bottom - 1,
        0 <= row_length,
        4 * ((2 * right - 1) + (4 * bottom - 1) * row_length) + 2 < len,
    ensures
        (x + (y + 1) * row_length) * 4 + 2 < len,
{
    assert((x + (y + 1) * row_length) * 4 + 2 < len) by (nonlinear_arith)
        requires
            0 <= x <= 2 * right - 1,
            0 <= y,
            y + 1 <= 4 * bottom - 1,
            0 <= row_length,
            4 * ((2 * right - 1) + (4 * bottom - 1) * row_length) + 2 < len,
    ;
}

/// Taking one more cluster adds its columns to the end.
pub proof fn lemma_slots_step(gs: Seq<Seq<char>>, ws: Seq<usize>, k: int)
    requires
        0 <= k < gs.len(),
        k < ws.len(),
    ensures
        slots_of(gs.take(k + 1), ws.take(k + 1)) == slots_of(gs.take(k), ws.take(k)) + cluster_slots(gs[k], ws[k]),
{
    assert(gs.take(k + 1).drop_last() =~= gs.take(k));
    assert(ws.take(k + 1).take(k) =~= ws.take(k));
    assert(gs.take(k + 1).last() == gs[k]);
}

/// The columns of the first `k` clusters come first among those of the first `m`.
pub proof fn lemma_slots_prefix(gs: Seq<Seq<char>>, ws: Seq<usize>, k: int, m: int)
    requires
        0 <= k <= m <= gs.len(),
        m <= ws.len(),
    ensures
        slots_of(gs.take(k), ws.take(k)).len() <= slots_of(gs.take(m), ws.take(m)).len(),
        forall|i: int|
            0 <= i < slots_of(gs.take(k), ws.take(k)).len() ==> #[trigger] slots_of(gs.take(k), ws.take(k))[i]
                == slots_of(gs.take(m), ws.take(m))[i],
    decreases m - k,
{
    if k < m {
        lemma_slots_prefix(gs, ws, k, m - 1);
        lemma_slots_step(gs, ws, m - 1);
    }
}

/// The smaller of two sizes.
pub fn min_usize(a: usize, b: usize) -> (m: usize)
    ensures
        m == if a <= b { a } else { b },
{
    if a <= b { a } else { b }
}

/// The samples around a block inside the viewport lie in the grid.
proof fn lemma_scrub_samples_in_grid(s: Screen, left: int, right: int, top: int, bottom: int)
    requires
        screen_wf(s),
        0 <= left <= right <= vw(s),
        0 <= top < bottom <= vh(s),
    ensures
        samples_in_grid(s, left, right, top, bottom),
{
    let w = vw(s);
    let h = vh(s);
    assert((bottom - 1) * w + w <= w + w * h) by (nonlinear_arith)
        requires
            bottom <= h,
            w >= 0,
    ;
    if top > 0 {
        assert((top - 1) * w + w <= w + w * h) by (nonlinear_arith)
            requires
                top <= h,
                w >= 0,
        ;
    }
    if bottom < h {
        assert(bottom * w + w <= w + w * h) by (nonlinear_arith)
            requires
                bottom <= h,
                w >= 0,
        ;
    }
}

/// Column `x` of row `y` lies in a grid of `h + 1` rows of `w` cells.
pub proof fn lemma_cell_index(y: int, x: int, w: int, h: int)
    requires
        0 <= x < w,
        0 <= y <= h,
    ensures
        0 <= y * w + x < w + w * h,
{
    assert(0 <= y * w + x < w + w * h) by (nonlinear_arith)
        requires
            0 <= x < w,
            0 <= y <= h,
    ;
}
} // verus!
