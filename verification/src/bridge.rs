use vstd::prelude::*;

use crate::gfx::{Color, Point, Rect, Size};
use crate::navigation::{ActionView, NavigationAction};
use crate::renderer::Renderer;
use crate::screen::{
    cleared_text,
    is_text_box,
    spec_draw_text,
    spec_fill_rect,
    text_position_fits,
    vh,
    vw,
    Screen,
};

verus! {

/// A line or box of text sent by the browser: its text, origin and size in
/// page pixels, and color.
pub type TextItem = (String, Point, Size, Color);

/// The value of a text item.
pub open spec fn item_view(t: TextItem) -> (Seq<char>, Point, Size, Color) {
    (t.0@, t.1, t.2, t.3)
}

/// `v` capped at the largest `u32`, as saturating arithmetic gives it.
pub open spec fn saturate_u32(v: int) -> int {
    if v > u32::MAX {
        u32::MAX as int
    } else {
        v
    }
}

/// Whether an empty text item at `origin` of `size` covers the whole
/// viewport, in page pixels, give or take a cell.
pub open spec fn is_full_viewport_fill(s: Screen, origin: Point, size: Size) -> bool {
    let viewport_width = saturate_u32(vw(s) * 2);
    let viewport_height = saturate_u32((if vh(s) >= 1 { vh(s) - 1 } else { 0 }) * 4);
    &&& origin.x == 0
    &&& origin.y == 0
    &&& saturate_u32(size.width + 2) >= viewport_width
    &&& saturate_u32(size.height + 4) >= viewport_height
}

/// The screen after one text item: an empty item that covers the viewport
/// fills it with its color, other empty items do nothing, and text is drawn.
pub open spec fn apply_text_item(s: Screen, item: (Seq<char>, Point, Size, Color)) -> Screen {
    let (text, origin, size, color) = item;
    if text.len() == 0 {
        if is_full_viewport_fill(s, origin, size) {
            spec_fill_rect(s, Rect { origin, size }, color)
        } else {
            s
        }
    } else {
        spec_draw_text(s, text, origin, size, color)
    }
}

/// The screen after the text items are applied in order.
pub open spec fn apply_text_items(s: Screen, items: Seq<(Seq<char>, Point, Size, Color)>) -> Screen
    decreases items.len(),
{
    if items.len() == 0 {
        s
    } else {
        apply_text_item(apply_text_items(s, items.drop_last()), items.last())
    }
}

/// The screen after a new set of text items replaces the previous one: the
/// old text is cleared, then every item is applied in order.
pub open spec fn spec_text_frame(s: Screen, items: Seq<(Seq<char>, Point, Size, Color)>) -> Screen {
    apply_text_items(Screen { cells: cleared_text(s.cells), masks: Seq::empty(), ..s }, items)
}

/// Whether every line of text among the items can be placed within `i32`.
pub open spec fn text_items_fit(s: Screen, items: Seq<(Seq<char>, Point, Size, Color)>) -> bool {
    forall|i: int|
        0 <= i < items.len() && (#[trigger] items[i]).0.len() != 0 && !is_text_box(items[i].2)
            ==> text_position_fits(s, items[i].1)
}

/// Replaces the text on the screen with a new set of items sent by the
/// browser.
pub fn draw_text_frame(renderer: &mut Renderer, texts: &Vec<TextItem>)
    requires
        old(renderer).wf(),
        text_items_fit(old(renderer).screen(), texts@.map_values(|t: TextItem| item_view(t))),
    ensures
        final(renderer).wf(),
        final(renderer).screen() == spec_text_frame(old(renderer).screen(), texts@.map_values(|t: TextItem| item_view(t))),
        final(renderer).nav_state() == old(renderer).nav_state(),
        final(renderer).uses_true_color() == old(renderer).uses_true_color(),
{
    let ghost items = texts@.map_values(|t: TextItem| item_view(t));
    renderer.clear_text();
    let viewport = renderer.get_size();
    let viewport_width = if viewport.width <= u32::MAX / 2 { viewport.width * 2 } else { u32::MAX };
    let rows = viewport.height.saturating_sub(1);
    let viewport_height = if rows <= u32::MAX / 4 { rows * 4 } else { u32::MAX };
    let ghost start = renderer.screen();

    let n = texts.len();
    let mut i: usize = 0;
    assert(items.take(0) =~= Seq::<(Seq<char>, Point, Size, Color)>::empty());
    while i < n
        invariant
            renderer.wf(),
            n == texts@.len(),
            items == texts@.map_values(|t: TextItem| item_view(t)),
            start == (Screen { cells: cleared_text(old(renderer).screen().cells), masks: Seq::empty(), ..old(renderer).screen() }),
            text_items_fit(old(renderer).screen(), items),
            renderer.screen().size == old(renderer).screen().size,
            renderer.nav_state() == old(renderer).nav_state(),
            renderer.uses_true_color() == old(renderer).uses_true_color(),
            viewport_width == saturate_u32(vw(start) * 2),
            viewport_height == saturate_u32((if vh(start) >= 1 { vh(start) - 1 } else { 0 }) * 4),
            0 <= i <= n,
            renderer.screen() == apply_text_items(start, items.take(i as int)),
        decreases n - i,
    {
        let (text, origin, size, color) = (&texts[i].0, texts[i].1, texts[i].2, texts[i].3);
        assert(items.take(i + 1).drop_last() =~= items.take(i as int));
        assert(items[i as int] == item_view(texts@[i as int]));
        if text.as_str().is_empty() {
            let full_viewport_fill = origin.x == 0 && origin.y == 0 && size.width.saturating_add(2) >= viewport_width
                && size.height.saturating_add(4) >= viewport_height;

            if full_viewport_fill {
                renderer.fill_rect(Rect { origin, size }, color);
            }
        } else {
            assert(!is_text_box(size) ==> text_position_fits(old(renderer).screen(), origin));
            renderer.draw_text(text.as_str(), origin, size, color);
        }
        i += 1;
    }
    assert(items.take(n as int) =~= items);
}

/// The byte length of a bitmap of `size` pixels with 4 bytes each, if it
/// fits in memory.
pub fn bitmap_len(size: Size) -> (len: Option<usize>)
    ensures
        len == (if size.width * size.height * 4 <= usize::MAX {
            Some((size.width * size.height * 4) as usize)
        } else {
            None
        }),
{
    match (size.width as usize).checked_mul(size.height as usize) {
        Some(length) => {
            assert(size.width * size.height >= 0) by (nonlinear_arith);
            length.checked_mul(4)
        },
        None => {
            assert(size.width * size.height * 4 > usize::MAX) by (nonlinear_arith)
                requires
                    size.width * size.height > usize::MAX,
            ;
            None
        },
    }
}

/// A request that the renderer makes of the browser.
#[derive(Clone, Debug, PartialEq, Eq)]
pub enum BrowserCommand {
    GoBack,
    GoForward,
    Refresh,
    GoTo(String),
}

/// The mathematical value of a [`BrowserCommand`].
pub ghost enum CommandView {
    GoBack,
    GoForward,
    Refresh,
    GoTo(Seq<char>),
}

impl View for BrowserCommand {
    type V = CommandView;

    open spec fn view(&self) -> CommandView {
        match self {
            BrowserCommand::GoBack => CommandView::GoBack,
            BrowserCommand::GoForward => CommandView::GoForward,
            BrowserCommand::Refresh => CommandView::Refresh,
            BrowserCommand::GoTo(url) => CommandView::GoTo(url@),
        }
    }
}

/// Whether the input event that led to `action` must be passed to the
/// page, and what the browser must be asked to do.
pub open spec fn spec_dispatch(action: ActionView) -> (bool, Option<CommandView>) {
    match action {
        ActionView::Ignore => (false, None),
        ActionView::Forward => (true, None),
        ActionView::GoBack => (false, Some(CommandView::GoBack)),
        ActionView::GoForward => (false, Some(CommandView::GoForward)),
        ActionView::Refresh => (false, Some(CommandView::Refresh)),
        ActionView::GoTo(url) => (false, Some(CommandView::GoTo(url))),
    }
}

/// The value of an optional browser request.
pub open spec fn command_view(c: Option<BrowserCommand>) -> Option<CommandView> {
    match c {
        Some(c) => Some(c@),
        None => None,
    }
}

/// Turns the action of the navigation bar into the browser's next step:
/// whether to forward the input event to the page, and which request, if
/// any, to make.
pub fn dispatch(action: NavigationAction) -> (result: (bool, Option<BrowserCommand>))
    ensures
        (result.0, command_view(result.1)) == spec_dispatch(action@),
{
    match action {
        NavigationAction::Ignore => (false, None),
        NavigationAction::Forward => (true, None),
        NavigationAction::GoBack() => (false, Some(BrowserCommand::GoBack)),
        NavigationAction::GoForward() => (false, Some(BrowserCommand::GoForward)),
        NavigationAction::Refresh() => (false, Some(BrowserCommand::Refresh)),
        NavigationAction::GoTo(url) => (false, Some(BrowserCommand::GoTo(url))),
    }
}

} // verus!
