use vstd::prelude::*;

use crate::gfx::{Color, Point, Size};

verus! {

/// A key typed on the terminal: the byte that it sends.
#[derive(Clone, Copy, Debug, PartialEq, Eq, Structural)]
pub struct Key {
    pub char: u8,
}

/// What the renderer asks the browser to do after an input event.
#[derive(Clone, Debug, PartialEq, Eq)]
pub enum NavigationAction {
    /// The navigation bar consumed the event.
    Ignore,
    /// The event belongs to the page: pass it on.
    Forward,
    /// Load the given URL.
    GoTo(String),
    GoBack(),
    GoForward(),
    Refresh(),
}

/// The mathematical value of a [`NavigationAction`].
pub ghost enum ActionView {
    Ignore,
    Forward,
    GoTo(Seq<char>),
    GoBack,
    GoForward,
    Refresh,
}

impl View for NavigationAction {
    type V = ActionView;

    open spec fn view(&self) -> ActionView {
        match self {
            NavigationAction::Ignore => ActionView::Ignore,
            NavigationAction::Forward => ActionView::Forward,
            NavigationAction::GoTo(url) => ActionView::GoTo(url@),
            NavigationAction::GoBack() => ActionView::GoBack,
            NavigationAction::GoForward() => ActionView::GoForward,
            NavigationAction::Refresh() => ActionView::Refresh,
        }
    }
}

/// A piece of text of the navigation bar, with its colors.
#[derive(Clone, Debug, PartialEq, Eq)]
pub struct NavigationElement {
    pub text: String,
    pub background: Color,
    pub foreground: Color,
}

/// The mathematical value of a [`NavigationElement`].
pub ghost struct ElementView {
    pub text: Seq<char>,
    pub background: Color,
    pub foreground: Color,
}

impl View for NavigationElement {
    type V = ElementView;

    open spec fn view(&self) -> ElementView {
        ElementView { text: self.text@, background: self.background, foreground: self.foreground }
    }
}

/// The navigation bar drawn on the first row of the terminal: back,
/// forward and reload buttons, then the address field.
pub struct Navigation {
    url: Vec<char>,
    editing: bool,
    can_go_back: bool,
    can_go_forward: bool,
    size: Size,
}

/// The mathematical state of the navigation bar.
pub ghost struct NavView {
    /// The text of the address field.
    pub url: Seq<char>,
    /// Whether the address field has the keyboard.
    pub editing: bool,
    pub can_go_back: bool,
    pub can_go_forward: bool,
    pub size: Size,
}

impl View for Navigation {
    type V = NavView;

    closed spec fn view(&self) -> NavView {
        NavView {
            url: self.url@,
            editing: self.editing,
            can_go_back: self.can_go_back,
            can_go_forward: self.can_go_forward,
            size: self.size,
        }
    }
}

/// The first column of the back button, the forward button, the reload
/// button and the address field.
pub open spec fn back_column() -> int {
    0
}

pub open spec fn forward_column() -> int {
    3
}

pub open spec fn reload_column() -> int {
    6
}

pub open spec fn address_column() -> int {
    9
}

/// Whether a byte is a printable ASCII character.
pub open spec fn is_printable(b: u8) -> bool {
    0x20 <= b <= 0x7e
}

/// Whether a byte ends the edition of the address: carriage return or line feed.
pub open spec fn is_enter(b: u8) -> bool {
    b == 0x0d || b == 0x0a
}

/// Whether a byte erases the last character: delete or backspace.
pub open spec fn is_erase(b: u8) -> bool {
    b == 0x7f || b == 0x08
}

/// Whether a byte cancels the edition of the address: escape.
pub open spec fn is_escape(b: u8) -> bool {
    b == 0x1b
}

/// The state and action after a key press. Keys go to the page unless the
/// address field has the keyboard; there, enter loads the address,
/// escape leaves the field, erase removes the last character and a
/// printable character is appended.
pub open spec fn spec_keypress(n: NavView, key: Key) -> (NavView, ActionView) {
    let b = key.char;
    if !n.editing {
        (n, ActionView::Forward)
    } else if is_enter(b) {
        (NavView { editing: false, ..n }, ActionView::GoTo(n.url))
    } else if is_escape(b) {
        (NavView { editing: false, ..n }, ActionView::Ignore)
    } else if is_erase(b) {
        (NavView { url: if n.url.len() > 0 { n.url.drop_last() } else { n.url }, ..n }, ActionView::Ignore)
    } else if is_printable(b) {
        (NavView { url: n.url.push(b as char), ..n }, ActionView::Ignore)
    } else {
        (n, ActionView::Ignore)
    }
}

/// The state and action after a mouse button is released at `origin`, in
/// cells. Below the bar the event goes to the page and the address field
/// loses the keyboard; on the bar the buttons act and the address field
/// takes the keyboard.
pub open spec fn spec_mouse_up(n: NavView, origin: Point) -> (NavView, ActionView) {
    let x = origin.x as int;
    if origin.y != 0 {
        (NavView { editing: false, ..n }, ActionView::Forward)
    } else if back_column() <= x < forward_column() {
        (n, if n.can_go_back { ActionView::GoBack } else { ActionView::Ignore })
    } else if forward_column() <= x < reload_column() {
        (n, if n.can_go_forward { ActionView::GoForward } else { ActionView::Ignore })
    } else if reload_column() <= x < address_column() {
        (n, ActionView::Refresh)
    } else if x >= address_column() {
        (NavView { editing: true, ..n }, ActionView::Ignore)
    } else {
        (n, ActionView::Ignore)
    }
}

/// The action for a mouse press or move at `origin`: the bar consumes the
/// events on its row, the page gets the others.
pub open spec fn spec_pointer(origin: Point) -> ActionView {
    if origin.y == 0 {
        ActionView::Ignore
    } else {
        ActionView::Forward
    }
}

/// Where the terminal cursor stands: after the address text while the field
/// has the keyboard.
pub open spec fn spec_cursor(n: NavView) -> Option<Point> {
    if n.editing {
        let x = address_column() + 1 + n.url.len();
        Some(Point { x: if x > i32::MAX { i32::MAX } else { x as i32 }, y: 0 })
    } else {
        None
    }
}

/// The colors of the bar: its background, and the text of enabled and
/// disabled buttons.
pub open spec fn bar_background() -> Color {
    Color { r: 0, g: 0, b: 0 }
}

pub open spec fn enabled_color() -> Color {
    Color { r: 255, g: 255, b: 255 }
}

pub open spec fn disabled_color() -> Color {
    Color { r: 128, g: 128, b: 128 }
}

/// The pieces of the bar, each with its position in cells.
pub open spec fn nav_elements(n: NavView) -> Seq<(Point, ElementView)> {
    seq![
        (Point { x: back_column() as i32, y: 0 }, ElementView {
            text: "[\u{276e}]"@,
            background: bar_background(),
            foreground: if n.can_go_back { enabled_color() } else { disabled_color() },
        }),
        (Point { x: forward_column() as i32, y: 0 }, ElementView {
            text: "[\u{276f}]"@,
            background: bar_background(),
            foreground: if n.can_go_forward { enabled_color() } else { disabled_color() },
        }),
        (Point { x: reload_column() as i32, y: 0 }, ElementView {
            text: "[\u{21bb}]"@,
            background: bar_background(),
            foreground: enabled_color(),
        }),
        (Point { x: address_column() as i32, y: 0 }, ElementView {
            text: "["@ + n.url + "]"@,
            background: bar_background(),
            foreground: enabled_color(),
        }),
    ]
}

/// Calls `String::push`.
/// Trusted: the string afterwards is the string before with `c` appended.
#[verifier::external_body]
fn push_char(s: &mut String, c: char)
    ensures
        final(s)@ == old(s)@.push(c),
{
    s.push(c)
}

/// The text of a sequence of characters.
fn text_of(chars: &Vec<char>) -> (text: String)
    ensures
        text@ == chars@,
{
    let mut text = String::new();
    let mut i: usize = 0;
    while i < chars.len()
        invariant
            0 <= i <= chars@.len(),
            text@ == chars@.take(i as int),
        decreases chars@.len() - i,
    {
        push_char(&mut text, chars[i]);
        assert(chars@.take(i + 1) =~= chars@.take(i as int).push(chars@[i as int]));
        i += 1;
    }
    assert(chars@.take(chars@.len() as int) =~= chars@);
    text
}

/// The characters of a string.
fn chars_of(s: &str) -> (chars: Vec<char>)
    ensures
        chars@ == s@,
{
    broadcast use vstd::string::group_string_axioms;

    let mut chars: Vec<char> = Vec::new();
    for c in it: s.chars()
        invariant
            it.seq() == s@,
            chars@ == it.seq().take(it.index()),
    {
        assert(it.seq().take(it.index() + 1) =~= it.seq().take(it.index()).push(c));
        chars.push(c);
    }
    assert(s@.take(s@.len() as int) =~= s@);
    chars
}

impl Navigation {
    /// An empty bar: no address, no history, the page has the keyboard.
    pub fn new() -> (nav: Navigation)
        ensures
            nav@ == (NavView {
                url: Seq::empty(),
                editing: false,
                can_go_back: false,
                can_go_forward: false,
                size: Size { width: 0, height: 0 },
            }),
    {
        Navigation {
            url: Vec::new(),
            editing: false,
            can_go_back: false,
            can_go_forward: false,
            size: Size { width: 0, height: 0 },
        }
    }

    /// Records the viewport size, in cells.
    pub fn set_size(&mut self, size: Size)
        ensures
            final(self)@ == (NavView { size, ..old(self)@ }),
    {
        self.size = size;
    }

    /// Shows `url` in the address field and whether history can be walked
    /// back and forward.
    pub fn push(&mut self, url: &str, can_go_back: bool, can_go_forward: bool)
        ensures
            final(self)@ == (NavView { url: url@, can_go_back, can_go_forward, ..old(self)@ }),
    {
        self.url = chars_of(url);
        self.can_go_back = can_go_back;
        self.can_go_forward = can_go_forward;
    }

    /// Handles a key press: see [`spec_keypress`].
    pub fn keypress(&mut self, key: &Key) -> (action: NavigationAction)
        ensures
            (final(self)@, action@) == spec_keypress(old(self)@, *key),
    {
        let b = key.char;
        if !self.editing {
            NavigationAction::Forward
        } else if b == 0x0d || b == 0x0a {
            self.editing = false;
            NavigationAction::GoTo(text_of(&self.url))
        } else if b == 0x1b {
            self.editing = false;
            NavigationAction::Ignore
        } else if b == 0x7f || b == 0x08 {
            if self.url.len() > 0 {
                self.url.pop();
            }
            NavigationAction::Ignore
        } else if 0x20 <= b && b <= 0x7e {
            self.url.push(b as char);
            NavigationAction::Ignore
        } else {
            NavigationAction::Ignore
        }
    }

    /// Handles a mouse release at `origin`, in cells: see [`spec_mouse_up`].
    pub fn mouse_up(&mut self, origin: Point) -> (action: NavigationAction)
        ensures
            (final(self)@, action@) == spec_mouse_up(old(self)@, origin),
    {
        let x = origin.x;
        if origin.y != 0 {
            self.editing = false;
            NavigationAction::Forward
        } else if 0 <= x && x < 3 {
            if self.can_go_back { NavigationAction::GoBack() } else { NavigationAction::Ignore }
        } else if 3 <= x && x < 6 {
            if self.can_go_forward { NavigationAction::GoForward() } else { NavigationAction::Ignore }
        } else if 6 <= x && x < 9 {
            NavigationAction::Refresh()
        } else if x >= 9 {
            self.editing = true;
            NavigationAction::Ignore
        } else {
            NavigationAction::Ignore
        }
    }

    /// Handles a mouse press at `origin`, in cells.
    pub fn mouse_down(&mut self, origin: Point) -> (action: NavigationAction)
        ensures
            final(self)@ == old(self)@,
            action@ == spec_pointer(origin),
    {
        if origin.y == 0 { NavigationAction::Ignore } else { NavigationAction::Forward }
    }

    /// Handles a mouse move to `origin`, in cells.
    pub fn mouse_move(&mut self, origin: Point) -> (action: NavigationAction)
        ensures
            final(self)@ == old(self)@,
            action@ == spec_pointer(origin),
    {
        if origin.y == 0 { NavigationAction::Ignore } else { NavigationAction::Forward }
    }

    /// Where the terminal cursor stands, if anywhere.
    pub fn cursor(&self) -> (cursor: Option<Point>)
        ensures
            cursor == spec_cursor(self@),
    {
        if self.editing {
            let len = self.url.len();
            let x = if len > (i32::MAX - 10) as usize { i32::MAX } else { 10 + len as i32 };
            Some(Point { x, y: 0 })
        } else {
            None
        }
    }

    /// The pieces of the bar to draw, each with its position in cells.
    pub fn render(&self) -> (elements: Vec<(Point, NavigationElement)>)
        ensures
            elements@.len() == nav_elements(self@).len(),
            forall|i: int|
                0 <= i < elements@.len() ==> (#[trigger] elements@[i]).0 == nav_elements(self@)[i].0
                    && elements@[i].1@ == nav_elements(self@)[i].1,
    {
        let white = Color::new(255, 255, 255);
        let gray = Color::new(128, 128, 128);
        let black = Color::black();
        let mut address = String::from_str("[");
        address.append(text_of(&self.url).as_str());
        address.append("]");

        let mut elements: Vec<(Point, NavigationElement)> = Vec::new();
        elements.push((Point::new(0, 0), NavigationElement {
            text: String::from_str("[\u{276e}]"),
            background: black,
            foreground: if self.can_go_back { white } else { gray },
        }));
        elements.push((Point::new(3, 0), NavigationElement {
            text: String::from_str("[\u{276f}]"),
            background: black,
            foreground: if self.can_go_forward { white } else { gray },
        }));
        elements.push((Point::new(6, 0), NavigationElement {
            text: String::from_str("[\u{21bb}]"),
            background: black,
            foreground: white,
        }));
        elements.push((Point::new(9, 0), NavigationElement { text: address, background: black, foreground: white }));
        elements
    }
}

} // verus!
