use carbonyl::gfx::{Color, Point};
use carbonyl::navigation::{Key, Navigation, NavigationAction, NavigationElement};
use carbonyl::renderer::Renderer;

fn key(byte: u8) -> Key {
    Key { char: byte }
}

#[test]
fn keys_go_to_the_page_while_the_address_field_is_idle() {
    let mut renderer = Renderer::new();
    assert_eq!(renderer.keypress(&key(b'a')).unwrap(), NavigationAction::Forward);
    assert_eq!(renderer.keypress(&key(0x0d)).unwrap(), NavigationAction::Forward);
}

#[test]
fn clicking_the_address_field_then_typing_then_enter_loads_the_address() {
    let mut renderer = Renderer::new();
    renderer.push_nav("http://a", true, false);
    assert_eq!(renderer.mouse_up(Point::new(12, 0)).unwrap(), NavigationAction::Ignore);
    assert_eq!(renderer.keypress(&key(b'x')).unwrap(), NavigationAction::Ignore);
    assert_eq!(renderer.keypress(&key(b'y')).unwrap(), NavigationAction::Ignore);
    assert_eq!(renderer.keypress(&key(0x7f)).unwrap(), NavigationAction::Ignore);
    assert_eq!(renderer.keypress(&key(0x01)).unwrap(), NavigationAction::Ignore);
    assert_eq!(
        renderer.keypress(&key(0x0d)).unwrap(),
        NavigationAction::GoTo("http://ax".to_string())
    );
    assert_eq!(renderer.keypress(&key(b'z')).unwrap(), NavigationAction::Forward);
}

#[test]
fn erasing_right_after_typing_gives_the_address_back() {
    let mut nav = Navigation::new();
    nav.push("abc", false, false);
    nav.mouse_up(Point::new(9, 0));
    nav.keypress(&key(b'q'));
    nav.keypress(&key(0x08));
    assert_eq!(nav.keypress(&key(0x0a)), NavigationAction::GoTo("abc".to_string()));
}

#[test]
fn erasing_an_empty_address_keeps_it_empty() {
    let mut nav = Navigation::new();
    nav.mouse_up(Point::new(20, 0));
    assert_eq!(nav.keypress(&key(0x7f)), NavigationAction::Ignore);
    assert_eq!(nav.keypress(&key(0x0d)), NavigationAction::GoTo(String::new()));
}

#[test]
fn escape_leaves_the_address_field() {
    let mut nav = Navigation::new();
    nav.mouse_up(Point::new(9, 0));
    assert_eq!(nav.cursor(), Some(Point::new(10, 0)));
    assert_eq!(nav.keypress(&key(0x1b)), NavigationAction::Ignore);
    assert_eq!(nav.cursor(), None);
    assert_eq!(nav.keypress(&key(b'a')), NavigationAction::Forward);
}

#[test]
fn the_buttons_act_on_release() {
    let mut renderer = Renderer::new();
    renderer.push_nav("u", true, true);
    assert_eq!(renderer.mouse_up(Point::new(1, 0)).unwrap(), NavigationAction::GoBack());
    assert_eq!(renderer.mouse_up(Point::new(4, 0)).unwrap(), NavigationAction::GoForward());
    assert_eq!(renderer.mouse_up(Point::new(8, 0)).unwrap(), NavigationAction::Refresh());
    assert_eq!(renderer.mouse_up(Point::new(-1, 0)).unwrap(), NavigationAction::Ignore);
    renderer.push_nav("u", false, false);
    assert_eq!(renderer.mouse_up(Point::new(0, 0)).unwrap(), NavigationAction::Ignore);
    assert_eq!(renderer.mouse_up(Point::new(5, 0)).unwrap(), NavigationAction::Ignore);
}

#[test]
fn pointer_events_below_the_bar_go_to_the_page() {
    let mut renderer = Renderer::new();
    assert_eq!(renderer.mouse_up(Point::new(4, 3)).unwrap(), NavigationAction::Forward);
    assert_eq!(renderer.mouse_down(Point::new(4, 3)).unwrap(), NavigationAction::Forward);
    assert_eq!(renderer.mouse_move(Point::new(4, 3)).unwrap(), NavigationAction::Forward);
    assert_eq!(renderer.mouse_down(Point::new(4, 0)).unwrap(), NavigationAction::Ignore);
    assert_eq!(renderer.mouse_move(Point::new(4, 0)).unwrap(), NavigationAction::Ignore);
}

#[test]
fn clicking_the_page_leaves_the_address_field() {
    let mut nav = Navigation::new();
    nav.mouse_up(Point::new(9, 0));
    assert_eq!(nav.mouse_up(Point::new(9, 1)), NavigationAction::Forward);
    assert_eq!(nav.cursor(), None);
}

#[test]
fn the_cursor_stands_after_the_address() {
    let mut nav = Navigation::new();
    nav.push("abc", false, false);
    assert_eq!(nav.cursor(), None);
    nav.mouse_up(Point::new(9, 0));
    assert_eq!(nav.cursor(), Some(Point::new(13, 0)));
}

#[test]
fn the_bar_shows_its_buttons_and_the_address() {
    let mut nav = Navigation::new();
    nav.push("x.org", true, false);
    let white = Color::new(255, 255, 255);
    let gray = Color::new(128, 128, 128);
    let black = Color::new(0, 0, 0);
    let elements = nav.render();
    let expected = vec![
        (Point::new(0, 0), NavigationElement { text: "[\u{276e}]".to_string(), background: black, foreground: white }),
        (Point::new(3, 0), NavigationElement { text: "[\u{276f}]".to_string(), background: black, foreground: gray }),
        (Point::new(6, 0), NavigationElement { text: "[\u{21bb}]".to_string(), background: black, foreground: white }),
        (Point::new(9, 0), NavigationElement { text: "[x.org]".to_string(), background: black, foreground: white }),
    ];
    assert_eq!(elements, expected);
}
