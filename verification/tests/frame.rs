use carbonyl::bridge::{bitmap_len, dispatch, draw_text_frame, BrowserCommand};
use carbonyl::gfx::{Color, Point, Rect, Size};
use carbonyl::navigation::NavigationAction;
use carbonyl::renderer::Renderer;

fn sized(width: u32, height: u32) -> Renderer {
    let mut renderer = Renderer::new();
    renderer.set_size(Size::new(width, height));
    renderer
}

fn solid(color: Color) -> (Color, Color, Color, Color) {
    (color, color, color, color)
}

#[test]
fn the_first_frame_paints_the_navigation_bar() {
    let mut renderer = sized(12, 3);
    let frame = renderer.render();
    assert_eq!(frame.cursor, None);
    let painted: Vec<usize> = frame.cells.iter().map(|(index, _)| *index).collect();
    assert_eq!(painted, (0..11).collect::<Vec<_>>());
    assert!(frame.cells.iter().all(|(index, cell)| (cell.row * 12 + cell.col) as usize == *index));
    assert_eq!(frame.cells[1].1.grapheme.as_ref().unwrap().char, "\u{276e}");
    assert_eq!(frame.cells[9].1.grapheme.as_ref().unwrap().char, "[");
    assert_eq!(frame.cells[10].1.grapheme.as_ref().unwrap().char, "]");
    // Nothing is marked painted until the cells are written.
    assert!(renderer.cells()[1].0.grapheme.is_none());
}

fn paint_all(renderer: &mut Renderer) -> Vec<usize> {
    let frame = renderer.render();
    let indices: Vec<usize> = frame.cells.iter().map(|(index, _)| *index).collect();
    for index in &indices {
        renderer.mark_painted(*index);
    }
    indices
}

#[test]
fn marking_a_frame_painted_brings_every_cell_up_to_date() {
    let mut renderer = sized(12, 3);
    paint_all(&mut renderer);
    assert!(renderer.cells().iter().all(|(previous, current)| previous == current));
    let again = renderer.render();
    assert!(again.cells.is_empty());
}

#[test]
fn cells_left_unmarked_are_listed_again() {
    let mut renderer = sized(12, 3);
    let frame = renderer.render();
    let (first, _) = frame.cells[0];
    renderer.mark_painted(first);
    let again = renderer.render();
    let listed: Vec<usize> = again.cells.iter().map(|(index, _)| *index).collect();
    assert_eq!(listed, (1..11).collect::<Vec<_>>());
}

#[test]
fn painting_stopped_part_way_leaves_the_rest_for_the_next_frame() {
    let mut renderer = sized(12, 3);
    let frame = renderer.render();
    for (index, _) in frame.cells.iter().take(4) {
        renderer.mark_painted(*index);
    }
    assert!(renderer.cells()[..4].iter().all(|(previous, current)| previous == current));
    assert!(renderer.cells()[4..11].iter().all(|(previous, current)| previous != current));
    let again = renderer.render();
    let listed: Vec<usize> = again.cells.iter().map(|(index, _)| *index).collect();
    assert_eq!(listed, (4..11).collect::<Vec<_>>());
}

#[test]
fn mark_painted_copies_the_current_image_of_one_cell() {
    let mut renderer = sized(4, 2);
    let red = Color::new(255, 0, 0);
    renderer.fill_rect(Rect::new(0, 0, 8, 4), red);
    renderer.mark_painted(5);
    assert_eq!(renderer.cells()[5].0, renderer.cells()[5].1);
    assert_eq!(renderer.cells()[4].0.quadrant, solid(Color::new(0, 0, 0)));
    assert_eq!(renderer.cells()[4].1.quadrant, solid(red));
}

#[test]
fn a_frame_paints_the_cells_drawn_since_the_last_one() {
    let mut renderer = sized(12, 3);
    paint_all(&mut renderer);
    let red = Color::new(255, 0, 0);
    renderer.fill_rect(Rect::new(0, 4, 4, 4), red);
    let painted = paint_all(&mut renderer);
    assert!(painted.contains(&24));
    assert!(painted.contains(&25));
    assert!(!painted.contains(&26));
    assert!(renderer.cells().iter().all(|(previous, current)| previous == current));
}

#[test]
fn a_frame_normalizes_background_noise() {
    let mut renderer = sized(12, 3);
    let near = Color::new(20, 10, 0);
    let far = Color::new(40, 0, 0);
    renderer.fill_rect(Rect::new(0, 4, 2, 4), near);
    renderer.fill_rect(Rect::new(2, 4, 2, 4), far);
    renderer.render();
    assert_eq!(renderer.cells()[24].1.quadrant, solid(Color::new(0, 0, 0)));
    assert_eq!(renderer.cells()[25].1.quadrant, solid(far));
}

#[test]
fn the_frame_cursor_follows_the_address_field() {
    let mut renderer = sized(20, 3);
    renderer.push_nav("ab", false, false);
    renderer.mouse_up(Point::new(10, 0)).unwrap();
    assert_eq!(renderer.render().cursor, Some(Point::new(12, 0)));
}

#[test]
fn a_text_frame_replaces_the_text_and_fills_the_viewport() {
    let mut renderer = sized(4, 3);
    renderer.draw_text("old", Point::new(0, 7), Size::new(0, 0), Color::new(1, 1, 1));
    let blue = Color::new(0, 0, 255);
    let white = Color::new(255, 255, 255);
    let texts = vec![
        (String::new(), Point::new(0, 0), Size::new(8, 8), blue),
        (String::new(), Point::new(1, 0), Size::new(8, 8), Color::new(9, 9, 9)),
        ("hi".to_string(), Point::new(0, 3), Size::new(0, 0), white),
    ];
    draw_text_frame(&mut renderer, &texts);
    assert_eq!(renderer.page_background(), blue);
    assert_eq!(renderer.cells()[4].1.grapheme.as_ref().unwrap().char, "h");
    assert_eq!(renderer.cells()[5].1.grapheme.as_ref().unwrap().char, "i");
    assert!(renderer.cells()[8..].iter().all(|(_, c)| c.grapheme.is_none()));
    assert_eq!(renderer.text_masks().len(), 1);
}

#[test]
fn an_empty_text_smaller_than_the_viewport_paints_nothing() {
    let mut renderer = sized(4, 3);
    let texts = vec![(String::new(), Point::new(0, 0), Size::new(5, 8), Color::new(0, 0, 255))];
    draw_text_frame(&mut renderer, &texts);
    assert_eq!(renderer.page_background(), Color::new(0, 0, 0));
}

#[test]
fn bitmap_len_counts_four_bytes_per_pixel() {
    assert_eq!(bitmap_len(Size::new(2, 3)), Some(24));
    assert_eq!(bitmap_len(Size::new(0, 3)), Some(0));
    if usize::BITS == 64 {
        assert_eq!(bitmap_len(Size::new(u32::MAX, u32::MAX)), None);
    }
}

#[test]
fn dispatch_forwards_only_page_events() {
    assert_eq!(dispatch(NavigationAction::Forward), (true, None));
    assert_eq!(dispatch(NavigationAction::Ignore), (false, None));
    assert_eq!(dispatch(NavigationAction::GoBack()), (false, Some(BrowserCommand::GoBack)));
    assert_eq!(dispatch(NavigationAction::GoForward()), (false, Some(BrowserCommand::GoForward)));
    assert_eq!(dispatch(NavigationAction::Refresh()), (false, Some(BrowserCommand::Refresh)));
    assert_eq!(
        dispatch(NavigationAction::GoTo("u".to_string())),
        (false, Some(BrowserCommand::GoTo("u".to_string())))
    );
}
