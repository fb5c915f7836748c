use carbonyl::cell::{Cell, Grapheme};
use carbonyl::gfx::{Color, Point, Rect, Size};
use carbonyl::renderer::{title_sequence, Renderer};
use carbonyl::screen::{CellOp, TextMask};

fn sized(width: u32, height: u32) -> Renderer {
    let mut renderer = Renderer::new();
    renderer.set_size(Size::new(width, height));
    renderer
}

fn current(renderer: &Renderer, index: usize) -> &Cell {
    &renderer.cells()[index].1
}

fn grapheme(renderer: &Renderer, index: usize) -> Option<&Grapheme> {
    current(renderer, index).grapheme.as_ref()
}

fn black() -> Color {
    Color::new(0, 0, 0)
}

fn solid(color: Color) -> (Color, Color, Color, Color) {
    (color, color, color, color)
}

#[test]
fn new_renderer_is_empty() {
    let renderer = Renderer::new();
    assert_eq!(renderer.get_size(), Size::new(0, 0));
    assert!(renderer.cells().is_empty());
    assert_eq!(renderer.page_background(), black());
    assert!(renderer.text_masks().is_empty());
    assert!(!renderer.is_true_color());
}

#[test]
fn enable_true_color_sets_the_mode() {
    let mut renderer = Renderer::new();
    renderer.enable_true_color();
    assert!(renderer.is_true_color());
}

#[test]
fn set_size_builds_one_navigation_row_and_the_page_rows() {
    let renderer = sized(3, 2);
    assert_eq!(renderer.get_size(), Size::new(3, 2));
    assert_eq!(renderer.cells().len(), 9);
    for (index, (previous, current)) in renderer.cells().iter().enumerate() {
        assert_eq!(previous, current);
        assert_eq!(current.col as usize, index % 3);
        assert_eq!(current.row as usize, index / 3);
        assert_eq!(current.quadrant, solid(black()));
        assert!(current.grapheme.is_none());
    }
}

#[test]
fn set_size_rebuilds_a_drawn_grid_blank() {
    let mut renderer = sized(4, 3);
    renderer.fill_rect(Rect::new(0, 0, 8, 12), Color::new(200, 0, 0));
    renderer.set_size(Size::new(2, 1));
    assert_eq!(renderer.cells().len(), 4);
    assert!(renderer.cells().iter().all(|(_, c)| c.quadrant == solid(black())));
    assert_eq!(current(&renderer, 3).col, 1);
    assert_eq!(current(&renderer, 3).row, 1);
}

#[test]
fn accepts_size_matches_the_grid_limits() {
    assert!(Renderer::accepts_size(Size::new(80, 24)));
    assert!(!Renderer::accepts_size(Size::new(0, 24)));
    assert!(!Renderer::accepts_size(Size::new(70_000, 70_000)));
    assert!(!Renderer::accepts_size(Size::new(1, u32::MAX - 1)));
}

#[test]
fn fill_rect_of_the_whole_page_sets_the_page_background() {
    let mut renderer = sized(3, 2);
    let red = Color::new(255, 0, 0);
    renderer.fill_rect(Rect::new(0, 0, 6, 8), red);
    assert_eq!(renderer.page_background(), red);
    for index in 0..9 {
        let expected = if (3..6).contains(&index) { solid(red) } else { solid(black()) };
        assert_eq!(current(&renderer, index).quadrant, expected, "cell {index}");
    }
}

#[test]
fn fill_rect_rounds_pixels_down_to_cells_and_clamps() {
    let mut renderer = sized(4, 3);
    let green = Color::new(0, 255, 0);
    // left = floor(-3 / 2) clamped to 0, right = floor(4 / 2) = 2,
    // top = floor(5 / 4) + 1 = 2, bottom = floor(11 / 4) + 1 = 3.
    renderer.fill_rect(Rect::new(-3, 5, 7, 6), green);
    assert_eq!(renderer.page_background(), black());
    for index in 0..16 {
        let expected = if index == 8 || index == 9 { solid(green) } else { solid(black()) };
        assert_eq!(current(&renderer, index).quadrant, expected, "cell {index}");
    }
}

#[test]
fn fill_rect_removes_graphemes_and_keeps_the_painted_image() {
    let mut renderer = sized(4, 2);
    renderer.draw_text("ab", Point::new(0, 3), Size::new(0, 0), Color::new(1, 2, 3));
    renderer.fill_rect(Rect::new(0, 0, 8, 4), Color::new(9, 9, 9));
    assert!(grapheme(&renderer, 4).is_none());
    assert!(grapheme(&renderer, 5).is_none());
    assert!(renderer.cells().iter().all(|(previous, _)| previous.quadrant == solid(black())));
}

#[test]
fn fill_rect_outside_the_page_changes_nothing() {
    let mut renderer = sized(4, 2);
    renderer.fill_rect(Rect::new(100, 100, 8, 8), Color::new(9, 9, 9));
    renderer.fill_rect(Rect::new(0, 0, 1, 4), Color::new(9, 9, 9));
    assert!(renderer.cells().iter().all(|(_, c)| c.quadrant == solid(black())));
}

#[test]
fn fill_rect_twice_is_fill_rect_once() {
    let mut once = sized(5, 4);
    let mut twice = sized(5, 4);
    let rect = Rect::new(1, 2, 7, 9);
    let color = Color::new(10, 20, 30);
    once.fill_rect(rect, color);
    twice.fill_rect(rect, color);
    twice.fill_rect(rect, color);
    assert_eq!(once.cells(), twice.cells());
    assert_eq!(once.page_background(), twice.page_background());
}

#[test]
fn draw_applies_an_operation_row_by_row() {
    let mut renderer = sized(4, 3);
    let blue = Color::new(0, 0, 255);
    renderer.draw(Rect::new(1, 2, 2, 2), CellOp::Background(blue));
    for index in 0..16 {
        let expected = if [9, 10, 13, 14].contains(&index) { solid(blue) } else { solid(black()) };
        assert_eq!(current(&renderer, index).quadrant, expected, "cell {index}");
    }
}

#[test]
fn draw_with_rows_wider_than_the_viewport_overlaps_them() {
    let mut renderer = sized(2, 3);
    let blue = Color::new(0, 0, 255);
    renderer.draw(Rect::new(0, 1, 3, 2), CellOp::Fill(blue));
    for index in 0..8 {
        let expected = if (2..7).contains(&index) { solid(blue) } else { solid(black()) };
        assert_eq!(current(&renderer, index).quadrant, expected, "cell {index}");
    }
}

#[test]
fn draw_text_writes_one_grapheme_per_cell() {
    let mut renderer = sized(4, 2);
    let white = Color::new(255, 255, 255);
    renderer.draw_text("ab", Point::new(0, 3), Size::new(0, 0), white);
    assert_eq!(
        grapheme(&renderer, 4),
        Some(&Grapheme { char: "a".to_string(), index: 0, width: 1, color: white })
    );
    assert_eq!(
        grapheme(&renderer, 5),
        Some(&Grapheme { char: "b".to_string(), index: 0, width: 1, color: white })
    );
    assert!(grapheme(&renderer, 3).is_none());
    assert!(grapheme(&renderer, 6).is_none());
    assert_eq!(renderer.text_masks(), &vec![TextMask { col: 0, row: 1, width: 2 }]);
}

#[test]
fn draw_text_keeps_combining_marks_with_their_base() {
    let mut renderer = sized(4, 2);
    let white = Color::new(255, 255, 255);
    renderer.draw_text("e\u{301}x", Point::new(0, 3), Size::new(0, 0), white);
    assert_eq!(grapheme(&renderer, 4).unwrap().char, "e\u{301}");
    assert_eq!(grapheme(&renderer, 5).unwrap().char, "x");
    assert!(grapheme(&renderer, 6).is_none());
}

#[test]
fn draw_text_spreads_wide_graphemes_over_their_columns() {
    let mut renderer = sized(4, 2);
    let white = Color::new(255, 255, 255);
    renderer.draw_text("\u{65e5}\u{672c}", Point::new(0, 3), Size::new(0, 0), white);
    let expected = [("\u{65e5}", 0), ("\u{65e5}", 1), ("\u{672c}", 0), ("\u{672c}", 1)];
    for (offset, (text, index)) in expected.iter().enumerate() {
        let g = grapheme(&renderer, 4 + offset).unwrap();
        assert_eq!(g.char, *text);
        assert_eq!(g.index, *index);
        assert_eq!(g.width, 2);
    }
    assert_eq!(renderer.text_masks()[0].width, 4);
}

#[test]
fn draw_text_keeps_a_cell_that_shows_the_same_grapheme_in_the_same_color() {
    let mut renderer = sized(4, 2);
    let white = Color::new(255, 255, 255);
    renderer.draw_text("\u{65e5}", Point::new(0, 3), Size::new(0, 0), white);
    renderer.draw_text("\u{65e5}", Point::new(2, 3), Size::new(0, 0), white);
    assert_eq!(grapheme(&renderer, 5).unwrap().index, 1);
    assert_eq!(grapheme(&renderer, 6).unwrap().index, 1);
    let red = Color::new(255, 0, 0);
    renderer.draw_text("\u{65e5}", Point::new(2, 3), Size::new(0, 0), red);
    assert_eq!(grapheme(&renderer, 5).unwrap().index, 0);
    assert_eq!(grapheme(&renderer, 5).unwrap().color, red);
}

#[test]
fn draw_text_stops_at_the_end_of_the_grid() {
    let mut renderer = sized(2, 1);
    renderer.draw_text("abcdef", Point::new(0, 3), Size::new(0, 0), Color::new(1, 1, 1));
    assert_eq!(grapheme(&renderer, 2).unwrap().char, "a");
    assert_eq!(grapheme(&renderer, 3).unwrap().char, "b");
    assert_eq!(renderer.cells().len(), 4);
}

#[test]
fn draw_text_at_a_negative_index_writes_nothing() {
    let mut renderer = sized(4, 2);
    renderer.draw_text("ab", Point::new(0, -9), Size::new(0, 0), Color::new(1, 1, 1));
    assert!(renderer.cells().iter().all(|(_, c)| c.grapheme.is_none()));
    assert_eq!(renderer.text_masks(), &vec![TextMask { col: 0, row: 0, width: 2 }]);
}

#[test]
fn draw_text_index_uses_integer_division_toward_zero() {
    let mut renderer = sized(4, 2);
    // index = -4 / 2 + (3 + 1) / 4 * 4 = 2
    renderer.draw_text("ab", Point::new(-4, 3), Size::new(0, 0), Color::new(1, 1, 1));
    assert_eq!(grapheme(&renderer, 2).unwrap().char, "a");
    assert_eq!(grapheme(&renderer, 3).unwrap().char, "b");
}

#[test]
fn draw_text_box_clears_the_graphemes_it_covers() {
    let mut renderer = sized(4, 2);
    renderer.draw_text("abcd", Point::new(0, 3), Size::new(0, 0), Color::new(1, 1, 1));
    // x = round(0 / 2) = 0, y = round(4 / 4) = 1, w = round(3 / 2) = 2, h = round(4 / 4) = 1
    renderer.draw_text("ignored", Point::new(0, 0), Size::new(3, 4), Color::new(1, 1, 1));
    assert!(grapheme(&renderer, 4).is_none());
    assert!(grapheme(&renderer, 5).is_none());
    assert_eq!(grapheme(&renderer, 6).unwrap().char, "c");
    assert_eq!(grapheme(&renderer, 7).unwrap().char, "d");
    assert_eq!(renderer.text_masks().len(), 1);
}

#[test]
fn draw_text_scrubs_the_background_with_the_brightest_sample() {
    let gray = Color::new(100, 100, 100);
    let white = Color::new(255, 255, 255);

    // In a viewport 6 cells wide the block behind "a" at column 0, row 1 spans
    // columns 0 .. 6 and rows 1 .. 3: nothing lies right of it, the row above it is
    // black, and a gray cell inside it is not sampled.
    let mut renderer = sized(6, 3);
    renderer.draw(Rect::new(5, 1, 1, 1), CellOp::Background(gray));
    renderer.draw_text("a", Point::new(0, 3), Size::new(0, 0), white);
    assert_eq!(current(&renderer, 6).quadrant, solid(black()));
    assert_eq!(current(&renderer, 11).quadrant, solid(black()));

    // In a viewport 12 cells wide the block spans columns 0 .. 9: column 9 of rows 1
    // and 2 is sampled, column 10 is not.
    let mut renderer = sized(12, 3);
    renderer.draw(Rect::new(10, 1, 1, 1), CellOp::Background(gray));
    renderer.draw_text("a", Point::new(0, 3), Size::new(0, 0), white);
    assert_eq!(current(&renderer, 12).quadrant, solid(black()));
    renderer.draw(Rect::new(9, 2, 1, 1), CellOp::Background(gray));
    renderer.draw_text("a", Point::new(0, 3), Size::new(0, 0), white);
    assert_eq!(current(&renderer, 12).quadrant, solid(gray));
    assert_eq!(current(&renderer, 20).quadrant, solid(gray));
    assert_eq!(current(&renderer, 32).quadrant, solid(gray));
    assert_eq!(current(&renderer, 9).quadrant, solid(black()));
    assert_eq!(current(&renderer, 22).quadrant, solid(gray));
    assert_eq!(current(&renderer, 23).quadrant, solid(black()));
}

#[test]
fn can_place_text_checks_the_integer_range() {
    let renderer = sized(4, 2);
    assert!(renderer.can_place_text(Point::new(0, 3)));
    assert!(!renderer.can_place_text(Point::new(0, i32::MAX)));
    assert!(!renderer.can_place_text(Point::new(i32::MAX, i32::MAX - 1)));
}

#[test]
fn clear_text_removes_graphemes_and_masks() {
    let mut renderer = sized(4, 2);
    renderer.draw_text("ab", Point::new(0, 3), Size::new(0, 0), Color::new(1, 1, 1));
    renderer.clear_text();
    assert!(renderer.cells().iter().all(|(_, c)| c.grapheme.is_none()));
    assert!(renderer.text_masks().is_empty());
    renderer.clear_text();
    assert!(renderer.cells().iter().all(|(_, c)| c.grapheme.is_none()));
}

fn gradient() -> Vec<u8> {
    // A 2 by 4 pixel RGBA bitmap whose pixel (x, y) has red 40 * y + 20 * x.
    let mut pixels = Vec::new();
    for y in 0..4u8 {
        for x in 0..2u8 {
            pixels.extend_from_slice(&[40 * y + 20 * x, 9, 7, 255]);
        }
    }
    pixels
}

#[test]
fn draw_background_averages_pixel_pairs_into_quadrants() {
    let mut renderer = sized(1, 1);
    let pixels = gradient();
    assert!(renderer.can_draw_background(pixels.len(), Size::new(2, 4), Rect::new(0, 0, 2, 4)));
    renderer.draw_background(&pixels, Size::new(2, 4), Rect::new(0, 0, 2, 4));
    assert_eq!(
        current(&renderer, 1).quadrant,
        (Color::new(20, 9, 7), Color::new(40, 9, 7), Color::new(120, 9, 7), Color::new(100, 9, 7))
    );
    assert_eq!(current(&renderer, 0).quadrant, solid(black()));
}

#[test]
fn draw_background_ignores_a_bitmap_smaller_than_the_viewport() {
    let mut renderer = sized(1, 1);
    let mut pixels = gradient();
    pixels.pop();
    renderer.draw_background(&pixels, Size::new(2, 4), Rect::new(0, 0, 2, 4));
    assert!(renderer.cells().iter().all(|(_, c)| c.quadrant == solid(black())));
}

#[test]
fn draw_background_scrubs_the_text_masks_again() {
    let mut renderer = sized(12, 3);
    renderer.draw_text("a", Point::new(0, 3), Size::new(0, 0), Color::new(255, 255, 255));
    let mut pixels = vec![0u8; 24 * 12 * 4];
    for chunk in pixels.chunks_mut(4) {
        chunk.copy_from_slice(&[200, 0, 0, 255]);
    }
    assert!(renderer.can_draw_background(pixels.len(), Size::new(24, 12), Rect::new(0, 0, 24, 12)));
    renderer.draw_background(&pixels, Size::new(24, 12), Rect::new(0, 0, 24, 12));
    let red = Color::new(200, 0, 0);
    // Every page cell takes the bitmap's color; the text block is scrubbed with the brightest
    // color sampled around it, which is that color again.
    assert!(renderer.cells()[12..].iter().all(|(_, c)| c.quadrant == solid(red)));
    assert_eq!(grapheme(&renderer, 12).unwrap().char, "a");
}

#[test]
fn can_draw_background_rejects_a_bitmap_with_too_long_rows() {
    let renderer = sized(1, 1);
    assert!(!renderer.can_draw_background(32, Size::new(100, 1), Rect::new(0, 0, 2, 4)));
    assert!(renderer.can_draw_background(31, Size::new(100, 1), Rect::new(0, 0, 2, 4)));
}

#[test]
fn color_distance_is_the_largest_channel_difference() {
    let a = Color::new(10, 200, 30);
    let b = Color::new(40, 190, 25);
    assert_eq!(Renderer::color_distance(a, b), 30);
    assert_eq!(Renderer::color_distance(b, a), 30);
    assert_eq!(Renderer::color_distance(a, a), 0);
}

#[test]
fn matches_background_uses_a_threshold_of_28() {
    let background = Color::new(100, 100, 100);
    let near = Color::new(128, 72, 100);
    let far = Color::new(129, 100, 100);
    assert!(Renderer::matches_background((near, near, background, near), background));
    assert!(!Renderer::matches_background((near, near, far, near), background));
}

#[test]
fn avg_with_rounds_down_and_is_symmetric() {
    let a = Color::new(1, 200, 255);
    let b = Color::new(2, 101, 255);
    assert_eq!(a.avg_with(b), Color::new(1, 150, 255));
    assert_eq!(b.avg_with(a), a.avg_with(b));
    assert_eq!(a.avg_with(a), a);
}

#[test]
fn title_sequence_sets_all_three_titles() {
    assert_eq!(title_sequence("hi"), "\x1b]0;hi\x07\x1b]1;hi\x07\x1b]2;hi\x07");
}

#[test]
fn writing_the_same_text_twice_scrubs_the_same_background() {
    let gray = Color::new(100, 100, 100);
    let white = Color::new(255, 255, 255);
    let mut once = sized(12, 3);
    let mut twice = sized(12, 3);
    once.draw(Rect::new(9, 2, 1, 1), CellOp::Background(gray));
    twice.draw(Rect::new(9, 2, 1, 1), CellOp::Background(gray));
    once.draw_text("ab", Point::new(4, 3), Size::new(0, 0), white);
    twice.draw_text("ab", Point::new(4, 3), Size::new(0, 0), white);
    twice.draw_text("ab", Point::new(4, 3), Size::new(0, 0), white);
    assert_eq!(once.cells(), twice.cells());
    assert_eq!(twice.text_masks().len(), 2);
}

#[test]
fn drawing_keeps_cell_positions_and_the_painted_image() {
    let mut renderer = sized(6, 3);
    let before: Vec<(u32, u32)> = renderer.cells().iter().map(|(_, c)| (c.col, c.row)).collect();
    renderer.fill_rect(Rect::new(0, 0, 12, 12), Color::new(3, 4, 5));
    renderer.draw_text("xyz", Point::new(2, 7), Size::new(0, 0), Color::new(6, 7, 8));
    renderer.draw_text("", Point::new(0, 0), Size::new(6, 6), Color::new(6, 7, 8));
    let after: Vec<(u32, u32)> = renderer.cells().iter().map(|(_, c)| (c.col, c.row)).collect();
    assert_eq!(before, after);
    assert!(renderer.cells().iter().all(|(previous, _)| previous.quadrant == solid(black())
        && previous.grapheme.is_none()));
}

#[test]
fn draw_background_reads_rgba_pixels() {
    let mut renderer = sized(1, 1);
    let pixels = [10u8, 20, 30, 255].repeat(8);
    renderer.draw_background(&pixels, Size::new(2, 4), Rect::new(0, 0, 2, 4));
    assert_eq!(current(&renderer, 1).quadrant, solid(Color::new(10, 20, 30)));
    assert_eq!(current(&renderer, 0).quadrant, solid(black()));
}

#[test]
fn write_clusters_takes_the_widths_it_is_given() {
    let mut renderer = sized(4, 2);
    let white = Color::new(255, 255, 255);
    let clusters = vec!["ab".to_string(), "c".to_string()];
    renderer.write_clusters(5, &clusters, &vec![2, 1], white);
    assert_eq!(
        grapheme(&renderer, 5),
        Some(&Grapheme { char: "ab".to_string(), index: 0, width: 2, color: white })
    );
    assert_eq!(
        grapheme(&renderer, 6),
        Some(&Grapheme { char: "ab".to_string(), index: 1, width: 2, color: white })
    );
    assert_eq!(grapheme(&renderer, 7).unwrap().char, "c");
    assert!(grapheme(&renderer, 4).is_none());
    // Past the end of the grid nothing is written.
    renderer.write_clusters(11, &clusters, &vec![2, 1], white);
    assert_eq!(grapheme(&renderer, 11).unwrap().index, 0);
    renderer.write_clusters(12, &clusters, &vec![2, 1], white);
}

#[test]
fn scrubbing_twice_is_scrubbing_once() {
    let gray = Color::new(100, 100, 100);
    let mut once = sized(12, 3);
    let mut twice = sized(12, 3);
    once.draw(Rect::new(9, 2, 1, 1), CellOp::Background(gray));
    twice.draw(Rect::new(9, 2, 1, 1), CellOp::Background(gray));
    once.scrub_text_background(1, 1, 0);
    twice.scrub_text_background(1, 1, 0);
    twice.scrub_text_background(1, 1, 0);
    assert_eq!(once.cells(), twice.cells());
    assert_eq!(once.cells()[13].1.quadrant, solid(gray));
}

#[test]
fn normalizing_twice_is_normalizing_once() {
    let mut once = sized(4, 3);
    let mut twice = sized(4, 3);
    for renderer in [&mut once, &mut twice] {
        renderer.draw(Rect::new(0, 1, 2, 1), CellOp::Background(Color::new(20, 10, 0)));
        renderer.draw(Rect::new(2, 1, 2, 1), CellOp::Background(Color::new(40, 0, 0)));
    }
    once.normalize_background_noise();
    twice.normalize_background_noise();
    twice.normalize_background_noise();
    assert_eq!(once.cells(), twice.cells());
    assert_eq!(once.cells()[4].1.quadrant, solid(black()));
    assert_eq!(once.cells()[6].1.quadrant, solid(Color::new(40, 0, 0)));
}
