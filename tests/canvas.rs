use text_canvas::{HPos, PixelState, TextDrawingBackend, VPos, FILLED_CHAR};

fn merged(current: PixelState, incoming: PixelState) -> PixelState {
    let mut cell = current;
    cell.update(incoming);
    cell
}

fn row(canvas: &TextDrawingBackend, y: usize) -> Vec<char> {
    canvas.render_lines()[y].chars().collect()
}

#[test]
fn reduce_follows_the_priority_ladder() {
    assert_eq!(merged(PixelState::HLine, PixelState::VLine), PixelState::Cross);
    assert_eq!(merged(PixelState::VLine, PixelState::HLine), PixelState::Cross);
    assert_eq!(merged(PixelState::Filled, PixelState::Text('x')), PixelState::Filled);
    assert_eq!(merged(PixelState::Text('x'), PixelState::Filled), PixelState::Filled);
    assert_eq!(merged(PixelState::Text('x'), PixelState::Text('y')), PixelState::Text('y'));
    assert_eq!(merged(PixelState::Circle(true), PixelState::Filled), PixelState::Filled);
    assert_eq!(merged(PixelState::Pixel, PixelState::Circle(false)), PixelState::Circle(false));
    assert_eq!(merged(PixelState::Circle(true), PixelState::Pixel), PixelState::Circle(true));
    assert_eq!(merged(PixelState::Circle(true), PixelState::Circle(false)), PixelState::Circle(false));
    assert_eq!(merged(PixelState::HLine, PixelState::Pixel), PixelState::Pixel);
    assert_eq!(merged(PixelState::Pixel, PixelState::Text('q')), PixelState::Pixel);
    assert_eq!(merged(PixelState::Empty, PixelState::HLine), PixelState::HLine);
    assert_eq!(merged(PixelState::HLine, PixelState::HLine), PixelState::HLine);
    assert_eq!(merged(PixelState::Cross, PixelState::VLine), PixelState::VLine);
    assert_eq!(merged(PixelState::HLine, PixelState::Text('a')), PixelState::Text('a'));
    assert_eq!(merged(PixelState::Text('a'), PixelState::Empty), PixelState::Empty);
}

#[test]
fn reduce_is_deterministic() {
    let all = [
        PixelState::Empty,
        PixelState::HLine,
        PixelState::VLine,
        PixelState::Cross,
        PixelState::Pixel,
        PixelState::Filled,
        PixelState::Text('z'),
        PixelState::Circle(true),
        PixelState::Circle(false),
    ];
    for a in all.iter() {
        for b in all.iter() {
            assert_eq!(merged(*a, *b), merged(*a, *b));
        }
    }
}

#[test]
fn marks_render_as_their_characters() {
    assert_eq!(PixelState::Empty.to_char(), ' ');
    assert_eq!(PixelState::HLine.to_char(), '-');
    assert_eq!(PixelState::VLine.to_char(), '|');
    assert_eq!(PixelState::Cross.to_char(), '+');
    assert_eq!(PixelState::Pixel.to_char(), '.');
    assert_eq!(PixelState::Text('k').to_char(), 'k');
    assert_eq!(PixelState::Circle(true).to_char(), '@');
    assert_eq!(PixelState::Circle(false).to_char(), 'O');
    assert_eq!(PixelState::Filled.to_char(), '\u{2588}');
    assert_eq!(FILLED_CHAR, '\u{2588}');
}

#[test]
fn fresh_canvas_renders_blank() {
    let canvas = TextDrawingBackend::new(4, 3);
    assert_eq!(canvas.get_size(), (4, 3));
    let lines = canvas.render_lines();
    assert_eq!(lines, vec!["    ".to_string(), "    ".to_string(), "    ".to_string()]);
}

#[test]
fn zero_sized_canvas_renders_nothing_and_ignores_drawing() {
    let mut canvas = TextDrawingBackend::new(0, 0);
    canvas.draw_pixel((1, 1), true);
    canvas.draw_rect((0, 0), (3, 3));
    assert!(canvas.draw_line((0, 0), (0, 5)));
    canvas.draw_text("hi", HPos::Left, VPos::Top, (0, 0));
    assert!(canvas.render_lines().is_empty());
    assert_eq!(canvas.cell_at(0, 0), None);
}

#[test]
fn horizontal_line_is_half_open() {
    let mut canvas = TextDrawingBackend::new(10, 10);
    assert!(canvas.draw_line((1, 2), (5, 2)));
    for y in 0..10u32 {
        for x in 0..10u32 {
            let expected = if y == 2 && (1..=4).contains(&x) {
                PixelState::HLine
            } else {
                PixelState::Empty
            };
            assert_eq!(canvas.cell_at(x, y), Some(expected));
        }
    }
    assert_eq!(canvas.render_lines()[2], " ----     ");
}

#[test]
fn vertical_line_is_half_open_in_either_direction() {
    let mut canvas = TextDrawingBackend::new(4, 5);
    assert!(canvas.draw_line((2, 4), (2, 1)));
    let lines = canvas.render_lines();
    assert_eq!(lines, vec!["    ", "  | ", "  | ", "  | ", "    "]);
}

#[test]
fn crossing_in_either_order() {
    let mut first = TextDrawingBackend::new(5, 5);
    first.draw_line((2, 0), (2, 5));
    first.draw_line((0, 2), (5, 2));
    let mut second = TextDrawingBackend::new(5, 5);
    second.draw_line((0, 2), (5, 2));
    second.draw_line((2, 0), (2, 5));
    assert_eq!(first.cell_at(2, 2), Some(PixelState::Cross));
    assert_eq!(row(&first, 2)[2], '+');
    assert_eq!(row(&second, 2)[2], '+');
    assert_eq!(first.render_lines(), second.render_lines());
    assert_eq!(first.render_lines()[2], "--+--");
}

#[test]
fn filled_rectangle_absorbs_later_marks() {
    let mut canvas = TextDrawingBackend::new(10, 10);
    canvas.draw_rect((2, 2), (4, 4));
    let mut filled = 0;
    for y in 0..10u32 {
        for x in 0..10u32 {
            let inside = (2..=4).contains(&x) && (2..=4).contains(&y);
            let cell = canvas.cell_at(x, y).unwrap();
            if inside {
                assert_eq!(cell, PixelState::Filled);
                filled += 1;
            } else {
                assert_eq!(cell, PixelState::Empty);
            }
        }
    }
    assert_eq!(filled, 9);
    canvas.draw_pixel((3, 3), true);
    canvas.draw_line((0, 3), (9, 3));
    canvas.draw_text("x", HPos::Left, VPos::Top, (3, 3));
    assert_eq!(canvas.cell_at(3, 3), Some(PixelState::Filled));
    assert_eq!(row(&canvas, 3)[3], FILLED_CHAR);
    assert_eq!(row(&canvas, 3)[1], '-');
}

#[test]
fn invisible_pixel_changes_nothing_and_visible_one_shows_a_dot() {
    let mut canvas = TextDrawingBackend::new(6, 6);
    canvas.draw_pixel((3, 3), false);
    assert_eq!(canvas.render_lines(), TextDrawingBackend::new(6, 6).render_lines());
    canvas.draw_pixel((3, 3), true);
    assert_eq!(canvas.render_lines()[3], "   .  ");
    assert_eq!(canvas.cell_at(3, 3), Some(PixelState::Pixel));
}

#[test]
fn left_top_text_starts_at_its_position() {
    let mut canvas = TextDrawingBackend::new(5, 5);
    canvas.draw_text("AB", HPos::Left, VPos::Top, (0, 0));
    assert_eq!(canvas.cell_at(0, 0), Some(PixelState::Text('A')));
    assert_eq!(canvas.cell_at(1, 0), Some(PixelState::Text('B')));
    assert_eq!(canvas.render_lines()[0], "AB   ");
}

#[test]
fn right_anchored_text_ends_at_its_position() {
    let mut canvas = TextDrawingBackend::new(5, 5);
    canvas.draw_text("AB", HPos::Right, VPos::Top, (4, 0));
    assert_eq!(canvas.render_lines()[0], "  AB ");
}

#[test]
fn centered_and_bottom_anchored_text() {
    let mut canvas = TextDrawingBackend::new(5, 3);
    canvas.draw_text("ABC", HPos::Center, VPos::Center, (2, 1));
    assert_eq!(canvas.render_lines()[1], " ABC ");
    canvas.draw_text("xy", HPos::Left, VPos::Bottom, (0, 1));
    assert_eq!(canvas.render_lines()[0], "xy   ");
}

#[test]
fn text_anchored_before_the_grid_starts_at_its_edge() {
    let mut canvas = TextDrawingBackend::new(5, 2);
    canvas.draw_text("ABCD", HPos::Right, VPos::Bottom, (1, 0));
    assert_eq!(canvas.render_lines()[0], "ABCD ");
}

#[test]
fn text_spills_into_the_next_row_and_drops_past_the_end() {
    let mut canvas = TextDrawingBackend::new(5, 2);
    canvas.draw_text("XYZ", HPos::Left, VPos::Top, (4, 0));
    assert_eq!(canvas.render_lines(), vec!["    X", "YZ   "]);
    canvas.draw_text("abcdef", HPos::Left, VPos::Top, (2, 1));
    assert_eq!(canvas.render_lines(), vec!["    X", "YZabc"]);
    canvas.draw_text("far", HPos::Left, VPos::Top, (0, 7));
    assert_eq!(canvas.render_lines(), vec!["    X", "YZabc"]);
}

#[test]
fn text_size_counts_characters() {
    let canvas = TextDrawingBackend::new(3, 3);
    assert_eq!(canvas.estimate_text_size("h\u{e9}llo"), (5, 1));
    assert_eq!(canvas.estimate_text_size(""), (0, 1));
}

#[test]
fn unicode_text_takes_one_cell_per_character() {
    let mut canvas = TextDrawingBackend::new(4, 1);
    canvas.draw_text("\u{e9}\u{3bb}", HPos::Right, VPos::Top, (4, 0));
    assert_eq!(canvas.render_lines()[0], "  \u{e9}\u{3bb}");
}

#[test]
fn pixel_outside_the_grid_clamps_to_the_edge() {
    let mut canvas = TextDrawingBackend::new(4, 4);
    canvas.draw_pixel((-5, 100), true);
    assert_eq!(canvas.cell_at(0, 3), Some(PixelState::Pixel));
    canvas.draw_pixel((i32::MAX, i32::MIN), true);
    assert_eq!(canvas.cell_at(3, 0), Some(PixelState::Pixel));
    assert_eq!(canvas.render_lines(), vec!["   .", "    ", "    ", ".   "]);
}

#[test]
fn rectangle_outside_the_grid_clamps_to_the_edge() {
    let mut canvas = TextDrawingBackend::new(3, 2);
    canvas.draw_rect((-3, -3), (10, 10));
    let full: String = std::iter::repeat(FILLED_CHAR).take(3).collect();
    assert_eq!(canvas.render_lines(), vec![full.clone(), full]);

    let mut edge = TextDrawingBackend::new(3, 2);
    edge.draw_rect((3, 0), (9, 9));
    assert_eq!(edge.render_lines(), vec!["   ", "   "]);
}

#[test]
fn lines_outside_the_grid_clamp_to_the_edge() {
    let mut canvas = TextDrawingBackend::new(4, 4);
    assert!(canvas.draw_line((-2, -1), (-2, 9)));
    assert_eq!(canvas.render_lines(), vec!["|   ", "|   ", "|   ", "|   "]);

    let mut other = TextDrawingBackend::new(4, 4);
    assert!(other.draw_line((i32::MIN, 50), (i32::MAX, 50)));
    assert_eq!(other.render_lines(), vec!["    ", "    ", "    ", "----"]);

    let mut point = TextDrawingBackend::new(4, 4);
    assert!(point.draw_line((1, 1), (1, 1)));
    assert_eq!(point.render_lines(), TextDrawingBackend::new(4, 4).render_lines());
}

#[test]
fn diagonal_line_is_left_to_the_caller() {
    let mut canvas = TextDrawingBackend::new(4, 4);
    assert!(!canvas.draw_line((0, 0), (3, 3)));
    assert_eq!(canvas.render_lines(), TextDrawingBackend::new(4, 4).render_lines());
}

#[test]
fn render_does_not_change_the_grid() {
    let mut canvas = TextDrawingBackend::new(3, 2);
    canvas.draw_text("ok", HPos::Left, VPos::Top, (0, 1));
    let first = canvas.render_lines();
    let second = canvas.render_lines();
    assert_eq!(first, second);
    assert_eq!(first, vec!["   ", "ok "]);
}

#[test]
fn cells_outside_the_grid_are_absent() {
    let canvas = TextDrawingBackend::new(3, 2);
    assert_eq!(canvas.cell_at(2, 1), Some(PixelState::Empty));
    assert_eq!(canvas.cell_at(3, 0), None);
    assert_eq!(canvas.cell_at(0, 2), None);
}
