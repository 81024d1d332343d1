use braille_draw::braille::BraileChar;
use braille_draw::drawing::{Drawing, CHAR_HEIGHT, CHAR_WIDTH};

#[test]
fn test_braile_render() {
    let mut braile_char = BraileChar::new();
    assert_eq!(braile_char.set_pixel(0, 0, CHAR_WIDTH, CHAR_HEIGHT), true);
    assert_eq!(braile_char.render(), '⠁');

    let mut braile_char = BraileChar::new();
    assert_eq!(braile_char.set_pixel(CHAR_WIDTH / 2, CHAR_HEIGHT * 3 / 4, CHAR_WIDTH, CHAR_HEIGHT), true);
    assert_eq!(braile_char.render(), '⢀');
}

#[test]
fn test_drawing_render() {
    let mut drawing = Drawing::new(12, 60);
    drawing.update(0, 0);
    assert_eq!(drawing.cell(0, 0).render(), '⠁');
    drawing.update(CHAR_WIDTH, 0);
    assert_eq!(drawing.cell(0, 1).render(), '⠁');
    drawing.update(0, CHAR_HEIGHT);
    assert_eq!(drawing.cell(1, 0).render(), '⠁');
}

#[test]
fn blank_cell_renders_empty_pattern() {
    assert_eq!(BraileChar::new().render(), '\u{2800}');
}

#[test]
fn each_sub_cell_sets_its_own_dot() {
    // (x, y) in a 16 by 32 cell, and the code point with only that dot raised
    let cases: [(u32, u32, u32); 8] = [
        (0, 0, 0x2801),
        (0, 8, 0x2802),
        (0, 16, 0x2804),
        (0, 24, 0x2840),
        (8, 0, 0x2808),
        (8, 8, 0x2810),
        (15, 23, 0x2820),
        (15, 31, 0x2880),
    ];
    for (x, y, code) in cases {
        let mut cell = BraileChar::new();
        assert!(cell.set_pixel(x, y, 16, 32));
        assert_eq!(cell.render() as u32, code);
    }
}

#[test]
fn every_dot_set_gives_full_pattern() {
    let mut cell = BraileChar::new();
    for x in [0u32, 8] {
        for y in [0u32, 8, 16, 24] {
            assert!(cell.set_pixel(x, y, 16, 32));
        }
    }
    assert_eq!(cell.render(), '⣿');
    let g = cell.render() as u32;
    assert!((0x2800..0x2900).contains(&g));
}

#[test]
fn repeated_hit_reports_change_once() {
    let mut cell = BraileChar::new();
    assert!(cell.set_pixel(3, 20, 16, 32));
    assert!(!cell.set_pixel(3, 20, 16, 32));
    assert!(!cell.set_pixel(3, 20, 16, 32));
    // another pixel of the same dot
    assert!(!cell.set_pixel(7, 23, 16, 32));
    assert_eq!(cell.render(), '⠄');
}

#[test]
fn hit_beyond_cell_is_ignored() {
    let mut cell = BraileChar::new();
    assert!(!cell.set_pixel(16, 0, 16, 32));
    assert!(!cell.set_pixel(0, 32, 16, 32));
    assert_eq!(cell.render(), '\u{2800}');
}

#[test]
fn fresh_drawing_owes_one_frame() {
    let mut drawing = Drawing::new(2, 3);
    assert!(drawing.is_dirty());
    let frame = drawing.draw();
    assert_eq!(frame, Some(String::from("┌───┐\n│⠀⠀⠀│\n│⠀⠀⠀│\n└───┘\n")));
    assert!(!drawing.is_dirty());
    assert_eq!(drawing.draw(), None);
}

#[test]
fn frame_shows_written_dots() {
    let mut drawing = Drawing::new(2, 2);
    assert!(drawing.draw().is_some());
    drawing.update(16 + 8, 32 + 24);
    drawing.update(0, 0);
    assert!(drawing.is_dirty());
    assert_eq!(drawing.draw(), Some(String::from("┌──┐\n│⠁⠀│\n│⠀⢀│\n└──┘\n")));
    assert_eq!(drawing.draw(), None);
}

#[test]
fn rewriting_same_dot_owes_no_frame() {
    let mut drawing = Drawing::new(1, 1);
    drawing.update(1, 1);
    assert!(drawing.draw().is_some());
    drawing.update(2, 2);
    assert!(!drawing.is_dirty());
    assert_eq!(drawing.draw(), None);
}

#[test]
fn write_beyond_grid_changes_nothing() {
    let mut drawing = Drawing::new(2, 3);
    assert!(drawing.draw().is_some());
    drawing.update(3 * CHAR_WIDTH, 0);
    drawing.update(0, 2 * CHAR_HEIGHT);
    drawing.update(u32::MAX, u32::MAX);
    assert!(!drawing.is_dirty());
    for row in 0..2 {
        for col in 0..3 {
            assert_eq!(drawing.cell(row, col).render(), '\u{2800}');
        }
    }
    assert_eq!(drawing.draw(), None);
}

#[test]
fn empty_grid_frame_is_bare_border() {
    let mut drawing = Drawing::new(0, 0);
    assert_eq!(drawing.rows(), 0);
    assert_eq!(drawing.columns(), 0);
    assert_eq!(drawing.draw(), Some(String::from("┌┐\n└┘\n")));
}

#[test]
fn cell_pixel_outside_grid_is_ignored() {
    let mut drawing = Drawing::new(1, 1);
    assert!(drawing.draw().is_some());
    assert!(!drawing.set_cell_pixel(1, 0, 0, 0, 16, 32));
    assert!(!drawing.set_cell_pixel(0, 1, 0, 0, 16, 32));
    assert!(!drawing.is_dirty());
    assert!(drawing.set_cell_pixel(0, 0, 10, 30, 20, 40));
    assert!(drawing.is_dirty());
    assert_eq!(drawing.cell(0, 0).render(), '⢀');
}

#[test]
fn pointer_step_writes_positive_positions_only() {
    let mut drawing = Drawing::new(2, 2);
    assert!(drawing.on_pointer(0, 5).is_some());
    assert_eq!(drawing.on_pointer(0, 5), None);
    assert_eq!(drawing.on_pointer(-3, 40), None);
    assert_eq!(drawing.on_pointer(17, 33), Some(String::from("┌──┐\n│⠀⠀│\n│⠀⠁│\n└──┘\n")));
    assert_eq!(drawing.on_pointer(17, 33), None);
}
