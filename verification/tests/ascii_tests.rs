use badapple::badframes::{ANSICodes, Frames};

const RAMP: &str = " .:-=+*#%@";

#[test]
fn mapper_boundaries_on_default_ramp() {
    let f = Frames::new(3, 2);
    assert_eq!(f.map_grayscale_to_ascii(0), ' ');
    assert_eq!(f.map_grayscale_to_ascii(27), ' ');
    assert_eq!(f.map_grayscale_to_ascii(28), '.');
    assert_eq!(f.map_grayscale_to_ascii(127), '=');
    assert_eq!(f.map_grayscale_to_ascii(251), '%');
    assert_eq!(f.map_grayscale_to_ascii(252), '@');
    assert_eq!(f.map_grayscale_to_ascii(255), '@');
}

#[test]
fn mapper_covers_full_range_in_bounds_and_monotone() {
    let f = Frames::new(1, 1);
    let ramp: Vec<char> = RAMP.chars().collect();
    let mut last_idx = 0usize;
    let mut seen_last_glyph = false;
    for i in 0..=255u8 {
        let expected_idx = (i as usize) / (255 / (ramp.len() - 1));
        assert!(expected_idx < ramp.len());
        assert!(expected_idx >= last_idx);
        last_idx = expected_idx;
        let c = f.map_grayscale_to_ascii(i);
        assert_eq!(c, ramp[expected_idx]);
        if expected_idx == ramp.len() - 1 {
            seen_last_glyph = true;
        }
    }
    assert!(seen_last_glyph);
}

#[test]
fn mapper_on_custom_ramp() {
    let f = Frames::new_with_ramp(1, 1, vec!['a', 'b', 'c', 'd', 'e']);
    assert_eq!(f.map_grayscale_to_ascii(0), 'a');
    assert_eq!(f.map_grayscale_to_ascii(62), 'a');
    assert_eq!(f.map_grayscale_to_ascii(63), 'b');
    assert_eq!(f.map_grayscale_to_ascii(255), 'e');
}

#[test]
fn render_shape_and_content() {
    let mut f = Frames::new(3, 2);
    let gray: Vec<u8> = vec![0, 255, 0, 255, 0, 255];
    f.render_frame(&gray);
    assert_eq!(f.curr_frame.len(), 2);
    for line in &f.curr_frame {
        assert_eq!(line.chars().count(), 4);
        assert!(line.ends_with('\n'));
    }
    assert_eq!(f.curr_frame[0], " @ \n");
    assert_eq!(f.curr_frame[1], "@ @\n");
}

#[test]
fn render_twice_gives_identical_lines() {
    let gray: Vec<u8> = vec![10, 200, 90, 55, 0, 255];
    let mut f1 = Frames::new(2, 3);
    let mut f2 = Frames::new(2, 3);
    f1.render_frame(&gray);
    f2.render_frame(&gray);
    assert_eq!(f1.curr_frame, f2.curr_frame);
    f1.render_frame(&gray);
    assert_eq!(f1.curr_frame, f2.curr_frame);
}

#[test]
fn render_single_cell() {
    let mut f = Frames::new(1, 1);
    f.render_frame(&vec![255]);
    assert_eq!(f.curr_frame, vec!["@\n".to_string()]);
}

#[test]
fn ansi_sequences_are_the_fixed_codes() {
    assert_eq!(ANSICodes::HideCursor.sequence(), "\x1b[?25l");
    assert_eq!(ANSICodes::ShowCursor.sequence(), "\x1b[?25h");
    assert_eq!(ANSICodes::MoveCursorToStart.sequence(), "\x1b[H");
    assert_eq!(ANSICodes::ClearScreen.sequence(), "\x1b[2J");
}
