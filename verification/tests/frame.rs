use ascii_racer::frame::{checked_cell_index, host_viewport, terminal_viewport, Cell, Frame};

fn cell(ch: char, color: (u8, u8, u8)) -> Cell {
    Cell { ch, color, overlay: false }
}

#[test]
fn plain_frame_string_is_rows_of_characters() {
    let mut frame = Frame::new(3, 2);
    frame.set_cell_at(0, cell('a', (1, 2, 3)));
    frame.set_cell_at(4, cell('b', (1, 2, 3)));
    assert_eq!(frame.frame_string(false), "\x1b[Ha  \x1b[0m\r\n b \x1b[0m\r\n");
}

#[test]
fn colored_frame_string_escapes_only_on_color_change() {
    let mut frame = Frame::new(3, 1);
    frame.set_cell_at(0, cell('x', (255, 0, 7)));
    frame.set_cell_at(1, cell('y', (255, 0, 7)));
    frame.set_cell_at(2, cell('z', (10, 20, 30)));
    assert_eq!(
        frame.frame_string(true),
        "\x1b[H\x1b[38;2;255;0;7mxy\x1b[38;2;10;20;30mz\x1b[0m\r\n"
    );
}

#[test]
fn every_colored_row_starts_with_its_color() {
    let mut frame = Frame::new(1, 2);
    frame.set_cell_at(0, cell('p', (9, 9, 9)));
    frame.set_cell_at(1, cell('q', (9, 9, 9)));
    assert_eq!(
        frame.frame_string(true),
        "\x1b[H\x1b[38;2;9;9;9mp\x1b[0m\r\n\x1b[38;2;9;9;9mq\x1b[0m\r\n"
    );
}

#[test]
fn packed_cells_are_bbggrrcc() {
    let mut frame = Frame::new(2, 1);
    frame.set_cell_at(0, cell('#', (0x11, 0x22, 0x33)));
    let mut out = vec![7, 7, 7, 7];
    frame.write_packed_cells(&mut out);
    assert_eq!(out, vec![0x3322_1123, 0x0000_0020]);
    for packed in &out {
        let ch = (packed & 0xff) as u8 as char;
        assert!(ch == '#' || ch == ' ');
    }
    assert_eq!((out[0] >> 8) & 0xff, 0x11);
    assert_eq!((out[0] >> 16) & 0xff, 0x22);
    assert_eq!(out[0] >> 24, 0x33);
}

#[test]
fn text_is_clipped_at_the_right_edge_and_marked_overlay() {
    let mut frame = Frame::new(5, 2);
    frame.text(3, 1, "HUD");
    let chars: String = (0..10).map(|i| frame.cell_at(i).ch).collect();
    assert_eq!(chars, "        HU");
    assert!(frame.cell_at(8).overlay);
    assert_eq!(frame.cell_at(9).color, (255, 255, 255));
    assert!(!frame.cell_at(7).overlay);
}

#[test]
fn text_outside_the_frame_changes_nothing() {
    let mut frame = Frame::new(4, 2);
    frame.text(0, 2, "abc");
    frame.text(4, 0, "abc");
    for i in 0..8 {
        assert_eq!(frame.cell_at(i).ch, ' ');
        assert!(!frame.cell_at(i).overlay);
    }
}

#[test]
fn resize_and_clear_leave_only_blank_cells() {
    let mut frame = Frame::new(2, 2);
    frame.text(0, 0, "ab");
    frame.resize(3, 1);
    assert_eq!((frame.width(), frame.height()), (3, 1));
    assert_eq!(frame.frame_string(false), "\x1b[H   \x1b[0m\r\n");
    frame.text(0, 0, "xyz");
    frame.clear();
    assert_eq!(frame.frame_string(false), "\x1b[H   \x1b[0m\r\n");
    let blank = Cell::default();
    assert_eq!((blank.ch, blank.color, blank.overlay), (' ', (0, 0, 0), false));
}

#[test]
fn cell_indices_and_viewports() {
    assert_eq!(checked_cell_index(2, 1, 5, 10), Some(7));
    assert_eq!(checked_cell_index(5, 0, 5, 10), None);
    assert_eq!(checked_cell_index(0, 2, 5, 10), None);
    assert_eq!(checked_cell_index(1, usize::MAX, 5, 10), None);
    assert_eq!(terminal_viewport(101, 35), (100, 34));
    assert_eq!(terminal_viewport(0, 1), (1, 1));
    assert_eq!(host_viewport(0, 40), (1, 40));
}
