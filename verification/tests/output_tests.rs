use warp_foss::terminal::grid::{Cursor, TerminalGrid};
use warp_foss::terminal::parser::{OutputCommand, ParserEvent, ParserState, TerminalParser};

fn row(grid: &TerminalGrid, r: usize) -> String {
    grid.row_to_string(r).trim_end().to_string()
}

#[test]
fn test_output_text_and_newlines_reach_grid() {
    let mut parser = TerminalParser::with_size(10, 3);
    let mut grid = TerminalGrid::with_size(10, 3);
    parser.parse_bytes_with_output(b"hi\r\nyo", &mut grid);
    assert_eq!(row(&grid, 0), "hi");
    assert_eq!(row(&grid, 1), "yo");
    assert_eq!(grid.cursor(), Cursor { row: 1, col: 2 });
    assert_eq!(parser.cursor_position().row, 1);
    assert_eq!(parser.cursor_position().col, 0);
}

#[test]
fn test_output_cursor_position_and_relative_moves() {
    let mut parser = TerminalParser::with_size(20, 10);
    let mut grid = TerminalGrid::with_size(20, 10);
    parser.parse_bytes_with_output(b"\x1b[3;5H", &mut grid);
    assert_eq!(grid.cursor(), Cursor { row: 2, col: 4 });
    parser.parse_bytes_with_output(b"\x1b[2B\x1b[3C", &mut grid);
    assert_eq!(grid.cursor(), Cursor { row: 4, col: 7 });
    parser.parse_bytes_with_output(b"\x1b[100A", &mut grid);
    assert_eq!(grid.cursor(), Cursor { row: 0, col: 7 });
    parser.parse_bytes_with_output(b"\x1b[100C", &mut grid);
    assert_eq!(grid.cursor(), Cursor { row: 0, col: 19 });
    parser.parse_bytes_with_output(b"\x1b[4G", &mut grid);
    assert_eq!(grid.cursor(), Cursor { row: 0, col: 3 });
    assert_eq!(parser.cursor_position().col, 3);
}

#[test]
fn test_output_scroll_region_and_linefeed() {
    let mut parser = TerminalParser::with_size(10, 5);
    let mut grid = TerminalGrid::with_size(10, 5);
    parser.parse_bytes_with_output(b"a\r\nb\r\nc\r\nd\r\ne", &mut grid);
    assert_eq!(row(&grid, 4), "e");
    // Region rows 2..=3 (1-indexed), cursor homes to the top-left.
    parser.parse_bytes_with_output(b"\x1b[2;3r", &mut grid);
    assert_eq!(parser.state.scroll_region_top, 1);
    assert_eq!(parser.state.scroll_region_bottom, 2);
    assert_eq!(grid.cursor(), Cursor { row: 0, col: 0 });
    // A line feed on the region's bottom line scrolls only the region: the
    // parser asks for a scroll, then the grid's own region line feed scrolls
    // once more from the same bottom line.
    parser.parse_bytes_with_output(b"\x1b[3;1H\n", &mut grid);
    assert_eq!(row(&grid, 0), "a");
    assert_eq!(row(&grid, 1), "");
    assert_eq!(row(&grid, 2), "");
    assert_eq!(row(&grid, 3), "d");
    assert_eq!(row(&grid, 4), "e");
}

#[test]
fn test_output_full_reset_clears_grid() {
    let mut parser = TerminalParser::with_size(10, 3);
    let mut grid = TerminalGrid::with_size(10, 3);
    parser.parse_bytes_with_output(b"xyz\x1b[1m\x1bc", &mut grid);
    assert_eq!(row(&grid, 0), "");
    assert_eq!(grid.cursor(), Cursor { row: 0, col: 0 });
    assert!(!parser.attributes().bold);
}

#[test]
fn test_output_erase_line_and_display() {
    let mut parser = TerminalParser::with_size(10, 3);
    let mut grid = TerminalGrid::with_size(10, 3);
    parser.parse_bytes_with_output(b"hello\x1b[1;3H\x1b[K", &mut grid);
    assert_eq!(row(&grid, 0), "he");
    parser.parse_bytes_with_output(b"\x1b[2J", &mut grid);
    assert_eq!(row(&grid, 0), "");
    assert_eq!(grid.cursor(), Cursor { row: 0, col: 0 });
}

#[test]
fn test_output_commands_for_events() {
    let mut state = ParserState::default();
    state.set_terminal_size(24);
    let cmds = state.output_step(&ParserEvent::Print('x'), 80, 24);
    assert_eq!(cmds, vec![OutputCommand::PutChar('x')]);
    let cmds = state.output_step(&ParserEvent::Execute(0x0A), 80, 24);
    assert_eq!(cmds, vec![OutputCommand::LinefeedInRegion { top: 0, bottom: 23 }]);
    assert_eq!(state.cursor.row, 1);
    let cmds = state.output_step(
        &ParserEvent::Csi { params: vec![vec![2]], action: 'A' },
        80,
        24,
    );
    assert_eq!(cmds, vec![OutputCommand::CursorUp { n: 2, min_row: 0 }]);
    assert_eq!(state.cursor.row, 0);
    let cmds = state.output_step(&ParserEvent::Esc(b'M'), 80, 24);
    assert_eq!(cmds, vec![OutputCommand::ScrollDownInRegion { n: 1, top: 0, bottom: 23 }]);
    let cmds = state.output_step(&ParserEvent::Execute(0x09), 80, 24);
    assert_eq!(cmds, vec![OutputCommand::Tab]);
    assert_eq!(state.cursor.col, 8);
}

#[test]
fn test_parse_bytes_to_commands_in_order() {
    let mut parser = TerminalParser::with_size(80, 24);
    let cmds = parser.parse_bytes_to_commands(b"a\x1b[5;7H\x1b[2K");
    assert_eq!(
        cmds,
        vec![
            OutputCommand::PutChar('a'),
            OutputCommand::MoveCursor { row: 4, col: 6 },
            OutputCommand::EraseInLine(2),
        ]
    );
}

#[test]
fn test_output_save_restore_with_region() {
    let mut parser = TerminalParser::with_size(80, 24);
    let mut grid = TerminalGrid::with_size(80, 24);
    parser.parse_bytes_with_output(b"\x1b[5;15r\x1b[3;4H\x1b7\x1b[r\x1b[10;10H\x1b8", &mut grid);
    assert_eq!(parser.state.scroll_region_top, 4);
    assert_eq!(parser.state.scroll_region_bottom, 14);
    assert_eq!(grid.cursor(), Cursor { row: 2, col: 3 });
}

#[test]
fn test_output_and_plain_parsing_agree_on_pen() {
    let bytes: &[u8] = b"\x1b[1;31mred\x1b[4m\x1b[6n\x1b]7;file://h/tmp\x07\x1b[2J";
    let mut plain = TerminalParser::with_size(40, 10);
    plain.parse_bytes(bytes);
    let mut fed = TerminalParser::with_size(40, 10);
    let mut grid = TerminalGrid::with_size(40, 10);
    fed.parse_bytes_with_output(bytes, &mut grid);
    assert_eq!(plain.attributes(), fed.attributes());
    assert_eq!(plain.foreground_color(), fed.foreground_color());
    assert_eq!(plain.background_color(), fed.background_color());
    assert_eq!(plain.get_current_directory(), fed.get_current_directory());
    assert_eq!(plain.state.responses_as_bytes(), fed.state.responses_as_bytes());
}
