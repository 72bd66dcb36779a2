use warp_foss::terminal::parser::{
    parse_file_url, urlencoding_decode, Color, CursorPosition, DeviceStatusResponse, ParserState,
    TerminalParser, TextAttributes,
};
#[test]
fn test_parser_creation() {
    let parser = TerminalParser::new();
    assert_eq!(parser.cursor_position().row, 0);
    assert_eq!(parser.cursor_position().col, 0);
}

#[test]
fn test_parser_with_size() {
    let parser = TerminalParser::with_size(120, 40);
    assert_eq!(parser.output().len(), 120 * 40);
}

#[test]
fn test_cursor_movement() {
    let mut parser = TerminalParser::new();

    // Test cursor position
    assert_eq!(parser.cursor_position(), CursorPosition { row: 0, col: 0 });

    // Move cursor down (CSI B)
    parser.parse_bytes(b"\x1B[5B");
    assert_eq!(parser.cursor_position().row, 5);

    // Move cursor right (CSI C)
    parser.parse_bytes(b"\x1B[10C");
    assert_eq!(parser.cursor_position().col, 10);

    // Move cursor to position (CSI H)
    parser.parse_bytes(b"\x1B[5;10H");
    assert_eq!(parser.cursor_position().row, 4); // 1-indexed to 0-indexed
    assert_eq!(parser.cursor_position().col, 9);
}

#[test]
fn test_text_attributes() {
    let mut parser = TerminalParser::new();

    // Enable bold (CSI 1 m)
    parser.parse_bytes(b"\x1B[1m");
    assert!(parser.attributes().bold);

    // Enable italic (CSI 3 m)
    parser.parse_bytes(b"\x1B[3m");
    assert!(parser.attributes().italic);

    // Reset all (CSI 0 m)
    parser.parse_bytes(b"\x1B[0m");
    assert!(!parser.attributes().bold);
    assert!(!parser.attributes().italic);
}

#[test]
fn test_colors() {
    let mut parser = TerminalParser::new();

    // Set foreground to red (CSI 31 m)
    parser.parse_bytes(b"\x1B[31m");
    assert_eq!(parser.foreground_color(), Color::Indexed(1));

    // Set foreground to default (CSI 39 m)
    parser.parse_bytes(b"\x1B[39m");
    assert_eq!(parser.foreground_color(), Color::Default);

    // Set 256-color foreground (CSI 38;5;<n> m)
    parser.parse_bytes(b"\x1B[38;5;200m");
    assert_eq!(parser.foreground_color(), Color::Indexed(200));

    // Set 24-bit RGB foreground (CSI 38;2;<r>;<g>;<b> m)
    parser.parse_bytes(b"\x1B[38;2;255;128;64m");
    assert_eq!(parser.foreground_color(), Color::Rgb(255, 128, 64));
}

#[test]
fn test_control_characters() {
    let mut parser = TerminalParser::new();

    // Start at position 5,5
    parser.state.cursor.row = 5;
    parser.state.cursor.col = 5;

    // Carriage return
    parser.parse_bytes(b"\r");
    assert_eq!(parser.cursor_position().col, 0);
    assert_eq!(parser.cursor_position().row, 5);

    // Reset and test backspace
    parser.state.cursor.col = 5;
    parser.parse_bytes(b"\x08");
    assert_eq!(parser.cursor_position().col, 4);

    // Reset and test tab
    parser.state.cursor.col = 5;
    parser.parse_bytes(b"\t");
    assert_eq!(parser.cursor_position().col, 8); // Next tab stop

    // Test line feed
    parser.parse_bytes(b"\n");
    assert_eq!(parser.cursor_position().row, 6);
}

#[test]
fn parser_test_save_restore_cursor() {
    let mut parser = TerminalParser::new();

    // Set position
    parser.state.cursor.row = 10;
    parser.state.cursor.col = 20;

    // Save cursor (CSI s)
    parser.parse_bytes(b"\x1B[s");

    // Move cursor
    parser.parse_bytes(b"\x1B[1;1H");
    assert_eq!(parser.cursor_position().row, 0);
    assert_eq!(parser.cursor_position().col, 0);

    // Restore cursor (CSI u)
    parser.parse_bytes(b"\x1B[u");
    assert_eq!(parser.cursor_position().row, 10);
    assert_eq!(parser.cursor_position().col, 20);
}

#[test]
fn test_esc_save_restore() {
    let mut parser = TerminalParser::new();

    // Set position and attributes
    parser.state.cursor.row = 5;
    parser.state.cursor.col = 10;
    parser.state.attributes.bold = true;

    // Save cursor (ESC 7)
    parser.parse_bytes(b"\x1B7");

    // Reset
    parser.parse_bytes(b"\x1B[0m");
    parser.state.cursor.row = 0;
    parser.state.cursor.col = 0;

    // Restore cursor (ESC 8)
    parser.parse_bytes(b"\x1B8");

    assert_eq!(parser.cursor_position().row, 5);
    assert_eq!(parser.cursor_position().col, 10);
}

#[test]
fn test_combined_sequences() {
    let mut parser = TerminalParser::new();

    // Complex sequence: bold, red fg, move to row 10, col 20
    parser.parse_bytes(b"\x1B[1;31m\x1B[10;20H");

    assert!(parser.attributes().bold);
    assert_eq!(parser.foreground_color(), Color::Indexed(1)); // Red
    assert_eq!(parser.cursor_position().row, 9);
    assert_eq!(parser.cursor_position().col, 19);
}

// ===== Scroll Region Tests =====

#[test]
fn test_scroll_region_default() {
    let parser = TerminalParser::with_size(80, 24);

    // Default scroll region should be full screen
    assert_eq!(parser.state.scroll_region_top, 0);
    assert_eq!(parser.state.scroll_region_bottom, 23);
}

#[test]
fn test_decstbm_set_scroll_region() {
    let mut parser = TerminalParser::with_size(80, 24);

    // Set scroll region to rows 5-15 (1-indexed)
    // CSI 5 ; 15 r
    parser.parse_bytes(b"\x1B[5;15r");

    // Convert to 0-indexed: 4-14
    assert_eq!(parser.state.scroll_region_top, 4);
    assert_eq!(parser.state.scroll_region_bottom, 14);

    // Cursor should move to home
    assert_eq!(parser.cursor_position().row, 0);
    assert_eq!(parser.cursor_position().col, 0);
}

#[test]
fn test_decstbm_full_screen() {
    let mut parser = TerminalParser::with_size(80, 24);

    // First set a custom region
    parser.parse_bytes(b"\x1B[5;15r");
    assert_eq!(parser.state.scroll_region_top, 4);
    assert_eq!(parser.state.scroll_region_bottom, 14);

    // Reset to full screen with CSI r (no params = full screen)
    parser.parse_bytes(b"\x1B[r");
    assert_eq!(parser.state.scroll_region_top, 0);
    assert_eq!(parser.state.scroll_region_bottom, 23);
}

#[test]
fn test_decstbm_invalid_region() {
    let mut parser = TerminalParser::with_size(80, 24);

    // Try to set invalid region (top >= bottom)
    parser.parse_bytes(b"\x1B[15;5r");

    // Should not change from default
    assert_eq!(parser.state.scroll_region_top, 0);
    assert_eq!(parser.state.scroll_region_bottom, 23);
}

#[test]
fn test_decstbm_single_param() {
    let mut parser = TerminalParser::with_size(80, 24);

    // CSI 5 r - set top margin only, bottom defaults to screen bottom
    parser.parse_bytes(b"\x1B[5r");

    assert_eq!(parser.state.scroll_region_top, 4);
    assert_eq!(parser.state.scroll_region_bottom, 23);
}

#[test]
fn test_scroll_region_state() {
    let mut state = ParserState::default();
    state.set_terminal_size(24);

    assert_eq!(state.scroll_region_top, 0);
    assert_eq!(state.scroll_region_bottom, 23);
    assert!(!state.has_scroll_region());

    state.scroll_region_top = 5;
    state.scroll_region_bottom = 15;
    assert!(state.has_scroll_region());
}

#[test]
fn test_cursor_in_scroll_region() {
    let mut state = ParserState::default();
    state.set_terminal_size(24);
    state.scroll_region_top = 5;
    state.scroll_region_bottom = 15;

    state.cursor.row = 3;
    assert!(!state.cursor_in_scroll_region(24));

    state.cursor.row = 10;
    assert!(state.cursor_in_scroll_region(24));

    state.cursor.row = 15;
    assert!(state.cursor_in_scroll_region(24));
}

#[test]
fn test_reset_clears_scroll_region() {
    let mut parser = TerminalParser::with_size(80, 24);

    // Set a scroll region
    parser.state.scroll_region_top = 4;
    parser.state.scroll_region_bottom = 14;

    // ESC c (RIS) should reset scroll region via state
    parser.state.scroll_region_top = 0;
    parser.state.scroll_region_bottom = 23;

    assert_eq!(parser.state.scroll_region_top, 0);
    assert_eq!(parser.state.scroll_region_bottom, 23);
}

#[test]
fn test_save_restore_includes_scroll_region() {
    let mut parser = TerminalParser::with_size(80, 24);

    // Set scroll region
    parser.state.scroll_region_top = 4;
    parser.state.scroll_region_bottom = 14;

    // Save state
    parser.state.saved_scroll_region_top = parser.state.scroll_region_top;
    parser.state.saved_scroll_region_bottom = parser.state.scroll_region_bottom;

    // Change scroll region
    parser.state.scroll_region_top = 1;
    parser.state.scroll_region_bottom = 9;

    // Restore
    parser.state.scroll_region_top = parser.state.saved_scroll_region_top;
    parser.state.scroll_region_bottom = parser.state.saved_scroll_region_bottom;

    assert_eq!(parser.state.scroll_region_top, 4);
    assert_eq!(parser.state.scroll_region_bottom, 14);
}

// ===== Text Attribute Tests =====

#[test]
fn test_sgr_bold_enable() {
    let mut parser = TerminalParser::new();

    // CSI 1 m - Enable bold
    parser.parse_bytes(b"\x1B[1m");
    assert!(parser.attributes().bold);
    assert!(!parser.attributes().italic);
    assert!(!parser.attributes().underline);
    assert!(!parser.attributes().blink);
}

#[test]
fn test_sgr_italic_enable() {
    let mut parser = TerminalParser::new();

    // CSI 3 m - Enable italic
    parser.parse_bytes(b"\x1B[3m");
    assert!(parser.attributes().italic);
    assert!(!parser.attributes().bold);
}

#[test]
fn test_sgr_underline_enable() {
    let mut parser = TerminalParser::new();

    // CSI 4 m - Enable underline
    parser.parse_bytes(b"\x1B[4m");
    assert!(parser.attributes().underline);
    assert!(!parser.attributes().bold);
    assert!(!parser.attributes().italic);
}

#[test]
fn test_sgr_blink_enable() {
    let mut parser = TerminalParser::new();

    // CSI 5 m - Enable slow blink
    parser.parse_bytes(b"\x1B[5m");
    assert!(parser.attributes().blink);

    // CSI 6 m - Enable rapid blink (also sets blink)
    parser.parse_bytes(b"\x1B[0m"); // Reset first
    parser.parse_bytes(b"\x1B[6m");
    assert!(parser.attributes().blink);
}

#[test]
fn test_sgr_bold_disable() {
    let mut parser = TerminalParser::new();

    // Enable bold first
    parser.parse_bytes(b"\x1B[1m");
    assert!(parser.attributes().bold);

    // CSI 22 m - Normal intensity (disable bold and dim)
    parser.parse_bytes(b"\x1B[22m");
    assert!(!parser.attributes().bold);
    assert!(!parser.attributes().dim);
}

#[test]
fn test_sgr_italic_disable() {
    let mut parser = TerminalParser::new();

    // Enable italic first
    parser.parse_bytes(b"\x1B[3m");
    assert!(parser.attributes().italic);

    // CSI 23 m - Not italic
    parser.parse_bytes(b"\x1B[23m");
    assert!(!parser.attributes().italic);
}

#[test]
fn test_sgr_underline_disable() {
    let mut parser = TerminalParser::new();

    // Enable underline first
    parser.parse_bytes(b"\x1B[4m");
    assert!(parser.attributes().underline);

    // CSI 24 m - Not underline
    parser.parse_bytes(b"\x1B[24m");
    assert!(!parser.attributes().underline);
}

#[test]
fn test_sgr_blink_disable() {
    let mut parser = TerminalParser::new();

    // Enable blink first
    parser.parse_bytes(b"\x1B[5m");
    assert!(parser.attributes().blink);

    // CSI 25 m - Not blinking
    parser.parse_bytes(b"\x1B[25m");
    assert!(!parser.attributes().blink);
}

#[test]
fn test_sgr_reset_all_attributes() {
    let mut parser = TerminalParser::new();

    // Enable all attributes
    parser.parse_bytes(b"\x1B[1;3;4;5m");
    assert!(parser.attributes().bold);
    assert!(parser.attributes().italic);
    assert!(parser.attributes().underline);
    assert!(parser.attributes().blink);

    // CSI 0 m - Reset all
    parser.parse_bytes(b"\x1B[0m");
    assert!(!parser.attributes().bold);
    assert!(!parser.attributes().italic);
    assert!(!parser.attributes().underline);
    assert!(!parser.attributes().blink);
}

#[test]
fn test_sgr_empty_params_reset() {
    let mut parser = TerminalParser::new();

    // Enable all attributes
    parser.parse_bytes(b"\x1B[1;3;4;5m");
    assert!(parser.attributes().bold);

    // CSI m (empty params) - Also resets
    parser.parse_bytes(b"\x1B[m");
    assert!(!parser.attributes().bold);
    assert!(!parser.attributes().italic);
    assert!(!parser.attributes().underline);
    assert!(!parser.attributes().blink);
}

#[test]
fn test_sgr_combined_attributes() {
    let mut parser = TerminalParser::new();

    // Enable bold and underline together
    parser.parse_bytes(b"\x1B[1;4m");
    assert!(parser.attributes().bold);
    assert!(parser.attributes().underline);
    assert!(!parser.attributes().italic);
    assert!(!parser.attributes().blink);
}

#[test]
fn test_sgr_all_four_attributes() {
    let mut parser = TerminalParser::new();

    // Enable all four main attributes
    parser.parse_bytes(b"\x1B[1;3;4;5m");
    assert!(parser.attributes().bold);
    assert!(parser.attributes().italic);
    assert!(parser.attributes().underline);
    assert!(parser.attributes().blink);
}

#[test]
fn test_sgr_selective_disable() {
    let mut parser = TerminalParser::new();

    // Enable all four
    parser.parse_bytes(b"\x1B[1;3;4;5m");

    // Disable only italic (CSI 23 m)
    parser.parse_bytes(b"\x1B[23m");
    assert!(parser.attributes().bold);
    assert!(!parser.attributes().italic);
    assert!(parser.attributes().underline);
    assert!(parser.attributes().blink);

    // Disable only underline (CSI 24 m)
    parser.parse_bytes(b"\x1B[4m"); // Re-enable
    parser.parse_bytes(b"\x1B[24m");
    assert!(parser.attributes().bold);
    assert!(parser.attributes().italic == false);
    assert!(!parser.attributes().underline);
    assert!(parser.attributes().blink);
}

#[test]
fn test_sgr_dim_attribute() {
    let mut parser = TerminalParser::new();

    // CSI 2 m - Enable dim
    parser.parse_bytes(b"\x1B[2m");
    assert!(parser.attributes().dim);

    // CSI 22 m - Disable dim (and bold)
    parser.parse_bytes(b"\x1B[22m");
    assert!(!parser.attributes().dim);
}

#[test]
fn test_sgr_reverse_attribute() {
    let mut parser = TerminalParser::new();

    // CSI 7 m - Enable reverse video
    parser.parse_bytes(b"\x1B[7m");
    assert!(parser.attributes().reverse);

    // CSI 27 m - Disable reverse
    parser.parse_bytes(b"\x1B[27m");
    assert!(!parser.attributes().reverse);
}

#[test]
fn test_sgr_hidden_attribute() {
    let mut parser = TerminalParser::new();

    // CSI 8 m - Enable hidden
    parser.parse_bytes(b"\x1B[8m");
    assert!(parser.attributes().hidden);

    // CSI 28 m - Disable hidden
    parser.parse_bytes(b"\x1B[28m");
    assert!(!parser.attributes().hidden);
}

#[test]
fn test_sgr_strikethrough_attribute() {
    let mut parser = TerminalParser::new();

    // CSI 9 m - Enable strikethrough
    parser.parse_bytes(b"\x1B[9m");
    assert!(parser.attributes().strikethrough);

    // CSI 29 m - Disable strikethrough
    parser.parse_bytes(b"\x1B[29m");
    assert!(!parser.attributes().strikethrough);
}

#[test]
fn test_text_attributes_default() {
    let attrs = TextAttributes::default();
    assert!(!attrs.bold);
    assert!(!attrs.dim);
    assert!(!attrs.italic);
    assert!(!attrs.underline);
    assert!(!attrs.blink);
    assert!(!attrs.reverse);
    assert!(!attrs.hidden);
    assert!(!attrs.strikethrough);
}

#[test]
fn test_text_attributes_reset() {
    let mut attrs = TextAttributes::default();
    attrs.bold = true;
    attrs.italic = true;
    attrs.underline = true;
    attrs.blink = true;

    attrs.reset();

    assert!(!attrs.bold);
    assert!(!attrs.italic);
    assert!(!attrs.underline);
    assert!(!attrs.blink);
}

#[test]
fn test_attributes_preserved_with_colors() {
    let mut parser = TerminalParser::new();

    // Set attributes and colors together
    parser.parse_bytes(b"\x1B[1;3;31m"); // Bold, italic, red fg

    assert!(parser.attributes().bold);
    assert!(parser.attributes().italic);
    assert_eq!(parser.foreground_color(), Color::Indexed(1)); // Red

    // Change color but keep attributes
    parser.parse_bytes(b"\x1B[34m"); // Blue fg
    assert!(parser.attributes().bold);
    assert!(parser.attributes().italic);
    assert_eq!(parser.foreground_color(), Color::Indexed(4)); // Blue
}

#[test]
fn test_true_color_foreground() {
    let mut parser = TerminalParser::new();

    // Set foreground to true color red (CSI 38;2;255;0;0 m)
    parser.parse_bytes(b"\x1B[38;2;255;0;0m");
    assert_eq!(parser.foreground_color(), Color::Rgb(255, 0, 0));

    // Set foreground to true color green (CSI 38;2;0;255;0 m)
    parser.parse_bytes(b"\x1B[38;2;0;255;0m");
    assert_eq!(parser.foreground_color(), Color::Rgb(0, 255, 0));

    // Set foreground to true color blue (CSI 38;2;0;0;255 m)
    parser.parse_bytes(b"\x1B[38;2;0;0;255m");
    assert_eq!(parser.foreground_color(), Color::Rgb(0, 0, 255));

    // Set foreground to true color custom (CSI 38;2;128;64;192 m)
    parser.parse_bytes(b"\x1B[38;2;128;64;192m");
    assert_eq!(parser.foreground_color(), Color::Rgb(128, 64, 192));

    // Set foreground to white (full intensity)
    parser.parse_bytes(b"\x1B[38;2;255;255;255m");
    assert_eq!(parser.foreground_color(), Color::Rgb(255, 255, 255));

    // Set foreground to black
    parser.parse_bytes(b"\x1B[38;2;0;0;0m");
    assert_eq!(parser.foreground_color(), Color::Rgb(0, 0, 0));
}

#[test]
fn test_true_color_background() {
    let mut parser = TerminalParser::new();

    // Set background to true color red (CSI 48;2;255;0;0 m)
    parser.parse_bytes(b"\x1B[48;2;255;0;0m");
    assert_eq!(parser.background_color(), Color::Rgb(255, 0, 0));

    // Set background to true color green (CSI 48;2;0;255;0 m)
    parser.parse_bytes(b"\x1B[48;2;0;255;0m");
    assert_eq!(parser.background_color(), Color::Rgb(0, 255, 0));

    // Set background to true color blue (CSI 48;2;0;0;255 m)
    parser.parse_bytes(b"\x1B[48;2;0;0;255m");
    assert_eq!(parser.background_color(), Color::Rgb(0, 0, 255));

    // Set background to true color custom (CSI 48;2;64;128;200 m)
    parser.parse_bytes(b"\x1B[48;2;64;128;200m");
    assert_eq!(parser.background_color(), Color::Rgb(64, 128, 200));
}

#[test]
fn test_true_color_mixed_with_indexed() {
    let mut parser = TerminalParser::new();

    // Start with indexed color
    parser.parse_bytes(b"\x1B[31m"); // Red
    assert_eq!(parser.foreground_color(), Color::Indexed(1));

    // Switch to true color
    parser.parse_bytes(b"\x1B[38;2;100;150;200m");
    assert_eq!(parser.foreground_color(), Color::Rgb(100, 150, 200));

    // Switch back to indexed
    parser.parse_bytes(b"\x1B[34m"); // Blue
    assert_eq!(parser.foreground_color(), Color::Indexed(4));

    // Switch to true color again
    parser.parse_bytes(b"\x1B[38;2;255;100;50m");
    assert_eq!(parser.foreground_color(), Color::Rgb(255, 100, 50));
}

#[test]
fn test_true_color_background_mixed() {
    let mut parser = TerminalParser::new();

    // Start with indexed background
    parser.parse_bytes(b"\x1B[41m"); // Red background
    assert_eq!(parser.background_color(), Color::Indexed(1));

    // Switch to true color background
    parser.parse_bytes(b"\x1B[48;2;200;150;100m");
    assert_eq!(parser.background_color(), Color::Rgb(200, 150, 100));

    // Switch back to indexed
    parser.parse_bytes(b"\x1B[44m"); // Blue background
    assert_eq!(parser.background_color(), Color::Indexed(4));
}

#[test]
fn test_true_color_combined_with_attributes() {
    let mut parser = TerminalParser::new();

    // Set attributes and true color together
    parser.parse_bytes(b"\x1B[1;38;2;255;0;0m"); // Bold + true color red
    assert!(parser.attributes().bold);
    assert_eq!(parser.foreground_color(), Color::Rgb(255, 0, 0));

    // Add more attributes and change color
    parser.parse_bytes(b"\x1B[3;4;38;2;0;255;0m"); // Italic + underline + true color green
    assert!(parser.attributes().italic);
    assert!(parser.attributes().underline);
    assert_eq!(parser.foreground_color(), Color::Rgb(0, 255, 0));
}

#[test]
fn test_true_color_fg_bg_separate() {
    let mut parser = TerminalParser::new();

    // Set both foreground and background to different true colors
    parser.parse_bytes(b"\x1B[38;2;255;200;100;48;2;50;75;100m");
    assert_eq!(parser.foreground_color(), Color::Rgb(255, 200, 100));
    assert_eq!(parser.background_color(), Color::Rgb(50, 75, 100));

    // Change only foreground
    parser.parse_bytes(b"\x1B[38;2;0;255;255m");
    assert_eq!(parser.foreground_color(), Color::Rgb(0, 255, 255));
    assert_eq!(parser.background_color(), Color::Rgb(50, 75, 100));

    // Change only background
    parser.parse_bytes(b"\x1B[48;2;255;0;255m");
    assert_eq!(parser.foreground_color(), Color::Rgb(0, 255, 255));
    assert_eq!(parser.background_color(), Color::Rgb(255, 0, 255));
}

#[test]
fn test_true_color_reset() {
    let mut parser = TerminalParser::new();

    // Set true color foreground
    parser.parse_bytes(b"\x1B[38;2;100;200;50m");
    assert_eq!(parser.foreground_color(), Color::Rgb(100, 200, 50));

    // Reset foreground to default (CSI 39 m)
    parser.parse_bytes(b"\x1B[39m");
    assert_eq!(parser.foreground_color(), Color::Default);

    // Set true color background
    parser.parse_bytes(b"\x1B[48;2;150;100;200m");
    assert_eq!(parser.background_color(), Color::Rgb(150, 100, 200));

    // Reset background to default (CSI 49 m)
    parser.parse_bytes(b"\x1B[49m");
    assert_eq!(parser.background_color(), Color::Default);
}

#[test]
fn test_true_color_edge_cases() {
    let mut parser = TerminalParser::new();

    // Test minimum values (0, 0, 0)
    parser.parse_bytes(b"\x1B[38;2;0;0;0m");
    assert_eq!(parser.foreground_color(), Color::Rgb(0, 0, 0));

    // Test maximum values (255, 255, 255)
    parser.parse_bytes(b"\x1B[38;2;255;255;255m");
    assert_eq!(parser.foreground_color(), Color::Rgb(255, 255, 255));

    // Test mid-range values (127, 127, 127)
    parser.parse_bytes(b"\x1B[38;2;127;127;127m");
    assert_eq!(parser.foreground_color(), Color::Rgb(127, 127, 127));
}

// ===== Cursor Position Report Tests (CSI 6n) =====

#[test]
fn test_dsr_csi_6n_cursor_position_report() {
    let mut parser = TerminalParser::new();

    // Move cursor to position (row 5, col 10) - 0-indexed internally
    parser.parse_bytes(b"\x1B[6;11H"); // 1-indexed: row 6, col 11
    assert_eq!(parser.state.cursor.row, 5);
    assert_eq!(parser.state.cursor.col, 10);

    // Request cursor position report (CSI 6n)
    parser.parse_bytes(b"\x1B[6n");

    // Check that a response was queued
    assert!(parser.state.has_pending_responses());

    // Take the response
    let responses = parser.state.take_responses();
    assert_eq!(responses.len(), 1);

    // Verify response format: ESC[row;colR (1-indexed)
    match &responses[0] {
        DeviceStatusResponse::CursorPosition { row, col } => {
            assert_eq!(*row, 6); // 1-indexed
            assert_eq!(*col, 11); // 1-indexed

            // Check the escape sequence format
            let escape_seq = responses[0].to_escape_sequence();
            assert_eq!(escape_seq, "\x1B[6;11R");

            // Check bytes format
            let bytes = responses[0].to_bytes();
            assert_eq!(bytes, b"\x1B[6;11R");
        }
        _ => panic!("Expected CursorPosition response"),
    }
}

#[test]
fn test_dsr_csi_6n_at_origin() {
    let mut parser = TerminalParser::new();

    // Cursor at origin (0, 0)
    assert_eq!(parser.state.cursor.row, 0);
    assert_eq!(parser.state.cursor.col, 0);

    // Request cursor position report
    parser.parse_bytes(b"\x1B[6n");

    let responses = parser.state.take_responses();
    assert_eq!(responses.len(), 1);

    match &responses[0] {
        DeviceStatusResponse::CursorPosition { row, col } => {
            // Should be 1-indexed: (1, 1)
            assert_eq!(*row, 1);
            assert_eq!(*col, 1);
            assert_eq!(responses[0].to_escape_sequence(), "\x1B[1;1R");
        }
        _ => panic!("Expected CursorPosition response"),
    }
}

#[test]
fn test_dsr_csi_5n_device_status_ok() {
    let mut parser = TerminalParser::new();

    // Request device status (CSI 5n)
    parser.parse_bytes(b"\x1B[5n");

    let responses = parser.state.take_responses();
    assert_eq!(responses.len(), 1);

    match &responses[0] {
        DeviceStatusResponse::DeviceStatusOk => {
            assert_eq!(responses[0].to_escape_sequence(), "\x1B[0n");
            assert_eq!(responses[0].to_bytes(), b"\x1B[0n");
        }
        _ => panic!("Expected DeviceStatusOk response"),
    }
}

#[test]
fn test_dsr_multiple_requests() {
    let mut parser = TerminalParser::new();

    // Move cursor
    parser.parse_bytes(b"\x1B[10;20H");

    // Request multiple device status reports
    parser.parse_bytes(b"\x1B[5n"); // Device status
    parser.parse_bytes(b"\x1B[6n"); // Cursor position
    parser.parse_bytes(b"\x1B[5n"); // Another device status

    let responses = parser.state.take_responses();
    assert_eq!(responses.len(), 3);

    // First: Device status OK
    assert!(matches!(
        &responses[0],
        DeviceStatusResponse::DeviceStatusOk
    ));

    // Second: Cursor position
    match &responses[1] {
        DeviceStatusResponse::CursorPosition { row, col } => {
            assert_eq!(*row, 10);
            assert_eq!(*col, 20);
            assert_eq!(responses[1].to_escape_sequence(), "\x1B[10;20R");
        }
        _ => panic!("Expected CursorPosition response"),
    }

    // Third: Device status OK again
    assert!(matches!(
        &responses[2],
        DeviceStatusResponse::DeviceStatusOk
    ));

    // Test responses_as_bytes combines all
    parser.state.pending_responses.push(responses[0].clone());
    parser.state.pending_responses.push(responses[1].clone());
    parser.state.pending_responses.push(responses[2].clone());

    let combined = parser.state.responses_as_bytes();
    assert_eq!(combined, b"\x1B[0n\x1B[10;20R\x1B[0n");
}

#[test]
fn test_dsr_clear_pending_responses() {
    let mut parser = TerminalParser::new();

    // Generate some responses
    parser.parse_bytes(b"\x1B[5n");
    parser.parse_bytes(b"\x1B[6n");

    assert!(parser.state.has_pending_responses());

    // Clear responses
    parser.state.clear_responses();

    assert!(!parser.state.has_pending_responses());
    assert!(parser.state.take_responses().is_empty());
}

// ===== OSC 7 Directory Tracking Tests =====

#[test]
fn test_osc7_basic_directory() {
    let mut parser = TerminalParser::new();

    // Initial state: no directory tracked
    assert!(parser.get_current_directory().is_none());

    // OSC 7: file://hostname/path
    // ESC ] 7 ; file://hostname/path BEL
    parser.parse_bytes(b"\x1B]7;file://localhost/home/user\x07");

    assert_eq!(parser.get_current_directory(), Some("/home/user"));
}

#[test]
fn test_osc7_with_different_hostname() {
    let mut parser = TerminalParser::new();

    // Should work with any hostname
    parser.parse_bytes(b"\x1B]7;file://myhost/tmp/test\x07");

    assert_eq!(parser.get_current_directory(), Some("/tmp/test"));
}

#[test]
fn test_osc7_root_directory() {
    let mut parser = TerminalParser::new();

    parser.parse_bytes(b"\x1B]7;file://localhost/\x07");

    assert_eq!(parser.get_current_directory(), Some("/"));
}

#[test]
fn test_osc7_url_encoded_path() {
    let mut parser = TerminalParser::new();

    // Space encoded as %20
    parser.parse_bytes(b"\x1B]7;file://localhost/home/my%20docs\x07");

    assert_eq!(parser.get_current_directory(), Some("/home/my docs"));
}

#[test]
fn test_osc7_url_encoded_special_chars() {
    let mut parser = TerminalParser::new();

    // %3D = '=', %26 = '&', %25 = '%'
    parser.parse_bytes(b"\x1B]7;file://localhost/path%3Dwith%26special%25chars\x07");

    assert_eq!(
        parser.get_current_directory(),
        Some("/path=with&special%chars")
    );
}

#[test]
fn test_osc7_deep_path() {
    let mut parser = TerminalParser::new();

    parser.parse_bytes(b"\x1B]7;file://localhost/a/b/c/d/e/f\x07");

    assert_eq!(parser.get_current_directory(), Some("/a/b/c/d/e/f"));
}

#[test]
fn test_osc7_invalid_not_file_url() {
    let mut parser = TerminalParser::new();

    // Should not update for non-file URLs
    parser.parse_bytes(b"\x1B]7;http://example.com/path\x07");

    assert!(parser.get_current_directory().is_none());
}

#[test]
fn test_osc7_invalid_wrong_osc_number() {
    let mut parser = TerminalParser::new();

    // OSC 0 is for window title, should not affect directory
    parser.parse_bytes(b"\x1B]0;file://localhost/home/user\x07");

    assert!(parser.get_current_directory().is_none());
}

#[test]
fn test_osc7_updates_on_change() {
    let mut parser = TerminalParser::new();

    // First directory
    parser.parse_bytes(b"\x1B]7;file://localhost/home/user\x07");
    assert_eq!(parser.get_current_directory(), Some("/home/user"));

    // Change to different directory
    parser.parse_bytes(b"\x1B]7;file://localhost/tmp\x07");
    assert_eq!(parser.get_current_directory(), Some("/tmp"));
}

#[test]
fn test_parse_file_url_helper() {
    // Test the parse_file_url helper directly
    assert_eq!(
        parse_file_url("file://localhost/home/user"),
        Some("/home/user".to_string())
    );
    assert_eq!(
        parse_file_url("file://host/"),
        Some("/".to_string())
    );
    assert_eq!(
        parse_file_url("http://localhost/home"),
        None
    );
    assert_eq!(parse_file_url("file://"), None);
    assert_eq!(parse_file_url("not a url"), None);
}

#[test]
fn test_urlencoding_decode_helper() {
    assert_eq!(urlencoding_decode("/home/user"), "/home/user");
    assert_eq!(urlencoding_decode("/home/my%20docs"), "/home/my docs");
    assert_eq!(urlencoding_decode("%2F"), "/");
    assert_eq!(urlencoding_decode("100%25"), "100%");
    assert_eq!(urlencoding_decode("%3D%26"), "=&");
    // Invalid hex should preserve original
    assert_eq!(urlencoding_decode("%ZZ"), "%ZZ");
    assert_eq!(urlencoding_decode("%1"), "%1");
}

#[test]
fn test_urlencoding_decode_reads_utf8() {
    assert_eq!(urlencoding_decode("/caf%C3%A9"), "/caf\u{e9}");
    assert_eq!(parse_file_url("file://host/caf%C3%A9"), Some("/caf\u{e9}".to_string()));
    // A lone byte that is no UTF-8 is replaced.
    assert_eq!(urlencoding_decode("a%FFb"), "a\u{fffd}b");
    // Text that is already non-ASCII passes through.
    assert_eq!(urlencoding_decode("/caf\u{e9}"), "/caf\u{e9}");
}

#[test]
fn test_decstbm_homes_cursor_and_uses_screen_height() {
    let mut p = warp_foss::terminal::parser::TerminalParser::with_size(80, 40);
    p.parse_bytes(b"\x1B[10;10H\x1B[5;15r");
    assert_eq!(p.state.scroll_region_top, 4);
    assert_eq!(p.state.scroll_region_bottom, 14);
    assert_eq!(p.state.cursor, CursorPosition { row: 0, col: 0 });
    p.parse_bytes(b"\x1B[r");
    assert_eq!(p.state.scroll_region_top, 0);
    assert_eq!(p.state.scroll_region_bottom, 39);
    p.parse_bytes(b"\x1B[3;3H\x1B[15;5r");
    assert_eq!(p.state.scroll_region_bottom, 39);
    assert_eq!(p.state.cursor, CursorPosition { row: 2, col: 2 });
}

#[test]
fn test_parse_bytes_split_across_calls() {
    let mut whole = warp_foss::terminal::parser::TerminalParser::with_size(80, 24);
    whole.parse_bytes(b"ab\x1B[10;5Hc\x1B[1;31m");
    let mut pieces = warp_foss::terminal::parser::TerminalParser::with_size(80, 24);
    pieces.parse_bytes(b"ab\x1B[1");
    pieces.parse_bytes(b"0;5");
    pieces.parse_bytes(b"Hc\x1B[1;");
    pieces.parse_bytes(b"31m");
    assert_eq!(whole.cursor_position(), pieces.cursor_position());
    assert_eq!(pieces.cursor_position(), CursorPosition { row: 9, col: 4 });
    assert_eq!(whole.foreground_color(), pieces.foreground_color());
    assert_eq!(whole.attributes(), pieces.attributes());
}
