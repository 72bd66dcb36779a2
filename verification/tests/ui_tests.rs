use std::time::Duration;
use warp_foss::ai::provider::AIError;
use warp_foss::plugin::{
    c_string_at, chain_hook_result, hook_output, merge_hook_result, metadata_with_defaults, pages_to_grow,
    HookResult, PluginContext, PluginMetadata,
};
use warp_foss::ui::ai_command_palette::{AICommandPalette, PaletteState, SuggestionContext};
use warp_foss::ui::layout::{Rect, SplitDirection};
use warp_foss::ui::renderer::RendererError;
use warp_foss::ui::status_bar::{git_branch_from_output, ErrorLevel, PlacedChar, StatusBar, StatusError, Toast};
use warp_foss::terminal::parser::Color;

#[test]
fn test_palette_creation() {
    let palette = AICommandPalette::new();
    assert_eq!(palette.state, PaletteState::Hidden);
    assert!(palette.input.is_empty());
    assert!(palette.response.is_empty());
}

#[test]
fn test_palette_toggle() {
    let mut palette = AICommandPalette::new();
    assert_eq!(palette.state, PaletteState::Hidden);

    palette.toggle();
    assert_eq!(palette.state, PaletteState::Open);

    palette.toggle();
    assert_eq!(palette.state, PaletteState::Hidden);
}

#[test]
fn test_palette_input() {
    let mut palette = AICommandPalette::new();
    palette.open();

    palette.handle_char('h');
    palette.handle_char('e');
    palette.handle_char('l');
    palette.handle_char('p');

    assert_eq!(palette.input, "help");
    assert_eq!(palette.cursor_pos, 4);
}

#[test]
fn test_palette_backspace() {
    let mut palette = AICommandPalette::new();
    palette.open();

    palette.handle_char('t');
    palette.handle_char('e');
    palette.handle_char('s');
    palette.handle_char('t');
    assert_eq!(palette.input, "test");

    palette.handle_backspace();
    assert_eq!(palette.input, "tes");
    assert_eq!(palette.cursor_pos, 3);
}

#[test]
fn test_palette_cursor_movement() {
    let mut palette = AICommandPalette::new();
    palette.open();

    palette.handle_char('a');
    palette.handle_char('b');
    palette.handle_char('c');
    assert_eq!(palette.cursor_pos, 3);

    palette.cursor_left();
    assert_eq!(palette.cursor_pos, 2);

    palette.cursor_right();
    assert_eq!(palette.cursor_pos, 3);
}

#[test]
fn test_palette_suggestions() {
    let palette = AICommandPalette::new();
    let context = SuggestionContext {
        current_dir: None,
        git_branch: None,
        shell: None,
        recent_output: None,
    };
    let suggestions = palette.get_suggestions(&context);
    assert!(!suggestions.is_empty());
    assert!(suggestions.contains(&"explain last command".to_string()));
}

#[test]
fn test_palette_suggestions_with_git() {
    let palette = AICommandPalette::new();
    let context = SuggestionContext {
        current_dir: Some("/home/user/project".to_string()),
        git_branch: Some("main".to_string()),
        shell: Some("bash".to_string()),
        recent_output: None,
    };
    let suggestions = palette.get_suggestions(&context);
    assert!(suggestions.contains(&"git status".to_string()));
    assert!(suggestions.contains(&"git log --oneline -5".to_string()));
}

#[test]
fn test_get_response() {
    let mut palette = AICommandPalette::new();
    palette.set_response("Test response".to_string());
    assert_eq!(palette.get_response(), "Test response");
}

#[test]
fn test_toggle_clears_response() {
    let mut palette = AICommandPalette::new();
    palette.toggle();
    assert_eq!(palette.state, PaletteState::Open);
    assert_eq!(palette.get_response(), "");
    palette.set_response("answer".to_string());
    palette.toggle();
    assert_eq!(palette.state, PaletteState::Hidden);
    assert_eq!(palette.get_response(), "");
    assert!(palette.input.is_empty());
    assert_eq!(palette.cursor_pos, 0);
    assert!(palette.error.is_none());
}

#[test]
fn test_palette_multibyte_editing() {
    let mut palette = AICommandPalette::new();
    palette.open();
    palette.handle_char('a');
    palette.handle_char('\u{e9}');
    palette.handle_char('\u{20ac}');
    assert_eq!(palette.input, "a\u{e9}\u{20ac}");
    assert_eq!(palette.cursor_pos, 6);
    palette.cursor_left();
    assert_eq!(palette.cursor_pos, 3);
    palette.cursor_left();
    assert_eq!(palette.cursor_pos, 1);
    palette.handle_char('x');
    assert_eq!(palette.input, "ax\u{e9}\u{20ac}");
    assert_eq!(palette.cursor_pos, 2);
    palette.cursor_right();
    assert_eq!(palette.cursor_pos, 4);
    palette.handle_backspace();
    assert_eq!(palette.input, "ax\u{20ac}");
    assert_eq!(palette.cursor_pos, 2);
    palette.cursor_right();
    palette.cursor_right();
    assert_eq!(palette.cursor_pos, 5);
}

#[test]
fn test_palette_edges() {
    let mut palette = AICommandPalette::new();
    // Hidden: typing does nothing.
    palette.handle_char('z');
    assert!(palette.input.is_empty());
    palette.open();
    palette.handle_backspace();
    palette.cursor_left();
    palette.cursor_right();
    assert_eq!(palette.cursor_pos, 0);
    assert!(!palette.handle_enter());
    palette.handle_char('q');
    assert!(palette.handle_enter());
    assert_eq!(palette.state, PaletteState::Open);
    palette.handle_escape();
    assert_eq!(palette.state, PaletteState::Hidden);
    assert!(!palette.is_visible());
}

#[test]
fn test_palette_processing_phases() {
    let mut palette = AICommandPalette::new();
    palette.open();
    palette.handle_char('l');
    palette.handle_char('s');
    assert_eq!(
        palette.assistant_prompt(),
        "You are a terminal assistant. The user asks: ls\n\nProvide a helpful response. If suggesting a command, put it in a code block. Keep responses concise."
    );
    palette.begin_processing();
    assert_eq!(palette.state, PaletteState::Processing);
    palette.advance(5, false);
    assert_eq!(palette.state, PaletteState::Processing);
    palette.advance(5, true);
    assert_eq!(palette.state, PaletteState::ShowingResponse);
    assert!(!palette.handle_enter());
    assert_eq!(palette.state, PaletteState::Hidden);

    palette.open();
    palette.begin_processing();
    palette.advance(31, true);
    assert_eq!(palette.state, PaletteState::Open);
    assert_eq!(palette.error.as_deref(), Some("AI request timed out"));

    palette.fail_submission("nope".to_string());
    assert_eq!(palette.error.as_deref(), Some("nope"));
}

#[test]
fn test_palette_update_sees_response() {
    let mut palette = AICommandPalette::new();
    palette.open();
    palette.begin_processing();
    palette.update();
    assert_eq!(palette.state, PaletteState::Processing);
    palette.set_response("done".to_string());
    palette.update();
    assert_eq!(palette.state, PaletteState::ShowingResponse);
    assert_eq!(palette.get_response(), "done");
}

#[test]
fn test_palette_suggestions_by_directory() {
    let palette = AICommandPalette::new();
    let context = SuggestionContext {
        current_dir: Some("/work/app/src".to_string()),
        git_branch: None,
        shell: None,
        recent_output: None,
    };
    assert_eq!(
        palette.suggestions_with(&context, true),
        vec![
            "npm run dev".to_string(),
            "npm test".to_string(),
            "list files in /work/app/src".to_string(),
            "explain last command".to_string(),
            "suggest fix for error".to_string(),
        ]
    );
    let context = SuggestionContext {
        current_dir: Some("/home/me/cargo-stuff".to_string()),
        git_branch: Some("dev".to_string()),
        shell: None,
        recent_output: None,
    };
    let with = palette.suggestions_with(&context, true);
    assert_eq!(with.len(), 8);
    assert_eq!(with[3], "cargo build");
    let without = palette.suggestions_with(&context, false);
    assert_eq!(without.len(), 6);
    assert_eq!(without[3], "list files in /home/me/cargo-stuff");
}

#[test]
fn test_format_ai_error() {
    let e = AIError::Api("HTTP 401 Unauthorized".to_string());
    assert_eq!(
        AICommandPalette::format_ai_error(&e),
        "API key invalid or missing. Run: warp-foss config set-openai-key <key>"
    );
    let e = AIError::Api("status 429".to_string());
    assert_eq!(
        AICommandPalette::format_ai_error(&e),
        "Rate limit exceeded. Please wait a moment and try again."
    );
    let e = AIError::Api("network unreachable".to_string());
    assert_eq!(AICommandPalette::format_ai_error(&e), "Network error. Check your internet connection.");
    let e = AIError::Api("weird".to_string());
    assert_eq!(AICommandPalette::format_ai_error(&e), "API error: weird");
    let e = AIError::Config("bad".to_string());
    assert_eq!(AICommandPalette::format_ai_error(&e), "Configuration error: bad");
    assert_eq!(
        AICommandPalette::error_response(&AIError::RateLimited),
        "Error: Rate limited. Please wait and try again."
    );
}

#[test]
fn test_ai_error_api_variant() {
    let err = AIError::Api("Request failed".to_string());
    assert_eq!(err.to_string(), "API error: Request failed");
}

#[test]
fn test_ai_error_config_variant() {
    let err = AIError::Config("Invalid key".to_string());
    assert_eq!(err.to_string(), "Configuration error: Invalid key");
}

#[test]
fn test_ai_error_rate_limited_variant() {
    let err = AIError::RateLimited;
    assert_eq!(err.to_string(), "Rate limited");
}

fn assert_send_sync<T: Send + Sync>() {}

#[test]
fn test_ai_error_send_sync() {
    assert_send_sync::<AIError>();
}

#[test]
fn test_ai_error_debug_impl() {
    let err = AIError::Api("test".to_string());
    // Debug should show the variant name
    let debug_str = format!("{:?}", err);
    assert!(debug_str.contains("Api"));
}

#[test]
fn test_error_display() {
    let err = RendererError::SurfaceCreation("test".to_string());
    assert!(err.to_string().contains("test"));
}

#[test]
fn test_renderer_error_adapter_request() {
    let err = RendererError::AdapterRequest("No suitable GPU found".to_string());
    let msg = err.to_string();
    assert!(msg.contains("Failed to request adapter"));
    assert!(msg.contains("No suitable GPU found"));
}

#[test]
fn test_renderer_error_device_request() {
    let err = RendererError::DeviceRequest("Device limit exceeded".to_string());
    let msg = err.to_string();
    assert!(msg.contains("Failed to request device"));
    assert!(msg.contains("Device limit exceeded"));
}

#[test]
fn test_renderer_error_surface_configuration() {
    let err = RendererError::SurfaceConfiguration;
    let msg = err.to_string();
    assert!(msg.contains("Failed to configure surface"));
}

#[test]
fn test_renderer_error_texture_acquisition() {
    let err = RendererError::TextureAcquisition("Texture lost".to_string());
    let msg = err.to_string();
    assert!(msg.contains("Failed to get current texture"));
    assert!(msg.contains("Texture lost"));
}

#[test]
fn test_renderer_error_render() {
    let err = RendererError::Render("Pipeline error".to_string());
    let msg = err.to_string();
    assert!(msg.contains("Render error"));
    assert!(msg.contains("Pipeline error"));
}

#[test]
fn test_renderer_error_debug() {
    let err = RendererError::SurfaceCreation("debug test".to_string());
    // Debug trait should work without panic
    let _debug_str = format!("{:?}", err);
}

#[test]
fn test_renderer_error_surface_creation_empty_message() {
    let err = RendererError::SurfaceCreation(String::new());
    let msg = err.to_string();
    assert!(msg.contains("Failed to create wgpu surface"));
}

#[test]
fn test_renderer_error_adapter_request_empty_message() {
    let err = RendererError::AdapterRequest(String::new());
    let msg = err.to_string();
    assert!(msg.contains("Failed to request adapter"));
}

#[test]
fn test_renderer_error_render_with_multiline() {
    let err = RendererError::Render("Line 1\nLine 2\nLine 3".to_string());
    let msg = err.to_string();
    assert!(msg.contains("Render error"));
    assert!(msg.contains("Line 1"));
    assert!(msg.contains("Line 3"));
}

#[test]
fn test_renderer_error_text_message() {
    let err = RendererError::Text("Font not found".to_string());
    assert_eq!(err.to_string(), "Text rendering error: Font not found");
}

#[test]
fn test_rect_creation() {
    let rect = Rect::new(10, 20, 100, 200);
    assert_eq!(rect.x, 10);
    assert_eq!(rect.y, 20);
    assert_eq!(rect.width, 100);
    assert_eq!(rect.height, 200);
}

#[test]
fn test_rect_contains() {
    let rect = Rect::new(10, 20, 100, 200);
    assert!(rect.contains(50, 100)); // Inside
    assert!(rect.contains(10, 20)); // On edge
    assert!(!rect.contains(200, 100)); // Outside X
    assert!(!rect.contains(50, 300)); // Outside Y
}

#[test]
fn test_rect_contains_far_edges_and_empty() {
    let rect = Rect::new(10, 20, 100, 200);
    assert!(!rect.contains(110, 20));
    assert!(!rect.contains(10, 220));
    assert!(rect.contains(109, 219));
    assert!(!Rect::new(0, 0, 0, 0).contains(0, 0));
    assert_ne!(SplitDirection::Horizontal, SplitDirection::Vertical);
}

#[test]
fn test_status_bar_creation() {
    let status_bar = StatusBar::new();
    assert!(status_bar.current_dir.is_empty());
    assert!(status_bar.git_branch.is_none());
    assert!(status_bar.visible);
}

#[test]
fn test_status_bar_toggle() {
    let mut status_bar = StatusBar::new();
    assert!(status_bar.is_visible());

    status_bar.toggle();
    assert!(!status_bar.is_visible());

    status_bar.toggle();
    assert!(status_bar.is_visible());
}

#[test]
fn test_status_bar_update_sets_dir_and_branch() {
    let mut bar = StatusBar::new();
    bar.update("/tmp/x", Some("main".to_string()));
    assert_eq!(bar.current_dir, "/tmp/x");
    assert_eq!(bar.git_branch.as_deref(), Some("main"));
}

#[test]
fn test_status_bar_errors_and_toasts() {
    let mut bar = StatusBar::new();
    assert!(!bar.has_error());
    bar.set_error("oops");
    assert_eq!(bar.get_error(), Some("oops"));
    assert_eq!(bar.error.as_ref().unwrap().level, ErrorLevel::Transient);
    bar.set_persistent_error("stuck");
    assert_eq!(bar.error.as_ref().unwrap().level, ErrorLevel::Persistent);
    bar.clear_error();
    assert!(bar.get_error().is_none());
    bar.add_toast("one");
    bar.add_toast("two");
    assert_eq!(bar.get_toasts(), vec!["one", "two"]);
    // Nothing has expired within the default five seconds.
    bar.set_error("fresh");
    bar.cleanup_expired();
    assert_eq!(bar.get_toasts().len(), 2);
    assert!(bar.has_error());
    bar.clear_toasts();
    assert!(bar.get_toasts().is_empty());
}

fn wait_a_little() {
    let start = std::time::Instant::now();
    while start.elapsed() < std::time::Duration::from_millis(5) {}
}

#[test]
fn test_status_bar_expiry() {
    let mut bar = StatusBar::new();
    bar.set_toast_timeout(std::time::Duration::from_secs(0));
    bar.add_toast("gone");
    bar.set_persistent_error("stays");
    wait_a_little();
    bar.cleanup_expired();
    assert!(bar.get_toasts().is_empty());
    assert_eq!(bar.get_error(), Some("stays"));
    bar.set_error("goes");
    wait_a_little();
    bar.cleanup_expired();
    assert!(!bar.has_error());
}

#[test]
fn test_status_bar_remove_expired_by_flags() {
    let mut bar = StatusBar::new();
    bar.add_toast("a");
    bar.add_toast("b");
    bar.add_toast("c");
    bar.set_error("e");
    bar.remove_expired(false, &vec![true, false, true]);
    assert_eq!(bar.get_toasts(), vec!["b"]);
    assert!(bar.has_error());
    bar.remove_expired(true, &vec![false]);
    assert_eq!(bar.get_toasts(), vec!["b"]);
    assert!(!bar.has_error());
}

#[test]
fn test_status_error_expiry_rules() {
    let second = std::time::Duration::from_secs(1);
    let t = StatusError::transient("t");
    let p = StatusError::persistent("p");
    assert!(t.expired_after(std::time::Duration::from_secs(2), second));
    assert!(!t.expired_after(second, second));
    assert!(!p.expired_after(std::time::Duration::from_secs(100), second));
    assert!(!p.is_expired(std::time::Duration::from_secs(0)));
    let toast = Toast::new("x".to_string());
    assert!(toast.expired_after(std::time::Duration::from_secs(2), second));
    assert!(!toast.is_expired(std::time::Duration::from_secs(3600)));
    let e = StatusError::new("m".to_string(), ErrorLevel::Persistent);
    assert_eq!(e.message, "m");
}

#[test]
fn test_git_branch_from_output() {
    assert_eq!(git_branch_from_output(true, b"main\n").as_deref(), Some("main"));
    assert_eq!(git_branch_from_output(true, b"  feature/x \r\n").as_deref(), Some("feature/x"));
    assert_eq!(git_branch_from_output(true, b"HEAD\n"), None);
    assert_eq!(git_branch_from_output(true, b" \n"), None);
    assert_eq!(git_branch_from_output(false, b"main\n"), None);
}

#[test]
fn test_plugin_types() {
    let r = HookResult::default();
    assert!(r.data.is_none());
    assert!(!r.suppress);
    let ctx = PluginContext { cwd: Some("/home/user".to_string()), cols: 80, rows: 24 };
    assert_eq!(ctx.cols, 80);
    let meta = PluginMetadata {
        id: "p".to_string(),
        name: "P".to_string(),
        version: "1.0.0".to_string(),
        author: None,
        description: None,
    };
    assert_eq!(meta.version, "1.0.0");
}

#[test]
fn test_git_branch_from_lossy_output() {
    assert_eq!(git_branch_from_output(true, b"ma\xffin\n").as_deref(), Some("ma\u{fffd}in"));
    assert_eq!(git_branch_from_output(true, b"\tdev\t").as_deref(), Some("dev"));
}

#[test]
fn test_plugin_c_string() {
    let memory = b"abc\0def\0ghi";
    assert_eq!(c_string_at(memory, 0), b"abc".to_vec());
    assert_eq!(c_string_at(memory, 4), b"def".to_vec());
    assert_eq!(c_string_at(memory, 8), b"ghi".to_vec());
    assert_eq!(c_string_at(memory, 3), Vec::<u8>::new());
    assert_eq!(c_string_at(memory, 100), Vec::<u8>::new());
}

#[test]
fn test_plugin_memory_growth() {
    assert_eq!(pages_to_grow(65536, 100), None);
    assert_eq!(pages_to_grow(0, 0), Some(1));
    assert_eq!(pages_to_grow(65536, 65536), Some(1));
    assert_eq!(pages_to_grow(0, 200000), Some(4));
}

#[test]
fn test_plugin_hook_output_and_merging() {
    let memory = b"HELLO world";
    let r = hook_output(memory, 5);
    assert_eq!(r.data, Some(b"HELLO".to_vec()));
    assert!(!r.suppress);
    assert_eq!(hook_output(memory, 0).data, None);
    assert_eq!(hook_output(memory, -3).data, None);
    assert_eq!(hook_output(memory, 100).data, None);

    let mut result = HookResult::default();
    let mut current = b"in".to_vec();
    chain_hook_result(&mut result, &mut current, &HookResult { data: Some(b"x".to_vec()), suppress: false });
    assert_eq!(current, b"x".to_vec());
    assert_eq!(result.data, Some(b"x".to_vec()));
    chain_hook_result(&mut result, &mut current, &HookResult { data: None, suppress: true });
    assert_eq!(current, b"x".to_vec());
    assert!(result.suppress);
    merge_hook_result(&mut result, &HookResult { data: Some(b"y".to_vec()), suppress: false });
    assert_eq!(result.data, Some(b"y".to_vec()));
    assert!(result.suppress);
}

#[test]
fn test_plugin_metadata_defaults() {
    let m = metadata_with_defaults(None, None, None, None, None, "1234");
    assert_eq!(m.id, "plugin-1234");
    assert_eq!(m.name, "Unknown Plugin");
    assert_eq!(m.version, "0.1.0");
    let m = metadata_with_defaults(
        Some("meta-plugin".to_string()),
        Some("Metadata Plugin".to_string()),
        Some("1.0.0".to_string()),
        Some("Test Author".to_string()),
        None,
        "unused",
    );
    assert_eq!(m.id, "meta-plugin");
    assert_eq!(m.name, "Metadata Plugin");
    assert_eq!(m.version, "1.0.0");
    assert_eq!(m.author.as_deref(), Some("Test Author"));
    assert!(m.description.is_none());
}

#[test]
fn test_remove_expired_after_by_age() {
    let mut bar = StatusBar::new();
    bar.set_error("oops");
    bar.add_toast("old");
    bar.add_toast("new");
    bar.add_toast("edge");
    let ages = vec![Duration::from_secs(6), Duration::from_secs(1), Duration::from_secs(5)];
    bar.remove_expired_after(Duration::from_secs(7), &ages);
    assert!(bar.error.is_none());
    assert_eq!(bar.get_toasts(), vec!["new", "edge"]);

    let mut bar = StatusBar::new();
    bar.set_persistent_error("stays");
    bar.remove_expired_after(Duration::from_secs(100), &Vec::new());
    assert_eq!(bar.get_error(), Some("stays"));

    let mut bar = StatusBar::new();
    bar.set_error("young");
    bar.remove_expired_after(Duration::from_secs(2), &Vec::new());
    assert_eq!(bar.get_error(), Some("young"));
}

#[test]
fn test_status_bar_cells_layout() {
    let mut bar = StatusBar::new();
    bar.update("/home", Some("main".to_string()));
    let cells = bar.status_bar_cells(30);
    let bg = Color::Rgb(40, 44, 52);
    let text = Color::Rgb(171, 178, 191);
    let green = Color::Rgb(152, 195, 121);
    assert_eq!(cells.len(), 30 + 2 + 5 + 2 + 4);
    assert!(cells[..30].iter().enumerate().all(|(i, c)| c.col == i && c.ch == ' ' && c.bg == bg));
    assert_eq!(cells[30], PlacedChar { col: 2, ch: '\u{1F4C1}', fg: text, bg });
    let dir: String = cells[32..37].iter().map(|c| c.ch).collect();
    assert_eq!(dir, "/home");
    assert_eq!(cells[36].col, 8);
    assert_eq!(cells[37], PlacedChar { col: 10, ch: '\u{2502}', fg: Color::Rgb(97, 175, 239), bg });
    assert_eq!(cells[38], PlacedChar { col: 12, ch: ' ', fg: green, bg });
    let name: String = cells[39..].iter().map(|c| c.ch).collect();
    assert_eq!(name, "main");
    assert_eq!(cells[39].col, 13);

    // A long directory stops 20 columns before the end.
    bar.update("/a/very/long/directory/name", None);
    let cells = bar.status_bar_cells(30);
    assert_eq!(cells.len(), 30 + 2 + 6);
    assert_eq!(cells.last().unwrap().col, 9);

    bar.toggle();
    assert!(bar.status_bar_cells(30).is_empty());
}
