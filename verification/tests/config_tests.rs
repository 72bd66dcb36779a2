use warp_foss::config::settings::TerminalConfig;
use warp_foss::config::theme::{Color, Theme, ThemeConfig};

#[test]
fn test_color_from_hex() {
    let color = Color::from_hex("#1e1e2e").unwrap();
    assert_eq!(color.r, 0x1e);
    assert_eq!(color.g, 0x1e);
    assert_eq!(color.b, 0x2e);
}

#[test]
fn test_color_to_hex() {
    let color = Color::new(0x1e, 0x1e, 0x2e);
    assert_eq!(color.to_hex(), "#1e1e2e");
}

#[test]
fn test_color_roundtrip() {
    let original = Color::new(0xab, 0xcd, 0xef);
    let hex = original.to_hex();
    let parsed = Color::from_hex(&hex).unwrap();
    assert_eq!(original, parsed);
}

#[test]
fn test_builtin_themes() {
    let default = Theme::default_dark();
    assert_eq!(default.name, "default");

    let dracula = Theme::dracula();
    assert_eq!(dracula.name, "dracula");

    let gruvbox = Theme::gruvbox();
    assert_eq!(gruvbox.name, "gruvbox");
}

#[test]
fn test_theme_config_resolve_builtin() {
    let config = ThemeConfig {
        name: "dracula".to_string(),
        custom: None,
    };
    let theme = config.resolve();
    assert_eq!(theme.name, "dracula");
}

#[test]
fn test_theme_config_resolve_custom() {
    let custom = Theme::gruvbox();
    let config = ThemeConfig {
        name: "default".to_string(),
        custom: Some(custom.clone()),
    };
    let resolved = config.resolve();
    assert_eq!(resolved.name, "gruvbox");
}

#[test]
fn test_theme_config_default() {
    let config = ThemeConfig::default();
    let theme = config.resolve();
    assert_eq!(theme.name, "default");
}

#[test]
fn test_color_from_hex_uppercase_and_plus_sign() {
    assert_eq!(Color::from_hex("#FFA0ff"), Some(Color::new(0xff, 0xa0, 0xff)));
    // Each field is exactly two hex digits: a sign is no digit.
    assert_eq!(Color::from_hex("#+f0a0b"), None);
    assert_eq!(Color::from_hex("#+f+f+f"), None);
}

#[test]
fn test_color_from_hex_rejects() {
    assert_eq!(Color::from_hex("1e1e2e"), None);
    assert_eq!(Color::from_hex("#1e1e2"), None);
    assert_eq!(Color::from_hex("#1e1e2e0"), None);
    assert_eq!(Color::from_hex("#1g1e2e"), None);
    assert_eq!(Color::from_hex("#-11e2e"), None);
    assert_eq!(Color::from_hex(""), None);
    // Non-ASCII text whose fields fall on character boundaries.
    assert_eq!(Color::from_hex("#\u{e9}1234"), None);
}

#[test]
fn test_color_to_hex_pads_and_lowercases() {
    assert_eq!(Color::new(0, 10, 255).to_hex(), "#000aff");
}

#[test]
fn test_theme_builtin_lookup() {
    assert_eq!(Theme::builtin("gruvbox").unwrap().name, "gruvbox");
    assert_eq!(Theme::builtin("dracula").unwrap().background, Color::new(0x28, 0x2a, 0x36));
    assert!(Theme::builtin("solarized").is_none());
    assert!(Theme::builtin("Dracula").is_none());
    for name in Theme::builtin_names() {
        assert_eq!(Theme::builtin(name).unwrap().name, *name);
    }
    assert_eq!(Theme::builtin_names(), &["default", "dracula", "gruvbox"]);
}

#[test]
fn test_theme_config_resolve_unknown_falls_back() {
    let config = ThemeConfig { name: "nope".to_string(), custom: None };
    let theme = config.resolve();
    assert_eq!(theme, Theme::default_dark());
}

#[test]
fn test_theme_palette_values() {
    let t = Theme::default_dark();
    assert_eq!(t.colors.bright_white, Color::new(0xa5, 0xb0, 0xe8));
    assert_eq!(t.selection_background, Color::new(0x45, 0x47, 0x5a));
    let g = Theme::gruvbox();
    assert_eq!(g.colors.red, Color::new(0xcc, 0x24, 0x1d));
}

#[test]
fn test_terminal_config_default() {
    let c = TerminalConfig::default();
    assert_eq!(c.cols, 120);
    assert_eq!(c.rows, 40);
    assert!(c.shell.is_none());
    assert!(c.working_dir.is_none());
    assert!(c.env.is_empty());
}
