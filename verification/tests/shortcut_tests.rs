use warp_foss::ui::input::{KeyEvent, KeyState, LogicalKey, ModifierState, NamedKey};
use warp_foss::ui::layout::SplitDirection;
use warp_foss::ui::shortcuts::{route_key, KeyAction, PaletteKey, SearchKey};

fn press(key: LogicalKey) -> KeyEvent {
    KeyEvent { state: KeyState::Pressed, physical_key: None, logical_key: key }
}

fn text(s: &str) -> LogicalKey {
    LogicalKey::Character(s.to_string())
}

fn mods(shift: bool, ctrl: bool) -> ModifierState {
    let mut m = ModifierState::new();
    m.set(shift, ctrl, false, false);
    m
}

#[test]
fn test_ctrl_space_toggles_palette_everywhere() {
    assert_eq!(route_key(&press(text(" ")), mods(false, true), false, false), KeyAction::TogglePalette);
    assert_eq!(route_key(&press(text(" ")), mods(false, true), true, true), KeyAction::TogglePalette);
    assert_eq!(route_key(&press(text(" ")), mods(false, false), false, false), KeyAction::Send);
}

#[test]
fn test_open_palette_takes_keys() {
    let none = mods(false, false);
    assert_eq!(
        route_key(&press(LogicalKey::Named(NamedKey::Enter)), none, true, false),
        KeyAction::Palette(PaletteKey::Enter)
    );
    assert_eq!(
        route_key(&press(text("ab")), none, true, true),
        KeyAction::Palette(PaletteKey::Text("ab".to_string()))
    );
    assert_eq!(
        route_key(&press(LogicalKey::Named(NamedKey::ArrowLeft)), none, true, false),
        KeyAction::Palette(PaletteKey::Left)
    );
    assert_eq!(route_key(&press(LogicalKey::Named(NamedKey::Tab)), none, true, false), KeyAction::Nothing);
    let release = KeyEvent { state: KeyState::Released, physical_key: None, logical_key: text("x") };
    assert_eq!(route_key(&release, none, true, false), KeyAction::Nothing);
}

#[test]
fn test_search_bar_takes_key_presses() {
    assert_eq!(
        route_key(&press(LogicalKey::Named(NamedKey::Enter)), mods(true, false), false, true),
        KeyAction::Search(SearchKey::Previous)
    );
    assert_eq!(
        route_key(&press(LogicalKey::Named(NamedKey::Enter)), mods(false, false), false, true),
        KeyAction::Search(SearchKey::Next)
    );
    assert_eq!(
        route_key(&press(LogicalKey::Named(NamedKey::Escape)), mods(false, false), false, true),
        KeyAction::Search(SearchKey::Close)
    );
    assert_eq!(route_key(&press(LogicalKey::Other), mods(false, false), false, true), KeyAction::Nothing);
}

#[test]
fn test_window_shortcuts() {
    assert_eq!(route_key(&press(text("F")), mods(true, true), false, false), KeyAction::ToggleSearch);
    assert_eq!(
        route_key(&press(text("d")), mods(false, true), false, false),
        KeyAction::Split(SplitDirection::Horizontal)
    );
    assert_eq!(
        route_key(&press(text("D")), mods(true, true), false, false),
        KeyAction::Split(SplitDirection::Vertical)
    );
    assert_eq!(route_key(&press(text("w")), mods(false, true), false, false), KeyAction::ClosePane);
    assert_eq!(route_key(&press(text("w")), mods(true, true), false, false), KeyAction::Send);
    assert_eq!(route_key(&press(text("C")), mods(true, true), false, false), KeyAction::Copy);
    assert_eq!(route_key(&press(text("c")), mods(false, true), false, false), KeyAction::Send);
    assert_eq!(
        route_key(&press(LogicalKey::Named(NamedKey::Tab)), mods(true, false), false, false),
        KeyAction::FocusPrevious
    );
    assert_eq!(
        route_key(&press(LogicalKey::Named(NamedKey::Tab)), mods(false, true), false, false),
        KeyAction::FocusNext
    );
    assert_eq!(route_key(&press(LogicalKey::Named(NamedKey::Tab)), mods(false, false), false, false), KeyAction::Nothing);
    assert_eq!(
        route_key(&press(LogicalKey::Named(NamedKey::ArrowDown)), mods(true, true), false, false),
        KeyAction::ResizePane { direction: SplitDirection::Vertical, grow: true }
    );
    assert_eq!(
        route_key(&press(LogicalKey::Named(NamedKey::ArrowLeft)), mods(true, true), false, false),
        KeyAction::ResizePane { direction: SplitDirection::Horizontal, grow: false }
    );
    assert_eq!(route_key(&press(LogicalKey::Named(NamedKey::ArrowLeft)), mods(false, false), false, false), KeyAction::Send);
    assert_eq!(route_key(&press(text("v")), mods(false, true), false, false), KeyAction::Paste);
    assert_eq!(route_key(&press(text("I")), mods(true, false), false, false), KeyAction::Paste);
    assert_eq!(route_key(&press(LogicalKey::Named(NamedKey::Paste)), mods(false, false), false, false), KeyAction::Paste);
    assert_eq!(route_key(&press(text("q")), mods(false, false), false, false), KeyAction::Send);
}
