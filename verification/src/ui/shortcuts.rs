//! Keyboard shortcuts of the terminal window.
//!
//! Decides what a key press does: toggle or drive the AI palette, drive the
//! search bar, split, close, focus or resize panes, copy, paste, or send the
//! key to the shell. The window layer carries the decision out.
use vstd::prelude::*;
use crate::strings::str_eq;
use crate::ui::input::{KeyEvent, KeyState, LogicalKey, ModifierState, NamedKey};
use crate::ui::layout::SplitDirection;

verus! {

/// A key handed to the open AI palette.
#[derive(Debug, Clone, PartialEq, Eq)]
pub enum PaletteKey {
    Escape,
    Enter,
    Backspace,
    Left,
    Right,
    /// Typed text, one character at a time.
    Text(String),
}

/// A key handed to the active search bar.
#[derive(Debug, Clone, PartialEq, Eq)]
pub enum SearchKey {
    Close,
    Next,
    Previous,
    Backspace,
    /// Typed text, one character at a time.
    Text(String),
}

/// What a key event makes the terminal window do.
#[derive(Debug, Clone, PartialEq, Eq)]
pub enum KeyAction {
    /// Open or close the AI palette.
    TogglePalette,
    /// Hand the key to the AI palette.
    Palette(PaletteKey),
    /// Hand the key to the search bar.
    Search(SearchKey),
    /// Open or close the search bar.
    ToggleSearch,
    /// Split the focused pane.
    Split(SplitDirection),
    /// Close the focused pane.
    ClosePane,
    /// Copy the selection.
    Copy,
    /// Focus the previous pane.
    FocusPrevious,
    /// Focus the next pane.
    FocusNext,
    /// Move the focused pane's border: `grow` moves it right or down.
    ResizePane { direction: SplitDirection, grow: bool },
    /// Paste the clipboard.
    Paste,
    /// Send the key to the shell.
    Send,
    /// Nothing.
    Nothing,
}

/// A [`PaletteKey`] or [`SearchKey`] payload as plain values.
pub enum RoutedKey {
    Escape,
    Enter,
    Backspace,
    Left,
    Right,
    Next,
    Previous,
    Text(Seq<char>),
}

/// A [`KeyAction`] as plain values.
pub enum ActionView {
    TogglePalette,
    Palette(RoutedKey),
    Search(RoutedKey),
    ToggleSearch,
    Split(SplitDirection),
    ClosePane,
    Copy,
    FocusPrevious,
    FocusNext,
    ResizePane(SplitDirection, bool),
    Paste,
    Send,
    Nothing,
}

impl View for KeyAction {
    type V = ActionView;

    open spec fn view(&self) -> ActionView {
        match self {
            KeyAction::TogglePalette => ActionView::TogglePalette,
            KeyAction::Palette(k) => ActionView::Palette(
                match k {
                    PaletteKey::Escape => RoutedKey::Escape,
                    PaletteKey::Enter => RoutedKey::Enter,
                    PaletteKey::Backspace => RoutedKey::Backspace,
                    PaletteKey::Left => RoutedKey::Left,
                    PaletteKey::Right => RoutedKey::Right,
                    PaletteKey::Text(s) => RoutedKey::Text(s@),
                },
            ),
            KeyAction::Search(k) => ActionView::Search(
                match k {
                    SearchKey::Close => RoutedKey::Escape,
                    SearchKey::Next => RoutedKey::Next,
                    SearchKey::Previous => RoutedKey::Previous,
                    SearchKey::Backspace => RoutedKey::Backspace,
                    SearchKey::Text(s) => RoutedKey::Text(s@),
                },
            ),
            KeyAction::ToggleSearch => ActionView::ToggleSearch,
            KeyAction::Split(d) => ActionView::Split(*d),
            KeyAction::ClosePane => ActionView::ClosePane,
            KeyAction::Copy => ActionView::Copy,
            KeyAction::FocusPrevious => ActionView::FocusPrevious,
            KeyAction::FocusNext => ActionView::FocusNext,
            KeyAction::ResizePane { direction, grow } => ActionView::ResizePane(*direction, *grow),
            KeyAction::Paste => ActionView::Paste,
            KeyAction::Send => ActionView::Send,
            KeyAction::Nothing => ActionView::Nothing,
        }
    }
}

/// The key's text is `a` or `b`.
pub open spec fn text_is(k: LogicalKey, a: Seq<char>, b: Seq<char>) -> bool {
    k matches LogicalKey::Character(s) && (s@ == a || s@ == b)
}

/// The key is the named key `n`.
pub open spec fn named_is(k: LogicalKey, n: NamedKey) -> bool {
    k matches LogicalKey::Named(m) && m == n
}

/// What a key does while the AI palette is open.
pub open spec fn palette_action(k: LogicalKey) -> ActionView {
    match k {
        LogicalKey::Named(NamedKey::Escape) => ActionView::Palette(RoutedKey::Escape),
        LogicalKey::Named(NamedKey::Enter) => ActionView::Palette(RoutedKey::Enter),
        LogicalKey::Named(NamedKey::Backspace) => ActionView::Palette(RoutedKey::Backspace),
        LogicalKey::Named(NamedKey::ArrowLeft) => ActionView::Palette(RoutedKey::Left),
        LogicalKey::Named(NamedKey::ArrowRight) => ActionView::Palette(RoutedKey::Right),
        LogicalKey::Character(s) => ActionView::Palette(RoutedKey::Text(s@)),
        _ => ActionView::Nothing,
    }
}

/// What a key press does while the search bar is active.
pub open spec fn search_action(k: LogicalKey, m: ModifierState) -> ActionView {
    match k {
        LogicalKey::Named(NamedKey::Escape) => ActionView::Search(RoutedKey::Escape),
        LogicalKey::Named(NamedKey::Enter) => ActionView::Search(
            if m.shift { RoutedKey::Previous } else { RoutedKey::Next },
        ),
        LogicalKey::Named(NamedKey::Backspace) => ActionView::Search(RoutedKey::Backspace),
        LogicalKey::Character(s) => ActionView::Search(RoutedKey::Text(s@)),
        _ => ActionView::Nothing,
    }
}

/// What a key press does when neither the palette nor the search bar takes it.
pub open spec fn window_action(k: LogicalKey, m: ModifierState) -> ActionView {
    if text_is(k, "f"@, "F"@) && m.ctrl && m.shift {
        ActionView::ToggleSearch
    } else if text_is(k, "d"@, "D"@) && m.ctrl {
        ActionView::Split(if m.shift { SplitDirection::Vertical } else { SplitDirection::Horizontal })
    } else if text_is(k, "w"@, "W"@) && m.ctrl && !m.shift {
        ActionView::ClosePane
    } else if text_is(k, "c"@, "C"@) && m.ctrl && m.shift {
        ActionView::Copy
    } else if named_is(k, NamedKey::Tab) {
        if m.shift {
            ActionView::FocusPrevious
        } else if m.ctrl {
            ActionView::FocusNext
        } else {
            ActionView::Nothing
        }
    } else if m.ctrl && m.shift && named_is(k, NamedKey::ArrowLeft) {
        ActionView::ResizePane(SplitDirection::Horizontal, false)
    } else if m.ctrl && m.shift && named_is(k, NamedKey::ArrowRight) {
        ActionView::ResizePane(SplitDirection::Horizontal, true)
    } else if m.ctrl && m.shift && named_is(k, NamedKey::ArrowUp) {
        ActionView::ResizePane(SplitDirection::Vertical, false)
    } else if m.ctrl && m.shift && named_is(k, NamedKey::ArrowDown) {
        ActionView::ResizePane(SplitDirection::Vertical, true)
    } else if named_is(k, NamedKey::Paste) || (text_is(k, "v"@, "V"@) && m.ctrl) || (text_is(
        k,
        "i"@,
        "I"@,
    ) && m.shift) {
        ActionView::Paste
    } else {
        ActionView::Send
    }
}

/// What a key event does, given the held modifiers and whether the AI
/// palette is open and the search bar active. Ctrl+Space toggles the
/// palette; an open palette takes every key; an active search bar takes
/// every key press; then come the window shortcuts; any other key press goes
/// to the shell. Key releases do nothing.
pub open spec fn key_action(e: KeyEvent, m: ModifierState, palette_visible: bool, search_active: bool) -> ActionView {
    let pressed = e.state == KeyState::Pressed;
    if pressed && m.ctrl && text_is(e.logical_key, " "@, " "@) {
        ActionView::TogglePalette
    } else if palette_visible {
        if pressed { palette_action(e.logical_key) } else { ActionView::Nothing }
    } else if !pressed {
        ActionView::Nothing
    } else if search_active {
        search_action(e.logical_key, m)
    } else {
        window_action(e.logical_key, m)
    }
}

/// The key's text is `a` or `b`.
fn text_matches(k: &LogicalKey, a: &str, b: &str) -> (r: bool)
    ensures
        r == text_is(*k, a@, b@),
{
    match k {
        LogicalKey::Character(s) => str_eq(s.as_str(), a) || str_eq(s.as_str(), b),
        _ => false,
    }
}

/// The key is the named key `n`.
fn named_matches(k: &LogicalKey, n: NamedKey) -> (r: bool)
    ensures
        r == named_is(*k, n),
{
    match k {
        LogicalKey::Named(m) => *m == n,
        _ => false,
    }
}

fn copy_text(s: &String) -> (t: String)
    ensures
        t@ == s@,
{
    s.clone()
}

fn route_palette_key(k: &LogicalKey) -> (a: KeyAction)
    ensures
        a@ == palette_action(*k),
{
    match k {
        LogicalKey::Named(NamedKey::Escape) => KeyAction::Palette(PaletteKey::Escape),
        LogicalKey::Named(NamedKey::Enter) => KeyAction::Palette(PaletteKey::Enter),
        LogicalKey::Named(NamedKey::Backspace) => KeyAction::Palette(PaletteKey::Backspace),
        LogicalKey::Named(NamedKey::ArrowLeft) => KeyAction::Palette(PaletteKey::Left),
        LogicalKey::Named(NamedKey::ArrowRight) => KeyAction::Palette(PaletteKey::Right),
        LogicalKey::Character(s) => KeyAction::Palette(PaletteKey::Text(copy_text(s))),
        _ => KeyAction::Nothing,
    }
}

fn route_search_key(k: &LogicalKey, m: ModifierState) -> (a: KeyAction)
    ensures
        a@ == search_action(*k, m),
{
    match k {
        LogicalKey::Named(NamedKey::Escape) => KeyAction::Search(SearchKey::Close),
        LogicalKey::Named(NamedKey::Enter) => {
            if m.shift {
                KeyAction::Search(SearchKey::Previous)
            } else {
                KeyAction::Search(SearchKey::Next)
            }
        },
        LogicalKey::Named(NamedKey::Backspace) => KeyAction::Search(SearchKey::Backspace),
        LogicalKey::Character(s) => KeyAction::Search(SearchKey::Text(copy_text(s))),
        _ => KeyAction::Nothing,
    }
}

fn route_window_key(k: &LogicalKey, m: ModifierState) -> (a: KeyAction)
    ensures
        a@ == window_action(*k, m),
{
    if text_matches(k, "f", "F") && m.ctrl && m.shift {
        KeyAction::ToggleSearch
    } else if text_matches(k, "d", "D") && m.ctrl {
        KeyAction::Split(if m.shift { SplitDirection::Vertical } else { SplitDirection::Horizontal })
    } else if text_matches(k, "w", "W") && m.ctrl && !m.shift {
        KeyAction::ClosePane
    } else if text_matches(k, "c", "C") && m.ctrl && m.shift {
        KeyAction::Copy
    } else if named_matches(k, NamedKey::Tab) {
        if m.shift {
            KeyAction::FocusPrevious
        } else if m.ctrl {
            KeyAction::FocusNext
        } else {
            KeyAction::Nothing
        }
    } else if m.ctrl && m.shift && named_matches(k, NamedKey::ArrowLeft) {
        KeyAction::ResizePane { direction: SplitDirection::Horizontal, grow: false }
    } else if m.ctrl && m.shift && named_matches(k, NamedKey::ArrowRight) {
        KeyAction::ResizePane { direction: SplitDirection::Horizontal, grow: true }
    } else if m.ctrl && m.shift && named_matches(k, NamedKey::ArrowUp) {
        KeyAction::ResizePane { direction: SplitDirection::Vertical, grow: false }
    } else if m.ctrl && m.shift && named_matches(k, NamedKey::ArrowDown) {
        KeyAction::ResizePane { direction: SplitDirection::Vertical, grow: true }
    } else if named_matches(k, NamedKey::Paste) || (text_matches(k, "v", "V") && m.ctrl) || (
    text_matches(k, "i", "I") && m.shift) {
        KeyAction::Paste
    } else {
        KeyAction::Send
    }
}

/// Decide what a key event does (see [`key_action`]).
pub fn route_key(event: &KeyEvent, modifiers: ModifierState, palette_visible: bool, search_active: bool) -> (a: KeyAction)
    ensures
        a@ == key_action(*event, modifiers, palette_visible, search_active),
{
    let pressed = event.state == KeyState::Pressed;
    if pressed && modifiers.ctrl && text_matches(&event.logical_key, " ", " ") {
        KeyAction::TogglePalette
    } else if palette_visible {
        if pressed {
            route_palette_key(&event.logical_key)
        } else {
            KeyAction::Nothing
        }
    } else if !pressed {
        KeyAction::Nothing
    } else if search_active {
        route_search_key(&event.logical_key, modifiers)
    } else {
        route_window_key(&event.logical_key, modifiers)
    }
}

/// With the palette open, a pressed arrow key goes to the palette in its
/// own direction (Right as Right, Left as Left), whatever modifiers are held
/// and whether or not the search bar is active; the two never coincide.
pub proof fn lemma_palette_arrows_keep_direction(e: KeyEvent, m: ModifierState, search_active: bool)
    requires
        e.state == KeyState::Pressed,
    ensures
        e.logical_key == LogicalKey::Named(NamedKey::ArrowRight) ==> key_action(e, m, true, search_active)
            == ActionView::Palette(RoutedKey::Right),
        e.logical_key == LogicalKey::Named(NamedKey::ArrowLeft) ==> key_action(e, m, true, search_active)
            == ActionView::Palette(RoutedKey::Left),
        ActionView::Palette(RoutedKey::Right) != ActionView::Palette(RoutedKey::Left),
{
}

/// With the palette open, a pressed key goes to the palette as itself:
/// Escape closes, Enter submits, Backspace deletes, and typed text is typed
/// (save Ctrl+Space, which toggles the palette).
pub proof fn lemma_palette_keys_keep_meaning(e: KeyEvent, m: ModifierState, search_active: bool)
    requires
        e.state == KeyState::Pressed,
    ensures
        e.logical_key == LogicalKey::Named(NamedKey::Escape) ==> key_action(e, m, true, search_active)
            == ActionView::Palette(RoutedKey::Escape),
        e.logical_key == LogicalKey::Named(NamedKey::Enter) ==> key_action(e, m, true, search_active)
            == ActionView::Palette(RoutedKey::Enter),
        e.logical_key == LogicalKey::Named(NamedKey::Backspace) ==> key_action(e, m, true, search_active)
            == ActionView::Palette(RoutedKey::Backspace),
        (e.logical_key matches LogicalKey::Character(t) && !(m.ctrl && t@ == " "@)) ==> key_action(
            e,
            m,
            true,
            search_active,
        ) == ActionView::Palette(RoutedKey::Text(e.logical_key->Character_0@)),
{
}

/// With the search bar active (palette closed), Enter looks for the next
/// match and Shift+Enter for the previous one; Escape leaves the search.
pub proof fn lemma_search_enter_direction(e: KeyEvent, m: ModifierState)
    requires
        e.state == KeyState::Pressed,
    ensures
        e.logical_key == LogicalKey::Named(NamedKey::Enter) ==> key_action(e, m, false, true)
            == ActionView::Search(if m.shift { RoutedKey::Previous } else { RoutedKey::Next }),
        e.logical_key == LogicalKey::Named(NamedKey::Escape) ==> key_action(e, m, false, true)
            == ActionView::Search(RoutedKey::Escape),
{
}

/// Ctrl+Shift with an arrow resizes the focused pane along the arrow's axis:
/// Left and Up shrink it, Right and Down grow it.
pub proof fn lemma_resize_shortcuts_follow_arrows(e: KeyEvent, m: ModifierState)
    requires
        e.state == KeyState::Pressed,
        m.ctrl && m.shift,
    ensures
        e.logical_key == LogicalKey::Named(NamedKey::ArrowLeft) ==> key_action(e, m, false, false)
            == ActionView::ResizePane(SplitDirection::Horizontal, false),
        e.logical_key == LogicalKey::Named(NamedKey::ArrowRight) ==> key_action(e, m, false, false)
            == ActionView::ResizePane(SplitDirection::Horizontal, true),
        e.logical_key == LogicalKey::Named(NamedKey::ArrowUp) ==> key_action(e, m, false, false)
            == ActionView::ResizePane(SplitDirection::Vertical, false),
        e.logical_key == LogicalKey::Named(NamedKey::ArrowDown) ==> key_action(e, m, false, false)
            == ActionView::ResizePane(SplitDirection::Vertical, true),
{
}

/// Ctrl+D splits the focused pane side by side, Ctrl+Shift+D stacks it;
/// Shift+Tab focuses the previous pane and Ctrl+Tab the next.
pub proof fn lemma_split_and_focus_shortcuts(e: KeyEvent, m: ModifierState)
    requires
        e.state == KeyState::Pressed,
    ensures
        text_is(e.logical_key, "d"@, "D"@) && m.ctrl ==> key_action(e, m, false, false)
            == ActionView::Split(if m.shift { SplitDirection::Vertical } else { SplitDirection::Horizontal }),
        e.logical_key == LogicalKey::Named(NamedKey::Tab) && m.shift ==> key_action(e, m, false, false)
            == ActionView::FocusPrevious,
        e.logical_key == LogicalKey::Named(NamedKey::Tab) && !m.shift && m.ctrl ==> key_action(e, m, false, false)
            == ActionView::FocusNext,
{
    reveal_strlit("d");
    reveal_strlit("D");
    reveal_strlit(" ");
    reveal_strlit("f");
    reveal_strlit("F");
    if text_is(e.logical_key, "d"@, "D"@) {
        let t = e.logical_key->Character_0@;
        assert(t[0] == 'd' || t[0] == 'D');
        assert(t != " "@) by {
            assert(" "@[0] == ' ');
        }
        assert(t != "f"@ && t != "F"@) by {
            assert("f"@[0] == 'f');
            assert("F"@[0] == 'F');
        }
        assert(!text_is(e.logical_key, " "@, " "@));
        assert(!text_is(e.logical_key, "f"@, "F"@));
    }
}

} // verus!
