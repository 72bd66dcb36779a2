//! Keyboard input handling for the terminal emulator.
//!
//! Converts keyboard events into terminal escape sequences.
use vstd::prelude::*;
use vstd::utf8::encode_utf8;
use crate::strings::{decimal, push_char, push_decimal, push_str, utf8_bytes};

verus! {

/// Represents a key sequence to be sent to the terminal
#[derive(Debug, Clone, PartialEq, Eq)]
pub enum TerminalInput {
    /// Regular character input
    Char(char),
    /// Escape sequence (e.g., arrow keys, function keys)
    Escape(String),
    /// No output (modifier only, etc.)
    NoOutput,
}

/// A [`TerminalInput`] as plain values.
pub enum InputView {
    Char(char),
    Escape(Seq<char>),
    NoOutput,
}

impl View for TerminalInput {
    type V = InputView;

    open spec fn view(&self) -> InputView {
        match self {
            TerminalInput::Char(c) => InputView::Char(*c),
            TerminalInput::Escape(s) => InputView::Escape(s@),
            TerminalInput::NoOutput => InputView::NoOutput,
        }
    }
}

impl TerminalInput {
    /// The bytes sent to the PTY for this input.
    pub open spec fn spec_bytes(self) -> Seq<u8> {
        match self@ {
            InputView::Char(c) => encode_utf8(seq![c]),
            InputView::Escape(s) => encode_utf8(s),
            InputView::NoOutput => Seq::empty(),
        }
    }

    /// Convert the terminal input to bytes for sending to the PTY
    pub fn to_bytes(&self) -> (b: Vec<u8>)
        ensures
            b@ == self.spec_bytes(),
    {
        match self {
            TerminalInput::Char(c) => {
                let mut s = String::new();
                push_char(&mut s, *c);
                proof {
                    assert(s@ =~= seq![*c]);
                }
                utf8_bytes(&s)
            },
            TerminalInput::Escape(s) => utf8_bytes(s),
            TerminalInput::NoOutput => Vec::new(),
        }
    }

    /// Check if this input represents actual data to send
    pub fn has_output(&self) -> (b: bool)
        ensures
            b == !(self@ is NoOutput),
    {
        match self {
            TerminalInput::NoOutput => false,
            _ => true,
        }
    }
}

/// Tracks the state of keyboard modifiers
#[derive(Debug, Clone, Copy, PartialEq, Eq, Structural)]
pub struct ModifierState {
    pub shift: bool,
    pub ctrl: bool,
    pub alt: bool,
    pub super_key: bool,
}

/// All modifiers released.
pub open spec fn no_modifiers() -> ModifierState {
    ModifierState { shift: false, ctrl: false, alt: false, super_key: false }
}

impl Default for ModifierState {
    fn default() -> (m: Self)
        ensures
            m == no_modifiers(),
    {
        ModifierState { shift: false, ctrl: false, alt: false, super_key: false }
    }
}

impl ModifierState {
    /// The xterm modifier number minus one: Shift 1, Alt 2, Ctrl 4, Super 8, summed.
    pub open spec fn escape_modifier(self) -> u8 {
        ((if self.shift { 1u8 } else { 0u8 }) + (if self.alt { 2u8 } else { 0u8 }) + (if self.ctrl {
            4u8
        } else {
            0u8
        }) + (if self.super_key { 8u8 } else { 0u8 })) as u8
    }

    /// Some modifier is held.
    pub open spec fn spec_any_pressed(self) -> bool {
        self.shift || self.ctrl || self.alt || self.super_key
    }

    /// Creates a new modifier state with all modifiers released
    pub fn new() -> (m: Self)
        ensures
            m == no_modifiers(),
    {
        Self::default()
    }

    /// Sets every modifier flag at once.
    pub fn set(&mut self, shift: bool, ctrl: bool, alt: bool, super_key: bool)
        ensures
            *final(self) == (ModifierState { shift, ctrl, alt, super_key }),
    {
        self.shift = shift;
        self.ctrl = ctrl;
        self.alt = alt;
        self.super_key = super_key;
    }

    /// Returns the modifier number for escape sequences (1-8)
    /// Bit positions: Shift(1), Alt(2), Ctrl(4), Super(8) - but typically 1-8
    pub fn as_escape_modifier(&self) -> (m: u8)
        ensures
            m == self.escape_modifier(),
            m <= 15,
            m > 0 <==> self.spec_any_pressed(),
    {
        let mut modifier: u8 = 0;
        if self.shift {
            modifier = modifier + 1;
        }
        if self.alt {
            modifier = modifier + 2;
        }
        if self.ctrl {
            modifier = modifier + 4;
        }
        if self.super_key {
            modifier = modifier + 8;
        }
        modifier
    }

    /// Check if any modifier is pressed
    pub fn any_pressed(&self) -> (b: bool)
        ensures
            b == self.spec_any_pressed(),
    {
        self.shift || self.ctrl || self.alt || self.super_key
    }
}

/// Whether a key went down or up.
#[derive(Debug, Clone, Copy, PartialEq, Eq, Structural)]
pub enum KeyState {
    Pressed,
    Released,
}

/// Physical keys that produce dedicated sequences.
#[derive(Debug, Clone, Copy, PartialEq, Eq, Structural)]
pub enum KeyCode {
    ArrowUp,
    ArrowDown,
    ArrowRight,
    ArrowLeft,
    Home,
    End,
    Insert,
    Delete,
    PageUp,
    PageDown,
    F1,
    F2,
    F3,
    F4,
    F5,
    F6,
    F7,
    F8,
    F9,
    F10,
    F11,
    F12,
    NumpadEnter,
    NumpadDivide,
    NumpadMultiply,
    NumpadSubtract,
    NumpadAdd,
    NumpadDecimal,
    Escape,
    Tab,
    Backspace,
    Enter,
    /// Any other physical key.
    Other,
}

/// Named logical keys the terminal handles.
#[derive(Debug, Clone, Copy, PartialEq, Eq, Structural)]
pub enum NamedKey {
    Space,
    Tab,
    Enter,
    Backspace,
    Escape,
    ArrowLeft,
    ArrowRight,
    ArrowUp,
    ArrowDown,
    Paste,
    /// Any other named key.
    Other,
}

/// The logical meaning of a key press.
#[derive(Debug, Clone, PartialEq, Eq)]
pub enum LogicalKey {
    /// A named key.
    Named(NamedKey),
    /// Text produced by the key.
    Character(String),
    /// Anything else.
    Other,
}

/// A keyboard event: press or release, the physical key (when it has a
/// code) and the logical key.
#[derive(Debug, Clone, PartialEq, Eq)]
pub struct KeyEvent {
    pub state: KeyState,
    pub physical_key: Option<KeyCode>,
    pub logical_key: LogicalKey,
}

/// A window event as far as input handling is concerned.
#[derive(Debug, Clone, PartialEq, Eq)]
pub enum InputEvent {
    /// A key was pressed or released.
    KeyboardInput(KeyEvent),
    /// The held modifiers changed.
    ModifiersChanged(ModifierState),
    /// Any other event.
    Other,
}

/// Handles keyboard input conversion for terminal emulation
pub struct InputHandler {
    /// Current state of modifier keys
    modifiers: ModifierState,
}

impl Default for InputHandler {
    fn default() -> (h: Self)
        ensures
            h.spec_modifiers() == no_modifiers(),
    {
        Self::new()
    }
}

/// ESC.
pub open spec fn esc() -> char {
    '\x1b'
}

/// `ESC [`.
pub open spec fn csi_prefix() -> Seq<char> {
    seq!['\x1b', '[']
}

/// The sequence `prefix;{m+1}suffix` for a held modifier set `m`.
pub open spec fn modified_sequence(prefix: Seq<char>, m: u8, suffix: char) -> Seq<char> {
    prefix + seq![';'] + decimal((m + 1) as nat) + seq![suffix]
}

/// The key code of function key F5..F12 in its CSI sequence.
pub open spec fn f_key_code(num: u8) -> nat {
    if num == 5 { 15 }
    else if num == 6 { 17 }
    else if num == 7 { 18 }
    else if num == 8 { 19 }
    else if num == 9 { 20 }
    else if num == 10 { 21 }
    else if num == 11 { 23 }
    else { 24 }
}

/// The final character of F1..F4 in its SS3 sequence.
pub open spec fn f_key_final(num: u8) -> char {
    if num == 1 { 'P' }
    else if num == 2 { 'Q' }
    else if num == 3 { 'R' }
    else { 'S' }
}

/// The sequence a function key sends with modifier number `m`.
pub open spec fn f_key_sequence(num: u8, m: u8) -> Option<Seq<char>> {
    if 1 <= num <= 4 {
        if m > 0 {
            Some(modified_sequence(csi_prefix() + seq!['1'], m, f_key_final(num)))
        } else {
            Some(seq![esc(), 'O', f_key_final(num)])
        }
    } else if 5 <= num <= 12 {
        if m > 0 {
            Some(modified_sequence(csi_prefix() + decimal(f_key_code(num)), m, '~'))
        } else {
            Some(csi_prefix() + decimal(f_key_code(num)) + seq!['~'])
        }
    } else {
        None
    }
}

/// Lower-case form of an ASCII letter; other characters unchanged.
pub open spec fn ascii_lower(c: char) -> char {
    if 'A' <= c <= 'Z' { ((c as u32) + 32) as char } else { c }
}

/// The control character Ctrl+`c` produces, if any.
pub open spec fn ctrl_char_spec(c: char) -> Option<char> {
    let l = ascii_lower(c);
    if 'a' <= l <= 'z' {
        Some(((l as u32) - ('a' as u32) + 1) as char)
    } else if '0' <= l <= '9' {
        if c == '2' { Some('\x00') }
        else if c == '3' { Some('\x1b') }
        else if c == '4' { Some('\x1c') }
        else if c == '5' { Some('\x1d') }
        else if c == '6' { Some('\x1e') }
        else if c == '7' { Some('\x1f') }
        else if c == '8' { Some('\x7f') }
        else { None }
    } else if c == '[' { Some('\x1b') }
    else if c == '\\' { Some('\x1c') }
    else if c == ']' { Some('\x1d') }
    else if c == '^' { Some('\x1e') }
    else if c == '_' { Some('\x1f') }
    else { None }
}

/// What [`InputHandler::apply_modifiers`] yields for modifiers `m`.
pub open spec fn apply_modifiers_spec(m: ModifierState, base: Seq<char>, prefix: Seq<char>, suffix: char) -> InputView {
    if !m.spec_any_pressed() {
        InputView::Escape(base)
    } else {
        InputView::Escape(modified_sequence(prefix, m.escape_modifier(), suffix))
    }
}

/// What a typed string yields with modifiers `m`.
pub open spec fn character_input(m: ModifierState, ch: Seq<char>) -> InputView {
    if ch.len() == 0 {
        InputView::NoOutput
    } else if m.ctrl && ctrl_char_spec(ch[0]) is Some {
        InputView::Char(ctrl_char_spec(ch[0])->0)
    } else if m.alt {
        InputView::Escape(seq![esc()] + ch)
    } else {
        InputView::Char(ch[0])
    }
}

/// What a named logical key yields with modifiers `m`.
pub open spec fn named_key_input(m: ModifierState, k: NamedKey) -> InputView {
    match k {
        NamedKey::Space => InputView::Char(if m.ctrl { '\x00' } else { ' ' }),
        NamedKey::Tab => if m.shift {
            InputView::Escape(csi_prefix() + seq!['Z'])
        } else {
            InputView::Char('\t')
        },
        NamedKey::Enter => InputView::Char('\r'),
        NamedKey::Backspace => InputView::Char('\x7f'),
        NamedKey::Escape => InputView::Char('\x1b'),
        _ => InputView::NoOutput,
    }
}

/// A cursor or editing key's plain sequence and its modified prefix and final.
pub open spec fn edit_key_sequences(code: KeyCode) -> Option<(Seq<char>, Seq<char>, char)> {
    match code {
        KeyCode::ArrowUp => Some((csi_prefix() + seq!['A'], csi_prefix() + seq!['1'], 'A')),
        KeyCode::ArrowDown => Some((csi_prefix() + seq!['B'], csi_prefix() + seq!['1'], 'B')),
        KeyCode::ArrowRight => Some((csi_prefix() + seq!['C'], csi_prefix() + seq!['1'], 'C')),
        KeyCode::ArrowLeft => Some((csi_prefix() + seq!['D'], csi_prefix() + seq!['1'], 'D')),
        KeyCode::Home => Some((csi_prefix() + seq!['H'], csi_prefix() + seq!['1'], 'H')),
        KeyCode::End => Some((csi_prefix() + seq!['F'], csi_prefix() + seq!['1'], 'F')),
        KeyCode::Insert => Some((csi_prefix() + seq!['2', '~'], csi_prefix() + seq!['2'], '~')),
        KeyCode::Delete => Some((csi_prefix() + seq!['3', '~'], csi_prefix() + seq!['3'], '~')),
        KeyCode::PageUp => Some((csi_prefix() + seq!['5', '~'], csi_prefix() + seq!['5'], '~')),
        KeyCode::PageDown => Some((csi_prefix() + seq!['6', '~'], csi_prefix() + seq!['6'], '~')),
        _ => None,
    }
}

/// The function-key number of a key code (0 when it is not one).
pub open spec fn f_key_number(code: KeyCode) -> u8 {
    match code {
        KeyCode::F1 => 1,
        KeyCode::F2 => 2,
        KeyCode::F3 => 3,
        KeyCode::F4 => 4,
        KeyCode::F5 => 5,
        KeyCode::F6 => 6,
        KeyCode::F7 => 7,
        KeyCode::F8 => 8,
        KeyCode::F9 => 9,
        KeyCode::F10 => 10,
        KeyCode::F11 => 11,
        KeyCode::F12 => 12,
        _ => 0,
    }
}

/// What a physical key yields with modifiers `m`, if it has a dedicated sequence.
pub open spec fn special_key_input(m: ModifierState, code: KeyCode) -> Option<InputView> {
    match edit_key_sequences(code) {
        Some((base, prefix, suffix)) => Some(apply_modifiers_spec(m, base, prefix, suffix)),
        None => if f_key_number(code) != 0 {
            Some(
                match f_key_sequence(f_key_number(code), m.escape_modifier()) {
                    Some(s) => InputView::Escape(s),
                    None => InputView::NoOutput,
                },
            )
        } else {
            match code {
                KeyCode::NumpadEnter => Some(InputView::Char('\r')),
                KeyCode::NumpadDivide => Some(InputView::Char('/')),
                KeyCode::NumpadMultiply => Some(InputView::Char('*')),
                KeyCode::NumpadSubtract => Some(InputView::Char('-')),
                KeyCode::NumpadAdd => Some(InputView::Char('+')),
                KeyCode::NumpadDecimal => Some(InputView::Char('.')),
                KeyCode::Escape => Some(InputView::Char('\x1b')),
                KeyCode::Tab => Some(
                    if m.shift {
                        InputView::Escape(csi_prefix() + seq!['Z'])
                    } else {
                        InputView::Char('\t')
                    },
                ),
                KeyCode::Backspace => Some(InputView::Char(if m.ctrl { '\x08' } else { '\x7f' })),
                KeyCode::Enter => Some(InputView::Char('\r')),
                _ => None,
            }
        },
    }
}

/// What a key event yields with modifiers `m`.
pub open spec fn key_event_input(m: ModifierState, e: KeyEvent) -> InputView {
    if e.state != KeyState::Pressed {
        InputView::NoOutput
    } else {
        let special = match e.physical_key {
            Some(code) => special_key_input(m, code),
            None => None,
        };
        match special {
            Some(v) => v,
            None => match e.logical_key {
                LogicalKey::Named(k) => named_key_input(m, k),
                LogicalKey::Character(s) => character_input(m, s@),
                LogicalKey::Other => InputView::NoOutput,
            },
        }
    }
}

/// Builds `prefix;{m+1}suffix`.
fn modified(prefix: &str, m: u8, suffix: char) -> (s: String)
    requires
        m < 255,
    ensures
        s@ == modified_sequence(prefix@, m, suffix),
{
    let mut s = String::new();
    push_str(&mut s, prefix);
    push_char(&mut s, ';');
    push_decimal(&mut s, (m + 1) as usize);
    push_char(&mut s, suffix);
    proof {
        assert(s@ =~= modified_sequence(prefix@, m, suffix));
    }
    s
}

/// A string holding exactly `t`.
fn string_of(t: &str) -> (s: String)
    ensures
        s@ == t@,
{
    let mut s = String::new();
    push_str(&mut s, t);
    proof {
        assert(s@ =~= t@);
    }
    s
}

impl InputHandler {
    /// The modifier state.
    pub closed spec fn spec_modifiers(&self) -> ModifierState {
        self.modifiers
    }

    /// Creates a new input handler
    pub fn new() -> (h: Self)
        ensures
            h.spec_modifiers() == no_modifiers(),
    {
        InputHandler { modifiers: ModifierState::new() }
    }

    /// Get a mutable reference to the modifier state
    pub fn modifiers_mut(&mut self) -> (m: &mut ModifierState)
        ensures
            *m == old(self).spec_modifiers(),
            final(self).spec_modifiers() == *final(m),
    {
        &mut self.modifiers
    }

    /// Get the current modifier state
    pub fn modifiers(&self) -> (m: &ModifierState)
        ensures
            *m == self.spec_modifiers(),
    {
        &self.modifiers
    }

    /// Handle a window event and optionally return terminal input
    pub fn handle_event(&mut self, event: &InputEvent) -> (r: TerminalInput)
        ensures
            match event {
                InputEvent::KeyboardInput(e) => {
                    &&& r@ == key_event_input(old(self).spec_modifiers(), *e)
                    &&& final(self).spec_modifiers() == old(self).spec_modifiers()
                },
                InputEvent::ModifiersChanged(m) => {
                    &&& r@ is NoOutput
                    &&& final(self).spec_modifiers() == *m
                },
                InputEvent::Other => {
                    &&& r@ is NoOutput
                    &&& final(self).spec_modifiers() == old(self).spec_modifiers()
                },
            },
    {
        match event {
            InputEvent::KeyboardInput(e) => self.handle_key_event(e),
            InputEvent::ModifiersChanged(m) => {
                self.modifiers = *m;
                TerminalInput::NoOutput
            },
            InputEvent::Other => TerminalInput::NoOutput,
        }
    }

    /// Process a keyboard event and return the corresponding terminal input
    pub fn handle_key_event(&mut self, key_event: &KeyEvent) -> (r: TerminalInput)
        ensures
            r@ == key_event_input(old(self).spec_modifiers(), *key_event),
            final(self).spec_modifiers() == old(self).spec_modifiers(),
    {
        if key_event.state != KeyState::Pressed {
            return TerminalInput::NoOutput;
        }
        match key_event.physical_key {
            Some(code) => {
                match self.handle_special_key(code) {
                    Some(escape) => {
                        return escape;
                    },
                    None => {},
                }
            },
            None => {},
        }
        match &key_event.logical_key {
            LogicalKey::Named(named) => self.handle_named_key(*named),
            LogicalKey::Character(ch) => self.handle_character(ch.as_str()),
            LogicalKey::Other => TerminalInput::NoOutput,
        }
    }

    /// Handle special keys that produce escape sequences
    pub fn handle_special_key(&mut self, code: KeyCode) -> (r: Option<TerminalInput>)
        ensures
            match special_key_input(old(self).spec_modifiers(), code) {
                Some(v) => r matches Some(t) && t@ == v,
                None => r is None,
            },
            final(self).spec_modifiers() == old(self).spec_modifiers(),
    {
        proof {
            reveal_strlit("\x1b[A");
            reveal_strlit("\x1b[B");
            reveal_strlit("\x1b[C");
            reveal_strlit("\x1b[D");
            reveal_strlit("\x1b[H");
            reveal_strlit("\x1b[F");
            reveal_strlit("\x1b[2~");
            reveal_strlit("\x1b[3~");
            reveal_strlit("\x1b[5~");
            reveal_strlit("\x1b[6~");
            reveal_strlit("\x1b[1");
            reveal_strlit("\x1b[2");
            reveal_strlit("\x1b[3");
            reveal_strlit("\x1b[5");
            reveal_strlit("\x1b[6");
            reveal_strlit("\x1b[Z");
            assert(csi_prefix() + seq!['A'] =~= "\x1b[A"@);
            assert(csi_prefix() + seq!['B'] =~= "\x1b[B"@);
            assert(csi_prefix() + seq!['C'] =~= "\x1b[C"@);
            assert(csi_prefix() + seq!['D'] =~= "\x1b[D"@);
            assert(csi_prefix() + seq!['H'] =~= "\x1b[H"@);
            assert(csi_prefix() + seq!['F'] =~= "\x1b[F"@);
            assert(csi_prefix() + seq!['2', '~'] =~= "\x1b[2~"@);
            assert(csi_prefix() + seq!['3', '~'] =~= "\x1b[3~"@);
            assert(csi_prefix() + seq!['5', '~'] =~= "\x1b[5~"@);
            assert(csi_prefix() + seq!['6', '~'] =~= "\x1b[6~"@);
            assert(csi_prefix() + seq!['1'] =~= "\x1b[1"@);
            assert(csi_prefix() + seq!['2'] =~= "\x1b[2"@);
            assert(csi_prefix() + seq!['3'] =~= "\x1b[3"@);
            assert(csi_prefix() + seq!['5'] =~= "\x1b[5"@);
            assert(csi_prefix() + seq!['6'] =~= "\x1b[6"@);
            assert(csi_prefix() + seq!['Z'] =~= "\x1b[Z"@);
        }
        let escape = match code {
            KeyCode::ArrowUp => self.apply_modifiers("\x1b[A", "\x1b[1", 'A'),
            KeyCode::ArrowDown => self.apply_modifiers("\x1b[B", "\x1b[1", 'B'),
            KeyCode::ArrowRight => self.apply_modifiers("\x1b[C", "\x1b[1", 'C'),
            KeyCode::ArrowLeft => self.apply_modifiers("\x1b[D", "\x1b[1", 'D'),
            KeyCode::Home => self.apply_modifiers("\x1b[H", "\x1b[1", 'H'),
            KeyCode::End => self.apply_modifiers("\x1b[F", "\x1b[1", 'F'),
            KeyCode::Insert => self.apply_modifiers("\x1b[2~", "\x1b[2", '~'),
            KeyCode::Delete => self.apply_modifiers("\x1b[3~", "\x1b[3", '~'),
            KeyCode::PageUp => self.apply_modifiers("\x1b[5~", "\x1b[5", '~'),
            KeyCode::PageDown => self.apply_modifiers("\x1b[6~", "\x1b[6", '~'),
            KeyCode::F1 => self.f_key(1),
            KeyCode::F2 => self.f_key(2),
            KeyCode::F3 => self.f_key(3),
            KeyCode::F4 => self.f_key(4),
            KeyCode::F5 => self.f_key(5),
            KeyCode::F6 => self.f_key(6),
            KeyCode::F7 => self.f_key(7),
            KeyCode::F8 => self.f_key(8),
            KeyCode::F9 => self.f_key(9),
            KeyCode::F10 => self.f_key(10),
            KeyCode::F11 => self.f_key(11),
            KeyCode::F12 => self.f_key(12),
            KeyCode::NumpadEnter => TerminalInput::Char('\r'),
            KeyCode::NumpadDivide => TerminalInput::Char('/'),
            KeyCode::NumpadMultiply => TerminalInput::Char('*'),
            KeyCode::NumpadSubtract => TerminalInput::Char('-'),
            KeyCode::NumpadAdd => TerminalInput::Char('+'),
            KeyCode::NumpadDecimal => TerminalInput::Char('.'),
            KeyCode::Escape => TerminalInput::Char('\x1b'),
            KeyCode::Tab => {
                if self.modifiers.shift {
                    TerminalInput::Escape(string_of("\x1b[Z"))
                } else {
                    TerminalInput::Char('\t')
                }
            },
            KeyCode::Backspace => {
                if self.modifiers.ctrl {
                    TerminalInput::Char('\x08')
                } else {
                    TerminalInput::Char('\x7f')
                }
            },
            KeyCode::Enter => TerminalInput::Char('\r'),
            KeyCode::Other => {
                return None;
            },
        };
        Some(escape)
    }

    /// Handle named keys (like Space, etc.)
    pub fn handle_named_key(&mut self, named: NamedKey) -> (r: TerminalInput)
        ensures
            r@ == named_key_input(old(self).spec_modifiers(), named),
            final(self).spec_modifiers() == old(self).spec_modifiers(),
    {
        proof {
            reveal_strlit("\x1b[Z");
            assert(csi_prefix() + seq!['Z'] =~= "\x1b[Z"@);
        }
        match named {
            NamedKey::Space => {
                if self.modifiers.ctrl {
                    TerminalInput::Char('\x00')
                } else {
                    TerminalInput::Char(' ')
                }
            },
            NamedKey::Tab => {
                if self.modifiers.shift {
                    TerminalInput::Escape(string_of("\x1b[Z"))
                } else {
                    TerminalInput::Char('\t')
                }
            },
            NamedKey::Enter => TerminalInput::Char('\r'),
            NamedKey::Backspace => TerminalInput::Char('\x7f'),
            NamedKey::Escape => TerminalInput::Char('\x1b'),
            _ => TerminalInput::NoOutput,
        }
    }

    /// Handle regular character input with modifiers
    pub fn handle_character(&mut self, ch: &str) -> (r: TerminalInput)
        ensures
            r@ == character_input(old(self).spec_modifiers(), ch@),
            final(self).spec_modifiers() == old(self).spec_modifiers(),
    {
        if ch.unicode_len() == 0 {
            return TerminalInput::NoOutput;
        }
        let first_char = ch.get_char(0);
        if self.modifiers.ctrl {
            match self.ctrl_char(first_char) {
                Some(ctrl_char) => {
                    return TerminalInput::Char(ctrl_char);
                },
                None => {},
            }
        }
        if self.modifiers.alt {
            let mut s = String::new();
            push_char(&mut s, '\x1b');
            push_str(&mut s, ch);
            proof {
                assert(s@ =~= seq![esc()] + ch@);
            }
            return TerminalInput::Escape(s);
        }
        TerminalInput::Char(first_char)
    }

    /// Convert a character to its Ctrl equivalent
    pub fn ctrl_char(&self, c: char) -> (r: Option<char>)
        ensures
            r == ctrl_char_spec(c),
    {
        let lower: char = if 'A' <= c && c <= 'Z' { ((c as u32) + 32) as u8 as char } else { c };
        let code = lower as u32;
        if code >= ('a' as u32) && code <= ('z' as u32) {
            Some((code - ('a' as u32) + 1) as u8 as char)
        } else if code >= ('0' as u32) && code <= ('9' as u32) {
            if c == '2' {
                Some('\x00')
            } else if c == '3' {
                Some('\x1b')
            } else if c == '4' {
                Some('\x1c')
            } else if c == '5' {
                Some('\x1d')
            } else if c == '6' {
                Some('\x1e')
            } else if c == '7' {
                Some('\x1f')
            } else if c == '8' {
                Some('\x7f')
            } else {
                None
            }
        } else {
            if c == '[' {
                Some('\x1b')
            } else if c == '\\' {
                Some('\x1c')
            } else if c == ']' {
                Some('\x1d')
            } else if c == '^' {
                Some('\x1e')
            } else if c == '_' {
                Some('\x1f')
            } else {
                None
            }
        }
    }

    /// Apply modifier to escape sequence
    /// base: the unmodified escape sequence
    /// prefix: the CSI prefix for modified sequences (e.g., "\x1b[1")
    /// suffix: the final character (e.g., 'A' for up arrow)
    pub fn apply_modifiers(&self, base: &str, prefix: &str, suffix: char) -> (r: TerminalInput)
        ensures
            r@ == apply_modifiers_spec(self.spec_modifiers(), base@, prefix@, suffix),
    {
        if !self.modifiers.any_pressed() {
            return TerminalInput::Escape(string_of(base));
        }
        let modifier = self.modifiers.as_escape_modifier();
        if modifier > 0 {
            TerminalInput::Escape(modified(prefix, modifier, suffix))
        } else {
            TerminalInput::Escape(string_of(base))
        }
    }

    /// Generate function key escape sequence with modifiers
    pub fn f_key(&self, num: u8) -> (r: TerminalInput)
        ensures
            match f_key_sequence(num, self.spec_modifiers().escape_modifier()) {
                Some(s) => r@ == InputView::Escape(s),
                None => r@ is NoOutput,
            },
    {
        let modifier = self.modifiers.as_escape_modifier();
        if 1 <= num && num <= 4 {
            let fin = if num == 1 { 'P' } else if num == 2 { 'Q' } else if num == 3 { 'R' } else { 'S' };
            if modifier > 0 {
                proof {
                    reveal_strlit("\x1b[1");
                    assert("\x1b[1"@ =~= csi_prefix() + seq!['1']);
                }
                TerminalInput::Escape(modified("\x1b[1", modifier, fin))
            } else {
                let mut s = String::new();
                push_char(&mut s, '\x1b');
                push_char(&mut s, 'O');
                push_char(&mut s, fin);
                proof {
                    assert(s@ =~= seq![esc(), 'O', f_key_final(num)]);
                }
                TerminalInput::Escape(s)
            }
        } else if 5 <= num && num <= 12 {
            let code: usize = if num == 5 {
                15
            } else if num == 6 {
                17
            } else if num == 7 {
                18
            } else if num == 8 {
                19
            } else if num == 9 {
                20
            } else if num == 10 {
                21
            } else if num == 11 {
                23
            } else {
                24
            };
            let mut s = String::new();
            push_char(&mut s, '\x1b');
            push_char(&mut s, '[');
            push_decimal(&mut s, code);
            if modifier > 0 {
                push_char(&mut s, ';');
                push_decimal(&mut s, (modifier + 1) as usize);
                push_char(&mut s, '~');
                proof {
                    assert(s@ =~= modified_sequence(
                        csi_prefix() + decimal(f_key_code(num)),
                        modifier,
                        '~',
                    ));
                }
            } else {
                push_char(&mut s, '~');
                proof {
                    assert(s@ =~= csi_prefix() + decimal(f_key_code(num)) + seq!['~']);
                }
            }
            TerminalInput::Escape(s)
        } else {
            TerminalInput::NoOutput
        }
    }
}

/// The final character of an arrow key's xterm cursor sequence: Up `A`,
/// Down `B`, Right `C`, Left `D`.
pub open spec fn arrow_final(code: KeyCode) -> Option<char> {
    match code {
        KeyCode::ArrowUp => Some('A'),
        KeyCode::ArrowDown => Some('B'),
        KeyCode::ArrowRight => Some('C'),
        KeyCode::ArrowLeft => Some('D'),
        _ => None,
    }
}

/// Each arrow key sends a cursor sequence that ends in its own direction
/// letter, whatever modifiers are held: `ESC [ X` with none, `ESC [ 1 ; m X`
/// with some.
pub proof fn lemma_arrow_keys_send_their_direction(m: ModifierState, code: KeyCode)
    requires
        arrow_final(code) is Some,
    ensures
        special_key_input(m, code) matches Some(InputView::Escape(s)) && s.len() >= 3 && s.take(2)
            == csi_prefix() && s.last() == arrow_final(code)->0,
        !m.spec_any_pressed() ==> special_key_input(m, code) == Some(
            InputView::Escape(csi_prefix() + seq![arrow_final(code)->0]),
        ),
{
    let x = arrow_final(code)->0;
    let prefix = csi_prefix() + seq!['1'];
    if m.spec_any_pressed() {
        let s = modified_sequence(prefix, m.escape_modifier(), x);
        assert(s.last() == x);
        assert(s.take(2) =~= csi_prefix());
    } else {
        let s = csi_prefix() + seq![x];
        assert(s.last() == x);
        assert(s.take(2) =~= csi_prefix());
    }
}

/// No two arrow keys send the same bytes under the same modifiers.
pub proof fn lemma_arrow_keys_differ(m: ModifierState, a: KeyCode, b: KeyCode)
    requires
        arrow_final(a) is Some,
        arrow_final(b) is Some,
        a != b,
    ensures
        special_key_input(m, a) != special_key_input(m, b),
{
    lemma_arrow_keys_send_their_direction(m, a);
    lemma_arrow_keys_send_their_direction(m, b);
}

/// The xterm sequence an editing or cursor key sends with no modifier held:
/// `ESC [` followed by the arrow letter, `H` (Home), `F` (End), or the key
/// number and `~` (Insert 2, Delete 3, Page Up 5, Page Down 6).
pub open spec fn xterm_plain_sequence(code: KeyCode) -> Option<Seq<char>> {
    match code {
        KeyCode::ArrowUp => Some(seq!['\x1b', '[', 'A']),
        KeyCode::ArrowDown => Some(seq!['\x1b', '[', 'B']),
        KeyCode::ArrowRight => Some(seq!['\x1b', '[', 'C']),
        KeyCode::ArrowLeft => Some(seq!['\x1b', '[', 'D']),
        KeyCode::Home => Some(seq!['\x1b', '[', 'H']),
        KeyCode::End => Some(seq!['\x1b', '[', 'F']),
        KeyCode::Insert => Some(seq!['\x1b', '[', '2', '~']),
        KeyCode::Delete => Some(seq!['\x1b', '[', '3', '~']),
        KeyCode::PageUp => Some(seq!['\x1b', '[', '5', '~']),
        KeyCode::PageDown => Some(seq!['\x1b', '[', '6', '~']),
        _ => None,
    }
}

/// With no modifier held, each editing or cursor key sends its xterm
/// sequence, and no two of them send the same bytes.
pub proof fn lemma_edit_keys_send_xterm_sequences(code: KeyCode, other: KeyCode)
    requires
        xterm_plain_sequence(code) is Some,
    ensures
        special_key_input(no_modifiers(), code) == Some(InputView::Escape(xterm_plain_sequence(code)->0)),
        xterm_plain_sequence(other) is Some && other != code ==> special_key_input(no_modifiers(), other)
            != special_key_input(no_modifiers(), code),
{
    let s = xterm_plain_sequence(code)->0;
    match edit_key_sequences(code) {
        Some((base, _, _)) => {
            assert(base =~= s);
        },
        None => {},
    }
    if xterm_plain_sequence(other) is Some && other != code {
        let t = xterm_plain_sequence(other)->0;
        match edit_key_sequences(other) {
            Some((base, _, _)) => {
                assert(base =~= t);
            },
            None => {},
        }
        assert(s != t) by {
            if s.len() == t.len() {
                if s.len() == 3 {
                    assert(s[2] != t[2]);
                } else {
                    assert(s[2] != t[2]);
                }
            }
        }
    }
}

/// The modifier number an arrow key carries is xterm's: 1 plus Shift 1,
/// Alt 2, Ctrl 4 and Super 8; so Shift gives `ESC [ 1 ; 2 X`, Alt
/// `ESC [ 1 ; 3 X` and Ctrl `ESC [ 1 ; 5 X`.
pub proof fn lemma_arrow_modifier_numbers(code: KeyCode, m: ModifierState)
    requires
        arrow_final(code) is Some,
        m.spec_any_pressed(),
    ensures
        ({
            let x = arrow_final(code)->0;
            let num = 1 + (if m.shift { 1nat } else { 0 }) + (if m.alt { 2nat } else { 0 }) + (if m.ctrl {
                4nat
            } else {
                0
            }) + (if m.super_key { 8nat } else { 0 });
            special_key_input(m, code) == Some(
                InputView::Escape(seq!['\x1b', '[', '1', ';'] + decimal(num) + seq![x]),
            )
        }),
{
    let x = arrow_final(code)->0;
    let num = 1 + (if m.shift { 1nat } else { 0 }) + (if m.alt { 2nat } else { 0 }) + (if m.ctrl {
        4nat
    } else {
        0
    }) + (if m.super_key { 8nat } else { 0 });
    assert(m.escape_modifier() + 1 == num);
    assert(modified_sequence(csi_prefix() + seq!['1'], m.escape_modifier(), x) =~= seq!['\x1b', '[', '1', ';'] + decimal(num) + seq![x]);
}

/// Alt with a typed character sends ESC followed by the character (the
/// meta prefix), so Alt+x never sends what x alone sends; without Ctrl or
/// Alt the character itself is sent.
pub proof fn lemma_alt_sends_escape_prefix(m: ModifierState, ch: Seq<char>)
    requires
        ch.len() > 0,
        !m.ctrl,
    ensures
        m.alt ==> character_input(m, ch) == InputView::Escape(seq!['\x1b'] + ch),
        !m.alt ==> character_input(m, ch) == InputView::Char(ch[0]),
        m.alt ==> character_input(m, ch) != character_input(ModifierState { alt: false, ..m }, ch),
{
}

/// Ctrl+letter does not depend on case: Ctrl+A and Ctrl+a both send the
/// control character numbered by the letter (0x01 for A through 0x1A for Z).
pub proof fn lemma_ctrl_letters_ignore_case(c: char)
    requires
        'a' <= c <= 'z',
    ensures
        ctrl_char_spec(c) == Some(((c as u32) - 96) as char),
        ctrl_char_spec(((c as u32) - 32) as char) == ctrl_char_spec(c),
{
    let u = ((c as u32) - 32) as char;
    assert('A' <= u <= 'Z');
    assert(ascii_lower(u) == c);
}

} // verus!
