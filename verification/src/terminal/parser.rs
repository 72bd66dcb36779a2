//! ANSI escape sequence handling: the parser state machine and its effects.
use vstd::prelude::*;
use vstd::utf8::{decode_utf8, encode_utf8, valid_utf8};
use crate::terminal::vte_machine::{new_vte_machine, vte_actions, vte_advance, VteMachine};
use crate::strings::{chars_of, decimal, hex_pair, hex_pair_value, lemma_encode_utf8_concat, lossy_utf8, push_char, push_decimal, utf8_bytes, utf8_lossy};

verus! {

/// Represents a color (either as an index into a palette or as an RGB value).
#[derive(Debug, Clone, Copy, PartialEq, Eq, Structural)]
pub enum Color {
    /// Default terminal color (foreground or background)
    Default,
    /// Indexed color (0-255, following XTerm 256-color palette)
    Indexed(u8),
    /// 24-bit RGB color
    Rgb(u8, u8, u8),
}

impl Default for Color {
    fn default() -> (c: Self)
        ensures
            c == Color::Default,
    {
        Color::Default
    }
}

/// Text attributes/style for a character cell.
#[derive(Debug, Clone, Copy, PartialEq, Eq, Structural)]
pub struct TextAttributes {
    /// Bold text
    pub bold: bool,
    /// Dim/faint text
    pub dim: bool,
    /// Italic text
    pub italic: bool,
    /// Underlined text
    pub underline: bool,
    /// Blinking text
    pub blink: bool,
    /// Reverse video (swap foreground/background)
    pub reverse: bool,
    /// Hidden/invisible text
    pub hidden: bool,
    /// Strikethrough text
    pub strikethrough: bool,
}

/// The attribute set with every flag off.
pub open spec fn plain_attributes() -> TextAttributes {
    TextAttributes {
        bold: false,
        dim: false,
        italic: false,
        underline: false,
        blink: false,
        reverse: false,
        hidden: false,
        strikethrough: false,
    }
}

impl Default for TextAttributes {
    fn default() -> (a: Self)
        ensures
            a == plain_attributes(),
    {
        TextAttributes {
            bold: false,
            dim: false,
            italic: false,
            underline: false,
            blink: false,
            reverse: false,
            hidden: false,
            strikethrough: false,
        }
    }
}

impl TextAttributes {
    /// Reset all attributes to default.
    pub fn reset(&mut self)
        ensures
            *final(self) == plain_attributes(),
    {
        *self = TextAttributes::default();
    }
}

/// Cursor position in the terminal grid.
#[derive(Debug, Clone, Copy, PartialEq, Eq, Structural)]
pub struct CursorPosition {
    /// 0-indexed row
    pub row: usize,
    /// 0-indexed column
    pub col: usize,
}

impl Default for CursorPosition {
    fn default() -> (c: Self)
        ensures
            c == (CursorPosition { row: 0, col: 0 }),
    {
        CursorPosition { row: 0, col: 0 }
    }
}

/// Response type for Device Status Report (DSR) queries.
///
/// When the terminal receives a DSR request (CSI n), it should respond
/// with the appropriate response sequence.
#[derive(Debug, Clone, Copy, PartialEq, Eq, Structural)]
pub enum DeviceStatusResponse {
    /// Response to CSI 5n (Device Status Report)
    /// Format: ESC [ 0 n (terminal OK)
    DeviceStatusOk,
    /// Response to CSI 6n (Cursor Position Report)
    /// Format: ESC [ row ; col R (1-indexed position)
    CursorPosition {
        /// Row number (1-indexed)
        row: usize,
        /// Column number (1-indexed)
        col: usize,
    },
}

impl DeviceStatusResponse {
    /// The escape sequence that answers the query.
    pub open spec fn escape(self) -> Seq<char> {
        match self {
            DeviceStatusResponse::DeviceStatusOk => seq!['\x1B', '[', '0', 'n'],
            DeviceStatusResponse::CursorPosition { row, col } => seq!['\x1B', '['] + decimal(
                row as nat,
            ) + seq![';'] + decimal(col as nat) + seq!['R'],
        }
    }

    /// Convert the response to its ANSI escape sequence string.
    pub fn to_escape_sequence(&self) -> (s: String)
        ensures
            s@ == self.escape(),
    {
        let mut s = String::new();
        push_char(&mut s, '\x1B');
        push_char(&mut s, '[');
        match self {
            DeviceStatusResponse::DeviceStatusOk => {
                push_char(&mut s, '0');
                push_char(&mut s, 'n');
                proof {
                    assert(s@ =~= self.escape());
                }
            },
            DeviceStatusResponse::CursorPosition { row, col } => {
                push_decimal(&mut s, *row);
                push_char(&mut s, ';');
                push_decimal(&mut s, *col);
                push_char(&mut s, 'R');
                proof {
                    assert(s@ =~= self.escape());
                }
            },
        }
        s
    }

    /// Convert the response to bytes for sending to the PTY.
    pub fn to_bytes(&self) -> (b: Vec<u8>)
        ensures
            b@ == encode_utf8(self.escape()),
    {
        let s = self.to_escape_sequence();
        utf8_bytes(&s)
    }
}

/// Represents a parsed terminal output cell.
#[derive(Debug, Clone, Copy, PartialEq, Eq, Structural)]
pub struct TerminalCell {
    /// Character content
    pub char: char,
    /// Foreground color
    pub fg_color: Color,
    /// Background color
    pub bg_color: Color,
    /// Text attributes
    pub attributes: TextAttributes,
}

/// A blank output cell.
pub open spec fn blank_terminal_cell() -> TerminalCell {
    TerminalCell {
        char: ' ',
        fg_color: Color::Default,
        bg_color: Color::Default,
        attributes: plain_attributes(),
    }
}

impl Default for TerminalCell {
    fn default() -> (c: Self)
        ensures
            c == blank_terminal_cell(),
    {
        TerminalCell {
            char: ' ',
            fg_color: Color::Default,
            bg_color: Color::Default,
            attributes: TextAttributes::default(),
        }
    }
}

/// State tracked by the terminal parser.
#[derive(Debug, Clone)]
pub struct ParserState {
    /// Current cursor position
    pub cursor: CursorPosition,
    /// Current text attributes
    pub attributes: TextAttributes,
    /// Current foreground color
    pub fg_color: Color,
    /// Current background color
    pub bg_color: Color,
    /// Whether cursor is visible
    pub cursor_visible: bool,
    /// Saved cursor position (for save/restore)
    pub saved_cursor: CursorPosition,
    /// Saved attributes (for save/restore)
    pub saved_attributes: TextAttributes,
    /// Scroll region top boundary (0-indexed, inclusive)
    pub scroll_region_top: usize,
    /// Scroll region bottom boundary (0-indexed, inclusive)
    pub scroll_region_bottom: usize,
    /// Saved scroll region top (for save/restore with origin mode)
    pub saved_scroll_region_top: usize,
    /// Saved scroll region bottom (for save/restore with origin mode)
    pub saved_scroll_region_bottom: usize,
    /// Origin mode - when true, cursor positioning is relative to scroll region
    pub origin_mode: bool,
    /// Pending device status responses waiting to be sent back
    pub pending_responses: Vec<DeviceStatusResponse>,
    /// Total number of rows in terminal (for scroll region calculations)
    pub rows: usize,
    /// Current working directory (tracked via OSC 7 shell integration)
    pub current_directory: Option<String>,
}

/// The abstract state of a [`ParserState`].
pub struct ParserModel {
    pub cursor: CursorPosition,
    pub attributes: TextAttributes,
    pub fg: Color,
    pub bg: Color,
    pub cursor_visible: bool,
    pub saved_cursor: CursorPosition,
    pub saved_attributes: TextAttributes,
    pub region_top: usize,
    pub region_bottom: usize,
    pub saved_region_top: usize,
    pub saved_region_bottom: usize,
    pub origin_mode: bool,
    pub pending: Seq<DeviceStatusResponse>,
    pub rows: usize,
    pub directory: Option<Seq<char>>,
}

/// The view of an optional string.
pub open spec fn opt_string_view(s: Option<String>) -> Option<Seq<char>> {
    match s {
        Some(t) => Some(t@),
        None => None,
    }
}

impl View for ParserState {
    type V = ParserModel;

    open spec fn view(&self) -> ParserModel {
        ParserModel {
            cursor: self.cursor,
            attributes: self.attributes,
            fg: self.fg_color,
            bg: self.bg_color,
            cursor_visible: self.cursor_visible,
            saved_cursor: self.saved_cursor,
            saved_attributes: self.saved_attributes,
            region_top: self.scroll_region_top,
            region_bottom: self.scroll_region_bottom,
            saved_region_top: self.saved_scroll_region_top,
            saved_region_bottom: self.saved_scroll_region_bottom,
            origin_mode: self.origin_mode,
            pending: self.pending_responses@,
            rows: self.rows,
            directory: opt_string_view(self.current_directory),
        }
    }
}

/// The state a new parser starts in (a 24-line terminal).
pub open spec fn initial_parser_model() -> ParserModel {
    ParserModel {
        cursor: CursorPosition { row: 0, col: 0 },
        attributes: plain_attributes(),
        fg: Color::Default,
        bg: Color::Default,
        cursor_visible: true,
        saved_cursor: CursorPosition { row: 0, col: 0 },
        saved_attributes: plain_attributes(),
        region_top: 0,
        region_bottom: 23,
        saved_region_top: 0,
        saved_region_bottom: 23,
        origin_mode: false,
        pending: Seq::empty(),
        rows: 24,
        directory: None,
    }
}

impl Default for ParserState {
    fn default() -> (s: Self)
        ensures
            s@ == initial_parser_model(),
    {
        ParserState {
            cursor: CursorPosition::default(),
            attributes: TextAttributes::default(),
            fg_color: Color::Default,
            bg_color: Color::Default,
            cursor_visible: true,
            saved_cursor: CursorPosition::default(),
            saved_attributes: TextAttributes::default(),
            scroll_region_top: 0,
            scroll_region_bottom: 23,
            saved_scroll_region_top: 0,
            saved_scroll_region_bottom: 23,
            origin_mode: false,
            pending_responses: Vec::new(),
            rows: 24,
            current_directory: None,
        }
    }
}

/// `n - 1`, or 0 when `n` is 0.
pub open spec fn sat_pred(n: usize) -> usize {
    if n == 0 { 0 } else { (n - 1) as usize }
}

impl ParserState {
    /// Initialize scroll region with terminal size
    pub fn set_terminal_size(&mut self, rows: usize)
        ensures
            final(self)@ == (ParserModel {
                rows,
                region_bottom: sat_pred(rows),
                saved_region_bottom: sat_pred(rows),
                ..old(self)@
            }),
    {
        self.rows = rows;
        self.scroll_region_bottom = rows.saturating_sub(1);
        self.saved_scroll_region_bottom = self.scroll_region_bottom;
    }

    /// Check if a custom scroll region is active (different from full screen)
    pub fn has_scroll_region(&self) -> (b: bool)
        ensures
            b == (self@.region_top != 0 || self@.region_bottom != sat_pred(self@.rows)),
    {
        self.scroll_region_top != 0 || self.scroll_region_bottom != self.rows.saturating_sub(1)
    }

    /// Check if cursor is within the scroll region
    pub fn cursor_in_scroll_region(&self, rows: usize) -> (b: bool)
        ensures
            ({
                let bottom = if self@.region_bottom < rows { self@.region_bottom } else { sat_pred(rows) };
                b == (self@.region_top <= self@.cursor.row <= bottom)
            }),
    {
        let effective_bottom = if self.scroll_region_bottom < rows {
            self.scroll_region_bottom
        } else {
            rows.saturating_sub(1)
        };
        self.cursor.row >= self.scroll_region_top && self.cursor.row <= effective_bottom
    }

    /// Check if there are any pending device status responses.
    pub fn has_pending_responses(&self) -> (b: bool)
        ensures
            b == (self@.pending.len() > 0),
    {
        !self.pending_responses.is_empty()
    }

    /// Take all pending device status responses, clearing the buffer.
    pub fn take_responses(&mut self) -> (r: Vec<DeviceStatusResponse>)
        ensures
            r@ == old(self)@.pending,
            final(self)@ == (ParserModel { pending: Seq::empty(), ..old(self)@ }),
    {
        let mut r: Vec<DeviceStatusResponse> = Vec::new();
        std::mem::swap(&mut r, &mut self.pending_responses);
        proof {
            assert(self.pending_responses@ =~= Seq::<DeviceStatusResponse>::empty());
        }
        r
    }

    /// Get pending responses as a single bytes vector for sending to the PTY.
    pub fn responses_as_bytes(&self) -> (b: Vec<u8>)
        ensures
            b@ == responses_bytes(self@.pending),
    {
        let mut out: Vec<u8> = Vec::new();
        let mut i: usize = 0;
        while i < self.pending_responses.len()
            invariant
                i <= self.pending_responses@.len(),
                out@ == responses_bytes(self.pending_responses@.take(i as int)),
            decreases self.pending_responses.len() - i,
        {
            let bytes = self.pending_responses[i].to_bytes();
            let ghost before = out@;
            let mut j: usize = 0;
            while j < bytes.len()
                invariant
                    j <= bytes@.len(),
                    out@ == before + bytes@.take(j as int),
                decreases bytes.len() - j,
            {
                out.push(bytes[j]);
                proof {
                    assert(before + bytes@.take(j as int + 1) =~= (before + bytes@.take(j as int)).push(bytes@[j as int]));
                }
                j = j + 1;
            }
            proof {
                assert(bytes@.take(bytes@.len() as int) =~= bytes@);
                assert(self.pending_responses@.take(i as int + 1).drop_last() =~= self.pending_responses@.take(i as int));
            }
            i = i + 1;
        }
        proof {
            assert(self.pending_responses@.take(self.pending_responses@.len() as int) =~= self.pending_responses@);
        }
        out
    }

    /// Clear all pending responses without processing them.
    pub fn clear_responses(&mut self)
        ensures
            final(self)@ == (ParserModel { pending: Seq::empty(), ..old(self)@ }),
    {
        self.pending_responses.clear();
    }
}

/// The bytes of a sequence of responses, one after another.
pub open spec fn responses_bytes(rs: Seq<DeviceStatusResponse>) -> Seq<u8>
    decreases rs.len(),
{
    if rs.len() == 0 {
        Seq::empty()
    } else {
        responses_bytes(rs.drop_last()) + encode_utf8(rs.last().escape())
    }
}

/// The next multiple of 8 strictly after `col`.
#[verifier::opaque]
pub open spec fn next_tab_stop(col: int) -> int {
    ((col + 8) / 8) * 8
}

/// The next multiple of 8 strictly after `col`.
fn next_tab(col: usize) -> (r: usize)
    requires
        col + 8 <= usize::MAX,
    ensures
        r == next_tab_stop(col as int),
{
    proof {
        reveal(next_tab_stop);
        assert(((col + 8) / 8) * 8 <= col + 8) by (nonlinear_arith);
    }
    ((col + 8) / 8) * 8
}

/// The parameters of a control sequence, flattened in order.
pub open spec fn flatten_params(ps: Seq<Vec<u16>>) -> Seq<u16>
    decreases ps.len(),
{
    if ps.len() == 0 {
        Seq::empty()
    } else {
        flatten_params(ps.drop_last()) + ps.last()@
    }
}

/// Parameter `i`, or `d` when absent.
pub open spec fn param_or(p: Seq<u16>, i: int, d: u16) -> u16 {
    if 0 <= i < p.len() { p[i] } else { d }
}

/// `a - b`, or 0 when `b > a`.
pub open spec fn sat_sub(a: usize, b: usize) -> usize {
    if a >= b { (a - b) as usize } else { 0 }
}

/// The colors and attributes applied to newly written text.
#[derive(Debug, Clone, Copy, PartialEq, Eq, Structural)]
pub struct Pen {
    pub attributes: TextAttributes,
    pub fg: Color,
    pub bg: Color,
}

/// The pen after a reset.
pub open spec fn plain_pen() -> Pen {
    Pen { attributes: plain_attributes(), fg: Color::Default, bg: Color::Default }
}

/// An extended color (`38`/`48` followed by `5;n` or `2;r;g;b`) starting at
/// `i`: the color and the index of its last parameter, or `None` when the
/// parameters do not complete one.
pub open spec fn extended_color(p: Seq<u16>, i: int) -> Option<(Color, int)> {
    let rem = p.len() - i;
    if rem > 1 {
        if p[i + 1] == 5 {
            if rem > 2 {
                Some((Color::Indexed(p[i + 2] as u8), i + 2))
            } else {
                None
            }
        } else if p[i + 1] == 2 {
            if rem > 4 {
                Some((Color::Rgb(p[i + 2] as u8, p[i + 3] as u8, p[i + 4] as u8), i + 4))
            } else {
                None
            }
        } else {
            None
        }
    } else {
        None
    }
}

/// The effect of the SGR code at index `i`: the new pen and the index of the
/// last parameter it consumed.
pub open spec fn sgr_code(pen: Pen, p: Seq<u16>, i: int) -> (Pen, int) {
    let c = p[i];
    let a = pen.attributes;
    if c == 0 {
        (plain_pen(), i)
    } else if c == 1 {
        (Pen { attributes: TextAttributes { bold: true, ..a }, ..pen }, i)
    } else if c == 2 {
        (Pen { attributes: TextAttributes { dim: true, ..a }, ..pen }, i)
    } else if c == 3 {
        (Pen { attributes: TextAttributes { italic: true, ..a }, ..pen }, i)
    } else if c == 4 {
        (Pen { attributes: TextAttributes { underline: true, ..a }, ..pen }, i)
    } else if c == 5 || c == 6 {
        (Pen { attributes: TextAttributes { blink: true, ..a }, ..pen }, i)
    } else if c == 7 {
        (Pen { attributes: TextAttributes { reverse: true, ..a }, ..pen }, i)
    } else if c == 8 {
        (Pen { attributes: TextAttributes { hidden: true, ..a }, ..pen }, i)
    } else if c == 9 {
        (Pen { attributes: TextAttributes { strikethrough: true, ..a }, ..pen }, i)
    } else if c == 22 {
        (Pen { attributes: TextAttributes { bold: false, dim: false, ..a }, ..pen }, i)
    } else if c == 23 {
        (Pen { attributes: TextAttributes { italic: false, ..a }, ..pen }, i)
    } else if c == 24 {
        (Pen { attributes: TextAttributes { underline: false, ..a }, ..pen }, i)
    } else if c == 25 {
        (Pen { attributes: TextAttributes { blink: false, ..a }, ..pen }, i)
    } else if c == 27 {
        (Pen { attributes: TextAttributes { reverse: false, ..a }, ..pen }, i)
    } else if c == 28 {
        (Pen { attributes: TextAttributes { hidden: false, ..a }, ..pen }, i)
    } else if c == 29 {
        (Pen { attributes: TextAttributes { strikethrough: false, ..a }, ..pen }, i)
    } else if 30 <= c <= 37 {
        (Pen { fg: Color::Indexed((c - 30) as u8), ..pen }, i)
    } else if c == 38 {
        match extended_color(p, i) {
            Some((color, j)) => (Pen { fg: color, ..pen }, j),
            None => (pen, i),
        }
    } else if c == 39 {
        (Pen { fg: Color::Default, ..pen }, i)
    } else if 40 <= c <= 47 {
        (Pen { bg: Color::Indexed((c - 40) as u8), ..pen }, i)
    } else if c == 48 {
        match extended_color(p, i) {
            Some((color, j)) => (Pen { bg: color, ..pen }, j),
            None => (pen, i),
        }
    } else if c == 49 {
        (Pen { bg: Color::Default, ..pen }, i)
    } else if 90 <= c <= 97 {
        (Pen { fg: Color::Indexed((c - 90 + 8) as u8), ..pen }, i)
    } else if 100 <= c <= 107 {
        (Pen { bg: Color::Indexed((c - 100 + 8) as u8), ..pen }, i)
    } else {
        (pen, i)
    }
}

/// The last parameter an SGR code consumes is never before the code itself.
pub proof fn lemma_sgr_code_advances(pen: Pen, p: Seq<u16>, i: int)
    requires
        0 <= i < p.len(),
    ensures
        i <= sgr_code(pen, p, i).1 < p.len(),
{
}

/// The pen after the SGR codes from index `i` on.
pub open spec fn sgr_from(pen: Pen, p: Seq<u16>, i: int) -> Pen
    decreases p.len() - i,
    when 0 <= i
{
    if i >= p.len() {
        pen
    } else {
        let (next, j) = sgr_code(pen, p, i);
        if i <= j {
            sgr_from(next, p, j + 1)
        } else {
            next
        }
    }
}

/// The pen after a whole SGR sequence (no parameters resets).
pub open spec fn sgr(pen: Pen, p: Seq<u16>) -> Pen {
    if p.len() == 0 {
        plain_pen()
    } else {
        sgr_from(pen, p, 0)
    }
}

/// The `file://` prefix.
pub open spec fn file_scheme() -> Seq<char> {
    seq!['f', 'i', 'l', 'e', ':', '/', '/']
}

/// Index of the first `/` in `s`.
pub open spec fn first_slash(s: Seq<char>) -> Option<int>
    decreases s.len(),
{
    if s.len() == 0 {
        None
    } else if s[0] == '/' {
        Some(0)
    } else {
        match first_slash(s.drop_first()) {
            Some(k) => Some(k + 1),
            None => None,
        }
    }
}

/// An optional index moved by `d`.
pub open spec fn shifted(o: Option<int>, d: int) -> Option<int> {
    match o {
        Some(x) => Some(x + d),
        None => None,
    }
}

/// The bytes a percent-encoded text stands for: each `%XX` is the byte
/// `XX`, every other character its UTF-8 encoding; a `%` not followed by a
/// valid two-digit hex field stays, with what follows it, as text.
pub open spec fn url_decode_bytes(s: Seq<char>) -> Seq<u8>
    decreases s.len(),
{
    if s.len() == 0 {
        Seq::empty()
    } else if s[0] == '%' {
        let hex = s.subrange(1, if s.len() >= 3 { 3 } else { s.len() as int });
        let rest = s.skip(1 + hex.len() as int);
        let decoded = if hex.len() == 2 { hex_pair_value(hex[0], hex[1]) } else { None };
        match decoded {
            Some(b) => seq![b] + url_decode_bytes(rest),
            None => encode_utf8(seq!['%'] + hex) + url_decode_bytes(rest),
        }
    } else {
        encode_utf8(seq![s[0]]) + url_decode_bytes(s.drop_first())
    }
}

/// The text that bytes are read back as: their UTF-8 decoding, or, for
/// bytes that are not valid UTF-8, what `String::from_utf8_lossy` gives.
pub open spec fn utf8_text(b: Seq<u8>) -> Seq<char> {
    if valid_utf8(b) { decode_utf8(b) } else { lossy_utf8(b) }
}

/// A percent-encoded text decoded: the bytes it stands for, read back as
/// UTF-8.
pub open spec fn url_decode(s: Seq<char>) -> Seq<char> {
    utf8_text(url_decode_bytes(s))
}

/// The decoded path of a `file://host/path` URL.
pub open spec fn file_url_path(url: Seq<char>) -> Option<Seq<char>> {
    if url.len() >= 7 && url.take(7) == file_scheme() {
        let rest = url.skip(7);
        match first_slash(rest) {
            Some(k) => Some(url_decode(rest.skip(k))),
            None => None,
        }
    } else {
        None
    }
}

/// The byte sequences concatenated.
pub open spec fn concat_bytes(ps: Seq<Seq<u8>>) -> Seq<u8>
    decreases ps.len(),
{
    if ps.len() == 0 {
        Seq::empty()
    } else {
        concat_bytes(ps.drop_last()) + ps.last()
    }
}

/// The directory an OSC sequence reports: OSC 7 with a valid UTF-8
/// `file://` URL (parameters after the first joined together).
pub open spec fn osc_directory(ps: Seq<Seq<u8>>) -> Option<Seq<char>> {
    if ps.len() >= 2 && ps[0] == seq![0x37u8] {
        let url = concat_bytes(ps.skip(1));
        if valid_utf8(url) {
            file_url_path(decode_utf8(url))
        } else {
            None
        }
    } else {
        None
    }
}

/// A parser event as plain values.
pub enum EventView {
    Print(char),
    Execute(u8),
    Csi(Seq<u16>, char),
    Esc(u8),
    Osc(Seq<Seq<u8>>),
    Dcs,
}

/// An action the escape-sequence parser reports for one input byte.
#[derive(Debug, Clone, PartialEq, Eq)]
pub enum ParserEvent {
    /// A printable character.
    Print(char),
    /// A C0/C1 control byte.
    Execute(u8),
    /// A control sequence: its parameter groups and final character.
    Csi { params: Vec<Vec<u16>>, action: char },
    /// An escape sequence's final byte.
    Esc(u8),
    /// An operating system command's parameters.
    Osc(Vec<Vec<u8>>),
    /// Part of a device control string (ignored).
    Dcs,
}

impl View for ParserEvent {
    type V = EventView;

    open spec fn view(&self) -> EventView {
        match self {
            ParserEvent::Print(c) => EventView::Print(*c),
            ParserEvent::Execute(b) => EventView::Execute(*b),
            ParserEvent::Csi { params, action } => EventView::Csi(
                flatten_params(params@),
                *action,
            ),
            ParserEvent::Esc(b) => EventView::Esc(*b),
            ParserEvent::Osc(ps) => EventView::Osc(ps@.map_values(|p: Vec<u8>| p@)),
            ParserEvent::Dcs => EventView::Dcs,
        }
    }
}

/// The cursor after a control byte.
pub open spec fn executed_cursor(c: CursorPosition, byte: u8) -> CursorPosition {
    if byte == 0x08 {
        if c.col > 0 { CursorPosition { row: c.row, col: (c.col - 1) as usize } } else { c }
    } else if byte == 0x09 {
        CursorPosition { row: c.row, col: next_tab_stop(c.col as int) as usize }
    } else if 0x0A <= byte <= 0x0C {
        CursorPosition { row: (c.row + 1) as usize, col: c.col }
    } else if byte == 0x0D {
        CursorPosition { row: c.row, col: 0 }
    } else {
        c
    }
}

/// The control sequences that only move the cursor.
pub open spec fn moves_cursor(action: char) -> bool {
    action == 'A' || action == 'B' || action == 'C' || action == 'D' || action == 'E'
        || action == 'F' || action == 'G' || action == 'H' || action == 'f' || action == 'J'
}

/// The cursor after a cursor-moving control sequence.
pub open spec fn csi_cursor(c: CursorPosition, p: Seq<u16>, action: char) -> CursorPosition {
    let n = param_or(p, 0, 1) as usize;
    if action == 'A' {
        CursorPosition { row: sat_sub(c.row, n), col: c.col }
    } else if action == 'B' {
        CursorPosition { row: (c.row + n) as usize, col: c.col }
    } else if action == 'C' {
        CursorPosition { row: c.row, col: (c.col + n) as usize }
    } else if action == 'D' {
        CursorPosition { row: c.row, col: sat_sub(c.col, n) }
    } else if action == 'E' {
        CursorPosition { row: (c.row + n) as usize, col: 0 }
    } else if action == 'F' {
        CursorPosition { row: sat_sub(c.row, n), col: 0 }
    } else if action == 'G' {
        CursorPosition { row: c.row, col: sat_pred(n) }
    } else if action == 'H' || action == 'f' {
        CursorPosition {
            row: sat_pred(param_or(p, 0, 1) as usize),
            col: sat_pred(param_or(p, 1, 1) as usize),
        }
    } else if action == 'J' {
        let mode = param_or(p, 0, 0);
        if mode == 2 || mode == 3 { CursorPosition { row: 0, col: 0 } } else { c }
    } else {
        c
    }
}

/// The answer to a device status request (`CSI 5 n` or `CSI 6 n`).
pub open spec fn status_report(c: CursorPosition, p: Seq<u16>) -> Option<DeviceStatusResponse> {
    let mode = param_or(p, 0, 0);
    if mode == 5 {
        Some(DeviceStatusResponse::DeviceStatusOk)
    } else if mode == 6 {
        Some(DeviceStatusResponse::CursorPosition { row: (c.row + 1) as usize, col: (c.col + 1) as usize })
    } else {
        None
    }
}

/// The cursor after reverse index, index or next line.
pub open spec fn escaped_cursor(c: CursorPosition, byte: u8) -> CursorPosition {
    if byte == 0x4D {
        if c.row > 0 { CursorPosition { row: (c.row - 1) as usize, col: c.col } } else { c }
    } else if byte == 0x44 {
        CursorPosition { row: (c.row + 1) as usize, col: c.col }
    } else if byte == 0x45 {
        CursorPosition { row: (c.row + 1) as usize, col: 0 }
    } else {
        c
    }
}

impl ParserModel {
    /// The pen of this state.
    pub open spec fn pen(self) -> Pen {
        Pen { attributes: self.attributes, fg: self.fg, bg: self.bg }
    }

    /// This state with the given pen.
    pub open spec fn with_pen(self, pen: Pen) -> ParserModel {
        ParserModel { attributes: pen.attributes, fg: pen.fg, bg: pen.bg, ..self }
    }

    /// This state with the cursor at (`row`, `col`).
    pub open spec fn at(self, row: usize, col: usize) -> ParserModel {
        ParserModel { cursor: CursorPosition { row, col }, ..self }
    }

    /// Effect of a control byte.
    pub open spec fn executed(self, byte: u8) -> ParserModel {
        ParserModel { cursor: executed_cursor(self.cursor, byte), ..self }
    }

    /// A control byte can be applied without overflow.
    pub open spec fn execute_fits(self, byte: u8) -> bool {
        &&& byte == 0x09 ==> self.cursor.col + 8 <= usize::MAX
        &&& 0x0A <= byte <= 0x0C ==> self.cursor.row + 1 <= usize::MAX
    }

    /// Effect of a control sequence with flattened parameters `p`.
    pub open spec fn csi(self, p: Seq<u16>, action: char) -> ParserModel {
        let c = self.cursor;
        if moves_cursor(action) {
            ParserModel { cursor: csi_cursor(c, p, action), ..self }
        } else if action == 'r' {
            self.with_requested_region(p, self.rows)
        } else if action == 'm' {
            self.with_pen(sgr(self.pen(), p))
        } else if action == 'n' {
            match status_report(c, p) {
                Some(r) => ParserModel { pending: self.pending.push(r), ..self },
                None => self,
            }
        } else if action == 's' {
            ParserModel { saved_cursor: c, saved_attributes: self.attributes, ..self }
        } else if action == 'u' {
            ParserModel { cursor: self.saved_cursor, attributes: self.saved_attributes, ..self }
        } else {
            self
        }
    }

    /// A control sequence can be applied without overflow.
    pub open spec fn csi_fits(self, p: Seq<u16>, action: char) -> bool {
        let n = param_or(p, 0, 1);
        &&& (action == 'B' || action == 'E') ==> self.cursor.row + n <= usize::MAX
        &&& action == 'C' ==> self.cursor.col + n <= usize::MAX
        &&& (action == 'n' && param_or(p, 0, 0) == 6) ==> self.cursor.row + 1 <= usize::MAX
            && self.cursor.col + 1 <= usize::MAX
    }

    /// Effect of an escape sequence's final byte.
    pub open spec fn escaped(self, byte: u8) -> ParserModel {
        let c = self.cursor;
        if byte == 0x63 {
            ParserModel {
                cursor: CursorPosition { row: 0, col: 0 },
                attributes: plain_attributes(),
                fg: Color::Default,
                bg: Color::Default,
                ..self
            }
        } else if byte == 0x4D || byte == 0x44 || byte == 0x45 {
            ParserModel { cursor: escaped_cursor(c, byte), ..self }
        } else if byte == 0x37 {
            ParserModel { saved_cursor: c, saved_attributes: self.attributes, ..self }
        } else if byte == 0x38 {
            ParserModel { cursor: self.saved_cursor, attributes: self.saved_attributes, ..self }
        } else {
            self
        }
    }

    /// An escape sequence can be applied without overflow.
    pub open spec fn esc_fits(self, byte: u8) -> bool {
        (byte == 0x44 || byte == 0x45) ==> self.cursor.row + 1 <= usize::MAX
    }

    /// Effect of an operating system command.
    pub open spec fn osc(self, ps: Seq<Seq<u8>>) -> ParserModel {
        match osc_directory(ps) {
            Some(d) => ParserModel { directory: Some(d), ..self },
            None => self,
        }
    }

    /// Effect of one event.
    pub open spec fn step(self, e: EventView) -> ParserModel {
        match e {
            EventView::Print(_) => self,
            EventView::Execute(b) => self.executed(b),
            EventView::Csi(p, a) => self.csi(p, a),
            EventView::Esc(b) => self.escaped(b),
            EventView::Osc(ps) => self.osc(ps),
            EventView::Dcs => self,
        }
    }

    /// An event can be applied without overflow.
    pub open spec fn fits(self, e: EventView) -> bool {
        match e {
            EventView::Execute(b) => self.execute_fits(b),
            EventView::Csi(p, a) => self.csi_fits(p, a),
            EventView::Esc(b) => self.esc_fits(b),
            _ => true,
        }
    }

    /// The state after the events in order, each applied when it fits and
    /// passed over when it would overflow a cursor coordinate.
    pub open spec fn after_events(self, es: Seq<EventView>) -> ParserModel
        decreases es.len(),
    {
        if es.len() == 0 {
            self
        } else {
            let prev = self.after_events(es.drop_last());
            if prev.fits(es.last()) { prev.step(es.last()) } else { prev }
        }
    }
}

/// A call the parser makes on the output sink it feeds (see [`TerminalOutput`]).
///
/// The relative cursor moves are carried out against the sink's own cursor,
/// which the sink reports when the move is performed.
#[derive(Debug, Clone, Copy, PartialEq, Eq, Structural)]
pub enum OutputCommand {
    /// Write a character at the sink's cursor.
    PutChar(char),
    /// Backspace.
    Backspace,
    /// Horizontal tab.
    Tab,
    /// Line feed within the region `top..=bottom`.
    LinefeedInRegion { top: usize, bottom: usize },
    /// Carriage return.
    CarriageReturn,
    /// Move the cursor to (`row`, `col`).
    MoveCursor { row: usize, col: usize },
    /// Clear the screen.
    ClearScreen,
    /// Scroll the region `top..=bottom` up by `n` lines.
    ScrollUpInRegion { n: usize, top: usize, bottom: usize },
    /// Scroll the region `top..=bottom` down by `n` lines.
    ScrollDownInRegion { n: usize, top: usize, bottom: usize },
    /// Erase in display with the given mode.
    EraseInDisplay(u16),
    /// Erase in line with the given mode.
    EraseInLine(u16),
    /// Move the sink's cursor up `n` rows, not above `min_row`.
    CursorUp { n: usize, min_row: usize },
    /// Move the sink's cursor down `n` rows, not below `max_row`.
    CursorDown { n: usize, max_row: usize },
    /// Move the sink's cursor right `n` columns, not past `max_col`.
    CursorForward { n: usize, max_col: usize },
    /// Move the sink's cursor left `n` columns, not past the first.
    CursorBack { n: usize },
    /// Move the sink's cursor to the start of the line `n` rows down, not below `max_row`.
    NextLine { n: usize, max_row: usize },
    /// Move the sink's cursor to the start of the line `n` rows up, not above `min_row`.
    PrevLine { n: usize, min_row: usize },
    /// Move the sink's cursor to column `col` of its row.
    ColumnAbsolute { col: usize },
}

/// The smaller of two values.
pub open spec fn min_of(a: usize, b: usize) -> usize {
    if a <= b { a } else { b }
}

/// The larger of two values.
pub open spec fn max_of(a: usize, b: usize) -> usize {
    if a >= b { a } else { b }
}

impl ParserModel {
    /// Bottom of the scroll region, capped at the last of `rows` rows.
    pub open spec fn effective_bottom(self, rows: usize) -> usize {
        min_of(self.region_bottom, sat_pred(rows))
    }

    /// The highest row relative moves may reach.
    pub open spec fn top_limit(self) -> usize {
        if self.origin_mode { self.region_top } else { 0 }
    }

    /// The lowest row relative moves may reach on a screen of `rows` rows.
    pub open spec fn bottom_limit(self, rows: usize) -> usize {
        if self.origin_mode { self.region_bottom } else { sat_pred(rows) }
    }

    /// Cursor, attributes and scroll region saved.
    pub open spec fn saved_with_region(self) -> ParserModel {
        ParserModel {
            saved_cursor: self.cursor,
            saved_attributes: self.attributes,
            saved_region_top: self.region_top,
            saved_region_bottom: self.region_bottom,
            ..self
        }
    }

    /// Cursor, attributes and scroll region restored.
    pub open spec fn restored_with_region(self) -> ParserModel {
        ParserModel {
            cursor: self.saved_cursor,
            attributes: self.saved_attributes,
            region_top: self.saved_region_top,
            region_bottom: self.saved_region_bottom,
            ..self
        }
    }

    /// Line feed against a screen of `rows` rows: scroll the region when the
    /// cursor is on its bottom line, else move down unless on the last row.
    pub open spec fn out_linefeed(self, rows: usize) -> (ParserModel, Seq<OutputCommand>) {
        let top = self.region_top;
        let bottom = self.effective_bottom(rows);
        let lf = OutputCommand::LinefeedInRegion { top, bottom };
        if self.cursor.row == bottom {
            (self, seq![OutputCommand::ScrollUpInRegion { n: 1, top, bottom }, lf])
        } else if self.cursor.row < rows - 1 {
            (self.at((self.cursor.row + 1) as usize, self.cursor.col), seq![lf])
        } else {
            (self, seq![lf])
        }
    }

    /// Reverse index: scroll the region down when the cursor is on its top
    /// line, else move up unless on the first row.
    pub open spec fn out_reverse_index(self, rows: usize) -> (ParserModel, Seq<OutputCommand>) {
        let top = self.region_top;
        let bottom = self.effective_bottom(rows);
        if self.cursor.row == top {
            (self, seq![OutputCommand::ScrollDownInRegion { n: 1, top, bottom }])
        } else if self.cursor.row > 0 {
            (self.at((self.cursor.row - 1) as usize, self.cursor.col), Seq::empty())
        } else {
            (self, Seq::empty())
        }
    }

    /// Effect of a control byte when feeding a sink of `cols` × `rows`.
    pub open spec fn out_execute(self, byte: u8, cols: usize, rows: usize) -> (ParserModel, Seq<OutputCommand>) {
        let c = self.cursor;
        if byte == 0x08 {
            (self.executed(byte), seq![OutputCommand::Backspace])
        } else if byte == 0x09 {
            let t = next_tab_stop(c.col as int);
            let col = if t >= cols { (cols - 1) as usize } else { t as usize };
            (self.at(c.row, col), seq![OutputCommand::Tab])
        } else if 0x0A <= byte <= 0x0C {
            self.out_linefeed(rows)
        } else if byte == 0x0D {
            (self.executed(byte), seq![OutputCommand::CarriageReturn])
        } else {
            (self, Seq::empty())
        }
    }

    /// A control byte can be applied to a `cols` × `rows` sink without overflow.
    pub open spec fn out_execute_fits(self, byte: u8, cols: usize, rows: usize) -> bool {
        &&& byte == 0x09 ==> self.cursor.col + 8 <= usize::MAX && (next_tab_stop(self.cursor.col as int)
            >= cols ==> cols > 0)
        &&& 0x0A <= byte <= 0x0C ==> self.linefeed_fits(rows)
    }

    /// A line feed can be applied without overflow.
    pub open spec fn linefeed_fits(self, rows: usize) -> bool {
        self.cursor.row != self.effective_bottom(rows) ==> rows > 0
    }

    /// The cursor and the command of a cursor-moving control sequence.
    pub open spec fn out_cursor_move(self, p: Seq<u16>, action: char, cols: usize, rows: usize) -> (CursorPosition, OutputCommand) {
        let c = self.cursor;
        let n = param_or(p, 0, 1) as usize;
        if action == 'A' {
            let m = self.top_limit();
            (CursorPosition { row: max_of(sat_sub(c.row, n), m), col: c.col }, OutputCommand::CursorUp { n, min_row: m })
        } else if action == 'B' {
            let m = self.bottom_limit(rows);
            (CursorPosition { row: min_of((c.row + n) as usize, m), col: c.col }, OutputCommand::CursorDown { n, max_row: m })
        } else if action == 'C' {
            let m = (cols - 1) as usize;
            (CursorPosition { row: c.row, col: min_of((c.col + n) as usize, m) }, OutputCommand::CursorForward { n, max_col: m })
        } else if action == 'D' {
            (CursorPosition { row: c.row, col: sat_sub(c.col, n) }, OutputCommand::CursorBack { n })
        } else if action == 'E' {
            let m = self.bottom_limit(rows);
            (CursorPosition { row: min_of((c.row + n) as usize, m), col: 0 }, OutputCommand::NextLine { n, max_row: m })
        } else if action == 'F' {
            let m = self.top_limit();
            (CursorPosition { row: max_of(sat_sub(c.row, n), m), col: 0 }, OutputCommand::PrevLine { n, min_row: m })
        } else if action == 'G' {
            (CursorPosition { row: c.row, col: sat_pred(n) }, OutputCommand::ColumnAbsolute { col: sat_pred(n) })
        } else {
            let rp = sat_pred(param_or(p, 0, 1) as usize);
            let cp = min_of(sat_pred(param_or(p, 1, 1) as usize), (cols - 1) as usize);
            let row = if self.origin_mode {
                min_of((self.region_top + rp) as usize, self.region_bottom)
            } else {
                min_of(rp, (rows - 1) as usize)
            };
            (CursorPosition { row, col: cp }, OutputCommand::MoveCursor { row, col: cp })
        }
    }

    /// The control sequences that move the cursor relative to the sink.
    pub open spec fn is_cursor_move(action: char) -> bool {
        action == 'A' || action == 'B' || action == 'C' || action == 'D' || action == 'E'
            || action == 'F' || action == 'G' || action == 'H' || action == 'f'
    }

    /// The scroll region a `CSI r` sets, when valid, on a screen of `rows` rows.
    pub open spec fn requested_region(p: Seq<u16>, rows: usize) -> Option<(usize, usize)> {
        let top = sat_pred(param_or(p, 0, 1) as usize);
        let bottom = min_of(sat_pred(param_or(p, 1, rows as u16) as usize), sat_pred(rows));
        if top < bottom { Some((top, bottom)) } else { None }
    }

    /// The state after a scroll-region request (DECSTBM) on a screen of
    /// `rows` rows: a valid region is set and the cursor goes home (to the
    /// region's top in origin mode); an invalid one changes nothing.
    pub open spec fn with_requested_region(self, p: Seq<u16>, rows: usize) -> ParserModel {
        match ParserModel::requested_region(p, rows) {
            Some((t, b)) => ParserModel { region_top: t, region_bottom: b, ..self }.at(
                if self.origin_mode { t } else { 0 },
                0,
            ),
            None => self,
        }
    }

    /// Effect of a control sequence when feeding a sink of `cols` × `rows`.
    pub open spec fn out_csi(self, p: Seq<u16>, action: char, cols: usize, rows: usize) -> (ParserModel, Seq<OutputCommand>) {
        let c = self.cursor;
        let n = param_or(p, 0, 1) as usize;
        let bottom = self.effective_bottom(rows);
        if ParserModel::is_cursor_move(action) {
            let (cur, cmd) = self.out_cursor_move(p, action, cols, rows);
            (ParserModel { cursor: cur, ..self }, seq![cmd])
        } else if action == 'J' {
            let mode = param_or(p, 0, 0);
            if mode == 2 || mode == 3 {
                (self.at(0, 0), seq![OutputCommand::EraseInDisplay(mode), OutputCommand::MoveCursor { row: 0, col: 0 }])
            } else {
                (self, seq![OutputCommand::EraseInDisplay(mode)])
            }
        } else if action == 'K' {
            (self, seq![OutputCommand::EraseInLine(param_or(p, 0, 0))])
        } else if action == 'L' || action == 'M' {
            if self.region_top <= c.row <= bottom {
                if action == 'L' {
                    (self, seq![OutputCommand::ScrollDownInRegion { n, top: c.row, bottom }])
                } else {
                    (self, seq![OutputCommand::ScrollUpInRegion { n, top: c.row, bottom }])
                }
            } else {
                (self, Seq::empty())
            }
        } else if action == 'r' {
            match ParserModel::requested_region(p, rows) {
                Some((t, b)) => {
                    let row = if self.origin_mode { t } else { 0 };
                    (self.with_requested_region(p, rows), seq![OutputCommand::MoveCursor { row, col: 0 }])
                },
                None => (self, Seq::empty()),
            }
        } else if action == 'S' {
            (self, seq![OutputCommand::ScrollUpInRegion { n, top: self.region_top, bottom }])
        } else if action == 'T' {
            (self, seq![OutputCommand::ScrollDownInRegion { n, top: self.region_top, bottom }])
        } else if action == 'm' || action == 'n' {
            (self.csi(p, action), Seq::empty())
        } else if action == 's' {
            (self.saved_with_region(), Seq::empty())
        } else if action == 'u' {
            let r = self.restored_with_region();
            (r, seq![OutputCommand::MoveCursor { row: r.cursor.row, col: r.cursor.col }])
        } else {
            (self, Seq::empty())
        }
    }

    /// A control sequence can be applied to a `cols` × `rows` sink without overflow.
    pub open spec fn out_csi_fits(self, p: Seq<u16>, action: char, cols: usize, rows: usize) -> bool {
        let n = param_or(p, 0, 1);
        &&& (action == 'B' || action == 'E') ==> self.cursor.row + n <= usize::MAX
        &&& action == 'C' ==> self.cursor.col + n <= usize::MAX && cols > 0
        &&& (action == 'H' || action == 'f') ==> cols > 0 && (if self.origin_mode {
            self.region_top + sat_pred(param_or(p, 0, 1) as usize) <= usize::MAX
        } else {
            rows > 0
        })
        &&& (action == 'n' && param_or(p, 0, 0) == 6) ==> self.cursor.row + 1 <= usize::MAX
            && self.cursor.col + 1 <= usize::MAX
    }

    /// Effect of an escape sequence's final byte when feeding a sink with `rows` rows.
    pub open spec fn out_esc(self, byte: u8, rows: usize) -> (ParserModel, Seq<OutputCommand>) {
        if byte == 0x63 {
            (
                ParserModel {
                    cursor: CursorPosition { row: 0, col: 0 },
                    attributes: plain_attributes(),
                    fg: Color::Default,
                    bg: Color::Default,
                    region_top: 0,
                    region_bottom: sat_pred(rows),
                    origin_mode: false,
                    ..self
                },
                seq![OutputCommand::ClearScreen, OutputCommand::MoveCursor { row: 0, col: 0 }],
            )
        } else if byte == 0x4D {
            self.out_reverse_index(rows)
        } else if byte == 0x44 {
            self.out_linefeed(rows)
        } else if byte == 0x45 {
            let (m, cmds) = self.at(self.cursor.row, 0).out_linefeed(rows);
            (m, seq![OutputCommand::CarriageReturn] + cmds)
        } else if byte == 0x37 {
            (self.saved_with_region(), Seq::empty())
        } else if byte == 0x38 {
            let r = self.restored_with_region();
            (r, seq![OutputCommand::MoveCursor { row: r.cursor.row, col: r.cursor.col }])
        } else {
            (self, Seq::empty())
        }
    }

    /// An escape sequence can be applied without overflow.
    pub open spec fn out_esc_fits(self, byte: u8, rows: usize) -> bool {
        (byte == 0x44 || byte == 0x45) ==> self.linefeed_fits(rows)
    }

    /// Effect of one event when feeding a sink of `cols` × `rows`: the new
    /// state and the calls made on the sink, in order.
    pub open spec fn out_step(self, e: EventView, cols: usize, rows: usize) -> (ParserModel, Seq<OutputCommand>) {
        match e {
            EventView::Print(ch) => (self, seq![OutputCommand::PutChar(ch)]),
            EventView::Execute(b) => self.out_execute(b, cols, rows),
            EventView::Csi(p, a) => self.out_csi(p, a, cols, rows),
            EventView::Esc(b) => self.out_esc(b, rows),
            EventView::Osc(ps) => (self.osc(ps), Seq::empty()),
            EventView::Dcs => (self, Seq::empty()),
        }
    }

    /// An event can be applied to a `cols` × `rows` sink without overflow.
    pub open spec fn out_fits(self, e: EventView, cols: usize, rows: usize) -> bool {
        match e {
            EventView::Execute(b) => self.out_execute_fits(b, cols, rows),
            EventView::Csi(p, a) => self.out_csi_fits(p, a, cols, rows),
            EventView::Esc(b) => self.out_esc_fits(b, rows),
            _ => true,
        }
    }

    /// The state after the events in order, and every call made on the
    /// sink; an event that would overflow is passed over.
    pub open spec fn after_output_events(self, es: Seq<EventView>, cols: usize, rows: usize) -> (ParserModel, Seq<OutputCommand>)
        decreases es.len(),
    {
        if es.len() == 0 {
            (self, Seq::empty())
        } else {
            let (prev, cmds) = self.after_output_events(es.drop_last(), cols, rows);
            if prev.out_fits(es.last(), cols, rows) {
                let (next, more) = prev.out_step(es.last(), cols, rows);
                (next, cmds + more)
            } else {
                (prev, cmds)
            }
        }
    }
}

/// Callback trait for handling parsed terminal output.
/// Implement this to receive characters and control sequences from the parser.
///
/// `ready` is the condition under which the sink accepts its operations;
/// each operation keeps it. `applied` says, over the sink's view, what each
/// operation does, named by the command that calls it; `cursor_of` is the
/// cursor a sink reports.
pub trait TerminalOutput: View {
    /// The sink accepts its operations.
    spec fn ready(&self) -> bool;

    /// The sink's state after the operation that `cmd` names.
    spec fn applied(v: Self::V, cmd: OutputCommand) -> Self::V;

    /// The cursor (row, column) of a sink in state `v`.
    spec fn cursor_of(v: Self::V) -> (usize, usize);

    /// Put a character at the current cursor position with current attributes.
    fn put_char(&mut self, c: char)
        requires
            old(self).ready(),
        ensures
            final(self).ready(),
            final(self)@ == Self::applied(old(self)@, OutputCommand::PutChar(c)),
    ;

    /// Handle backspace.
    fn backspace(&mut self)
        requires
            old(self).ready(),
        ensures
            final(self).ready(),
            final(self)@ == Self::applied(old(self)@, OutputCommand::Backspace),
    ;

    /// Handle tab.
    fn tab(&mut self)
        requires
            old(self).ready(),
        ensures
            final(self).ready(),
            final(self)@ == Self::applied(old(self)@, OutputCommand::Tab),
    ;

    /// Handle line feed within scroll region.
    fn linefeed_in_region(&mut self, top: usize, bottom: usize)
        requires
            old(self).ready(),
        ensures
            final(self).ready(),
            final(self)@ == Self::applied(old(self)@, OutputCommand::LinefeedInRegion { top, bottom }),
    ;

    /// Handle carriage return.
    fn carriage_return(&mut self)
        requires
            old(self).ready(),
        ensures
            final(self).ready(),
            final(self)@ == Self::applied(old(self)@, OutputCommand::CarriageReturn),
    ;

    /// Move cursor to position.
    fn move_cursor(&mut self, row: usize, col: usize)
        requires
            old(self).ready(),
        ensures
            final(self).ready(),
            final(self)@ == Self::applied(old(self)@, OutputCommand::MoveCursor { row, col }),
    ;

    /// Clear screen.
    fn clear_screen(&mut self)
        requires
            old(self).ready(),
        ensures
            final(self).ready(),
            final(self)@ == Self::applied(old(self)@, OutputCommand::ClearScreen),
    ;

    /// Get current cursor position.
    fn cursor_position(&self) -> (p: (usize, usize))
        requires
            self.ready(),
        ensures
            p == Self::cursor_of(self@),
    ;

    /// Scroll the content within a region up by n lines.
    /// Lines above the region are unaffected. Lines at the bottom of the region are cleared.
    fn scroll_up_in_region(&mut self, n: usize, top: usize, bottom: usize)
        requires
            old(self).ready(),
        ensures
            final(self).ready(),
            final(self)@ == Self::applied(old(self)@, OutputCommand::ScrollUpInRegion { n, top, bottom }),
    ;

    /// Scroll the content within a region down by n lines.
    /// Lines below the region are unaffected. Lines at the top of the region are cleared.
    fn scroll_down_in_region(&mut self, n: usize, top: usize, bottom: usize)
        requires
            old(self).ready(),
        ensures
            final(self).ready(),
            final(self)@ == Self::applied(old(self)@, OutputCommand::ScrollDownInRegion { n, top, bottom }),
    ;

    /// Erase in display with mode: the sink's own erase, or, where the sink
    /// keeps this provided method, clearing the whole screen.
    fn erase_in_display(&mut self, mode: u16)
        requires
            old(self).ready(),
        ensures
            final(self).ready(),
            final(self)@ == Self::applied(old(self)@, OutputCommand::EraseInDisplay(mode))
                || final(self)@ == Self::applied(old(self)@, OutputCommand::ClearScreen),
        default_ensures
            final(self)@ == Self::applied(old(self)@, OutputCommand::ClearScreen),
    {
        // Default implementation clears entire screen
        self.clear_screen();
    }

    /// Erase in line with mode: the sink's own erase, or, where the sink
    /// keeps this provided method, nothing.
    fn erase_in_line(&mut self, mode: u16)
        requires
            old(self).ready(),
        ensures
            final(self).ready(),
            final(self)@ == Self::applied(old(self)@, OutputCommand::EraseInLine(mode))
                || final(self)@ == old(self)@,
        default_ensures
            final(self)@ == old(self)@,
    {
        // Default implementation - override in implementor
    }
}

/// `a + n`, but at most `cap`; a sum past `usize::MAX` counts as past the cap.
fn add_capped(a: usize, n: usize, cap: usize) -> (r: usize)
    ensures
        a + n <= usize::MAX ==> r == min_of((a + n) as usize, cap),
        a + n > usize::MAX ==> r == cap,
{
    if a > cap || n > cap - a { cap } else { a + n }
}

/// `a + n`, but at most `cap`; a sum past `usize::MAX` counts as past the cap.
pub open spec fn capped_sum(a: usize, n: usize, cap: usize) -> usize {
    if a + n <= usize::MAX { min_of((a + n) as usize, cap) } else { cap }
}

/// The state of a sink in state `v` after `cmd`, for every command but the
/// erasing ones: a relative move reads the sink's cursor and moves it, any
/// other command is the sink's own operation.
pub open spec fn command_result<O: TerminalOutput>(v: O::V, cmd: OutputCommand) -> O::V {
    let (row, col) = O::cursor_of(v);
    match cmd {
        OutputCommand::CursorUp { n, min_row } => O::applied(
            v,
            OutputCommand::MoveCursor { row: max_of(sat_sub(row, n), min_row), col },
        ),
        OutputCommand::CursorDown { n, max_row } => O::applied(
            v,
            OutputCommand::MoveCursor { row: capped_sum(row, n, max_row), col },
        ),
        OutputCommand::CursorForward { n, max_col } => O::applied(
            v,
            OutputCommand::MoveCursor { row, col: capped_sum(col, n, max_col) },
        ),
        OutputCommand::CursorBack { n } => O::applied(
            v,
            OutputCommand::MoveCursor { row, col: sat_sub(col, n) },
        ),
        OutputCommand::NextLine { n, max_row } => O::applied(
            v,
            OutputCommand::MoveCursor { row: capped_sum(row, n, max_row), col: 0 },
        ),
        OutputCommand::PrevLine { n, min_row } => O::applied(
            v,
            OutputCommand::MoveCursor { row: max_of(sat_sub(row, n), min_row), col: 0 },
        ),
        OutputCommand::ColumnAbsolute { col: c } => O::applied(
            v,
            OutputCommand::MoveCursor { row, col: c },
        ),
        _ => O::applied(v, cmd),
    }
}

/// Carrying out `cmd` can take a sink from `before` to `after`: exactly
/// [`command_result`], except that an erase is the sink's own or what the
/// provided method does (clear the screen; leave the line).
pub open spec fn performs<O: TerminalOutput>(before: O::V, cmd: OutputCommand, after: O::V) -> bool {
    match cmd {
        OutputCommand::EraseInDisplay(_) => after == O::applied(before, cmd) || after == O::applied(
            before,
            OutputCommand::ClearScreen,
        ),
        OutputCommand::EraseInLine(_) => after == O::applied(before, cmd) || after == before,
        _ => after == command_result::<O>(before, cmd),
    }
}

/// `states` runs through a sink's states while `cmds` are carried out in
/// order: each command takes one state to the next.
pub open spec fn performs_through<O: TerminalOutput>(states: Seq<O::V>, cmds: Seq<OutputCommand>) -> bool {
    &&& states.len() == cmds.len() + 1
    &&& forall|i: int| 0 <= i < cmds.len() ==> #[trigger] performs::<O>(states[i], cmds[i], states[i + 1])
}

/// Carrying out `cmds` in order can take a sink from `before` to `after`.
pub open spec fn performs_all<O: TerminalOutput>(before: O::V, cmds: Seq<OutputCommand>, after: O::V) -> bool {
    exists|states: Seq<O::V>|
        #[trigger] performs_through::<O>(states, cmds) && states[0] == before && states.last() == after
}

/// Carries out one command on a sink. Relative moves read the sink's
/// cursor first.
pub fn perform_command<O: TerminalOutput>(output: &mut O, cmd: &OutputCommand)
    requires
        old(output).ready(),
    ensures
        final(output).ready(),
        performs::<O>(old(output)@, *cmd, final(output)@),
{
    match *cmd {
        OutputCommand::PutChar(c) => output.put_char(c),
        OutputCommand::Backspace => output.backspace(),
        OutputCommand::Tab => output.tab(),
        OutputCommand::LinefeedInRegion { top, bottom } => output.linefeed_in_region(top, bottom),
        OutputCommand::CarriageReturn => output.carriage_return(),
        OutputCommand::MoveCursor { row, col } => output.move_cursor(row, col),
        OutputCommand::ClearScreen => output.clear_screen(),
        OutputCommand::ScrollUpInRegion { n, top, bottom } => output.scroll_up_in_region(n, top, bottom),
        OutputCommand::ScrollDownInRegion { n, top, bottom } => output.scroll_down_in_region(n, top, bottom),
        OutputCommand::EraseInDisplay(mode) => output.erase_in_display(mode),
        OutputCommand::EraseInLine(mode) => output.erase_in_line(mode),
        OutputCommand::CursorUp { n, min_row } => {
            let (row, col) = output.cursor_position();
            output.move_cursor(max_usize(row.saturating_sub(n), min_row), col);
        },
        OutputCommand::CursorDown { n, max_row } => {
            let (row, col) = output.cursor_position();
            output.move_cursor(add_capped(row, n, max_row), col);
        },
        OutputCommand::CursorForward { n, max_col } => {
            let (row, col) = output.cursor_position();
            output.move_cursor(row, add_capped(col, n, max_col));
        },
        OutputCommand::CursorBack { n } => {
            let (row, col) = output.cursor_position();
            output.move_cursor(row, col.saturating_sub(n));
        },
        OutputCommand::NextLine { n, max_row } => {
            let (row, _col) = output.cursor_position();
            output.move_cursor(add_capped(row, n, max_row), 0);
        },
        OutputCommand::PrevLine { n, min_row } => {
            let (row, _col) = output.cursor_position();
            output.move_cursor(max_usize(row.saturating_sub(n), min_row), 0);
        },
        OutputCommand::ColumnAbsolute { col } => {
            let (row, _col) = output.cursor_position();
            output.move_cursor(row, col);
        },
    }
}

/// Carries out commands on a sink, in order.
pub fn perform_commands<O: TerminalOutput>(output: &mut O, cmds: &Vec<OutputCommand>)
    requires
        old(output).ready(),
    ensures
        final(output).ready(),
        performs_all::<O>(old(output)@, cmds@, final(output)@),
{
    let ghost mut states: Seq<O::V> = seq![output@];
    let mut i: usize = 0;
    while i < cmds.len()
        invariant
            i <= cmds@.len(),
            output.ready(),
            performs_through::<O>(states, cmds@.take(i as int)),
            states[0] == old(output)@,
            states.last() == output@,
        decreases cmds.len() - i,
    {
        let ghost prev = states;
        perform_command(output, &cmds[i]);
        proof {
            states = states.push(output@);
            let next = cmds@.take(i as int + 1);
            assert forall|k: int| 0 <= k < next.len() implies #[trigger] performs::<O>(
                states[k],
                next[k],
                states[k + 1],
            ) by {
                if k < i {
                    assert(next[k] == cmds@.take(i as int)[k]);
                    assert(performs::<O>(prev[k], cmds@.take(i as int)[k], prev[k + 1]));
                }
            }
        }
        i = i + 1;
    }
    proof {
        assert(cmds@.take(cmds@.len() as int) =~= cmds@);
    }
}

/// A cursor position report (`CSI 6 n`) answers with the cursor's row and
/// column counted from 1; a status report (`CSI 5 n`) answers "OK".
pub proof fn lemma_status_reports(m: ParserModel)
    ensures
        m.csi(seq![6u16], 'n').pending == m.pending.push(
            DeviceStatusResponse::CursorPosition {
                row: (m.cursor.row + 1) as usize,
                col: (m.cursor.col + 1) as usize,
            },
        ),
        m.csi(seq![5u16], 'n').pending == m.pending.push(DeviceStatusResponse::DeviceStatusOk),
{
}

/// `SGR 0`, and an SGR sequence without parameters, reset every attribute
/// and both colors.
pub proof fn lemma_sgr_reset(m: ParserModel)
    ensures
        m.csi(seq![0u16], 'm').pen() == plain_pen(),
        m.csi(Seq::empty(), 'm').pen() == plain_pen(),
{
    let p = seq![0u16];
    assert(sgr_code(m.pen(), p, 0) == (plain_pen(), 0int));
    assert(sgr_from(plain_pen(), p, 1) == plain_pen());
    assert(sgr_from(m.pen(), p, 0) == plain_pen());
}

/// Restoring the cursor (`CSI u`, `ESC 8`) brings back the cursor and
/// attributes saved by `CSI s` or `ESC 7`, wherever the cursor went in between.
pub proof fn lemma_save_restore_cursor(m: ParserModel, p: Seq<u16>, q: Seq<u16>, row: usize, col: usize)
    ensures
        m.csi(p, 's').at(row, col).csi(q, 'u').cursor == m.cursor,
        m.csi(p, 's').at(row, col).csi(q, 'u').attributes == m.attributes,
        m.escaped(0x37).at(row, col).escaped(0x38).cursor == m.cursor,
        m.escaped(0x37).at(row, col).escaped(0x38).attributes == m.attributes,
{
}

/// Feeding a sink, saving and restoring also brings back the scroll region,
/// and the sink's cursor is sent back to the restored position.
pub proof fn lemma_save_restore_with_region(m: ParserModel, p: Seq<u16>, q: Seq<u16>, cols: usize, rows: usize, top: usize, bottom: usize)
    ensures
        ({
            let saved = m.out_csi(p, 's', cols, rows).0;
            let moved = ParserModel { region_top: top, region_bottom: bottom, ..saved };
            let (after, cmds) = moved.out_csi(q, 'u', cols, rows);
            &&& after.cursor == m.cursor
            &&& after.region_top == m.region_top
            &&& after.region_bottom == m.region_bottom
            &&& cmds == seq![OutputCommand::MoveCursor { row: m.cursor.row, col: m.cursor.col }]
        }),
{
}

/// A scroll-region request (`CSI r`) either sets an ordered region inside
/// the screen and homes the cursor, or leaves the state as it was.
pub proof fn lemma_scroll_region_request(m: ParserModel, p: Seq<u16>, cols: usize, rows: usize)
    ensures
        ({
            let (after, _cmds) = m.out_csi(p, 'r', cols, rows);
            ||| after == m
            ||| {
                &&& after.region_top < after.region_bottom
                &&& after.region_bottom <= sat_pred(rows)
                &&& after.cursor.col == 0
                &&& after.cursor.row == (if m.origin_mode { after.region_top } else { 0 })
            }
        }),
{
}

/// Relative cursor moves stay within their limits: up never passes the top
/// limit (the region's top in origin mode), down never passes the bottom one.
pub proof fn lemma_relative_moves_bounded(m: ParserModel, p: Seq<u16>, cols: usize, rows: usize)
    requires
        m.out_csi_fits(p, 'B', cols, rows),
        m.out_csi_fits(p, 'C', cols, rows),
    ensures
        m.out_csi(p, 'A', cols, rows).0.cursor.row >= m.top_limit(),
        m.out_csi(p, 'F', cols, rows).0.cursor.row >= m.top_limit(),
        m.out_csi(p, 'B', cols, rows).0.cursor.row <= m.bottom_limit(rows),
        m.out_csi(p, 'E', cols, rows).0.cursor.row <= m.bottom_limit(rows),
        m.out_csi(p, 'C', cols, rows).0.cursor.col < cols,
{
}

/// Text without `%` stands for its own UTF-8 encoding.
pub proof fn lemma_url_decode_bytes_plain(s: Seq<char>)
    requires
        !s.contains('%'),
    ensures
        url_decode_bytes(s) == encode_utf8(s),
    decreases s.len(),
{
    if s.len() > 0 {
        assert(s[0] != '%') by {
            assert(s.contains(s[0]));
        }
        assert(!s.drop_first().contains('%')) by {
            if s.drop_first().contains('%') {
                let i = choose|i: int| 0 <= i < s.drop_first().len() && s.drop_first()[i] == '%';
                assert(s[i + 1] == '%');
            }
        }
        lemma_url_decode_bytes_plain(s.drop_first());
        assert(seq![s[0]] + s.drop_first() =~= s);
        lemma_encode_utf8_concat(seq![s[0]], s.drop_first());
    } else {
        assert(encode_utf8(s) =~= Seq::<u8>::empty());
    }
}

/// Text without `%` decodes to itself.
pub proof fn lemma_url_decode_plain(s: Seq<char>)
    requires
        !s.contains('%'),
    ensures
        url_decode(s) == s,
{
    lemma_url_decode_bytes_plain(s);
    vstd::utf8::encode_utf8_valid_utf8(s);
    vstd::utf8::encode_utf8_decode_utf8(s);
}

/// The parts of the state that the pen, the replies and the directory are.
pub open spec fn same_pen_replies_directory(x: ParserModel, y: ParserModel) -> bool {
    x.pen() == y.pen() && x.pending == y.pending && x.directory == y.directory
}

proof fn lemma_csi_move_agrees(m: ParserModel, p: Seq<u16>, a: char, cols: usize, rows: usize)
    requires
        ParserModel::is_cursor_move(a),
    ensures
        same_pen_replies_directory(m.out_csi(p, a, cols, rows).0, m.csi(p, a)),
{
    let (cur, cmd) = m.out_cursor_move(p, a, cols, rows);
    assert(m.out_csi(p, a, cols, rows).0 == ParserModel { cursor: cur, ..m });
    assert(moves_cursor(a));
    assert(m.csi(p, a) == ParserModel { cursor: csi_cursor(m.cursor, p, a), ..m });
}

proof fn lemma_csi_other_agrees(m: ParserModel, p: Seq<u16>, a: char, cols: usize, rows: usize)
    requires
        !ParserModel::is_cursor_move(a),
        a != 'm',
        a != 'n',
    ensures
        same_pen_replies_directory(m.out_csi(p, a, cols, rows).0, m.csi(p, a)),
{
    if a == 'u' {
        assert(m.out_csi(p, a, cols, rows).0 == m.restored_with_region());
        assert(m.csi(p, a) == ParserModel { cursor: m.saved_cursor, attributes: m.saved_attributes, ..m });
    } else {
        assert(same_pen_replies_directory(m.out_csi(p, a, cols, rows).0, m));
        assert(same_pen_replies_directory(m.csi(p, a), m));
    }
}

proof fn lemma_csi_agrees_on_pen(m: ParserModel, p: Seq<u16>, a: char, cols: usize, rows: usize)
    ensures
        same_pen_replies_directory(m.out_csi(p, a, cols, rows).0, m.csi(p, a)),
{
    if ParserModel::is_cursor_move(a) {
        lemma_csi_move_agrees(m, p, a, cols, rows);
    } else if a == 'm' || a == 'n' {
        assert(m.out_csi(p, a, cols, rows).0 == m.csi(p, a));
    } else {
        lemma_csi_other_agrees(m, p, a, cols, rows);
    }
}

#[verifier::spinoff_prover]
#[verifier::rlimit(80)]
proof fn lemma_esc_agrees_on_pen(m: ParserModel, b: u8, rows: usize)
    ensures
        m.out_esc(b, rows).0.pen() == m.escaped(b).pen(),
        m.out_esc(b, rows).0.pending == m.escaped(b).pending,
        m.out_esc(b, rows).0.directory == m.escaped(b).directory,
{
    if b == 0x45 {
        let (n, cmds) = m.at(m.cursor.row, 0).out_linefeed(rows);
        assert(n.pen() == m.pen());
    }
}

/// Feeding a sink or not, an event changes the pen (attributes and colors),
/// the pending device replies and the reported directory in the same way.
pub proof fn lemma_output_step_agrees_on_pen(m: ParserModel, e: EventView, cols: usize, rows: usize)
    ensures
        m.out_step(e, cols, rows).0.pen() == m.step(e).pen(),
        m.out_step(e, cols, rows).0.pending == m.step(e).pending,
        m.out_step(e, cols, rows).0.directory == m.step(e).directory,
{
    match e {
        EventView::Csi(p, a) => lemma_csi_agrees_on_pen(m, p, a, cols, rows),
        EventView::Esc(b) => lemma_esc_agrees_on_pen(m, b, rows),
        _ => {},
    }
}

/// Parameters of a control sequence flattened into one list.
pub fn flatten(params: &Vec<Vec<u16>>) -> (r: Vec<u16>)
    ensures
        r@ == flatten_params(params@),
{
    let mut r: Vec<u16> = Vec::new();
    let mut i: usize = 0;
    while i < params.len()
        invariant
            i <= params@.len(),
            r@ == flatten_params(params@.take(i as int)),
        decreases params.len() - i,
    {
        let group = &params[i];
        let ghost before = r@;
        let mut j: usize = 0;
        while j < group.len()
            invariant
                j <= group@.len(),
                r@ == before + group@.take(j as int),
            decreases group.len() - j,
        {
            r.push(group[j]);
            proof {
                assert(before + group@.take(j as int + 1) =~= (before + group@.take(j as int)).push(group@[j as int]));
            }
            j = j + 1;
        }
        proof {
            assert(group@.take(group@.len() as int) =~= group@);
            assert(params@.take(i as int + 1).drop_last() =~= params@.take(i as int));
        }
        i = i + 1;
    }
    proof {
        assert(params@.take(params@.len() as int) =~= params@);
    }
    r
}

/// The effect of one SGR code (see [`sgr_code`]).
#[verifier::spinoff_prover]
#[verifier::rlimit(30)]
fn sgr_code_exec(pen: Pen, p: &Vec<u16>, i: usize) -> (r: (Pen, usize))
    requires
        i < p@.len(),
    ensures
        r.0 == sgr_code(pen, p@, i as int).0,
        r.1 as int == sgr_code(pen, p@, i as int).1,
{
    let c = p[i];
    let a = pen.attributes;
    if c == 0 {
        (Pen { attributes: TextAttributes::default(), fg: Color::Default, bg: Color::Default }, i)
    } else if c == 1 {
        (Pen { attributes: TextAttributes { bold: true, ..a }, ..pen }, i)
    } else if c == 2 {
        (Pen { attributes: TextAttributes { dim: true, ..a }, ..pen }, i)
    } else if c == 3 {
        (Pen { attributes: TextAttributes { italic: true, ..a }, ..pen }, i)
    } else if c == 4 {
        (Pen { attributes: TextAttributes { underline: true, ..a }, ..pen }, i)
    } else if c == 5 || c == 6 {
        (Pen { attributes: TextAttributes { blink: true, ..a }, ..pen }, i)
    } else if c == 7 {
        (Pen { attributes: TextAttributes { reverse: true, ..a }, ..pen }, i)
    } else if c == 8 {
        (Pen { attributes: TextAttributes { hidden: true, ..a }, ..pen }, i)
    } else if c == 9 {
        (Pen { attributes: TextAttributes { strikethrough: true, ..a }, ..pen }, i)
    } else if c == 22 {
        (Pen { attributes: TextAttributes { bold: false, dim: false, ..a }, ..pen }, i)
    } else if c == 23 {
        (Pen { attributes: TextAttributes { italic: false, ..a }, ..pen }, i)
    } else if c == 24 {
        (Pen { attributes: TextAttributes { underline: false, ..a }, ..pen }, i)
    } else if c == 25 {
        (Pen { attributes: TextAttributes { blink: false, ..a }, ..pen }, i)
    } else if c == 27 {
        (Pen { attributes: TextAttributes { reverse: false, ..a }, ..pen }, i)
    } else if c == 28 {
        (Pen { attributes: TextAttributes { hidden: false, ..a }, ..pen }, i)
    } else if c == 29 {
        (Pen { attributes: TextAttributes { strikethrough: false, ..a }, ..pen }, i)
    } else if 30 <= c && c <= 37 {
        (Pen { fg: Color::Indexed((c - 30) as u8), ..pen }, i)
    } else if c == 38 {
        match extended_color_exec(p, i) {
            Some((color, j)) => (Pen { fg: color, ..pen }, j),
            None => (pen, i),
        }
    } else if c == 39 {
        (Pen { fg: Color::Default, ..pen }, i)
    } else if 40 <= c && c <= 47 {
        (Pen { bg: Color::Indexed((c - 40) as u8), ..pen }, i)
    } else if c == 48 {
        match extended_color_exec(p, i) {
            Some((color, j)) => (Pen { bg: color, ..pen }, j),
            None => (pen, i),
        }
    } else if c == 49 {
        (Pen { bg: Color::Default, ..pen }, i)
    } else if 90 <= c && c <= 97 {
        (Pen { fg: Color::Indexed((c - 90 + 8) as u8), ..pen }, i)
    } else if 100 <= c && c <= 107 {
        (Pen { bg: Color::Indexed((c - 100 + 8) as u8), ..pen }, i)
    } else {
        (pen, i)
    }
}

/// An extended color starting at `i` (see [`extended_color`]).
fn extended_color_exec(p: &Vec<u16>, i: usize) -> (r: Option<(Color, usize)>)
    requires
        i < p@.len(),
    ensures
        match (r, extended_color(p@, i as int)) {
            (Some((c, j)), Some((c2, j2))) => c == c2 && j as int == j2,
            (None, None) => true,
            _ => false,
        },
{
    let rem = p.len() - i;
    if rem > 1 {
        if p[i + 1] == 5 {
            if rem > 2 {
                Some((Color::Indexed(p[i + 2] as u8), i + 2))
            } else {
                None
            }
        } else if p[i + 1] == 2 {
            if rem > 4 {
                Some((Color::Rgb(p[i + 2] as u8, p[i + 3] as u8, p[i + 4] as u8), i + 4))
            } else {
                None
            }
        } else {
            None
        }
    } else {
        None
    }
}

/// The pen after an SGR sequence (see [`sgr`]).
pub fn apply_sgr(pen: Pen, p: &Vec<u16>) -> (r: Pen)
    ensures
        r == sgr(pen, p@),
{
    if p.len() == 0 {
        return Pen { attributes: TextAttributes::default(), fg: Color::Default, bg: Color::Default };
    }
    let mut cur = pen;
    let mut i: usize = 0;
    while i < p.len()
        invariant
            p@.len() > 0,
            i <= p@.len(),
            sgr_from(cur, p@, i as int) == sgr_from(pen, p@, 0),
        decreases p.len() - i,
    {
        proof {
            lemma_sgr_code_advances(cur, p@, i as int);
        }
        let (next, j) = sgr_code_exec(cur, p, i);
        cur = next;
        i = j + 1;
    }
    cur
}

/// Decodes bytes as UTF-8.
///
/// Trusted: calls `std::str::from_utf8`, which the standard library documents
/// as succeeding exactly on valid UTF-8 and returning a string slice over the
/// same bytes.
#[verifier::external_body]
fn str_from_utf8(bytes: &[u8]) -> (r: Option<&str>)
    ensures
        r is Some <==> valid_utf8(bytes@),
        r matches Some(s) ==> encode_utf8(s@) == bytes@,
{
    std::str::from_utf8(bytes).ok()
}

/// Appends the UTF-8 encoding of `c`.
fn push_char_bytes(out: &mut Vec<u8>, c: char)
    ensures
        final(out)@ == old(out)@ + encode_utf8(seq![c]),
{
    let mut t = String::new();
    push_char(&mut t, c);
    proof {
        assert(t@ =~= seq![c]);
    }
    let tb = utf8_bytes(&t);
    let mut k: usize = 0;
    while k < tb.len()
        invariant
            k <= tb@.len(),
            tb@ == encode_utf8(seq![c]),
            out@ == old(out)@ + tb@.take(k as int),
        decreases tb.len() - k,
    {
        out.push(tb[k]);
        proof {
            assert(tb@.take(k as int + 1) =~= tb@.take(k as int).push(tb@[k as int]));
        }
        k = k + 1;
    }
    proof {
        assert(tb@.take(tb@.len() as int) =~= tb@);
    }
}

/// URL decode a string (handle %XX sequences); the decoded bytes are read
/// back as UTF-8.
pub fn urlencoding_decode(s: &str) -> (r: String)
    ensures
        r@ == url_decode(s@),
{
    let cs = chars_of(s);
    proof {
        assert(cs@.skip(0) =~= cs@);
    }
    decode_text(&cs, 0)
}

/// `url_decode` of `cs[start..]`.
fn decode_text(cs: &Vec<char>, start: usize) -> (r: String)
    requires
        start <= cs@.len(),
    ensures
        r@ == url_decode(cs@.skip(start as int)),
{
    let bytes = decode_bytes(cs, start);
    utf8_lossy(bytes.as_slice())
}

/// `url_decode_bytes` of `cs[start..]`.
fn decode_bytes(cs: &Vec<char>, start: usize) -> (r: Vec<u8>)
    requires
        start <= cs@.len(),
    ensures
        r@ == url_decode_bytes(cs@.skip(start as int)),
{
    let mut out: Vec<u8> = Vec::new();
    let mut i: usize = start;
    let n = cs.len();
    while i < n
        invariant
            n == cs@.len(),
            start <= i <= n,
            out@ + url_decode_bytes(cs@.skip(i as int)) == url_decode_bytes(cs@.skip(start as int)),
        decreases n - i,
    {
        let ghost t = cs@.skip(i as int);
        let ghost before = out@;
        if cs[i] == '%' {
            let hex_len: usize = if n - i >= 3 { 2 } else { n - i - 1 };
            let decoded = if hex_len == 2 { hex_pair(cs[i + 1], cs[i + 2]) } else { None };
            proof {
                assert(t.subrange(1, if t.len() >= 3 { 3 } else { t.len() as int }) =~= cs@.subrange(
                    i + 1,
                    i + 1 + hex_len,
                ));
                assert(t.skip(1 + hex_len as int) =~= cs@.skip(i + 1 + hex_len));
            }
            match decoded {
                Some(b) => {
                    out.push(b);
                },
                None => {
                    push_char_bytes(&mut out, '%');
                    let mut k: usize = 0;
                    while k < hex_len
                        invariant
                            k <= hex_len,
                            i + 1 + hex_len <= n,
                            n == cs@.len(),
                            out@ == before + encode_utf8(seq!['%'] + cs@.subrange(i + 1, i + 1 + k)),
                        decreases hex_len - k,
                    {
                        let ghost mid = out@;
                        push_char_bytes(&mut out, cs[i + 1 + k]);
                        proof {
                            let pre = seq!['%'] + cs@.subrange(i + 1, i + 1 + k);
                            assert(seq!['%'] + cs@.subrange(i + 1, i + 1 + k + 1) =~= pre + seq![cs@[i + 1 + k]]);
                            lemma_encode_utf8_concat(pre, seq![cs@[i + 1 + k]]);
                        }
                        k = k + 1;
                    }
                    proof {
                        assert(seq!['%'] + cs@.subrange(i + 1, i + 1) =~= seq!['%']);
                    }
                },
            }
            proof {
                assert(url_decode_bytes(t) == (match decoded {
                    Some(b) => seq![b],
                    None => encode_utf8(seq!['%'] + cs@.subrange(i + 1, i + 1 + hex_len)),
                }) + url_decode_bytes(cs@.skip(i + 1 + hex_len)));
                match decoded {
                    Some(b) => {
                        assert(out@ =~= before + seq![b]);
                    },
                    None => {},
                }
            }
            i = i + 1 + hex_len;
        } else {
            push_char_bytes(&mut out, cs[i]);
            proof {
                assert(t.drop_first() =~= cs@.skip(i + 1));
                assert(url_decode_bytes(t) == encode_utf8(seq![cs@[i as int]]) + url_decode_bytes(cs@.skip(i + 1)));
            }
            i = i + 1;
        }
    }
    proof {
        assert(cs@.skip(n as int) =~= Seq::<char>::empty());
        assert(out@ + Seq::<u8>::empty() =~= out@);
    }
    out
}

/// Parse a file:// URL and extract the path.
/// Format: file://hostname/path
pub fn parse_file_url(url: &str) -> (r: Option<String>)
    ensures
        match file_url_path(url@) {
            Some(p) => r matches Some(s) && s@ == p,
            None => r is None,
        },
{
    let cs = chars_of(url);
    let n = cs.len();
    if n < 7 || cs[0] != 'f' || cs[1] != 'i' || cs[2] != 'l' || cs[3] != 'e' || cs[4] != ':'
        || cs[5] != '/' || cs[6] != '/' {
        proof {
            if n >= 7 && url@.take(7) == file_scheme() {
                assert(url@.take(7)[0] == 'f');
                assert(url@.take(7)[1] == 'i');
                assert(url@.take(7)[2] == 'l');
                assert(url@.take(7)[3] == 'e');
                assert(url@.take(7)[4] == ':');
                assert(url@.take(7)[5] == '/');
                assert(url@.take(7)[6] == '/');
            }
        }
        return None;
    }
    proof {
        assert(url@.take(7) =~= file_scheme());
    }
    let ghost rest = url@.skip(7);
    let mut k: usize = 7;
    while k < n && cs[k] != '/'
        invariant
            n == cs@.len(),
            cs@ == url@,
            7 <= k <= n,
            rest == url@.skip(7),
            forall|j: int| 7 <= j < k ==> cs@[j] != '/',
            first_slash(rest) == shifted(first_slash(cs@.skip(k as int)), k - 7),
        decreases n - k,
    {
        proof {
            assert(cs@.skip(k as int).drop_first() =~= cs@.skip(k + 1));
        }
        k = k + 1;
    }
    if k == n {
        proof {
            assert(cs@.skip(n as int).len() == 0);
        }
        return None;
    }
    proof {
        assert(cs@.skip(k as int)[0] == '/');
        assert(rest.skip(k - 7) =~= cs@.skip(k as int));
    }
    Some(decode_text(&cs, k))
}

/// The cursor after a control byte (see [`executed_cursor`]).
fn execute_cursor(c: CursorPosition, byte: u8) -> (r: CursorPosition)
    requires
        byte == 0x09 ==> c.col + 8 <= usize::MAX,
        0x0A <= byte <= 0x0C ==> c.row + 1 <= usize::MAX,
    ensures
        r == executed_cursor(c, byte),
{
    if byte == 0x08 {
        if c.col > 0 { CursorPosition { row: c.row, col: c.col - 1 } } else { c }
    } else if byte == 0x09 {
        CursorPosition { row: c.row, col: next_tab(c.col) }
    } else if 0x0A <= byte && byte <= 0x0C {
        CursorPosition { row: c.row + 1, col: c.col }
    } else if byte == 0x0D {
        CursorPosition { row: c.row, col: 0 }
    } else {
        c
    }
}

/// The cursor after a cursor-moving control sequence (see [`csi_cursor`]).
fn move_cursor_for(c: CursorPosition, p: &Vec<u16>, action: char) -> (r: CursorPosition)
    requires
        (action == 'B' || action == 'E') ==> c.row + param_or(p@, 0, 1) <= usize::MAX,
        action == 'C' ==> c.col + param_or(p@, 0, 1) <= usize::MAX,
    ensures
        r == csi_cursor(c, p@, action),
{
    let n: usize = if p.len() > 0 { p[0] as usize } else { 1 };
    if action == 'A' {
        CursorPosition { row: c.row.saturating_sub(n), col: c.col }
    } else if action == 'B' {
        CursorPosition { row: c.row + n, col: c.col }
    } else if action == 'C' {
        CursorPosition { row: c.row, col: c.col + n }
    } else if action == 'D' {
        CursorPosition { row: c.row, col: c.col.saturating_sub(n) }
    } else if action == 'E' {
        CursorPosition { row: c.row + n, col: 0 }
    } else if action == 'F' {
        CursorPosition { row: c.row.saturating_sub(n), col: 0 }
    } else if action == 'G' {
        CursorPosition { row: c.row, col: n.saturating_sub(1) }
    } else if action == 'H' || action == 'f' {
        let row: usize = if p.len() > 0 { p[0] as usize } else { 1 };
        let col: usize = if p.len() > 1 { p[1] as usize } else { 1 };
        CursorPosition { row: row.saturating_sub(1), col: col.saturating_sub(1) }
    } else if action == 'J' {
        let mode: u16 = if p.len() > 0 { p[0] } else { 0 };
        if mode == 2 || mode == 3 { CursorPosition { row: 0, col: 0 } } else { c }
    } else {
        c
    }
}

/// The answer to a device status request (see [`status_report`]).
fn report_for(c: CursorPosition, p: &Vec<u16>) -> (r: Option<DeviceStatusResponse>)
    requires
        param_or(p@, 0, 0) == 6 ==> c.row + 1 <= usize::MAX && c.col + 1 <= usize::MAX,
    ensures
        r == status_report(c, p@),
{
    let mode: u16 = if p.len() > 0 { p[0] } else { 0 };
    if mode == 5 {
        Some(DeviceStatusResponse::DeviceStatusOk)
    } else if mode == 6 {
        Some(DeviceStatusResponse::CursorPosition { row: c.row + 1, col: c.col + 1 })
    } else {
        None
    }
}

/// The cursor after reverse index, index or next line (see [`escaped_cursor`]).
fn escape_cursor(c: CursorPosition, byte: u8) -> (r: CursorPosition)
    requires
        (byte == 0x44 || byte == 0x45) ==> c.row + 1 <= usize::MAX,
    ensures
        r == escaped_cursor(c, byte),
{
    if byte == 0x4D {
        if c.row > 0 { CursorPosition { row: c.row - 1, col: c.col } } else { c }
    } else if byte == 0x44 {
        CursorPosition { row: c.row + 1, col: c.col }
    } else if byte == 0x45 {
        CursorPosition { row: c.row + 1, col: 0 }
    } else {
        c
    }
}

impl ParserState {
    fn reset_pen_and_cursor(&mut self)
        ensures
            final(self)@ == (ParserModel {
                cursor: CursorPosition { row: 0, col: 0 },
                attributes: plain_attributes(),
                fg: Color::Default,
                bg: Color::Default,
                ..old(self)@
            }),
    {
        self.cursor = CursorPosition::default();
        self.attributes = TextAttributes::default();
        self.fg_color = Color::Default;
        self.bg_color = Color::Default;
    }

    fn save_cursor_and_attributes(&mut self)
        ensures
            final(self)@ == (ParserModel {
                saved_cursor: old(self)@.cursor,
                saved_attributes: old(self)@.attributes,
                ..old(self)@
            }),
    {
        self.saved_cursor = self.cursor;
        self.saved_attributes = self.attributes;
    }

    fn restore_cursor_and_attributes(&mut self)
        ensures
            final(self)@ == (ParserModel {
                cursor: old(self)@.saved_cursor,
                attributes: old(self)@.saved_attributes,
                ..old(self)@
            }),
    {
        self.cursor = self.saved_cursor;
        self.attributes = self.saved_attributes;
    }

    fn set_pen(&mut self, pen: Pen)
        ensures
            final(self)@ == old(self)@.with_pen(pen),
    {
        self.attributes = pen.attributes;
        self.fg_color = pen.fg;
        self.bg_color = pen.bg;
    }

    fn push_response(&mut self, r: DeviceStatusResponse)
        ensures
            final(self)@ == (ParserModel { pending: old(self)@.pending.push(r), ..old(self)@ }),
    {
        self.pending_responses.push(r);
    }

    /// Handle a printable character: the state itself only tracks the cursor
    /// and attributes, so nothing changes.
    pub fn print(&mut self, c: char)
        ensures
            final(self)@ == old(self)@,
    {
    }

    /// Handle a C0 or C1 control character.
    pub fn execute(&mut self, byte: u8)
        requires
            old(self)@.execute_fits(byte),
        ensures
            final(self)@ == old(self)@.executed(byte),
    {
        self.cursor = execute_cursor(self.cursor, byte);
    }

    /// Handle a CSI escape sequence.
    pub fn csi_dispatch(&mut self, params: &Vec<Vec<u16>>, action: char)
        requires
            old(self)@.csi_fits(flatten_params(params@), action),
        ensures
            final(self)@ == old(self)@.csi(flatten_params(params@), action),
    {
        let flat_params = flatten(params);
        if action == 'A' || action == 'B' || action == 'C' || action == 'D' || action == 'E'
            || action == 'F' || action == 'G' || action == 'H' || action == 'f' || action == 'J' {
            self.cursor = move_cursor_for(self.cursor, &flat_params, action);
        } else if action == 'r' {
            let rows = self.rows;
            self.set_requested_region(&flat_params, rows);
        } else if action == 'm' {
            let pen = apply_sgr(
                Pen { attributes: self.attributes, fg: self.fg_color, bg: self.bg_color },
                &flat_params,
            );
            self.set_pen(pen);
        } else if action == 'n' {
            match report_for(self.cursor, &flat_params) {
                Some(r) => self.push_response(r),
                None => {},
            }
        } else if action == 's' {
            self.save_cursor_and_attributes();
        } else if action == 'u' {
            self.restore_cursor_and_attributes();
        }
    }

    /// Handle an ESC escape sequence.
    pub fn esc_dispatch(&mut self, byte: u8)
        requires
            old(self)@.esc_fits(byte),
        ensures
            final(self)@ == old(self)@.escaped(byte),
    {
        if byte == 0x63 {
            self.reset_pen_and_cursor();
        } else if byte == 0x4D || byte == 0x44 || byte == 0x45 {
            self.cursor = escape_cursor(self.cursor, byte);
        } else if byte == 0x37 {
            self.save_cursor_and_attributes();
        } else if byte == 0x38 {
            self.restore_cursor_and_attributes();
        }
    }

    /// Handle an OSC escape sequence (Operating System Command).
    ///
    /// OSC 7 (`ESC ] 7 ; file://hostname/path BEL`) sets the current directory.
    pub fn osc_dispatch(&mut self, params: &Vec<Vec<u8>>)
        ensures
            final(self)@ == old(self)@.osc(params@.map_values(|p: Vec<u8>| p@)),
    {
        let ghost ps = params@.map_values(|p: Vec<u8>| p@);
        if params.len() >= 2 && params[0].len() == 1 && params[0][0] == 0x37u8 {
            proof {
                assert(ps[0] =~= seq![0x37u8]);
            }
            let url_bytes = join_from_second(params);
            match str_from_utf8(url_bytes.as_slice()) {
                Some(url) => {
                    proof {
                        vstd::utf8::encode_utf8_decode_utf8(url@);
                    }
                    match parse_file_url(url) {
                        Some(path) => {
                            self.current_directory = Some(path);
                        },
                        None => {},
                    }
                },
                None => {},
            }
        } else {
            proof {
                if params@.len() >= 2 && ps[0] == seq![0x37u8] {
                    assert(ps[0].len() == 1);
                    assert(params@[0]@ == ps[0]);
                }
            }
        }
    }

    /// Whether an event can be applied without overflowing the cursor.
    pub fn event_fits(&self, e: &ParserEvent) -> (b: bool)
        ensures
            b == self@.fits(e@),
    {
        match e {
            ParserEvent::Execute(byte) => {
                if *byte == 0x09 {
                    self.cursor.col <= usize::MAX - 8
                } else if 0x0A <= *byte && *byte <= 0x0C {
                    self.cursor.row < usize::MAX
                } else {
                    true
                }
            },
            ParserEvent::Csi { params, action } => {
                let flat = flatten(params);
                let n: usize = if flat.len() > 0 { flat[0] as usize } else { 1 };
                if *action == 'B' || *action == 'E' {
                    self.cursor.row <= usize::MAX - n
                } else if *action == 'C' {
                    self.cursor.col <= usize::MAX - n
                } else if *action == 'n' && flat.len() > 0 && flat[0] == 6 {
                    self.cursor.row < usize::MAX && self.cursor.col < usize::MAX
                } else {
                    true
                }
            },
            ParserEvent::Esc(byte) => {
                if *byte == 0x44 || *byte == 0x45 {
                    self.cursor.row < usize::MAX
                } else {
                    true
                }
            },
            _ => true,
        }
    }

    /// Apply one parser event.
    pub fn apply_event(&mut self, e: &ParserEvent)
        requires
            old(self)@.fits(e@),
        ensures
            final(self)@ == old(self)@.step(e@),
    {
        match e {
            ParserEvent::Print(c) => self.print(*c),
            ParserEvent::Execute(byte) => self.execute(*byte),
            ParserEvent::Csi { params, action } => self.csi_dispatch(params, *action),
            ParserEvent::Esc(byte) => self.esc_dispatch(*byte),
            ParserEvent::Osc(ps) => self.osc_dispatch(ps),
            ParserEvent::Dcs => {},
        }
    }
}

fn min_usize(a: usize, b: usize) -> (r: usize)
    ensures
        r == min_of(a, b),
{
    if a <= b { a } else { b }
}

fn max_usize(a: usize, b: usize) -> (r: usize)
    ensures
        r == max_of(a, b),
{
    if a >= b { a } else { b }
}

impl ParserState {
    fn effective_bottom_for(&self, rows: usize) -> (b: usize)
        ensures
            b == self@.effective_bottom(rows),
    {
        min_usize(self.scroll_region_bottom, rows.saturating_sub(1))
    }

    fn save_with_region(&mut self)
        ensures
            final(self)@ == old(self)@.saved_with_region(),
    {
        self.saved_cursor = self.cursor;
        self.saved_attributes = self.attributes;
        self.saved_scroll_region_top = self.scroll_region_top;
        self.saved_scroll_region_bottom = self.scroll_region_bottom;
    }

    fn restore_with_region(&mut self, cmds: &mut Vec<OutputCommand>)
        ensures
            final(self)@ == old(self)@.restored_with_region(),
            final(cmds)@ == old(cmds)@.push(
                OutputCommand::MoveCursor {
                    row: old(self)@.saved_cursor.row,
                    col: old(self)@.saved_cursor.col,
                },
            ),
    {
        self.cursor = self.saved_cursor;
        self.attributes = self.saved_attributes;
        self.scroll_region_top = self.saved_scroll_region_top;
        self.scroll_region_bottom = self.saved_scroll_region_bottom;
        cmds.push(OutputCommand::MoveCursor { row: self.cursor.row, col: self.cursor.col });
    }

    fn linefeed_for_output(&mut self, rows: usize, cmds: &mut Vec<OutputCommand>)
        requires
            old(self)@.linefeed_fits(rows),
        ensures
            final(self)@ == old(self)@.out_linefeed(rows).0,
            final(cmds)@ == old(cmds)@ + old(self)@.out_linefeed(rows).1,
    {
        let top = self.scroll_region_top;
        let bottom = self.effective_bottom_for(rows);
        let ghost c0 = old(cmds)@;
        if self.cursor.row == bottom {
            cmds.push(OutputCommand::ScrollUpInRegion { n: 1, top, bottom });
        } else if self.cursor.row < rows - 1 {
            self.cursor.row = self.cursor.row + 1;
        }
        cmds.push(OutputCommand::LinefeedInRegion { top, bottom });
        proof {
            assert(cmds@ =~= c0 + old(self)@.out_linefeed(rows).1);
        }
    }

    fn reverse_index_for_output(&mut self, rows: usize, cmds: &mut Vec<OutputCommand>)
        ensures
            final(self)@ == old(self)@.out_reverse_index(rows).0,
            final(cmds)@ == old(cmds)@ + old(self)@.out_reverse_index(rows).1,
    {
        let top = self.scroll_region_top;
        let bottom = self.effective_bottom_for(rows);
        let ghost c0 = old(cmds)@;
        if self.cursor.row == top {
            cmds.push(OutputCommand::ScrollDownInRegion { n: 1, top, bottom });
        } else if self.cursor.row > 0 {
            self.cursor.row = self.cursor.row - 1;
        }
        proof {
            assert(cmds@ =~= c0 + old(self)@.out_reverse_index(rows).1);
        }
    }

    fn execute_for_output(&mut self, byte: u8, cols: usize, rows: usize, cmds: &mut Vec<OutputCommand>)
        requires
            old(self)@.out_execute_fits(byte, cols, rows),
        ensures
            final(self)@ == old(self)@.out_execute(byte, cols, rows).0,
            final(cmds)@ == old(cmds)@ + old(self)@.out_execute(byte, cols, rows).1,
    {
        let ghost c0 = old(cmds)@;
        if byte == 0x08 {
            self.cursor = execute_cursor(self.cursor, byte);
            cmds.push(OutputCommand::Backspace);
        } else if byte == 0x09 {
            let t = next_tab(self.cursor.col);
            self.cursor.col = if t >= cols { cols - 1 } else { t };
            cmds.push(OutputCommand::Tab);
        } else if 0x0A <= byte && byte <= 0x0C {
            self.linefeed_for_output(rows, cmds);
        } else if byte == 0x0D {
            self.cursor = execute_cursor(self.cursor, byte);
            cmds.push(OutputCommand::CarriageReturn);
        }
        proof {
            assert(cmds@ =~= c0 + old(self)@.out_execute(byte, cols, rows).1);
        }
    }

    fn cursor_move_for_output(&self, p: &Vec<u16>, action: char, cols: usize, rows: usize) -> (r: (CursorPosition, OutputCommand))
        requires
            ParserModel::is_cursor_move(action),
            self@.out_csi_fits(p@, action, cols, rows),
        ensures
            r == self@.out_cursor_move(p@, action, cols, rows),
    {
        let c = self.cursor;
        let n: usize = if p.len() > 0 { p[0] as usize } else { 1 };
        if action == 'A' {
            let m = if self.origin_mode { self.scroll_region_top } else { 0 };
            (CursorPosition { row: max_usize(c.row.saturating_sub(n), m), col: c.col }, OutputCommand::CursorUp { n, min_row: m })
        } else if action == 'B' {
            let m = if self.origin_mode { self.scroll_region_bottom } else { rows.saturating_sub(1) };
            (CursorPosition { row: min_usize(c.row + n, m), col: c.col }, OutputCommand::CursorDown { n, max_row: m })
        } else if action == 'C' {
            let m = cols - 1;
            (CursorPosition { row: c.row, col: min_usize(c.col + n, m) }, OutputCommand::CursorForward { n, max_col: m })
        } else if action == 'D' {
            (CursorPosition { row: c.row, col: c.col.saturating_sub(n) }, OutputCommand::CursorBack { n })
        } else if action == 'E' {
            let m = if self.origin_mode { self.scroll_region_bottom } else { rows.saturating_sub(1) };
            (CursorPosition { row: min_usize(c.row + n, m), col: 0 }, OutputCommand::NextLine { n, max_row: m })
        } else if action == 'F' {
            let m = if self.origin_mode { self.scroll_region_top } else { 0 };
            (CursorPosition { row: max_usize(c.row.saturating_sub(n), m), col: 0 }, OutputCommand::PrevLine { n, min_row: m })
        } else if action == 'G' {
            let col = n.saturating_sub(1);
            (CursorPosition { row: c.row, col }, OutputCommand::ColumnAbsolute { col })
        } else {
            let rp: usize = if p.len() > 0 { p[0] as usize } else { 1 };
            let cp: usize = if p.len() > 1 { p[1] as usize } else { 1 };
            let rp = rp.saturating_sub(1);
            let col = min_usize(cp.saturating_sub(1), cols - 1);
            let row = if self.origin_mode {
                min_usize(self.scroll_region_top + rp, self.scroll_region_bottom)
            } else {
                min_usize(rp, rows - 1)
            };
            (CursorPosition { row, col }, OutputCommand::MoveCursor { row, col })
        }
    }

    /// Carries out a scroll-region request; whether it was valid.
    fn set_requested_region(&mut self, p: &Vec<u16>, rows: usize) -> (ok: bool)
        ensures
            final(self)@ == old(self)@.with_requested_region(p@, rows),
            ok == ParserModel::requested_region(p@, rows) is Some,
    {
        let top: usize = if p.len() > 0 { p[0] as usize } else { 1 };
        let bottom: usize = if p.len() > 1 { p[1] as usize } else { (rows as u16) as usize };
        let top_idx = top.saturating_sub(1);
        let bottom_idx = min_usize(bottom.saturating_sub(1), rows.saturating_sub(1));
        if top_idx < bottom_idx {
            self.scroll_region_top = top_idx;
            self.scroll_region_bottom = bottom_idx;
            let row = if self.origin_mode { top_idx } else { 0 };
            self.cursor = CursorPosition { row, col: 0 };
            true
        } else {
            false
        }
    }

    #[verifier::spinoff_prover]
    #[verifier::rlimit(30)]
    fn set_region_for_output(&mut self, p: &Vec<u16>, rows: usize, cmds: &mut Vec<OutputCommand>)
        ensures
            final(self)@ == old(self)@.out_csi(p@, 'r', 0, rows).0,
            final(cmds)@ == old(cmds)@ + old(self)@.out_csi(p@, 'r', 0, rows).1,
    {
        let ghost c0 = old(cmds)@;
        if self.set_requested_region(p, rows) {
            cmds.push(OutputCommand::MoveCursor { row: self.cursor.row, col: 0 });
        }
        proof {
            assert(cmds@ =~= c0 + old(self)@.out_csi(p@, 'r', 0, rows).1);
        }
    }

    fn csi_for_output(&mut self, params: &Vec<Vec<u16>>, action: char, cols: usize, rows: usize, cmds: &mut Vec<OutputCommand>)
        requires
            old(self)@.out_csi_fits(flatten_params(params@), action, cols, rows),
        ensures
            final(self)@ == old(self)@.out_csi(flatten_params(params@), action, cols, rows).0,
            final(cmds)@ == old(cmds)@ + old(self)@.out_csi(flatten_params(params@), action, cols, rows).1,
    {
        let ghost c0 = old(cmds)@;
        let ghost s0 = old(self)@;
        let p = flatten(params);
        let n: usize = if p.len() > 0 { p[0] as usize } else { 1 };
        if action == 'A' || action == 'B' || action == 'C' || action == 'D' || action == 'E'
            || action == 'F' || action == 'G' || action == 'H' || action == 'f' {
            let (cur, cmd) = self.cursor_move_for_output(&p, action, cols, rows);
            self.cursor = cur;
            cmds.push(cmd);
        } else if action == 'J' {
            let mode: u16 = if p.len() > 0 { p[0] } else { 0 };
            cmds.push(OutputCommand::EraseInDisplay(mode));
            if mode == 2 || mode == 3 {
                self.cursor = CursorPosition { row: 0, col: 0 };
                cmds.push(OutputCommand::MoveCursor { row: 0, col: 0 });
            }
        } else if action == 'K' {
            let mode: u16 = if p.len() > 0 { p[0] } else { 0 };
            cmds.push(OutputCommand::EraseInLine(mode));
        } else if action == 'L' || action == 'M' {
            let top = self.cursor.row;
            let bottom = self.effective_bottom_for(rows);
            if top >= self.scroll_region_top && top <= bottom {
                if action == 'L' {
                    cmds.push(OutputCommand::ScrollDownInRegion { n, top, bottom });
                } else {
                    cmds.push(OutputCommand::ScrollUpInRegion { n, top, bottom });
                }
            }
        } else if action == 'r' {
            self.set_region_for_output(&p, rows, cmds);
        } else if action == 'S' {
            let bottom = self.effective_bottom_for(rows);
            cmds.push(OutputCommand::ScrollUpInRegion { n, top: self.scroll_region_top, bottom });
        } else if action == 'T' {
            let bottom = self.effective_bottom_for(rows);
            cmds.push(OutputCommand::ScrollDownInRegion { n, top: self.scroll_region_top, bottom });
        } else if action == 'm' || action == 'n' {
            self.csi_dispatch(params, action);
        } else if action == 's' {
            self.save_with_region();
        } else if action == 'u' {
            self.restore_with_region(cmds);
        }
        proof {
            assert(cmds@ =~= c0 + s0.out_csi(flatten_params(params@), action, cols, rows).1);
        }
    }

    fn full_reset_for_output(&mut self, rows: usize, cmds: &mut Vec<OutputCommand>)
        ensures
            final(self)@ == old(self)@.out_esc(0x63, rows).0,
            final(cmds)@ == old(cmds)@ + old(self)@.out_esc(0x63, rows).1,
    {
        let ghost c0 = old(cmds)@;
        self.reset_pen_and_cursor();
        self.scroll_region_top = 0;
        self.scroll_region_bottom = rows.saturating_sub(1);
        self.origin_mode = false;
        cmds.push(OutputCommand::ClearScreen);
        cmds.push(OutputCommand::MoveCursor { row: 0, col: 0 });
        proof {
            assert(cmds@ =~= c0 + old(self)@.out_esc(0x63, rows).1);
        }
    }

    fn next_line_for_output(&mut self, rows: usize, cmds: &mut Vec<OutputCommand>)
        requires
            old(self)@.linefeed_fits(rows),
        ensures
            final(self)@ == old(self)@.out_esc(0x45, rows).0,
            final(cmds)@ == old(cmds)@ + old(self)@.out_esc(0x45, rows).1,
    {
        let ghost c0 = old(cmds)@;
        self.cursor.col = 0;
        cmds.push(OutputCommand::CarriageReturn);
        let ghost mid = self@;
        self.linefeed_for_output(rows, cmds);
        proof {
            assert(mid == old(self)@.at(old(self)@.cursor.row, 0));
            assert(cmds@ =~= c0 + old(self)@.out_esc(0x45, rows).1);
        }
    }

    fn esc_for_output(&mut self, byte: u8, rows: usize, cmds: &mut Vec<OutputCommand>)
        requires
            old(self)@.out_esc_fits(byte, rows),
        ensures
            final(self)@ == old(self)@.out_esc(byte, rows).0,
            final(cmds)@ == old(cmds)@ + old(self)@.out_esc(byte, rows).1,
    {
        let ghost c0 = old(cmds)@;
        let ghost s0 = old(self)@;
        if byte == 0x63 {
            self.full_reset_for_output(rows, cmds);
        } else if byte == 0x4D {
            self.reverse_index_for_output(rows, cmds);
        } else if byte == 0x44 {
            self.linefeed_for_output(rows, cmds);
        } else if byte == 0x45 {
            self.next_line_for_output(rows, cmds);
        } else if byte == 0x37 {
            self.save_with_region();
        } else if byte == 0x38 {
            self.restore_with_region(cmds);
        }
        proof {
            assert(cmds@ =~= c0 + s0.out_esc(byte, rows).1);
        }
    }

    /// Whether an event can be applied to a `cols` × `rows` sink without
    /// overflowing or underflowing a coordinate.
    pub fn output_event_fits(&self, e: &ParserEvent, cols: usize, rows: usize) -> (b: bool)
        ensures
            b == self@.out_fits(e@, cols, rows),
    {
        match e {
            ParserEvent::Execute(byte) => {
                if *byte == 0x09 {
                    if self.cursor.col > usize::MAX - 8 {
                        false
                    } else {
                        next_tab(self.cursor.col) < cols || cols > 0
                    }
                } else if 0x0A <= *byte && *byte <= 0x0C {
                    self.cursor.row == self.effective_bottom_for(rows) || rows > 0
                } else {
                    true
                }
            },
            ParserEvent::Csi { params, action } => {
                let p = flatten(params);
                let n: usize = if p.len() > 0 { p[0] as usize } else { 1 };
                if *action == 'B' || *action == 'E' {
                    self.cursor.row <= usize::MAX - n
                } else if *action == 'C' {
                    self.cursor.col <= usize::MAX - n && cols > 0
                } else if *action == 'H' || *action == 'f' {
                    let rp: usize = n.saturating_sub(1);
                    cols > 0 && (if self.origin_mode {
                        self.scroll_region_top <= usize::MAX - rp
                    } else {
                        rows > 0
                    })
                } else if *action == 'n' && p.len() > 0 && p[0] == 6 {
                    self.cursor.row < usize::MAX && self.cursor.col < usize::MAX
                } else {
                    true
                }
            },
            ParserEvent::Esc(byte) => {
                if *byte == 0x44 || *byte == 0x45 {
                    self.cursor.row == self.effective_bottom_for(rows) || rows > 0
                } else {
                    true
                }
            },
            _ => true,
        }
    }

    /// Apply one event while feeding a `cols` × `rows` sink; returns the
    /// calls to make on the sink, in order.
    pub fn output_step(&mut self, e: &ParserEvent, cols: usize, rows: usize) -> (cmds: Vec<OutputCommand>)
        requires
            old(self)@.out_fits(e@, cols, rows),
        ensures
            final(self)@ == old(self)@.out_step(e@, cols, rows).0,
            cmds@ == old(self)@.out_step(e@, cols, rows).1,
    {
        let mut cmds: Vec<OutputCommand> = Vec::new();
        match e {
            ParserEvent::Print(c) => {
                cmds.push(OutputCommand::PutChar(*c));
            },
            ParserEvent::Execute(byte) => self.execute_for_output(*byte, cols, rows, &mut cmds),
            ParserEvent::Csi { params, action } => self.csi_for_output(params, *action, cols, rows, &mut cmds),
            ParserEvent::Esc(byte) => self.esc_for_output(*byte, rows, &mut cmds),
            ParserEvent::Osc(ps) => self.osc_dispatch(ps),
            ParserEvent::Dcs => {},
        }
        proof {
            assert(cmds@ =~= Seq::<OutputCommand>::empty() + old(self)@.out_step(e@, cols, rows).1);
        }
        cmds
    }
}

/// The bytes of all parameters after the first, joined.
fn join_from_second(params: &Vec<Vec<u8>>) -> (r: Vec<u8>)
    requires
        params@.len() >= 1,
    ensures
        r@ == concat_bytes(params@.map_values(|p: Vec<u8>| p@).skip(1)),
{
    let ghost ps = params@.map_values(|p: Vec<u8>| p@);
    let mut r: Vec<u8> = Vec::new();
    let mut i: usize = 1;
    proof {
        assert(ps.skip(1).take(0) =~= Seq::<Seq<u8>>::empty());
    }
    while i < params.len()
        invariant
            1 <= i <= params@.len(),
            ps == params@.map_values(|p: Vec<u8>| p@),
            r@ == concat_bytes(ps.skip(1).take(i - 1)),
        decreases params.len() - i,
    {
        let group = &params[i];
        let ghost before = r@;
        let mut j: usize = 0;
        while j < group.len()
            invariant
                j <= group@.len(),
                r@ == before + group@.take(j as int),
            decreases group.len() - j,
        {
            r.push(group[j]);
            proof {
                assert(before + group@.take(j as int + 1) =~= (before + group@.take(j as int)).push(group@[j as int]));
            }
            j = j + 1;
        }
        proof {
            assert(group@.take(group@.len() as int) =~= group@);
            assert(ps.skip(1).take(i as int).drop_last() =~= ps.skip(1).take(i - 1));
            assert(ps.skip(1).take(i as int).last() == group@);
        }
        i = i + 1;
    }
    proof {
        assert(ps.skip(1).take(params@.len() - 1) =~= ps.skip(1));
    }
    r
}

/// The color an extended-color tail `5;n` or `2;r;g;b` denotes.
pub open spec fn extended_color_from(p: Seq<u16>) -> Option<Color> {
    if p.len() == 0 {
        None
    } else if p[0] == 5 {
        if p.len() > 1 { Some(Color::Indexed(p[1] as u8)) } else { None }
    } else if p[0] == 2 {
        if p.len() > 3 { Some(Color::Rgb(p[1] as u8, p[2] as u8, p[3] as u8)) } else { None }
    } else {
        None
    }
}

/// The actions the escape-sequence machine reports for `bytes` fed after
/// `fed`: those it reports for all the bytes, past the ones it had reported
/// for `fed` alone.
pub open spec fn new_actions(fed: Seq<u8>, bytes: Seq<u8>) -> Seq<EventView> {
    vte_actions(fed + bytes).skip(vte_actions(fed).len() as int)
}

/// The actions reported past `fed0`, once more bytes took the machine from
/// `fa` to `fb`, are those reported up to `fa` followed by the ones `fb`
/// added.
proof fn lemma_actions_extend(f0: Seq<u8>, fa: Seq<u8>, fb: Seq<u8>)
    requires
        vte_actions(f0).len() <= vte_actions(fa).len(),
        vte_actions(fa).len() <= vte_actions(fb).len(),
        vte_actions(fb).take(vte_actions(fa).len() as int) == vte_actions(fa),
    ensures
        vte_actions(fb).skip(vte_actions(f0).len() as int) == vte_actions(fa).skip(
            vte_actions(f0).len() as int,
        ) + vte_actions(fb).skip(vte_actions(fa).len() as int),
{
    let a0 = vte_actions(f0).len() as int;
    let a1 = vte_actions(fa).len() as int;
    let b = vte_actions(fb);
    assert forall|j: int| 0 <= j < a1 implies b[j] == vte_actions(fa)[j] by {
        assert(b.take(a1)[j] == b[j]);
    }
    assert(b.skip(a0) =~= vte_actions(fa).skip(a0) + b.skip(a1));
}

/// Views of a sequence of events.
pub open spec fn event_views(es: Seq<ParserEvent>) -> Seq<EventView> {
    es.map_values(|e: ParserEvent| e@)
}

/// Terminal parser that processes ANSI escape sequences.
///
/// This parser uses the `vte` crate to handle escape sequence parsing and
/// maintains the terminal state including cursor position, colors, and text attributes.
pub struct TerminalParser {
    /// The underlying VTE parser
    parser: VteMachine,
    /// Current parser state
    pub state: ParserState,
    /// Processed output buffer (for rendered content)
    output_buffer: Vec<TerminalCell>,
    /// Number of columns in the terminal
    cols: usize,
    /// Number of rows in the terminal
    rows: usize,
}

impl TerminalParser {
    /// Number of columns.
    pub closed spec fn spec_cols(&self) -> usize {
        self.cols
    }

    /// Number of rows.
    pub closed spec fn spec_rows(&self) -> usize {
        self.rows
    }

    /// The output buffer.
    pub closed spec fn spec_output(&self) -> Seq<TerminalCell> {
        self.output_buffer@
    }

    /// The parser state.
    pub closed spec fn spec_state(&self) -> ParserModel {
        self.state@
    }

    /// The bytes parsed since the parser was made.
    pub closed spec fn spec_fed(&self) -> Seq<u8> {
        self.parser.fed()
    }

    /// Create a new terminal parser with default dimensions.
    pub fn new() -> (p: Self)
        ensures
            p.spec_cols() == 80,
            p.spec_rows() == 24,
            p.spec_state() == (ParserModel {
                rows: 24,
                region_bottom: 23,
                saved_region_bottom: 23,
                ..initial_parser_model()
            }),
            p.spec_output() == Seq::new(80 * 24, |_i: int| blank_terminal_cell()),
            p.spec_fed() == Seq::<u8>::empty(),
    {
        Self::with_size(80, 24)
    }

    /// Create a new terminal parser with specified dimensions.
    pub fn with_size(cols: usize, rows: usize) -> (p: Self)
        requires
            cols * rows <= usize::MAX,
        ensures
            p.spec_cols() == cols,
            p.spec_rows() == rows,
            p.spec_state() == (ParserModel {
                rows,
                region_bottom: sat_pred(rows),
                saved_region_bottom: sat_pred(rows),
                ..initial_parser_model()
            }),
            p.spec_output() == Seq::new((cols * rows) as nat, |_i: int| blank_terminal_cell()),
            p.spec_fed() == Seq::<u8>::empty(),
    {
        let mut state = ParserState::default();
        state.set_terminal_size(rows);
        let n = cols * rows;
        let mut buf: Vec<TerminalCell> = Vec::new();
        let mut i: usize = 0;
        while i < n
            invariant
                i <= n,
                buf@ == Seq::new(i as nat, |_i: int| blank_terminal_cell()),
            decreases n - i,
        {
            buf.push(TerminalCell::default());
            proof {
                assert(buf@ =~= Seq::new(i as nat + 1, |_i: int| blank_terminal_cell()));
            }
            i = i + 1;
        }
        TerminalParser { parser: new_vte_machine(), state, output_buffer: buf, cols, rows }
    }

    /// Parse a slice of bytes from the PTY.
    ///
    /// This method processes the raw bytes and updates the parser state.
    /// The bytes are interpreted as UTF-8 text with embedded escape sequences.
    /// The state changes by the actions the escape-sequence machine reports
    /// for these bytes (see [`new_actions`]), each applied in order (an action
    /// that would overflow a cursor coordinate is passed over).
    pub fn parse_bytes(&mut self, bytes: &[u8])
        ensures
            final(self).spec_cols() == old(self).spec_cols(),
            final(self).spec_rows() == old(self).spec_rows(),
            final(self).spec_output() == old(self).spec_output(),
            final(self).spec_fed() == old(self).spec_fed() + bytes@,
            final(self).spec_state() == old(self).spec_state().after_events(
                new_actions(old(self).spec_fed(), bytes@),
            ),
    {
        let ghost s0 = self.state@;
        let ghost f0 = self.parser.fed();
        let ghost mut applied: Seq<EventView> = Seq::empty();
        let mut i: usize = 0;
        proof {
            assert(bytes@.take(0) =~= Seq::<u8>::empty());
            assert(f0 + bytes@.take(0) =~= f0);
            assert(vte_actions(f0).skip(vte_actions(f0).len() as int) =~= Seq::<EventView>::empty());
        }
        while i < bytes.len()
            invariant
                i <= bytes@.len(),
                self.cols == old(self).cols,
                self.rows == old(self).rows,
                self.output_buffer@ == old(self).output_buffer@,
                s0 == old(self).state@,
                f0 == old(self).parser.fed(),
                self.parser.fed() == f0 + bytes@.take(i as int),
                vte_actions(f0).len() <= vte_actions(self.parser.fed()).len(),
                applied == vte_actions(self.parser.fed()).skip(vte_actions(f0).len() as int),
                self.state@ == s0.after_events(applied),
            decreases bytes.len() - i,
        {
            let ghost fa = self.parser.fed();
            let events = vte_advance(&mut self.parser, bytes[i]);
            proof {
                lemma_actions_extend(f0, fa, self.parser.fed());
                assert(bytes@.take(i as int + 1) =~= bytes@.take(i as int).push(bytes@[i as int]));
                assert(f0 + bytes@.take(i as int + 1) =~= (f0 + bytes@.take(i as int)).push(bytes@[i as int]));
            }
            let ghost before = applied;
            let ghost fb = self.parser.fed();
            let mut k: usize = 0;
            while k < events.len()
                invariant
                    k <= events@.len(),
                    i < bytes@.len(),
                    f0 == old(self).parser.fed(),
                    self.parser.fed() == fb,
                    fb == f0 + bytes@.take(i as int + 1),
                    vte_actions(f0).len() <= vte_actions(fb).len(),
                    before + event_views(events@) == vte_actions(fb).skip(vte_actions(f0).len() as int),
                    self.cols == old(self).cols,
                    self.rows == old(self).rows,
                    self.output_buffer@ == old(self).output_buffer@,
                    s0 == old(self).state@,
                    applied == before + event_views(events@.take(k as int)),
                    self.state@ == s0.after_events(applied),
                decreases events.len() - k,
            {
                let e = &events[k];
                if self.state.event_fits(e) {
                    self.state.apply_event(e);
                }
                proof {
                    assert(applied.push(e@).drop_last() =~= applied);
                    assert(event_views(events@.take(k as int + 1)) =~= event_views(events@.take(k as int)).push(e@));
                    applied = applied.push(e@);
                }
                k = k + 1;
            }
            proof {
                assert(events@.take(events@.len() as int) =~= events@);
            }
            i = i + 1;
        }
        proof {
            assert(bytes@.take(bytes@.len() as int) =~= bytes@);
        }
    }

    /// Parse bytes into the calls to make on an output sink.
    ///
    /// The state changes as [`parse_bytes_with_output`](Self::parse_bytes_with_output)
    /// changes it; the calls it would make on the sink are returned, in order.
    pub fn parse_bytes_to_commands(&mut self, bytes: &[u8]) -> (cmds: Vec<OutputCommand>)
        ensures
            final(self).spec_cols() == old(self).spec_cols(),
            final(self).spec_rows() == old(self).spec_rows(),
            final(self).spec_output() == old(self).spec_output(),
            final(self).spec_fed() == old(self).spec_fed() + bytes@,
            ({
                let r = old(self).spec_state().after_output_events(
                    new_actions(old(self).spec_fed(), bytes@),
                    old(self).spec_cols(),
                    old(self).spec_rows(),
                );
                &&& final(self).spec_state() == r.0
                &&& cmds@ == r.1
            }),
    {
        let ghost s0 = self.state@;
        let ghost f0 = self.parser.fed();
        let ghost mut applied: Seq<EventView> = Seq::empty();
        let cols = self.cols;
        let rows = self.rows;
        let mut cmds: Vec<OutputCommand> = Vec::new();
        let mut i: usize = 0;
        proof {
            assert(bytes@.take(0) =~= Seq::<u8>::empty());
            assert(f0 + bytes@.take(0) =~= f0);
            assert(vte_actions(f0).skip(vte_actions(f0).len() as int) =~= Seq::<EventView>::empty());
        }
        while i < bytes.len()
            invariant
                i <= bytes@.len(),
                self.cols == old(self).cols,
                self.rows == old(self).rows,
                cols == self.cols,
                rows == self.rows,
                self.output_buffer@ == old(self).output_buffer@,
                s0 == old(self).state@,
                f0 == old(self).parser.fed(),
                self.parser.fed() == f0 + bytes@.take(i as int),
                vte_actions(f0).len() <= vte_actions(self.parser.fed()).len(),
                applied == vte_actions(self.parser.fed()).skip(vte_actions(f0).len() as int),
                self.state@ == s0.after_output_events(applied, cols, rows).0,
                cmds@ == s0.after_output_events(applied, cols, rows).1,
            decreases bytes.len() - i,
        {
            let ghost fa = self.parser.fed();
            let events = vte_advance(&mut self.parser, bytes[i]);
            proof {
                lemma_actions_extend(f0, fa, self.parser.fed());
                assert(bytes@.take(i as int + 1) =~= bytes@.take(i as int).push(bytes@[i as int]));
                assert(f0 + bytes@.take(i as int + 1) =~= (f0 + bytes@.take(i as int)).push(bytes@[i as int]));
            }
            let ghost before = applied;
            let ghost fb = self.parser.fed();
            let mut k: usize = 0;
            while k < events.len()
                invariant
                    k <= events@.len(),
                    i < bytes@.len(),
                    f0 == old(self).parser.fed(),
                    self.parser.fed() == fb,
                    fb == f0 + bytes@.take(i as int + 1),
                    vte_actions(f0).len() <= vte_actions(fb).len(),
                    before + event_views(events@) == vte_actions(fb).skip(vte_actions(f0).len() as int),
                    self.cols == old(self).cols,
                    self.rows == old(self).rows,
                    cols == self.cols,
                    rows == self.rows,
                    self.output_buffer@ == old(self).output_buffer@,
                    s0 == old(self).state@,
                    applied == before + event_views(events@.take(k as int)),
                    self.state@ == s0.after_output_events(applied, cols, rows).0,
                    cmds@ == s0.after_output_events(applied, cols, rows).1,
                decreases events.len() - k,
            {
                let e = &events[k];
                if self.state.output_event_fits(e, cols, rows) {
                    let mut more = self.state.output_step(e, cols, rows);
                    cmds.append(&mut more);
                }
                proof {
                    assert(applied.push(e@).drop_last() =~= applied);
                    assert(event_views(events@.take(k as int + 1)) =~= event_views(events@.take(k as int)).push(e@));
                    applied = applied.push(e@);
                }
                k = k + 1;
            }
            proof {
                assert(events@.take(events@.len() as int) =~= events@);
            }
            i = i + 1;
        }
        proof {
            assert(bytes@.take(bytes@.len() as int) =~= bytes@);
        }
        cmds
    }

    /// Parse bytes and output to a TerminalOutput sink.
    ///
    /// This is the preferred method for connecting the parser to a grid or screen.
    /// The parser updates its internal state AND writes characters to the output.
    pub fn parse_bytes_with_output<O: TerminalOutput>(&mut self, bytes: &[u8], output: &mut O)
        requires
            old(output).ready(),
        ensures
            final(output).ready(),
            final(self).spec_cols() == old(self).spec_cols(),
            final(self).spec_rows() == old(self).spec_rows(),
            final(self).spec_output() == old(self).spec_output(),
            final(self).spec_fed() == old(self).spec_fed() + bytes@,
            ({
                let r = old(self).spec_state().after_output_events(
                    new_actions(old(self).spec_fed(), bytes@),
                    old(self).spec_cols(),
                    old(self).spec_rows(),
                );
                &&& final(self).spec_state() == r.0
                &&& performs_all::<O>(old(output)@, r.1, final(output)@)
            }),
    {
        let cmds = self.parse_bytes_to_commands(bytes);
        perform_commands(output, &cmds);
    }

    /// Get the current cursor position.
    pub fn cursor_position(&self) -> (c: CursorPosition)
        ensures
            c == self.spec_state().cursor,
    {
        self.state.cursor
    }

    /// Get the current text attributes.
    pub fn attributes(&self) -> (a: TextAttributes)
        ensures
            a == self.spec_state().attributes,
    {
        self.state.attributes
    }

    /// Get the current foreground color.
    pub fn foreground_color(&self) -> (c: Color)
        ensures
            c == self.spec_state().fg,
    {
        self.state.fg_color
    }

    /// Get the current background color.
    pub fn background_color(&self) -> (c: Color)
        ensures
            c == self.spec_state().bg,
    {
        self.state.bg_color
    }

    /// Resize the terminal.
    pub fn resize(&mut self, cols: usize, rows: usize)
        requires
            cols * rows <= usize::MAX,
        ensures
            final(self).spec_cols() == cols,
            final(self).spec_rows() == rows,
            final(self).spec_state() == (ParserModel {
                rows,
                region_bottom: sat_pred(rows),
                saved_region_bottom: sat_pred(rows),
                ..old(self).spec_state()
            }),
            final(self).spec_output() == Seq::new(
                (cols * rows) as nat,
                |i: int|
                    if i < old(self).spec_output().len() {
                        old(self).spec_output()[i]
                    } else {
                        blank_terminal_cell()
                    },
            ),
    {
        self.cols = cols;
        self.rows = rows;
        self.state.set_terminal_size(rows);
        let n = cols * rows;
        let ghost old_buf = self.output_buffer@;
        if n <= self.output_buffer.len() {
            self.output_buffer.truncate(n);
        } else {
            while self.output_buffer.len() < n
                invariant
                    self.cols == cols,
                    self.rows == rows,
                    self.state@ == (ParserModel {
                        rows,
                        region_bottom: sat_pred(rows),
                        saved_region_bottom: sat_pred(rows),
                        ..old(self).state@
                    }),
                    old_buf.len() < n,
                    old_buf.len() <= self.output_buffer@.len() <= n,
                    forall|i: int|
                        0 <= i < self.output_buffer@.len() ==> #[trigger] self.output_buffer@[i] == (
                        if i < old_buf.len() {
                            old_buf[i]
                        } else {
                            blank_terminal_cell()
                        }),
                decreases n - self.output_buffer.len(),
            {
                self.output_buffer.push(TerminalCell::default());
            }
        }
        proof {
            assert(self.output_buffer@ =~= Seq::new(
                (cols * rows) as nat,
                |i: int| if i < old_buf.len() { old_buf[i] } else { blank_terminal_cell() },
            ));
        }
    }

    /// Get the output buffer.
    pub fn output(&self) -> (o: &[TerminalCell])
        ensures
            o@ == self.spec_output(),
    {
        self.output_buffer.as_slice()
    }

    /// Clear the screen.
    pub fn clear_screen(&mut self)
        ensures
            final(self).spec_cols() == old(self).spec_cols(),
            final(self).spec_rows() == old(self).spec_rows(),
            final(self).spec_state() == old(self).spec_state(),
            final(self).spec_output() == Seq::new(
                old(self).spec_output().len(),
                |_i: int| blank_terminal_cell(),
            ),
    {
        let n = self.output_buffer.len();
        let mut i: usize = 0;
        while i < n
            invariant
                self.cols == old(self).cols,
                self.rows == old(self).rows,
                self.state@ == old(self).state@,
                n == self.output_buffer@.len(),
                i <= n,
                forall|k: int| 0 <= k < i ==> #[trigger] self.output_buffer@[k] == blank_terminal_cell(),
            decreases n - i,
        {
            self.output_buffer.set(i, TerminalCell::default());
            i = i + 1;
        }
        proof {
            assert(self.output_buffer@ =~= Seq::new(n as nat, |_i: int| blank_terminal_cell()));
        }
    }

    /// The cell index of (`row`, `col`) in the output buffer.
    pub open spec fn cell_index(&self, row: usize, col: usize) -> int {
        row * self.spec_cols() + col
    }

    /// Put a character at the current cursor position.
    ///
    /// The cell under the cursor takes the character and the current pen;
    /// the cursor moves one column right unless on the last column.
    #[verifier::spinoff_prover]
    fn put_char(&mut self, c: char)
        requires
            old(self).spec_cols() > 0,
            old(self).spec_cols() * old(self).spec_rows() <= usize::MAX,
        ensures
            final(self).spec_cols() == old(self).spec_cols(),
            final(self).spec_rows() == old(self).spec_rows(),
            ({
                let s = old(self).spec_state();
                let i = old(self).cell_index(s.cursor.row, s.cursor.col);
                let cell = TerminalCell { char: c, fg_color: s.fg, bg_color: s.bg, attributes: s.attributes };
                final(self).spec_output() == if s.cursor.row < old(self).spec_rows() && s.cursor.col
                    < old(self).spec_cols() && i < old(self).spec_output().len() {
                    old(self).spec_output().update(i, cell)
                } else {
                    old(self).spec_output()
                }
            }),
            final(self).spec_state() == if old(self).spec_state().cursor.col < old(self).spec_cols() - 1 {
                old(self).spec_state().at(
                    old(self).spec_state().cursor.row,
                    (old(self).spec_state().cursor.col + 1) as usize,
                )
            } else {
                old(self).spec_state()
            },
    {
        let row = self.state.cursor.row;
        let col = self.state.cursor.col;
        if row < self.rows && col < self.cols {
            proof {
                assert(row * self.cols + col < self.cols * self.rows) by (nonlinear_arith)
                    requires
                        row < self.rows,
                        col < self.cols,
                ;
            }
            let idx = row * self.cols + col;
            if idx < self.output_buffer.len() {
                let cell = TerminalCell {
                    char: c,
                    fg_color: self.state.fg_color,
                    bg_color: self.state.bg_color,
                    attributes: self.state.attributes,
                };
                self.output_buffer.set(idx, cell);
            }
        }
        if self.state.cursor.col < self.cols - 1 {
            self.state.cursor.col = self.state.cursor.col + 1;
        }
    }

    /// Parse an extended color from the parameter groups from `start_idx`
    /// on: `5;n` gives palette entry `n`, `2;r;g;b` an RGB color.
    fn parse_color(params: &Vec<Vec<u16>>, start_idx: usize) -> (c: Option<Color>)
        ensures
            c == extended_color_from(flatten_params(params@.subrange(
                if start_idx <= params@.len() { start_idx as int } else { params@.len() as int },
                params@.len() as int,
            ))),
    {
        let start = if start_idx > params.len() { params.len() } else { start_idx };
        let mut p: Vec<u16> = Vec::new();
        let mut i = start;
        proof {
            assert(params@.subrange(start as int, start as int) =~= Seq::<Vec<u16>>::empty());
        }
        while i < params.len()
            invariant
                start <= i <= params@.len(),
                p@ == flatten_params(params@.subrange(start as int, i as int)),
            decreases params.len() - i,
        {
            let group = &params[i];
            let ghost before = p@;
            let mut j: usize = 0;
            while j < group.len()
                invariant
                    j <= group@.len(),
                    p@ == before + group@.take(j as int),
                decreases group.len() - j,
            {
                p.push(group[j]);
                proof {
                    assert(before + group@.take(j as int + 1) =~= (before + group@.take(j as int)).push(group@[j as int]));
                }
                j = j + 1;
            }
            proof {
                assert(group@.take(group@.len() as int) =~= group@);
                assert(params@.subrange(start as int, i + 1).drop_last() =~= params@.subrange(start as int, i as int));
            }
            i = i + 1;
        }
        if p.len() == 0 {
            None
        } else if p[0] == 5 {
            if p.len() > 1 { Some(Color::Indexed(p[1] as u8)) } else { None }
        } else if p[0] == 2 {
            if p.len() > 3 { Some(Color::Rgb(p[1] as u8, p[2] as u8, p[3] as u8)) } else { None }
        } else {
            None
        }
    }

    /// Get the current working directory tracked via OSC 7.
    pub fn get_current_directory(&self) -> (d: Option<&str>)
        ensures
            match self.spec_state().directory {
                Some(p) => d matches Some(s) && s@ == p,
                None => d is None,
            },
    {
        match &self.state.current_directory {
            Some(s) => Some(s.as_str()),
            None => None,
        }
    }
}

impl Default for TerminalParser {
    fn default() -> (p: Self)
        ensures
            p.spec_cols() == 80,
            p.spec_rows() == 24,
    {
        Self::new()
    }
}

} // verus!
