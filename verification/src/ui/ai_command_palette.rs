//! AI Command Palette for AI-assisted terminal commands
//!
//! The state of a UI overlay that lets users ask an AI for command
//! suggestions, explanations, and assistance: its input line with a byte
//! cursor, its phases, and the suggestions it offers. The request to the AI
//! service runs on a worker thread that the application starts; the
//! application hands its answer to the palette with `set_response`.
use vstd::prelude::*;
use std::time::Instant;
use crate::ai::provider::AIError;
use crate::clock::{duration_nanos, elapsed_since, now, whole_secs_of};
use crate::strings::{
    byte_len, char_len_utf8, char_width, chars_of, contains_seq, ends_with_seq,
    lemma_char_width, lemma_encode_utf8_concat, lemma_utf8_len_take_increasing,
    lemma_utf8_len_take_step, push_char, push_str, str_contains, str_ends_with, utf8_len,
};

verus! {

/// Whether something exists at `path` (relative to the working directory).
///
/// Trusted: calls `Path::exists`; the answer depends on the file system,
/// so nothing is stated of it.
#[verifier::external_body]
fn path_exists(path: &str) -> bool {
    std::path::Path::new(path).exists()
}

/// Context for generating AI suggestions
pub struct SuggestionContext {
    /// Current working directory
    pub current_dir: Option<String>,
    /// Git branch (if in a git repo)
    pub git_branch: Option<String>,
    /// Shell type (bash, zsh, fish, etc.)
    pub shell: Option<String>,
    /// Recent terminal content (last few lines)
    pub recent_output: Option<String>,
}

/// State of the AI command palette
#[derive(Debug, Clone, Copy, PartialEq, Eq, Structural)]
pub enum PaletteState {
    /// Palette is hidden
    Hidden,
    /// Palette is open and waiting for input
    Open,
    /// Processing AI request
    Processing,
    /// Displaying AI response
    ShowingResponse,
}

/// AI command palette for AI-assisted commands
pub struct AICommandPalette {
    /// Current state of the palette
    pub state: PaletteState,
    /// User input buffer
    pub input: String,
    /// AI response buffer
    pub response: String,
    /// Cursor position in input buffer
    pub cursor_pos: usize,
    /// Timestamp when processing started (for timeout)
    pub processing_start: Option<Instant>,
    /// Error message if any
    pub error: Option<String>,
}

/// `pos` is the byte offset of a character boundary of `s`.
pub open spec fn on_boundary(s: Seq<char>, pos: int) -> bool {
    exists|k: int| 0 <= k <= s.len() && #[trigger] utf8_len(s.take(k)) == pos
}

/// The number of characters before byte offset `pos` of `s`.
pub open spec fn boundary_index(s: Seq<char>, pos: int) -> int {
    choose|k: int| 0 <= k <= s.len() && #[trigger] utf8_len(s.take(k)) == pos
}

/// The prefix lengths of `s` differ for different prefixes, so the character
/// index of a boundary is the only one with its byte offset.
pub proof fn lemma_boundary_index_unique(s: Seq<char>, pos: int, k: int)
    requires
        0 <= k <= s.len(),
        utf8_len(s.take(k)) == pos,
    ensures
        on_boundary(s, pos),
        boundary_index(s, pos) == k,
{
    assert(on_boundary(s, pos));
    let j = boundary_index(s, pos);
    if j < k {
        lemma_utf8_len_take_increasing(s, j, k);
    } else if k < j {
        lemma_utf8_len_take_increasing(s, k, j);
    }
}

/// The character index of the boundary at byte offset `pos`.
fn char_index_at(cs: &Vec<char>, pos: usize) -> (k: usize)
    requires
        on_boundary(cs@, pos as int),
    ensures
        k <= cs@.len(),
        utf8_len(cs@.take(k as int)) == pos,
        k == boundary_index(cs@, pos as int),
{
    let ghost target = boundary_index(cs@, pos as int);
    let n = cs.len();
    let mut k: usize = 0;
    let mut off: usize = 0;
    proof {
        assert(cs@.take(0) =~= Seq::<char>::empty());
        assert(vstd::utf8::encode_utf8(Seq::<char>::empty()) =~= Seq::<u8>::empty());
    }
    while off < pos
        invariant
            n == cs@.len(),
            0 <= target <= cs@.len(),
            utf8_len(cs@.take(target)) == pos,
            k <= target,
            off == utf8_len(cs@.take(k as int)),
            off <= pos,
        decreases target - k,
    {
        proof {
            assert(k != target);
            lemma_utf8_len_take_step(cs@, k as int);
            if k + 1 < target {
                lemma_utf8_len_take_increasing(cs@, k + 1, target);
            }
        }
        off = off + char_len_utf8(cs[k]);
        k = k + 1;
    }
    proof {
        if (k as int) < target {
            lemma_utf8_len_take_increasing(cs@, k as int, target);
        }
    }
    k
}

/// Appends the characters `v[from..to]`.
fn push_chars(v: &Vec<char>, from: usize, to: usize, s: &mut String)
    requires
        from <= to <= v@.len(),
    ensures
        final(s)@ == old(s)@ + v@.subrange(from as int, to as int),
{
    let mut i = from;
    while i < to
        invariant
            from <= i <= to <= v@.len(),
            s@ == old(s)@ + v@.subrange(from as int, i as int),
        decreases to - i,
    {
        push_char(s, v[i]);
        proof {
            assert(old(s)@ + v@.subrange(from as int, i + 1) =~= (old(s)@ + v@.subrange(
                from as int,
                i as int,
            )).push(v@[i as int]));
        }
        i = i + 1;
    }
}

/// The palette's prompt text around the user's question.
pub open spec fn prompt_for(input: Seq<char>) -> Seq<char> {
    "You are a terminal assistant. The user asks: "@ + input
        + "\n\nProvide a helpful response. If suggesting a command, put it in a code block. Keep responses concise."@
}

/// What an AI error tells the user.
pub open spec fn ai_error_text(e: AIError) -> Seq<char> {
    match e {
        AIError::Api(msg) => {
            let m = msg@;
            if contains_seq(m, "401"@) || contains_seq(m, "authentication"@) || contains_seq(
                m,
                "api key"@,
            ) {
                "API key invalid or missing. Run: warp-foss config set-openai-key <key>"@
            } else if contains_seq(m, "403"@) {
                "API key lacks permissions. Please check your API key."@
            } else if contains_seq(m, "404"@) {
                "API endpoint not found. Check your API configuration."@
            } else if contains_seq(m, "429"@) || contains_seq(m, "rate limit"@) {
                "Rate limit exceeded. Please wait a moment and try again."@
            } else if contains_seq(m, "connection"@) || contains_seq(m, "network"@) {
                "Network error. Check your internet connection."@
            } else if contains_seq(m, "timeout"@) {
                "Request timed out. Please try again."@
            } else {
                "API error: "@ + m
            }
        },
        AIError::Config(msg) => "Configuration error: "@ + msg@,
        AIError::RateLimited => "Rate limited. Please wait and try again."@,
    }
}

/// The suggestions for a context. `cargo_manifest` tells whether a
/// `Cargo.toml` exists in the working directory; it matters only for a
/// directory that mentions `cargo` and is neither under `node_modules` nor a
/// `/src` directory.
pub open spec fn suggestions_for(
    git_branch: bool,
    dir: Option<Seq<char>>,
    cargo_manifest: bool,
) -> Seq<Seq<char>> {
    let git: Seq<Seq<char>> = if git_branch {
        seq!["git status"@, "git log --oneline -5"@, "show uncommitted changes"@]
    } else {
        Seq::empty()
    };
    let by_dir: Seq<Seq<char>> = match dir {
        Some(d) => {
            let tools: Seq<Seq<char>> = if contains_seq(d, "node_modules"@) || ends_with_seq(
                d,
                "/src"@,
            ) {
                seq!["npm run dev"@, "npm test"@]
            } else if contains_seq(d, "cargo"@) && cargo_manifest {
                seq!["cargo build"@, "cargo test"@]
            } else {
                Seq::empty()
            };
            tools.push("list files in "@ + d)
        },
        None => Seq::empty(),
    };
    git + by_dir + seq!["explain last command"@, "suggest fix for error"@]
}

/// The suggestions for a context (see [`suggestions_for`]).
pub open spec fn context_suggestions(c: SuggestionContext, cargo_manifest: bool) -> Seq<Seq<char>> {
    suggestions_for(
        c.git_branch is Some,
        match c.current_dir {
            Some(d) => Some(d@),
            None => None,
        },
        cargo_manifest,
    )
}

/// The views of a vector of strings.
pub open spec fn strings_view(v: Seq<String>) -> Seq<Seq<char>> {
    v.map_values(|s: String| s@)
}

fn push_owned(v: &mut Vec<String>, t: &str)
    ensures
        strings_view(final(v)@) == strings_view(old(v)@).push(t@),
{
    v.push(t.to_owned());
    proof {
        assert(strings_view(v@) =~= strings_view(old(v)@).push(t@));
    }
}

impl AICommandPalette {
    /// An answer is in the response buffer.
    pub open spec fn has_response(&self) -> bool {
        self.response@.len() > 0
    }

    /// A request is in flight.
    pub open spec fn waiting(&self) -> bool {
        self.processing_start is Some
    }

    /// Create a new AI command palette
    pub fn new() -> (p: Self)
        ensures
            p.state == PaletteState::Hidden,
            p.input@ == Seq::<char>::empty(),
            p.cursor_pos == 0,
            p.error is None,
            !p.waiting(),
            p.response@ == Seq::<char>::empty(),
    {
        Self {
            state: PaletteState::Hidden,
            input: String::new(),
            response: String::new(),
            cursor_pos: 0,
            processing_start: None,
            error: None,
        }
    }

    /// Open the palette
    pub fn open(&mut self)
        ensures
            final(self).state == PaletteState::Open,
            final(self).input@ == Seq::<char>::empty(),
            final(self).cursor_pos == 0,
            final(self).error is None,
            final(self).waiting() == old(self).waiting(),
            final(self).response@ == Seq::<char>::empty(),
    {
        self.state = PaletteState::Open;
        self.input = String::new();
        self.response = String::new();
        self.cursor_pos = 0;
        self.error = None;
    }

    /// Close the palette
    pub fn close(&mut self)
        ensures
            final(self).state == PaletteState::Hidden,
            final(self).input@ == Seq::<char>::empty(),
            final(self).cursor_pos == 0,
            final(self).error is None,
            final(self).waiting() == old(self).waiting(),
            final(self).response@ == Seq::<char>::empty(),
    {
        self.state = PaletteState::Hidden;
        self.input = String::new();
        self.response = String::new();
        self.cursor_pos = 0;
        self.error = None;
    }

    /// Toggle the palette (open if closed, close if open)
    pub fn toggle(&mut self)
        ensures
            final(self).state == (if old(self).state == PaletteState::Hidden {
                PaletteState::Open
            } else {
                PaletteState::Hidden
            }),
            final(self).input@ == Seq::<char>::empty(),
            final(self).cursor_pos == 0,
            final(self).error is None,
            final(self).waiting() == old(self).waiting(),
            final(self).response@ == Seq::<char>::empty(),
    {
        match self.state {
            PaletteState::Hidden => self.open(),
            _ => self.close(),
        }
    }

    /// Check if the palette is visible
    pub fn is_visible(&self) -> (b: bool)
        ensures
            b == (self.state != PaletteState::Hidden),
    {
        self.state != PaletteState::Hidden
    }

    /// Handle character input
    pub fn handle_char(&mut self, c: char)
        requires
            old(self).state == PaletteState::Open ==> on_boundary(
                old(self).input@,
                old(self).cursor_pos as int,
            ),
        ensures
            old(self).state == PaletteState::Open ==> ({
                let k = boundary_index(old(self).input@, old(self).cursor_pos as int);
                &&& final(self).input@ == old(self).input@.take(k).push(c) + old(self).input@.skip(k)
                &&& final(self).cursor_pos == old(self).cursor_pos + char_width(c)
                &&& on_boundary(final(self).input@, final(self).cursor_pos as int)
            }),
            old(self).state != PaletteState::Open ==> final(self).input == old(self).input
                && final(self).cursor_pos == old(self).cursor_pos,
            final(self).state == old(self).state,
            final(self).error == old(self).error,
            final(self).waiting() == old(self).waiting(),
            final(self).response == old(self).response,
    {
        if self.state == PaletteState::Open {
            let cs = chars_of(self.input.as_str());
            let k = char_index_at(&cs, self.cursor_pos);
            let ghost s = cs@;
            let mut t = String::new();
            push_chars(&cs, 0, k, &mut t);
            push_char(&mut t, c);
            push_chars(&cs, k, cs.len(), &mut t);
            let total = byte_len(t.as_str());
            proof {
                assert(t@ =~= s.take(k as int).push(c) + s.skip(k as int));
                assert(t@.take(k + 1) =~= s.take(k as int).push(c));
                assert(s.take(k as int).push(c).take(k as int) =~= s.take(k as int));
                assert(t@.take(k as int) =~= s.take(k as int));
                assert(t@[k as int] == c);
                lemma_utf8_len_take_step(t@, k as int);
                if k + 1 < t@.len() {
                    lemma_utf8_len_take_increasing(t@, k + 1, t@.len() as int);
                }
                assert(t@.take(t@.len() as int) =~= t@);
                lemma_boundary_index_unique(t@, self.cursor_pos + char_width(c), k + 1);
            }
            self.input = t;
            self.cursor_pos = self.cursor_pos + char_len_utf8(c);
        }
    }

    /// Handle backspace
    pub fn handle_backspace(&mut self)
        requires
            old(self).state == PaletteState::Open && old(self).cursor_pos > 0 ==> on_boundary(
                old(self).input@,
                old(self).cursor_pos as int,
            ),
        ensures
            old(self).state == PaletteState::Open && old(self).cursor_pos > 0 ==> ({
                let k = boundary_index(old(self).input@, old(self).cursor_pos as int);
                &&& final(self).input@ == old(self).input@.take(k - 1) + old(self).input@.skip(k)
                &&& final(self).cursor_pos == old(self).cursor_pos - char_width(
                    old(self).input@[k - 1],
                )
                &&& on_boundary(final(self).input@, final(self).cursor_pos as int)
            }),
            !(old(self).state == PaletteState::Open && old(self).cursor_pos > 0) ==> final(self).input == old(self).input && final(self).cursor_pos == old(self).cursor_pos,
            final(self).state == old(self).state,
            final(self).error == old(self).error,
            final(self).waiting() == old(self).waiting(),
            final(self).response == old(self).response,
    {
        if self.state == PaletteState::Open && self.cursor_pos > 0 {
            let cs = chars_of(self.input.as_str());
            let k = char_index_at(&cs, self.cursor_pos);
            let ghost s = cs@;
            proof {
                if k == 0 {
                    assert(s.take(0) =~= Seq::<char>::empty());
                    assert(vstd::utf8::encode_utf8(Seq::<char>::empty()) =~= Seq::<u8>::empty());
                }
                lemma_utf8_len_take_step(s, k - 1);
            }
            let w = char_len_utf8(cs[k - 1]);
            let mut t = String::new();
            push_chars(&cs, 0, k - 1, &mut t);
            push_chars(&cs, k, cs.len(), &mut t);
            proof {
                assert(t@ =~= s.take(k - 1) + s.skip(k as int));
                assert(t@.take(k - 1) =~= s.take(k - 1));
                lemma_boundary_index_unique(t@, self.cursor_pos - w, k - 1);
            }
            self.input = t;
            self.cursor_pos = self.cursor_pos - w;
        }
    }

    /// Handle Enter key: says whether the typed command is to be submitted
    /// to the AI. Viewing a response, Enter closes the palette.
    pub fn handle_enter(&mut self) -> (submit: bool)
        ensures
            submit == (old(self).state == PaletteState::Open && old(self).input@.len() > 0),
            submit ==> *final(self) == *old(self),
            !submit && old(self).state == PaletteState::ShowingResponse ==> {
                &&& final(self).state == PaletteState::Hidden
                &&& final(self).input@ == Seq::<char>::empty()
                &&& final(self).cursor_pos == 0
                &&& final(self).error is None
            },
            !submit && old(self).state != PaletteState::ShowingResponse ==> *final(self)
                == *old(self),
    {
        if self.state == PaletteState::Open && self.input.as_str().unicode_len() > 0 {
            true
        } else {
            if self.state == PaletteState::ShowingResponse {
                self.close();
            }
            false
        }
    }

    /// Handle escape key
    pub fn handle_escape(&mut self)
        ensures
            final(self).state == PaletteState::Hidden,
            final(self).input@ == Seq::<char>::empty(),
            final(self).cursor_pos == 0,
            final(self).error is None,
            final(self).waiting() == old(self).waiting(),
            final(self).response@ == Seq::<char>::empty(),
    {
        self.close();
    }

    /// Move cursor left
    pub fn cursor_left(&mut self)
        requires
            old(self).cursor_pos > 0 ==> on_boundary(old(self).input@, old(self).cursor_pos as int),
        ensures
            old(self).cursor_pos > 0 ==> ({
                let k = boundary_index(old(self).input@, old(self).cursor_pos as int);
                &&& final(self).cursor_pos == old(self).cursor_pos - char_width(
                    old(self).input@[k - 1],
                )
                &&& on_boundary(final(self).input@, final(self).cursor_pos as int)
            }),
            old(self).cursor_pos == 0 ==> final(self).cursor_pos == 0,
            final(self).input == old(self).input,
            final(self).state == old(self).state,
            final(self).error == old(self).error,
            final(self).waiting() == old(self).waiting(),
            final(self).response == old(self).response,
    {
        if self.cursor_pos > 0 {
            let cs = chars_of(self.input.as_str());
            let k = char_index_at(&cs, self.cursor_pos);
            proof {
                if k == 0 {
                    assert(cs@.take(0) =~= Seq::<char>::empty());
                    assert(vstd::utf8::encode_utf8(Seq::<char>::empty()) =~= Seq::<u8>::empty());
                }
                lemma_utf8_len_take_step(cs@, k - 1);
                lemma_boundary_index_unique(cs@, self.cursor_pos - char_width(cs@[k - 1]), k - 1);
            }
            self.cursor_pos = self.cursor_pos - char_len_utf8(cs[k - 1]);
        }
    }

    /// Move cursor right
    pub fn cursor_right(&mut self)
        requires
            old(self).cursor_pos < utf8_len(old(self).input@) ==> on_boundary(
                old(self).input@,
                old(self).cursor_pos as int,
            ),
        ensures
            old(self).cursor_pos < utf8_len(old(self).input@) ==> ({
                let k = boundary_index(old(self).input@, old(self).cursor_pos as int);
                &&& final(self).cursor_pos == old(self).cursor_pos + char_width(
                    old(self).input@[k],
                )
                &&& on_boundary(final(self).input@, final(self).cursor_pos as int)
            }),
            old(self).cursor_pos >= utf8_len(old(self).input@) ==> final(self).cursor_pos == old(self).cursor_pos,
            final(self).input == old(self).input,
            final(self).state == old(self).state,
            final(self).error == old(self).error,
            final(self).waiting() == old(self).waiting(),
            final(self).response == old(self).response,
    {
        let total = byte_len(self.input.as_str());
        if self.cursor_pos < total {
            let cs = chars_of(self.input.as_str());
            let k = char_index_at(&cs, self.cursor_pos);
            proof {
                if k == cs@.len() {
                    assert(cs@.take(k as int) =~= cs@);
                }
                lemma_utf8_len_take_step(cs@, k as int);
                if k + 1 < cs@.len() {
                    lemma_utf8_len_take_increasing(cs@, k + 1, cs@.len() as int);
                }
                assert(cs@.take(cs@.len() as int) =~= cs@);
                lemma_boundary_index_unique(cs@, self.cursor_pos + char_width(cs@[k as int]), k + 1);
            }
            self.cursor_pos = self.cursor_pos + char_len_utf8(cs[k]);
        }
    }

    /// The text sent to the AI for the current input.
    pub fn assistant_prompt(&self) -> (p: String)
        ensures
            p@ == prompt_for(self.input@),
    {
        let mut p = String::new();
        push_str(&mut p, "You are a terminal assistant. The user asks: ");
        push_str(&mut p, self.input.as_str());
        push_str(
            &mut p,
            "\n\nProvide a helpful response. If suggesting a command, put it in a code block. Keep responses concise.",
        );
        proof {
            assert(p@ =~= prompt_for(self.input@));
        }
        p
    }

    /// A submitted request is under way: wait for its answer.
    pub fn begin_processing(&mut self)
        ensures
            final(self).state == PaletteState::Processing,
            final(self).waiting(),
            final(self).error is None,
            final(self).input == old(self).input,
            final(self).cursor_pos == old(self).cursor_pos,
            final(self).response@ == Seq::<char>::empty(),
    {
        self.state = PaletteState::Processing;
        self.processing_start = Some(now());
        self.response = String::new();
        self.error = None;
    }

    /// A submission could not start: show why.
    pub fn fail_submission(&mut self, message: String)
        ensures
            final(self).error == Some(message),
            final(self).state == old(self).state,
            final(self).input == old(self).input,
            final(self).cursor_pos == old(self).cursor_pos,
            final(self).waiting() == old(self).waiting(),
            final(self).response == old(self).response,
    {
        self.error = Some(message);
    }

    /// Get suggested commands for a context, given whether a `Cargo.toml`
    /// exists in the working directory.
    pub fn suggestions_with(&self, context: &SuggestionContext, cargo_manifest: bool) -> (s: Vec<String>)
        ensures
            strings_view(s@) == context_suggestions(*context, cargo_manifest),
    {
        let mut suggestions: Vec<String> = Vec::new();
        if context.git_branch.is_some() {
            push_owned(&mut suggestions, "git status");
            push_owned(&mut suggestions, "git log --oneline -5");
            push_owned(&mut suggestions, "show uncommitted changes");
        }
        match &context.current_dir {
            Some(dir) => {
                let d = dir.as_str();
                if str_contains(d, "node_modules") || str_ends_with(d, "/src") {
                    push_owned(&mut suggestions, "npm run dev");
                    push_owned(&mut suggestions, "npm test");
                } else if str_contains(d, "cargo") && cargo_manifest {
                    push_owned(&mut suggestions, "cargo build");
                    push_owned(&mut suggestions, "cargo test");
                }
                let mut line = String::new();
                push_str(&mut line, "list files in ");
                push_str(&mut line, d);
                let ghost before = suggestions@;
                suggestions.push(line);
                proof {
                    assert(strings_view(suggestions@) =~= strings_view(before).push(
                        "list files in "@ + d@,
                    ));
                }
            },
            None => {},
        }
        push_owned(&mut suggestions, "explain last command");
        push_owned(&mut suggestions, "suggest fix for error");
        proof {
            let git: Seq<Seq<char>> = if context.git_branch is Some {
                seq!["git status"@, "git log --oneline -5"@, "show uncommitted changes"@]
            } else {
                Seq::empty()
            };
            assert(strings_view(suggestions@) =~= suggestions_for(
                context.git_branch is Some,
                match context.current_dir {
                    Some(d) => Some(d@),
                    None => None,
                },
                cargo_manifest,
            ));
        }
        suggestions
    }

    /// Get suggested commands based on context
    pub fn get_suggestions(&self, context: &SuggestionContext) -> (s: Vec<String>)
        ensures
            exists|cargo_manifest: bool|
                strings_view(s@) == #[trigger] context_suggestions(*context, cargo_manifest),
    {
        let needs_check = match &context.current_dir {
            Some(dir) => {
                let d = dir.as_str();
                !(str_contains(d, "node_modules") || str_ends_with(d, "/src")) && str_contains(
                    d,
                    "cargo",
                )
            },
            None => false,
        };
        let cargo_manifest = if needs_check { path_exists("Cargo.toml") } else { false };
        self.suggestions_with(context, cargo_manifest)
    }

    /// Advance the processing phase: `elapsed_secs` whole seconds have passed
    /// since the request started, and `response_ready` tells whether the
    /// answer has arrived. After 30 seconds the request times out.
    pub fn advance(&mut self, elapsed_secs: u64, response_ready: bool)
        ensures
            old(self).waiting() && elapsed_secs > 30 ==> {
                &&& final(self).error matches Some(e) && e@ == "AI request timed out"@
                &&& final(self).state == PaletteState::Open
                &&& !final(self).waiting()
            },
            old(self).waiting() && elapsed_secs <= 30 && response_ready ==> {
                &&& final(self).state == PaletteState::ShowingResponse
                &&& !final(self).waiting()
                &&& final(self).error == old(self).error
            },
            !(old(self).waiting() && (elapsed_secs > 30 || response_ready)) ==> {
                &&& final(self).state == old(self).state
                &&& final(self).waiting() == old(self).waiting()
                &&& final(self).error == old(self).error
            },
            final(self).input == old(self).input,
            final(self).cursor_pos == old(self).cursor_pos,
            final(self).response == old(self).response,
    {
        if self.processing_start.is_some() {
            if elapsed_secs > 30 {
                self.error = Some("AI request timed out".to_owned());
                self.state = PaletteState::Open;
                self.processing_start = None;
            } else if response_ready {
                self.state = PaletteState::ShowingResponse;
                self.processing_start = None;
            }
        }
    }

    /// Phase and waiting flag after [`advance`](Self::advance), and whether
    /// the request timed out.
    pub open spec fn advanced(p: Self, elapsed_secs: u64, response_ready: bool) -> (
        PaletteState,
        bool,
        bool,
    ) {
        if p.waiting() && elapsed_secs > 30 {
            (PaletteState::Open, false, true)
        } else if p.waiting() && response_ready {
            (PaletteState::ShowingResponse, false, false)
        } else {
            (p.state, p.waiting(), false)
        }
    }

    /// Update processing state (call this in render loop): the answer has
    /// arrived when the response is not empty.
    pub fn update(&mut self)
        ensures
            exists|elapsed_secs: u64|
                #![trigger Self::advanced(*old(self), elapsed_secs, old(self).has_response())]
                {
                    let (st, w, timed_out) = Self::advanced(
                        *old(self),
                        elapsed_secs,
                        old(self).has_response(),
                    );
                    &&& final(self).state == st
                    &&& final(self).waiting() == w
                    &&& timed_out ==> (final(self).error matches Some(e) && e@ == "AI request timed out"@)
                    &&& !timed_out ==> final(self).error == old(self).error
                },
            final(self).input == old(self).input,
            final(self).cursor_pos == old(self).cursor_pos,
            final(self).response == old(self).response,
    {
        match self.processing_start {
            Some(start) => {
                let secs = whole_secs_of(&elapsed_since(&start));
                let ready = self.response.as_str().unicode_len() > 0;
                assert(ready == old(self).has_response());
                self.advance(secs, ready);
                proof {
                    let _ = Self::advanced(*old(self), secs, old(self).has_response());
                }
            },
            None => {
                proof {
                    let _ = Self::advanced(*old(self), 0, old(self).has_response());
                }
            },
        }
    }

    /// Get the current response text
    pub fn get_response(&self) -> (r: String)
        ensures
            r@ == self.response@,
    {
        self.response.clone()
    }

    /// The AI's answer (or the text of its failure) has arrived.
    pub fn set_response(&mut self, text: String)
        ensures
            final(self).response == text,
            final(self).state == old(self).state,
            final(self).input == old(self).input,
            final(self).cursor_pos == old(self).cursor_pos,
            final(self).waiting() == old(self).waiting(),
            final(self).error == old(self).error,
    {
        self.response = text;
    }

    /// Format AI errors for user-friendly display
    pub fn format_ai_error(e: &AIError) -> (s: String)
        ensures
            s@ == ai_error_text(*e),
    {
        let mut s = String::new();
        match e {
            AIError::Api(msg) => {
                let m = msg.as_str();
                if str_contains(m, "401") || str_contains(m, "authentication") || str_contains(
                    m,
                    "api key",
                ) {
                    push_str(&mut s, "API key invalid or missing. Run: warp-foss config set-openai-key <key>");
                } else if str_contains(m, "403") {
                    push_str(&mut s, "API key lacks permissions. Please check your API key.");
                } else if str_contains(m, "404") {
                    push_str(&mut s, "API endpoint not found. Check your API configuration.");
                } else if str_contains(m, "429") || str_contains(m, "rate limit") {
                    push_str(&mut s, "Rate limit exceeded. Please wait a moment and try again.");
                } else if str_contains(m, "connection") || str_contains(m, "network") {
                    push_str(&mut s, "Network error. Check your internet connection.");
                } else if str_contains(m, "timeout") {
                    push_str(&mut s, "Request timed out. Please try again.");
                } else {
                    push_str(&mut s, "API error: ");
                    push_str(&mut s, m);
                }
            },
            AIError::Config(msg) => {
                push_str(&mut s, "Configuration error: ");
                push_str(&mut s, msg.as_str());
            },
            AIError::RateLimited => {
                push_str(&mut s, "Rate limited. Please wait and try again.");
            },
        }
        proof {
            assert(s@ =~= ai_error_text(*e));
        }
        s
    }

    /// The text the worker leaves in the response buffer when the request failed.
    pub fn error_response(e: &AIError) -> (s: String)
        ensures
            s@ == "Error: "@ + ai_error_text(*e),
    {
        let mut s = String::new();
        push_str(&mut s, "Error: ");
        let t = Self::format_ai_error(e);
        push_str(&mut s, t.as_str());
        s
    }
}

impl Default for AICommandPalette {
    fn default() -> (p: Self)
        ensures
            p.state == PaletteState::Hidden,
            p.input@ == Seq::<char>::empty(),
            p.cursor_pos == 0,
            p.error is None,
            !p.waiting(),
            p.response@ == Seq::<char>::empty(),
    {
        Self::new()
    }
}

/// Typing a character and deleting it again with backspace gives back the
/// input and the cursor.
pub proof fn lemma_type_then_backspace(s: Seq<char>, pos: int, c: char)
    requires
        on_boundary(s, pos),
    ensures
        ({
            let k = boundary_index(s, pos);
            let typed = s.take(k).push(c) + s.skip(k);
            let moved = pos + char_width(c);
            let j = boundary_index(typed, moved);
            &&& on_boundary(typed, moved)
            &&& j == k + 1
            &&& typed.take(j - 1) + typed.skip(j) == s
            &&& moved - char_width(typed[j - 1]) == pos
        }),
{
    let k = boundary_index(s, pos);
    let typed = s.take(k).push(c) + s.skip(k);
    assert(typed.take(k) =~= s.take(k));
    assert(typed[k] == c);
    lemma_utf8_len_take_step(typed, k);
    lemma_boundary_index_unique(typed, pos + char_width(c), k + 1);
    assert(typed.take(k) + typed.skip(k + 1) =~= s);
}

/// Moving the cursor left and then right brings it back.
pub proof fn lemma_left_then_right(s: Seq<char>, pos: int)
    requires
        on_boundary(s, pos),
        pos > 0,
    ensures
        ({
            let k = boundary_index(s, pos);
            let left = pos - char_width(s[k - 1]);
            let j = boundary_index(s, left);
            &&& on_boundary(s, left)
            &&& left < utf8_len(s)
            &&& left + char_width(s[j]) == pos
        }),
{
    let k = boundary_index(s, pos);
    if k == 0 {
        assert(s.take(0) =~= Seq::<char>::empty());
        assert(vstd::utf8::encode_utf8(Seq::<char>::empty()) =~= Seq::<u8>::empty());
    }
    lemma_utf8_len_take_step(s, k - 1);
    let left = pos - char_width(s[k - 1]);
    lemma_boundary_index_unique(s, left, k - 1);
    if k < s.len() {
        lemma_utf8_len_take_increasing(s, k, s.len() as int);
    }
    assert(s.take(s.len() as int) =~= s);
}

} // verus!
