//! Status bar for displaying current directory and git branch
//!
//! Holds what the status bar at the bottom of the terminal shows:
//! - Current working directory
//! - Git branch (if in a git repository)
//! - Error messages feedback
//! - Toast for user notifications for transient errors
use vstd::prelude::*;
use std::time::{Duration, Instant};
use crate::clock::{duration_nanos, elapsed_since, from_secs, nanos_of, now};
use crate::strings::{chars_of, str_eq, trim_seq, trimmed, utf8_lossy, lossy_utf8};
use crate::terminal::parser::{opt_string_view, Color};

verus! {

/// Error severity level
#[derive(Debug, Clone, Copy, PartialEq, Eq, Structural)]
pub enum ErrorLevel {
    /// Transient error that should disappear after a timeout
    Transient,
    /// Persistent error that should stay visible until dismissed
    Persistent,
}

/// Error message with metadata
#[derive(Debug, Clone)]
pub struct StatusError {
    pub message: String,
    pub level: ErrorLevel,
    pub timestamp: Instant,
}

/// Whether a message of level `level`, `elapsed` after it was raised, has
/// outlived `timeout`: only transient ones expire.
pub open spec fn error_expired(level: ErrorLevel, elapsed: Duration, timeout: Duration) -> bool {
    level == ErrorLevel::Transient && duration_nanos(elapsed) > duration_nanos(timeout)
}

impl StatusError {
    pub fn new(message: String, level: ErrorLevel) -> (e: Self)
        ensures
            e.message == message,
            e.level == level,
    {
        Self { message, level, timestamp: now() }
    }

    pub fn transient(message: &str) -> (e: Self)
        ensures
            e.message@ == message@,
            e.level == ErrorLevel::Transient,
    {
        Self::new(message.to_owned(), ErrorLevel::Transient)
    }

    pub fn persistent(message: &str) -> (e: Self)
        ensures
            e.message@ == message@,
            e.level == ErrorLevel::Persistent,
    {
        Self::new(message.to_owned(), ErrorLevel::Persistent)
    }

    /// Whether this error has expired, `elapsed` after it was raised.
    pub fn expired_after(&self, elapsed: Duration, timeout: Duration) -> (b: bool)
        ensures
            b == error_expired(self.level, elapsed, timeout),
    {
        self.level == ErrorLevel::Transient && nanos_of(&elapsed) > nanos_of(&timeout)
    }

    /// Whether this error has expired by now (persistent errors never do).
    pub fn is_expired(&self, timeout: Duration) -> (b: bool)
        ensures
            exists|elapsed: Duration| b == error_expired(self.level, elapsed, timeout),
    {
        if self.level != ErrorLevel::Transient {
            proof {
                assert(!error_expired(self.level, timeout, timeout));
            }
            return false;
        }
        let elapsed = elapsed_since(&self.timestamp);
        self.expired_after(elapsed, timeout)
    }
}

/// Toast notification for transient errors
#[derive(Debug, Clone)]
pub struct Toast {
    pub message: String,
    pub timestamp: Instant,
}

impl Toast {
    pub fn new(message: String) -> (t: Self)
        ensures
            t.message == message,
    {
        Self { message, timestamp: now() }
    }

    /// Whether this toast has outlived `timeout`, `elapsed` after it was shown.
    pub fn expired_after(&self, elapsed: Duration, timeout: Duration) -> (b: bool)
        ensures
            b == (duration_nanos(elapsed) > duration_nanos(timeout)),
    {
        nanos_of(&elapsed) > nanos_of(&timeout)
    }

    /// Whether this toast has outlived `timeout` by now.
    pub fn is_expired(&self, timeout: Duration) -> (b: bool)
        ensures
            exists|elapsed: Duration| b == (duration_nanos(elapsed) > duration_nanos(timeout)),
    {
        let elapsed = elapsed_since(&self.timestamp);
        self.expired_after(elapsed, timeout)
    }

    /// A copy of this toast.
    fn duplicate(&self) -> (t: Self)
        ensures
            t == *self,
    {
        Toast { message: self.message.clone(), timestamp: self.timestamp }
    }
}

/// The items of `s` whose flag in `gone` is off, in order.
pub open spec fn kept<T>(s: Seq<T>, gone: Seq<bool>) -> Seq<T>
    decreases s.len(),
{
    if s.len() == 0 {
        Seq::empty()
    } else {
        let before = kept(s.drop_last(), gone.take(s.len() - 1));
        if gone[s.len() - 1] {
            before
        } else {
            before.push(s.last())
        }
    }
}

/// For each elapsed time, whether it outlives `timeout`.
pub open spec fn expired_flags(elapsed: Seq<Duration>, timeout: Duration) -> Seq<bool> {
    elapsed.map_values(|d: Duration| duration_nanos(d) > duration_nanos(timeout))
}

/// `after` is `before` with its expired error and toasts removed, the error
/// measured at `error_elapsed` and each toast at its entry of
/// `toast_elapsed`; everything else is unchanged.
pub open spec fn swept(
    before: StatusBar,
    after: StatusBar,
    error_elapsed: Duration,
    toast_elapsed: Seq<Duration>,
) -> bool {
    &&& toast_elapsed.len() == before.toasts@.len()
    &&& after.error == (match before.error {
        Some(e) => if error_expired(e.level, error_elapsed, before.toast_timeout) {
            None
        } else {
            before.error
        },
        None => None,
    })
    &&& after.toasts@ == kept(before.toasts@, expired_flags(toast_elapsed, before.toast_timeout))
    &&& after.current_dir == before.current_dir
    &&& after.git_branch == before.git_branch
    &&& after.visible == before.visible
    &&& after.toast_timeout == before.toast_timeout
}

/// Status bar information
#[derive(Debug, Clone)]
pub struct StatusBar {
    /// Current working directory
    pub current_dir: String,
    /// Git branch (None if not in a git repo)
    pub git_branch: Option<String>,
    /// Whether the status bar is visible
    pub visible: bool,
    /// Current error message (if any)
    pub error: Option<StatusError>,
    /// Toast notifications (transient errors)
    pub toasts: Vec<Toast>,
    /// Timeout for transient errors and toasts
    pub toast_timeout: Duration,
}

/// The branch name that `git rev-parse --abbrev-ref HEAD` reports: its
/// output, trimmed, when the command succeeded and the name is neither empty
/// nor `HEAD` (a detached head).
pub open spec fn branch_from_output(success: bool, stdout: Seq<u8>) -> Option<Seq<char>> {
    let name = trim_seq(lossy_utf8(stdout));
    if success && name.len() > 0 && name != "HEAD"@ {
        Some(name)
    } else {
        None
    }
}

/// The git branch, from what `git rev-parse --abbrev-ref HEAD` reported.
pub fn git_branch_from_output(success: bool, stdout: &[u8]) -> (b: Option<String>)
    ensures
        match branch_from_output(success, stdout@) {
            Some(n) => b matches Some(s) && s@ == n,
            None => b is None,
        },
{
    if !success {
        return None;
    }
    let text = utf8_lossy(stdout);
    let branch = trimmed(text.as_str());
    if branch.as_str().unicode_len() > 0 && !str_eq(branch.as_str(), "HEAD") {
        Some(branch)
    } else {
        None
    }
}

impl StatusBar {
    /// Create a new status bar
    pub fn new() -> (s: Self)
        ensures
            s.current_dir@ == Seq::<char>::empty(),
            s.git_branch is None,
            s.visible,
            s.error is None,
            s.toasts@.len() == 0,
            duration_nanos(s.toast_timeout) == 5_000_000_000,
    {
        Self {
            current_dir: String::new(),
            git_branch: None,
            visible: true,
            error: None,
            toasts: Vec::new(),
            toast_timeout: from_secs(5),
        }
    }

    /// Update the status bar with the current directory and the git branch
    /// found there.
    pub fn update(&mut self, dir: &str, git_branch: Option<String>)
        ensures
            final(self).current_dir@ == dir@,
            final(self).git_branch == git_branch,
            final(self).visible == old(self).visible,
            final(self).error == old(self).error,
            final(self).toasts == old(self).toasts,
            final(self).toast_timeout == old(self).toast_timeout,
    {
        self.current_dir = dir.to_owned();
        self.git_branch = git_branch;
    }

    /// Set a transient error that will auto-dismiss
    pub fn set_error(&mut self, message: &str)
        ensures
            final(self).error matches Some(e) && e.message@ == message@ && e.level
                == ErrorLevel::Transient,
            final(self).current_dir == old(self).current_dir,
            final(self).git_branch == old(self).git_branch,
            final(self).visible == old(self).visible,
            final(self).toasts == old(self).toasts,
            final(self).toast_timeout == old(self).toast_timeout,
    {
        self.error = Some(StatusError::transient(message));
    }

    /// Set a persistent error that stays until manually dismissed
    pub fn set_persistent_error(&mut self, message: &str)
        ensures
            final(self).error matches Some(e) && e.message@ == message@ && e.level
                == ErrorLevel::Persistent,
            final(self).current_dir == old(self).current_dir,
            final(self).git_branch == old(self).git_branch,
            final(self).visible == old(self).visible,
            final(self).toasts == old(self).toasts,
            final(self).toast_timeout == old(self).toast_timeout,
    {
        self.error = Some(StatusError::persistent(message));
    }

    /// Clear the current error
    pub fn clear_error(&mut self)
        ensures
            *final(self) == (StatusBar { error: None, ..*old(self) }),
    {
        self.error = None;
    }

    /// Check if there's an error to display
    pub fn has_error(&self) -> (b: bool)
        ensures
            b == self.error is Some,
    {
        self.error.is_some()
    }

    /// Get the error message if present
    pub fn get_error(&self) -> (m: Option<&str>)
        ensures
            match self.error {
                Some(e) => m matches Some(s) && s@ == e.message@,
                None => m is None,
            },
    {
        match &self.error {
            Some(e) => Some(e.message.as_str()),
            None => None,
        }
    }

    /// Add a toast notification
    pub fn add_toast(&mut self, message: &str)
        ensures
            final(self).toasts@.len() == old(self).toasts@.len() + 1,
            final(self).toasts@.drop_last() == old(self).toasts@,
            final(self).toasts@.last().message@ == message@,
            final(self).current_dir == old(self).current_dir,
            final(self).git_branch == old(self).git_branch,
            final(self).visible == old(self).visible,
            final(self).error == old(self).error,
            final(self).toast_timeout == old(self).toast_timeout,
    {
        let t = Toast::new(message.to_owned());
        self.toasts.push(t);
        proof {
            assert(self.toasts@.drop_last() =~= old(self).toasts@);
        }
    }

    /// Clear all toasts
    pub fn clear_toasts(&mut self)
        ensures
            final(self).toasts@ == Seq::<Toast>::empty(),
            final(self).current_dir == old(self).current_dir,
            final(self).git_branch == old(self).git_branch,
            final(self).visible == old(self).visible,
            final(self).error == old(self).error,
            final(self).toast_timeout == old(self).toast_timeout,
    {
        self.toasts.clear();
    }

    /// Drop the error if `error_expired`, and each toast whose flag in
    /// `toast_expired` is set.
    pub fn remove_expired(&mut self, error_expired: bool, toast_expired: &Vec<bool>)
        requires
            toast_expired@.len() == old(self).toasts@.len(),
        ensures
            final(self).error == (if error_expired { None } else { old(self).error }),
            final(self).toasts@ == kept(old(self).toasts@, toast_expired@),
            final(self).current_dir == old(self).current_dir,
            final(self).git_branch == old(self).git_branch,
            final(self).visible == old(self).visible,
            final(self).toast_timeout == old(self).toast_timeout,
    {
        if error_expired {
            self.error = None;
        }
        let mut remaining: Vec<Toast> = Vec::new();
        let mut i: usize = 0;
        while i < self.toasts.len()
            invariant
                i <= self.toasts@.len(),
                self.toasts@ == old(self).toasts@,
                toast_expired@.len() == self.toasts@.len(),
                remaining@ == kept(self.toasts@.take(i as int), toast_expired@.take(i as int)),
            decreases self.toasts.len() - i,
        {
            proof {
                assert(self.toasts@.take(i as int + 1).drop_last() =~= self.toasts@.take(i as int));
                assert(toast_expired@.take(i as int + 1).take(i as int) =~= toast_expired@.take(
                    i as int,
                ));
            }
            if !toast_expired[i] {
                remaining.push(self.toasts[i].duplicate());
            }
            i = i + 1;
        }
        proof {
            assert(self.toasts@.take(self.toasts@.len() as int) =~= self.toasts@);
            assert(toast_expired@.take(toast_expired@.len() as int) =~= toast_expired@);
        }
        self.toasts = remaining;
    }

    /// Drop the error if it has expired `error_elapsed` after it was raised,
    /// and each toast that has expired the matching entry of `toast_elapsed`
    /// after it was shown; the rest stay in order.
    pub fn remove_expired_after(&mut self, error_elapsed: Duration, toast_elapsed: &Vec<Duration>)
        requires
            toast_elapsed@.len() == old(self).toasts@.len(),
        ensures
            swept(*old(self), *final(self), error_elapsed, toast_elapsed@),
    {
        let error_gone = match &self.error {
            Some(e) => e.expired_after(error_elapsed, self.toast_timeout),
            None => false,
        };
        let mut flags: Vec<bool> = Vec::new();
        let mut i: usize = 0;
        while i < self.toasts.len()
            invariant
                i <= self.toasts@.len(),
                toast_elapsed@.len() == self.toasts@.len(),
                flags@ == expired_flags(toast_elapsed@, self.toast_timeout).take(i as int),
            decreases self.toasts.len() - i,
        {
            let gone = self.toasts[i].expired_after(toast_elapsed[i], self.toast_timeout);
            flags.push(gone);
            proof {
                assert(expired_flags(toast_elapsed@, self.toast_timeout).take(i as int + 1)
                    =~= expired_flags(toast_elapsed@, self.toast_timeout).take(i as int).push(gone));
            }
            i = i + 1;
        }
        proof {
            assert(expired_flags(toast_elapsed@, self.toast_timeout).take(i as int) =~= expired_flags(
                toast_elapsed@,
                self.toast_timeout,
            ));
        }
        self.remove_expired(error_gone, &flags);
    }

    /// Clean up expired transient errors and toasts: each is measured
    /// against the time elapsed since it was raised.
    pub fn cleanup_expired(&mut self)
        ensures
            exists|error_elapsed: Duration, toast_elapsed: Seq<Duration>|
                #[trigger] swept(*old(self), *final(self), error_elapsed, toast_elapsed),
    {
        let error_elapsed = match &self.error {
            Some(e) => elapsed_since(&e.timestamp),
            None => from_secs(0),
        };
        let mut toast_elapsed: Vec<Duration> = Vec::new();
        let mut i: usize = 0;
        while i < self.toasts.len()
            invariant
                i <= self.toasts@.len(),
                toast_elapsed@.len() == i,
            decreases self.toasts.len() - i,
        {
            toast_elapsed.push(elapsed_since(&self.toasts[i].timestamp));
            i = i + 1;
        }
        self.remove_expired_after(error_elapsed, &toast_elapsed);
    }

    /// Set the toast timeout duration
    pub fn set_toast_timeout(&mut self, duration: Duration)
        ensures
            *final(self) == (StatusBar { toast_timeout: duration, ..*old(self) }),
    {
        self.toast_timeout = duration;
    }

    /// Get toast messages to display
    pub fn get_toasts(&self) -> (m: Vec<&str>)
        ensures
            m@.len() == self.toasts@.len(),
            forall|i: int| 0 <= i < m@.len() ==> #[trigger] m@[i]@ == self.toasts@[i].message@,
    {
        let mut m: Vec<&str> = Vec::new();
        let mut i: usize = 0;
        while i < self.toasts.len()
            invariant
                i <= self.toasts@.len(),
                m@.len() == i,
                forall|k: int| 0 <= k < i ==> #[trigger] m@[k]@ == self.toasts@[k].message@,
            decreases self.toasts.len() - i,
        {
            m.push(self.toasts[i].message.as_str());
            i = i + 1;
        }
        m
    }

    /// Toggle status bar visibility
    pub fn toggle(&mut self)
        ensures
            *final(self) == (StatusBar { visible: !old(self).visible, ..*old(self) }),
    {
        self.visible = !self.visible;
    }

    /// Check if status bar is visible
    pub fn is_visible(&self) -> (b: bool)
        ensures
            b == self.visible,
    {
        self.visible
    }
}

impl Default for StatusBar {
    fn default() -> (s: Self)
        ensures
            s.current_dir@ == Seq::<char>::empty(),
            s.git_branch is None,
            s.visible,
            s.error is None,
            s.toasts@.len() == 0,
            duration_nanos(s.toast_timeout) == 5_000_000_000,
    {
        Self::new()
    }
}

/// A character placed at a column of the status row, with its colors.
#[derive(Debug, Clone, Copy, PartialEq, Eq, Structural)]
pub struct PlacedChar {
    pub col: usize,
    pub ch: char,
    pub fg: Color,
    pub bg: Color,
}

/// The status bar's background.
pub open spec fn bar_bg() -> Color {
    Color::Rgb(40, 44, 52)
}

/// The status bar's text color.
pub open spec fn bar_text() -> Color {
    Color::Rgb(171, 178, 191)
}

/// The color of the git branch.
pub open spec fn bar_branch() -> Color {
    Color::Rgb(152, 195, 121)
}

/// The color of the separator before the branch.
pub open spec fn bar_separator() -> Color {
    Color::Rgb(97, 175, 239)
}

/// The character `c` at column `col` in `fg` on the bar's background.
pub open spec fn placed_at(col: int, c: char, fg: Color) -> PlacedChar {
    PlacedChar { col: col as usize, ch: c, fg, bg: bar_bg() }
}

/// How many of `n` characters fit from column `start` before `limit`.
pub open spec fn run_len(n: int, start: int, limit: int) -> int {
    if start >= limit { 0 } else if n <= limit - start { n } else { limit - start }
}

/// `chars` placed one per column from column `start`, in `fg` on the bar's
/// background, stopping at the first column at or past `limit`.
pub open spec fn placed_run(chars: Seq<char>, start: int, limit: int, fg: Color) -> Seq<PlacedChar> {
    Seq::new(
        run_len(chars.len() as int, start, limit) as nat,
        |j: int| placed_at(start + j, chars[j], fg),
    )
}

/// What the status bar draws on a row `width` columns wide, in drawing
/// order: the background, the folder icon at column 2, the directory up to
/// 20 columns before the end, then (with a branch) one blank column, the
/// separator, one blank column, a blank in the branch color and the branch
/// name up to 2 columns before the end. A hidden bar draws nothing.
pub open spec fn status_cells(visible: bool, dir: Seq<char>, branch: Option<Seq<char>>, width: usize) -> Seq<PlacedChar> {
    if !visible {
        Seq::empty()
    } else {
        let background = Seq::new(
            width as nat,
            |i: int| PlacedChar { col: i as usize, ch: ' ', fg: bar_text(), bg: bar_bg() },
        );
        let icon = seq![
            PlacedChar { col: 2, ch: '\u{1F4C1}', fg: bar_text(), bg: bar_bg() },
            PlacedChar { col: 3, ch: ' ', fg: bar_text(), bg: bar_bg() },
        ];
        let dir_run = placed_run(dir, 4, width - 20, bar_text());
        let end: int = 4 + dir_run.len() as int;
        match branch {
            None => background + icon + dir_run,
            Some(b) => background + icon + dir_run + seq![
                PlacedChar { col: (end + 1) as usize, ch: '\u{2502}', fg: bar_separator(), bg: bar_bg() },
                PlacedChar { col: (end + 3) as usize, ch: ' ', fg: bar_branch(), bg: bar_bg() },
            ] + placed_run(b, end + 4int, width - 2, bar_branch()),
        }
    }
}

/// Appends `placed_run(chars, start, limit, fg)`; the column after the last
/// one placed.
fn push_run(out: &mut Vec<PlacedChar>, chars: &Vec<char>, start: usize, limit: usize, fg: Color) -> (end: usize)
    ensures
        final(out)@ == old(out)@ + placed_run(chars@, start as int, limit as int, fg),
        end == start + placed_run(chars@, start as int, limit as int, fg).len(),
        start <= limit ==> end <= limit,
{
    let mut col = start;
    let mut i: usize = 0;
    proof {
        assert(out@ =~= old(out)@ + Seq::new(
            0,
            |j: int| placed_at(start + j, chars@[j], fg),
        ));
    }
    while i < chars.len() && col < limit
        invariant
            i <= chars@.len(),
            col == start + i,
            start <= limit ==> col <= limit,
            start > limit ==> i == 0,
            out@ == old(out)@ + Seq::new(
                i as nat,
                |j: int| placed_at(start + j, chars@[j], fg),
            ),
        decreases chars.len() - i,
    {
        let ghost before = out@;
        let pc = PlacedChar { col, ch: chars[i], fg, bg: Color::Rgb(40, 44, 52) };
        out.push(pc);
        proof {
            assert(pc == placed_at(start + i, chars@[i as int], fg));
            assert(out@ == before.push(pc));
            assert(out@ =~= old(out)@ + Seq::new(
                (i + 1) as nat,
                |j: int| placed_at(start + j, chars@[j], fg),
            ));
        }
        col = col + 1;
        i = i + 1;
    }
    proof {
        assert(i == run_len(chars@.len() as int, start as int, limit as int));
        assert(out@ =~= old(out)@ + placed_run(chars@, start as int, limit as int, fg));
    }
    col
}

impl StatusBar {
    /// The characters the status bar draws on a row `bar_width` columns
    /// wide, in drawing order (see [`status_cells`]).
    pub fn status_bar_cells(&self, bar_width: usize) -> (v: Vec<PlacedChar>)
        requires
            bar_width >= 20,
        ensures
            v@ == status_cells(self.visible, self.current_dir@, opt_string_view(self.git_branch), bar_width),
    {
        let mut v: Vec<PlacedChar> = Vec::new();
        if !self.visible {
            return v;
        }
        let text = Color::Rgb(171, 178, 191);
        let bg = Color::Rgb(40, 44, 52);
        let mut c: usize = 0;
        while c < bar_width
            invariant
                c <= bar_width,
                text == bar_text(),
                bg == bar_bg(),
                v@ == Seq::new(c as nat, |i: int| PlacedChar { col: i as usize, ch: ' ', fg: bar_text(), bg: bar_bg() }),
            decreases bar_width - c,
        {
            v.push(PlacedChar { col: c, ch: ' ', fg: text, bg });
            proof {
                assert(v@ =~= Seq::new((c + 1) as nat, |i: int| PlacedChar { col: i as usize, ch: ' ', fg: bar_text(), bg: bar_bg() }));
            }
            c = c + 1;
        }
        v.push(PlacedChar { col: 2, ch: '\u{1F4C1}', fg: text, bg });
        v.push(PlacedChar { col: 3, ch: ' ', fg: text, bg });
        let dir = chars_of(self.current_dir.as_str());
        let end = push_run(&mut v, &dir, 4, bar_width - 20, text);
        match &self.git_branch {
            Some(b) => {
                v.push(PlacedChar { col: end + 1, ch: '\u{2502}', fg: Color::Rgb(97, 175, 239), bg });
                v.push(PlacedChar { col: end + 3, ch: ' ', fg: Color::Rgb(152, 195, 121), bg });
                let name = chars_of(b.as_str());
                let _ = push_run(&mut v, &name, end + 4, bar_width - 2, Color::Rgb(152, 195, 121));
            },
            None => {},
        }
        proof {
            let background = Seq::new(bar_width as nat, |i: int| PlacedChar { col: i as usize, ch: ' ', fg: bar_text(), bg: bar_bg() });
            assert(v@ =~= status_cells(self.visible, self.current_dir@, opt_string_view(self.git_branch), bar_width));
        }
        v
    }
}

/// Persistent errors never expire, however long they have been shown.
pub proof fn lemma_persistent_never_expires(elapsed: Duration, timeout: Duration)
    ensures
        !error_expired(ErrorLevel::Persistent, elapsed, timeout),
{
}


} // verus!
