//! Terminal screen buffer (grid) for storing and manipulating terminal cell data.
//!
//! This module provides a 2D grid representation of terminal content,
//! including character data, colors, text attributes, and scrollback history.
use vstd::prelude::*;
use crate::strings::push_char;
use crate::terminal::parser::{plain_attributes, Color, OutputCommand, TerminalOutput, TextAttributes};

verus! {

/// A single cell in the terminal grid.
#[derive(Debug, Clone, Copy, PartialEq, Eq, Structural)]
pub struct Cell {
    /// The character displayed in this cell.
    pub char: char,
    /// Foreground color.
    pub fg_color: Color,
    /// Background color.
    pub bg_color: Color,
    /// Text attributes (bold, underline, etc.).
    pub attributes: TextAttributes,
}

/// A space with default colors and no attributes.
pub open spec fn default_cell() -> Cell {
    Cell {
        char: ' ',
        fg_color: Color::Default,
        bg_color: Color::Default,
        attributes: plain_attributes(),
    }
}

/// A row of `n` default cells.
pub open spec fn blank_cells(n: nat) -> Seq<Cell> {
    Seq::new(n, |_i: int| default_cell())
}

/// `n` blank rows, each `cols` cells wide.
pub open spec fn blank_rows(n: nat, cols: nat) -> Seq<Seq<Cell>> {
    Seq::new(n, |_i: int| blank_cells(cols))
}

impl Default for Cell {
    fn default() -> (c: Self)
        ensures
            c == default_cell(),
    {
        Cell {
            char: ' ',
            fg_color: Color::Default,
            bg_color: Color::Default,
            attributes: TextAttributes::default(),
        }
    }
}

impl Cell {
    /// Create a new cell with the given character.
    pub fn new(char: char) -> (c: Self)
        ensures
            c == (Cell { char, ..default_cell() }),
    {
        Cell { char, ..Cell::default() }
    }

    /// Create a new cell with character and colors.
    pub fn with_colors(char: char, fg_color: Color, bg_color: Color) -> (c: Self)
        ensures
            c == (Cell { char, fg_color, bg_color, attributes: plain_attributes() }),
    {
        Cell { char, fg_color, bg_color, attributes: TextAttributes::default() }
    }

    /// Create a fully specified cell.
    pub fn with_attributes(
        char: char,
        fg_color: Color,
        bg_color: Color,
        attributes: TextAttributes,
    ) -> (c: Self)
        ensures
            c == (Cell { char, fg_color, bg_color, attributes }),
    {
        Cell { char, fg_color, bg_color, attributes }
    }

    /// Check if this cell is empty (space with default colors and attributes).
    pub fn is_empty(&self) -> (b: bool)
        ensures
            b == (*self == default_cell()),
    {
        self.char == ' ' && self.fg_color == Color::Default && self.bg_color == Color::Default
            && self.attributes == TextAttributes::default()
    }

    /// Reset the cell to default state.
    pub fn reset(&mut self)
        ensures
            *final(self) == default_cell(),
    {
        *self = Cell::default();
    }
}

/// Cursor position in the terminal grid.
#[derive(Debug, Clone, Copy, PartialEq, Eq, Structural)]
pub struct Cursor {
    /// 0-indexed row.
    pub row: usize,
    /// 0-indexed column.
    pub col: usize,
}

impl Default for Cursor {
    fn default() -> (c: Self)
        ensures
            c == (Cursor { row: 0, col: 0 }),
    {
        Cursor { row: 0, col: 0 }
    }
}

impl Cursor {
    /// Create a new cursor at the given position.
    pub fn new(row: usize, col: usize) -> (c: Self)
        ensures
            c == (Cursor { row, col }),
    {
        Cursor { row, col }
    }

    /// Create a cursor at the origin (0, 0).
    pub fn origin() -> (c: Self)
        ensures
            c == (Cursor { row: 0, col: 0 }),
    {
        Cursor::default()
    }
}

/// Represents a dirty region in the grid that needs to be redrawn.
#[derive(Debug, Clone, Copy, PartialEq, Eq, Structural)]
pub struct DirtyRegion {
    /// Top row of dirty region (inclusive)
    pub top: usize,
    /// Bottom row of dirty region (inclusive)
    pub bottom: usize,
    /// Left column of dirty region (inclusive)
    pub left: usize,
    /// Right column of dirty region (inclusive)
    pub right: usize,
    /// Whether the entire screen is dirty
    pub full_screen: bool,
}

/// The region that marks the whole screen.
pub open spec fn full_screen_region() -> DirtyRegion {
    DirtyRegion { top: 0, bottom: 0, left: 0, right: 0, full_screen: true }
}

/// The region that marks nothing.
pub open spec fn clean_region() -> DirtyRegion {
    DirtyRegion { top: 1, bottom: 0, left: 0, right: 0, full_screen: false }
}

/// The smaller of two sizes.
pub open spec fn min_usize(a: usize, b: usize) -> usize {
    if a <= b { a } else { b }
}

/// The larger of two sizes.
pub open spec fn max_usize(a: usize, b: usize) -> usize {
    if a >= b { a } else { b }
}

/// `n - 1`, or 0 when `n` is 0.
pub open spec fn last_index(n: usize) -> usize {
    if n == 0 { 0 } else { (n - 1) as usize }
}

impl DirtyRegion {
    /// No cell is dirty.
    pub open spec fn spec_is_empty(self) -> bool {
        !self.full_screen && self.top > self.bottom
    }

    /// Whether the cell at (`row`, `col`) lies in the region.
    pub open spec fn covers(self, row: int, col: int) -> bool {
        self.full_screen || (self.top <= row <= self.bottom && self.left <= col <= self.right)
    }

    /// The region after merging `other` into it.
    pub open spec fn merged(self, other: DirtyRegion) -> DirtyRegion {
        if other.full_screen {
            full_screen_region()
        } else if self.full_screen {
            self
        } else if other.spec_is_empty() {
            self
        } else if self.spec_is_empty() {
            other
        } else {
            DirtyRegion {
                top: min_usize(self.top, other.top),
                bottom: max_usize(self.bottom, other.bottom),
                left: min_usize(self.left, other.left),
                right: max_usize(self.right, other.right),
                full_screen: false,
            }
        }
    }

    /// The region after adding the cell at (`row`, `col`).
    pub open spec fn with_cell(self, row: usize, col: usize) -> DirtyRegion {
        if self.full_screen {
            self
        } else if self.spec_is_empty() {
            DirtyRegion { top: row, bottom: row, left: col, right: col, full_screen: false }
        } else {
            DirtyRegion {
                top: min_usize(self.top, row),
                bottom: max_usize(self.bottom, row),
                left: min_usize(self.left, col),
                right: max_usize(self.right, col),
                full_screen: false,
            }
        }
    }

    /// Create a new dirty region for a single cell
    pub fn single_cell(row: usize, col: usize) -> (r: Self)
        ensures
            r == (DirtyRegion { top: row, bottom: row, left: col, right: col, full_screen: false }),
    {
        DirtyRegion { top: row, bottom: row, left: col, right: col, full_screen: false }
    }

    /// Create a dirty region for an entire row
    pub fn full_row(row: usize, cols: usize) -> (r: Self)
        ensures
            r == (DirtyRegion {
                top: row,
                bottom: row,
                left: 0,
                right: last_index(cols),
                full_screen: false,
            }),
    {
        DirtyRegion {
            top: row,
            bottom: row,
            left: 0,
            right: cols.saturating_sub(1),
            full_screen: false,
        }
    }

    /// Mark the entire screen as dirty
    pub fn full_screen() -> (r: Self)
        ensures
            r == full_screen_region(),
    {
        DirtyRegion { top: 0, bottom: 0, left: 0, right: 0, full_screen: true }
    }

    /// Check if the region is empty (no dirty cells)
    pub fn is_empty(&self) -> (b: bool)
        ensures
            b == self.spec_is_empty(),
    {
        !self.full_screen && self.top > self.bottom
    }

    /// Reset the dirty region to empty
    pub fn clear(&mut self)
        ensures
            *final(self) == clean_region(),
    {
        *self = DirtyRegion::default();
    }

    /// Expand this dirty region to include another region
    pub fn merge(&mut self, other: &DirtyRegion)
        ensures
            *final(self) == old(self).merged(*other),
    {
        if other.full_screen {
            *self = DirtyRegion::full_screen();
            return;
        }
        if self.full_screen {
            return;
        }
        if other.is_empty() {
            return;
        }
        if self.is_empty() {
            *self = *other;
            return;
        }
        self.top = if self.top <= other.top { self.top } else { other.top };
        self.bottom = if self.bottom >= other.bottom { self.bottom } else { other.bottom };
        self.left = if self.left <= other.left { self.left } else { other.left };
        self.right = if self.right >= other.right { self.right } else { other.right };
    }

    /// Expand this dirty region to include a cell
    pub fn include_cell(&mut self, row: usize, col: usize)
        ensures
            *final(self) == old(self).with_cell(row, col),
    {
        if self.full_screen {
            return;
        }
        if self.is_empty() {
            *self = DirtyRegion::single_cell(row, col);
            return;
        }
        self.top = if self.top <= row { self.top } else { row };
        self.bottom = if self.bottom >= row { self.bottom } else { row };
        self.left = if self.left <= col { self.left } else { col };
        self.right = if self.right >= col { self.right } else { col };
    }
}

impl Default for DirtyRegion {
    fn default() -> (r: Self)
        ensures
            r == clean_region(),
    {
        DirtyRegion { top: 1, bottom: 0, left: 0, right: 0, full_screen: false }
    }
}

/// Merging keeps every cell that either region marks: the merged region
/// covers every cell covered by `a` or by `b`.
pub proof fn lemma_merge_covers(a: DirtyRegion, b: DirtyRegion, row: int, col: int)
    requires
        a.covers(row, col) || b.covers(row, col),
    ensures
        a.merged(b).covers(row, col),
{
}

/// Including a cell marks that cell and keeps what was marked before.
pub proof fn lemma_include_cell_covers(a: DirtyRegion, row: usize, col: usize, r: int, c: int)
    ensures
        a.with_cell(row, col).covers(row as int, col as int),
        a.covers(r, c) && !a.spec_is_empty() ==> a.with_cell(row, col).covers(r, c),
{
}

/// The cell at (`r`, `c`) of a sequence of rows, if there is one.
pub open spec fn cell_at(rows: Seq<Seq<Cell>>, r: int, c: int) -> Option<Cell> {
    if 0 <= r < rows.len() && 0 <= c < rows[r].len() {
        Some(rows[r][c])
    } else {
        None
    }
}

/// A reference answer agrees with an optional cell.
pub open spec fn ref_matches(r: Option<&Cell>, s: Option<Cell>) -> bool {
    match r {
        Some(c) => s == Some(*c),
        None => s is None,
    }
}

/// The last `m` elements of `s` (all of `s` when it is shorter).
pub open spec fn keep_last<T>(s: Seq<T>, m: nat) -> Seq<T> {
    if s.len() <= m {
        s
    } else {
        s.skip(s.len() - m)
    }
}

/// Appending one element to a bounded history: drop the oldest element when
/// full, then push.
pub proof fn lemma_keep_last_push<T>(s: Seq<T>, m: nat, x: T)
    requires
        m > 0,
    ensures
        keep_last(s, m).len() <= m,
        keep_last(s.push(x), m) == (if keep_last(s, m).len() >= m {
            keep_last(s, m).drop_first().push(x)
        } else {
            keep_last(s, m).push(x)
        }),
{
    if keep_last(s, m).len() >= m {
        assert(keep_last(s.push(x), m) =~= keep_last(s, m).drop_first().push(x));
    } else {
        assert(keep_last(s.push(x), m) =~= keep_last(s, m).push(x));
    }
}

/// The abstract state of a [`TerminalGrid`].
pub struct GridModel {
    /// Visible rows, top to bottom.
    pub cells: Seq<Seq<Cell>>,
    /// Number of columns.
    pub cols: usize,
    /// Number of rows.
    pub rows: usize,
    /// Cursor position (not necessarily inside the grid).
    pub cursor: Cursor,
    /// Lines that scrolled off the top, oldest first.
    pub scrollback: Seq<Seq<Cell>>,
    /// Bound on the number of scrollback lines.
    pub max_scrollback: usize,
    /// Attributes for newly written characters.
    pub attributes: TextAttributes,
    /// Foreground color for newly written characters.
    pub fg: Color,
    /// Background color for newly written characters.
    pub bg: Color,
    /// Region that needs redrawing.
    pub dirty: DirtyRegion,
    /// Whether batch mode is on.
    pub batch: bool,
    /// Cell updates deferred by batch mode, in order.
    pub batch_buffer: Seq<(usize, usize, Cell)>,
    /// Dirty marks deferred by batch mode, merged into one region.
    pub batch_dirty: DirtyRegion,
    /// Lines scrolled back into history (0 = live view).
    pub scroll_offset: usize,
}

impl GridModel {
    /// The grid has `rows` rows of `cols` cells and its scrollback respects its bound.
    pub open spec fn well_formed(self) -> bool {
        &&& self.cells.len() == self.rows
        &&& forall|i: int| 0 <= i < self.rows ==> #[trigger] self.cells[i].len() == self.cols
        &&& self.scrollback.len() <= self.max_scrollback
    }

    /// A fresh grid of the given size.
    pub open spec fn fresh(cols: usize, rows: usize, max_scrollback: usize) -> GridModel {
        GridModel {
            cells: blank_rows(rows as nat, cols as nat),
            cols,
            rows,
            cursor: Cursor { row: 0, col: 0 },
            scrollback: Seq::empty(),
            max_scrollback,
            attributes: plain_attributes(),
            fg: Color::Default,
            bg: Color::Default,
            dirty: full_screen_region(),
            batch: false,
            batch_buffer: Seq::empty(),
            batch_dirty: clean_region(),
            scroll_offset: 0,
        }
    }

    /// The cell that `put_char` writes for `c`.
    pub open spec fn pen_cell(self, c: char) -> Cell {
        Cell { char: c, fg_color: self.fg, bg_color: self.bg, attributes: self.attributes }
    }

    /// The rows with the cell at (`row`, `col`) replaced.
    pub open spec fn cells_with(self, row: int, col: int, cell: Cell) -> Seq<Seq<Cell>> {
        self.cells.update(row, self.cells[row].update(col, cell))
    }

    /// Effect of writing `cell` at (`row`, `col`): buffered in batch mode,
    /// otherwise written (when in bounds) and marked dirty.
    pub open spec fn cell_update(self, row: usize, col: usize, cell: Cell) -> GridModel {
        if self.batch {
            GridModel { batch_buffer: self.batch_buffer.push((row, col, cell)), ..self }
        } else if row < self.rows && col < self.cols {
            GridModel {
                cells: self.cells_with(row as int, col as int, cell),
                dirty: self.dirty.with_cell(row, col),
                ..self
            }
        } else {
            self
        }
    }

    /// Effect of marking a rectangle dirty (deferred in batch mode).
    pub open spec fn region_marked(
        self,
        top: usize,
        bottom: usize,
        left: usize,
        right: usize,
    ) -> GridModel {
        let region = DirtyRegion { top, bottom, left, right, full_screen: false };
        if self.batch {
            GridModel { batch_dirty: self.batch_dirty.merged(region), ..self }
        } else {
            GridModel { dirty: self.dirty.merged(region), ..self }
        }
    }

    /// How many lines a scroll of `n` moves: `n`, capped at the height.
    pub open spec fn scroll_amount(self, n: usize) -> nat {
        if n <= self.rows { n as nat } else { self.rows as nat }
    }

    /// Scrollback after `lines` are appended, keeping only the newest
    /// `max_scrollback` lines.
    pub open spec fn scrollback_after(self, lines: Seq<Seq<Cell>>) -> Seq<Seq<Cell>> {
        keep_last(self.scrollback + lines, self.max_scrollback as nat)
    }

    /// Effect of `scroll_up(n)`: the top lines move to the scrollback, blank
    /// lines enter at the bottom, the view returns to the live screen.
    pub open spec fn scrolled_up(self, n: usize) -> GridModel {
        if n == 0 || self.rows == 0 {
            self
        } else {
            let k = self.scroll_amount(n) as int;
            GridModel {
                cells: self.cells.skip(k) + blank_rows(k as nat, self.cols as nat),
                scrollback: self.scrollback_after(self.cells.take(k)),
                scroll_offset: 0,
                dirty: full_screen_region(),
                ..self
            }
        }
    }
}

impl GridModel {
    /// The cursor after wrapping past the last column (scrolling when at the
    /// bottom), as `put_char` does before writing.
    pub open spec fn wrapped_for_put(self) -> GridModel {
        if self.cursor.col >= self.cols {
            if self.cursor.row + 1 >= self.rows {
                GridModel {
                    cursor: Cursor { row: (self.rows - 1) as usize, col: 0 },
                    ..self.scrolled_up(1)
                }
            } else {
                GridModel { cursor: Cursor { row: (self.cursor.row + 1) as usize, col: 0 }, ..self }
            }
        } else {
            self
        }
    }

    /// `put_char` can proceed without overflow or an impossible scroll.
    pub open spec fn can_put_char(self) -> bool {
        self.cursor.col >= self.cols ==> {
            &&& self.cursor.row < usize::MAX
            &&& self.cursor.row + 1 >= self.rows ==> self.rows > 0 && self.max_scrollback > 0
        }
    }

    /// Effect of `put_char(c)`: wrap if pending, write the pen cell under the
    /// cursor, advance the cursor one column.
    pub open spec fn after_put_char(self, c: char) -> GridModel {
        let m1 = self.wrapped_for_put();
        let m2 = if m1.cursor.row < m1.rows && m1.cursor.col < m1.cols {
            m1.cell_update(m1.cursor.row, m1.cursor.col, self.pen_cell(c))
        } else {
            m1
        };
        GridModel { cursor: Cursor { row: m2.cursor.row, col: (m2.cursor.col + 1) as usize }, ..m2 }
    }

    /// Effect of `move_cursor_relative`: each coordinate moved by its delta,
    /// stopping at 0 below and at the last row or column above.
    pub open spec fn moved_relative(self, row_delta: isize, col_delta: isize) -> GridModel {
        let c = self.cursor;
        let row = if row_delta < 0 {
            if c.row + row_delta >= 0 { c.row + row_delta } else { 0 }
        } else {
            min_usize((c.row + row_delta) as usize, last_index(self.rows)) as int
        };
        let col = if col_delta < 0 {
            if c.col + col_delta >= 0 { c.col + col_delta } else { 0 }
        } else {
            min_usize((c.col + col_delta) as usize, last_index(self.cols)) as int
        };
        GridModel { cursor: Cursor { row: row as usize, col: col as usize }, ..self }
    }

    /// Effect of `back_tab`: the previous tab stop (a multiple of 8).
    pub open spec fn back_tabbed(self) -> GridModel {
        let prev = if self.cursor.col > 0 { self.cursor.col - 1 } else { 0 };
        GridModel { cursor: Cursor { row: self.cursor.row, col: ((prev / 8) * 8) as usize }, ..self }
    }

    /// The screen is not empty and the cursor is on it: on a row of the
    /// screen, at most one column past the last (a wrap pending after a
    /// write in the last column).
    pub open spec fn cursor_in_bounds(self) -> bool {
        &&& self.rows > 0
        &&& self.cols > 0
        &&& self.cursor.row < self.rows
        &&& self.cursor.col <= self.cols
    }

    /// Effect of `move_cursor`: the position clamped into the grid.
    pub open spec fn cursor_moved(self, row: usize, col: usize) -> GridModel {
        GridModel {
            cursor: Cursor {
                row: min_usize(row, last_index(self.rows)),
                col: min_usize(col, last_index(self.cols)),
            },
            ..self
        }
    }

    /// The cell shown at (`row`, `col`) when the view is scrolled back.
    pub open spec fn cell_with_scroll(self, row: int, col: int) -> Option<Cell> {
        if col >= self.cols {
            None
        } else if self.scroll_offset == 0 {
            cell_at(self.cells, row, col)
        } else {
            let sb = self.scrollback.len() as int;
            let shown = if self.scroll_offset <= sb { self.scroll_offset as int } else { sb };
            if row < shown {
                cell_at(self.scrollback, sb - shown + row, col)
            } else {
                cell_at(self.cells, row - shown, col)
            }
        }
    }
}

/// `row` with the cells in columns `from..to` reset to default.
pub open spec fn row_reset_range(row: Seq<Cell>, from: int, to: int) -> Seq<Cell> {
    Seq::new(row.len(), |j: int| if from <= j < to { default_cell() } else { row[j] })
}

/// `row` cut or padded with default cells to `n` cells.
pub open spec fn row_resized(row: Seq<Cell>, n: nat) -> Seq<Cell> {
    Seq::new(n, |j: int| if j < row.len() { row[j] } else { default_cell() })
}

/// The characters of a row.
pub open spec fn row_chars(row: Seq<Cell>) -> Seq<char> {
    row.map_values(|c: Cell| c.char)
}

/// The rows' characters, joined by newlines.
pub open spec fn rows_text(rows: Seq<Seq<Cell>>) -> Seq<char>
    decreases rows.len(),
{
    if rows.len() == 0 {
        Seq::empty()
    } else if rows.len() == 1 {
        row_chars(rows[0])
    } else {
        rows_text(rows.drop_last()) + seq!['\n'] + row_chars(rows.last())
    }
}

impl GridModel {
    /// Effect of `clear_to_end_of_line`.
    pub open spec fn after_clear_to_end_of_line(self) -> GridModel {
        let r = self.cursor.row;
        if r < self.rows {
            GridModel {
                cells: self.cells.update(
                    r as int,
                    row_reset_range(self.cells[r as int], self.cursor.col as int, self.cols as int),
                ),
                ..self
            }.region_marked(r, r, self.cursor.col, (self.cols - 1) as usize)
        } else {
            self
        }
    }

    /// Effect of `clear_to_start_of_line`.
    pub open spec fn after_clear_to_start_of_line(self) -> GridModel {
        let r = self.cursor.row;
        if r < self.rows {
            GridModel {
                cells: self.cells.update(
                    r as int,
                    row_reset_range(self.cells[r as int], 0, self.cursor.col + 1),
                ),
                ..self
            }.region_marked(r, r, 0, self.cursor.col)
        } else {
            self
        }
    }

    /// Effect of `clear_line`.
    pub open spec fn after_clear_line(self) -> GridModel {
        let r = self.cursor.row;
        if r < self.rows {
            GridModel {
                cells: self.cells.update(r as int, blank_cells(self.cols as nat)),
                ..self
            }.region_marked(r, r, 0, (self.cols - 1) as usize)
        } else {
            self
        }
    }

    /// Effect of `clear_to_end_of_screen`.
    pub open spec fn after_clear_to_end_of_screen(self) -> GridModel {
        let m1 = self.after_clear_to_end_of_line();
        GridModel {
            cells: Seq::new(
                self.rows as nat,
                |i: int| if i > self.cursor.row { blank_cells(self.cols as nat) } else { m1.cells[i] },
            ),
            ..m1
        }.region_marked(self.cursor.row, (self.rows - 1) as usize, 0, (self.cols - 1) as usize)
    }

    /// Effect of `clear_to_start_of_screen`.
    pub open spec fn after_clear_to_start_of_screen(self) -> GridModel {
        let m1 = GridModel {
            cells: Seq::new(
                self.rows as nat,
                |i: int| if i < self.cursor.row { blank_cells(self.cols as nat) } else { self.cells[i] },
            ),
            ..self
        };
        m1.after_clear_to_start_of_line().region_marked(0, self.cursor.row, 0, self.cursor.col)
    }

    /// Effect of `clear_screen_keep_scrollback`.
    pub open spec fn after_clear_screen_keep_scrollback(self) -> GridModel {
        GridModel {
            cells: blank_rows(self.rows as nat, self.cols as nat),
            dirty: full_screen_region(),
            ..self
        }
    }

    /// Effect of `clear_screen`: blank screen, empty scrollback.
    pub open spec fn after_clear_screen(self) -> GridModel {
        GridModel { scrollback: Seq::empty(), ..self.after_clear_screen_keep_scrollback() }
    }

    /// Effect of `scroll_down(n)`.
    pub open spec fn scrolled_down(self, n: usize) -> GridModel {
        if n == 0 || self.rows == 0 {
            self
        } else {
            let k = self.scroll_amount(n) as int;
            GridModel {
                cells: blank_rows(k as nat, self.cols as nat) + self.cells.take(self.rows - k),
                cursor: Cursor {
                    row: min_usize((self.cursor.row + k) as usize, (self.rows - 1) as usize),
                    col: self.cursor.col,
                },
                dirty: full_screen_region(),
                ..self
            }
        }
    }

    /// A region scroll of `n` lines over rows `top..=bottom` takes effect.
    pub open spec fn region_scroll_applies(self, n: usize, top: usize, bottom: usize) -> bool {
        n != 0 && self.rows != 0 && top < bottom && bottom < self.rows
    }

    /// Lines a region scroll moves: `n`, capped at the region height.
    pub open spec fn region_amount(n: usize, top: usize, bottom: usize) -> int {
        if n <= bottom - top + 1 { n as int } else { bottom - top + 1 }
    }

    /// Effect of `scroll_up_in_region`.
    pub open spec fn region_scrolled_up(self, n: usize, top: usize, bottom: usize) -> GridModel {
        if self.region_scroll_applies(n, top, bottom) {
            let k = GridModel::region_amount(n, top, bottom);
            GridModel {
                cells: self.cells.take(top as int) + self.cells.subrange(top + k, bottom + 1)
                    + blank_rows(k as nat, self.cols as nat) + self.cells.skip(bottom + 1),
                ..self
            }.region_marked(top, bottom, 0, (self.cols - 1) as usize)
        } else {
            self
        }
    }

    /// Effect of `scroll_down_in_region`.
    pub open spec fn region_scrolled_down(self, n: usize, top: usize, bottom: usize) -> GridModel {
        if self.region_scroll_applies(n, top, bottom) {
            let k = GridModel::region_amount(n, top, bottom);
            GridModel {
                cells: self.cells.take(top as int) + blank_rows(k as nat, self.cols as nat)
                    + self.cells.subrange(top as int, bottom + 1 - k) + self.cells.skip(bottom + 1),
                ..self
            }.region_marked(top, bottom, 0, (self.cols - 1) as usize)
        } else {
            self
        }
    }

    /// Effect of `linefeed_in_region`.
    pub open spec fn after_linefeed_in_region(self, top: usize, bottom: usize) -> GridModel {
        if self.cursor.row == bottom {
            self.region_scrolled_up(1, top, bottom)
        } else if self.cursor.row < self.rows - 1 {
            GridModel {
                cursor: Cursor { row: (self.cursor.row + 1) as usize, col: self.cursor.col },
                ..self
            }
        } else {
            self
        }
    }

    /// Effect of `linefeed`.
    pub open spec fn after_linefeed(self) -> GridModel {
        if self.cursor.row < self.rows - 1 {
            GridModel {
                cursor: Cursor { row: (self.cursor.row + 1) as usize, col: self.cursor.col },
                ..self
            }
        } else {
            self.scrolled_up(1)
        }
    }

    /// Effect of `insert_lines(n)`.
    pub open spec fn lines_inserted(self, n: usize) -> GridModel {
        let r = self.cursor.row as int;
        if r >= self.rows {
            self
        } else {
            let c = if n <= self.rows - r { n as int } else { self.rows - r };
            GridModel {
                cells: self.cells.take(r) + blank_rows(c as nat, self.cols as nat)
                    + self.cells.subrange(r, self.rows - c),
                ..self
            }
        }
    }

    /// Effect of `delete_lines(n)`.
    pub open spec fn lines_deleted(self, n: usize) -> GridModel {
        let r = self.cursor.row as int;
        if r >= self.rows {
            self
        } else {
            let c = if n <= self.rows - r { n as int } else { self.rows - r };
            GridModel {
                cells: self.cells.take(r) + self.cells.skip(r + c) + blank_rows(
                    c as nat,
                    self.cols as nat,
                ),
                ..self
            }
        }
    }

    /// Effect of `resize`: rows cut or padded, cursor clamped.
    pub open spec fn resized(self, new_cols: usize, new_rows: usize) -> GridModel {
        GridModel {
            cells: Seq::new(
                new_rows as nat,
                |i: int|
                    if i < self.rows {
                        row_resized(self.cells[i], new_cols as nat)
                    } else {
                        blank_cells(new_cols as nat)
                    },
            ),
            cols: new_cols,
            rows: new_rows,
            cursor: Cursor {
                row: min_usize(self.cursor.row, last_index(new_rows)),
                col: min_usize(self.cursor.col, last_index(new_cols)),
            },
            ..self
        }
    }
}

impl GridModel {
    /// Leaving batch mode: the deferred marks join the dirty region and the
    /// buffers empty (the buffered updates are then applied by [`apply_batch`]).
    pub open spec fn batch_flushed(self) -> GridModel {
        GridModel {
            batch: false,
            batch_buffer: Seq::empty(),
            batch_dirty: clean_region(),
            dirty: self.dirty.merged(self.batch_dirty),
            ..self
        }
    }
}

/// The state after applying buffered cell updates in order.
pub open spec fn apply_batch(m: GridModel, buf: Seq<(usize, usize, Cell)>) -> GridModel
    decreases buf.len(),
{
    if buf.len() == 0 {
        m
    } else {
        let prev = apply_batch(m, buf.drop_last());
        let (r, c, cell) = buf.last();
        if r < prev.rows && c < prev.cols {
            GridModel {
                cells: prev.cells_with(r as int, c as int, cell),
                dirty: prev.dirty.with_cell(r, c),
                ..prev
            }
        } else {
            prev
        }
    }
}

/// Terminal screen buffer with scrollback history.
///
/// This struct manages a 2D grid of cells representing the visible terminal
/// content, plus an optional scrollback buffer for history.
#[derive(Debug, Clone)]
pub struct TerminalGrid {
    /// The visible grid of cells (rows × cols).
    grid: Vec<Vec<Cell>>,
    /// Number of columns (width).
    cols: usize,
    /// Number of rows (height).
    rows: usize,
    /// Current cursor position.
    cursor: Cursor,
    /// Scrollback buffer (lines that have scrolled off the top).
    scrollback: Vec<Vec<Cell>>,
    /// Maximum number of scrollback lines to keep.
    max_scrollback: usize,
    /// Current text attributes for new characters.
    attributes: TextAttributes,
    /// Current foreground color.
    fg_color: Color,
    /// Current background color.
    bg_color: Color,
    /// Dirty region tracking for efficient rendering
    dirty_region: DirtyRegion,
    /// Whether batch updates are currently enabled
    batch_updates: bool,
    /// Pending cell updates during batch mode
    batch_buffer: Vec<(usize, usize, Cell)>,
    /// Dirty marks deferred during batch mode
    batch_dirty: DirtyRegion,
    /// Scroll offset for navigating scrollback (0 = bottom/normal view)
    scroll_offset: usize,
}

/// The views of a vector of rows.
pub open spec fn rows_view(v: Seq<Vec<Cell>>) -> Seq<Seq<Cell>> {
    v.map_values(|r: Vec<Cell>| r@)
}

impl View for TerminalGrid {
    type V = GridModel;

    closed spec fn view(&self) -> GridModel {
        GridModel {
            cells: rows_view(self.grid@),
            cols: self.cols,
            rows: self.rows,
            cursor: self.cursor,
            scrollback: rows_view(self.scrollback@),
            max_scrollback: self.max_scrollback,
            attributes: self.attributes,
            fg: self.fg_color,
            bg: self.bg_color,
            dirty: self.dirty_region,
            batch: self.batch_updates,
            batch_buffer: self.batch_buffer@,
            batch_dirty: self.batch_dirty,
            scroll_offset: self.scroll_offset,
        }
    }
}

impl Default for TerminalGrid {
    fn default() -> (g: Self)
        ensures
            g.wf(),
            g@ == GridModel::fresh(80, 24, 10000),
    {
        Self::new()
    }
}

/// Pushing a row pushes its view.
pub proof fn lemma_rows_view_push(v: Seq<Vec<Cell>>, r: Vec<Cell>)
    ensures
        rows_view(v.push(r)) == rows_view(v).push(r@),
{
    assert(rows_view(v.push(r)) =~= rows_view(v).push(r@));
}

/// Views of a subrange are the subrange of the views.
pub proof fn lemma_rows_view_subrange(v: Seq<Vec<Cell>>, a: int, b: int)
    requires
        0 <= a <= b <= v.len(),
    ensures
        rows_view(v.subrange(a, b)) == rows_view(v).subrange(a, b),
{
    assert(rows_view(v.subrange(a, b)) =~= rows_view(v).subrange(a, b));
}

/// The characters of a row of cells, as a string.
fn row_string(row: &Vec<Cell>) -> (s: String)
    ensures
        s@ == row_chars(row@),
{
    let mut s = String::new();
    let mut j: usize = 0;
    while j < row.len()
        invariant
            j <= row.len(),
            s@ == row_chars(row@.take(j as int)),
        decreases row.len() - j,
    {
        push_char(&mut s, row[j].char);
        proof {
            assert(row_chars(row@.take(j as int + 1)) =~= row_chars(row@.take(j as int)).push(
                row@[j as int].char,
            ));
        }
        j = j + 1;
    }
    proof {
        assert(row@.take(row.len() as int) =~= row@);
    }
    s
}

/// A vector of `cols` default cells.
fn blank_row(cols: usize) -> (r: Vec<Cell>)
    ensures
        r@ == blank_cells(cols as nat),
{
    let mut r: Vec<Cell> = Vec::new();
    let mut i: usize = 0;
    while i < cols
        invariant
            i <= cols,
            r@ == blank_cells(i as nat),
        decreases cols - i,
    {
        r.push(Cell::default());
        proof {
            assert(r@ =~= blank_cells(i as nat + 1));
        }
        i = i + 1;
    }
    r
}

/// `rows` vectors of `cols` default cells.
fn blank_grid(cols: usize, rows: usize) -> (g: Vec<Vec<Cell>>)
    ensures
        rows_view(g@) == blank_rows(rows as nat, cols as nat),
{
    let mut g: Vec<Vec<Cell>> = Vec::new();
    let mut i: usize = 0;
    while i < rows
        invariant
            i <= rows,
            rows_view(g@) == blank_rows(i as nat, cols as nat),
        decreases rows - i,
    {
        let r = blank_row(cols);
        let ghost old_g = g@;
        g.push(r);
        proof {
            lemma_rows_view_push(old_g, r);
            assert(rows_view(g@) =~= blank_rows(i as nat + 1, cols as nat));
        }
        i = i + 1;
    }
    g
}

impl TerminalGrid {
    /// The grid's dimensions and scrollback bound hold.
    pub open spec fn wf(&self) -> bool {
        self@.well_formed()
    }

    /// Create a new terminal grid with default dimensions (80×24).
    pub fn new() -> (g: Self)
        ensures
            g.wf(),
            g@ == GridModel::fresh(80, 24, 10000),
    {
        Self::with_size(80, 24)
    }

    /// Create a new terminal grid with specified dimensions.
    pub fn with_size(cols: usize, rows: usize) -> (g: Self)
        ensures
            g.wf(),
            g@ == GridModel::fresh(cols, rows, 10000),
    {
        Self::with_scrollback(cols, rows, 10000)
    }

    /// Create a terminal grid with custom scrollback size.
    pub fn with_scrollback(cols: usize, rows: usize, max_scrollback: usize) -> (g: Self)
        ensures
            g.wf(),
            g@ == GridModel::fresh(cols, rows, max_scrollback),
    {
        let g = TerminalGrid {
            grid: blank_grid(cols, rows),
            cols,
            rows,
            cursor: Cursor::default(),
            scrollback: Vec::new(),
            max_scrollback,
            attributes: TextAttributes::default(),
            fg_color: Color::Default,
            bg_color: Color::Default,
            dirty_region: DirtyRegion::full_screen(),
            batch_updates: false,
            batch_buffer: Vec::new(),
            batch_dirty: DirtyRegion::default(),
            scroll_offset: 0,
        };
        proof {
            assert(rows_view(g.scrollback@) =~= Seq::<Seq<Cell>>::empty());
        }
        g
    }

    /// Get the number of columns.
    pub fn cols(&self) -> (c: usize)
        ensures
            c == self@.cols,
    {
        self.cols
    }

    /// Get the number of rows.
    pub fn rows(&self) -> (r: usize)
        ensures
            r == self@.rows,
    {
        self.rows
    }

    /// Get the current cursor position.
    pub fn cursor(&self) -> (c: Cursor)
        ensures
            c == self@.cursor,
    {
        self.cursor
    }

    /// Get the number of scrollback lines.
    pub fn scrollback_len(&self) -> (n: usize)
        ensures
            n == self@.scrollback.len(),
    {
        self.scrollback.len()
    }

    /// Get a row from the scrollback buffer by index.
    pub fn get_scrollback_row(&self, index: usize) -> (r: Option<&Vec<Cell>>)
        ensures
            index < self@.scrollback.len() <==> r is Some,
            r matches Some(v) ==> v@ == self@.scrollback[index as int],
    {
        if index < self.scrollback.len() {
            Some(&self.scrollback[index])
        } else {
            None
        }
    }

    /// Get the current scroll offset.
    pub fn scroll_offset(&self) -> (o: usize)
        ensures
            o == self@.scroll_offset,
    {
        self.scroll_offset
    }

    /// Check if we're at the bottom (not scrolled).
    pub fn is_at_bottom(&self) -> (b: bool)
        ensures
            b == (self@.scroll_offset == 0),
    {
        self.scroll_offset == 0
    }

    /// Set the current text attributes.
    pub fn set_attributes(&mut self, attributes: TextAttributes)
        ensures
            final(self)@ == (GridModel { attributes, ..old(self)@ }),
            old(self)@.cursor_in_bounds() ==> final(self)@.cursor_in_bounds(),
    {
        self.attributes = attributes;
    }

    /// Get the current text attributes.
    pub fn attributes(&self) -> (a: TextAttributes)
        ensures
            a == self@.attributes,
    {
        self.attributes
    }

    /// Set the current foreground color.
    pub fn set_foreground(&mut self, color: Color)
        ensures
            final(self)@ == (GridModel { fg: color, ..old(self)@ }),
            old(self)@.cursor_in_bounds() ==> final(self)@.cursor_in_bounds(),
    {
        self.fg_color = color;
    }

    /// Set the current background color.
    pub fn set_background(&mut self, color: Color)
        ensures
            final(self)@ == (GridModel { bg: color, ..old(self)@ }),
            old(self)@.cursor_in_bounds() ==> final(self)@.cursor_in_bounds(),
    {
        self.bg_color = color;
    }

    /// Replace one cell of the visible grid.
    fn set_cell(&mut self, row: usize, col: usize, cell: Cell)
        requires
            old(self).wf(),
            row < old(self)@.rows,
            col < old(self)@.cols,
        ensures
            final(self).wf(),
            final(self)@ == (GridModel {
                cells: old(self)@.cells_with(row as int, col as int, cell),
                ..old(self)@
            }),
    {
        let ghost old_grid = self.grid@;
        proof {
            assert(rows_view(old_grid)[row as int].len() == self.cols);
        }
        let mut r: Vec<Cell> = Vec::new();
        self.grid.set_and_swap(row, &mut r);
        r.set(col, cell);
        self.grid.set_and_swap(row, &mut r);
        proof {
            assert(rows_view(self.grid@) =~= rows_view(old_grid).update(
                row as int,
                rows_view(old_grid)[row as int].update(col as int, cell),
            ));
        }
    }

    /// Mark the entire screen as dirty.
    pub fn mark_full_dirty(&mut self)
        ensures
            final(self)@ == (GridModel { dirty: full_screen_region(), ..old(self)@ }),
            old(self)@.cursor_in_bounds() ==> final(self)@.cursor_in_bounds(),
    {
        self.dirty_region = DirtyRegion::full_screen();
    }

    /// Mark a region as dirty (deferred while in batch mode).
    fn mark_region_dirty(&mut self, top: usize, bottom: usize, left: usize, right: usize)
        ensures
            final(self)@ == old(self)@.region_marked(top, bottom, left, right),
    {
        let region = DirtyRegion { top, bottom, left, right, full_screen: false };
        if self.batch_updates {
            self.batch_dirty.merge(&region);
        } else {
            self.dirty_region.merge(&region);
        }
    }

    /// Internal method to apply a cell update (respects batch mode)
    fn apply_cell_update(&mut self, row: usize, col: usize, cell: Cell)
        requires
            old(self).wf(),
        ensures
            final(self).wf(),
            final(self)@ == old(self)@.cell_update(row, col, cell),
    {
        if self.batch_updates {
            self.batch_buffer.push((row, col, cell));
        } else {
            if row < self.rows && col < self.cols {
                self.set_cell(row, col, cell);
                self.mark_cell_dirty(row, col);
            }
        }
    }

    /// Mark a specific cell as dirty (deferred in batch mode).
    fn mark_cell_dirty(&mut self, row: usize, col: usize)
        ensures
            final(self)@ == if old(self)@.batch {
                GridModel { batch_dirty: old(self)@.batch_dirty.with_cell(row, col), ..old(self)@ }
            } else {
                GridModel { dirty: old(self)@.dirty.with_cell(row, col), ..old(self)@ }
            },
    {
        if self.batch_updates {
            self.batch_dirty.include_cell(row, col);
        } else {
            self.dirty_region.include_cell(row, col);
        }
    }

    /// Scroll the screen up by n lines.
    ///
    /// Lines that scroll off the top are moved to the scrollback buffer.
    /// Note: This does NOT adjust the cursor position - callers must do that if needed.
    pub fn scroll_up(&mut self, n: usize)
        requires
            old(self).wf(),
            n == 0 || old(self)@.rows == 0 || old(self)@.max_scrollback > 0,
        ensures
            final(self).wf(),
            final(self)@ == old(self)@.scrolled_up(n),
            old(self)@.cursor_in_bounds() ==> final(self)@.cursor_in_bounds(),
    {
        if n == 0 || self.rows == 0 {
            return;
        }
        let scroll_amount = if n <= self.rows { n } else { self.rows };
        let ghost m0 = self@;
        let mut i: usize = 0;
        while i < scroll_amount
            invariant
                m0.well_formed(),
                m0.max_scrollback > 0,
                scroll_amount <= m0.rows,
                i <= scroll_amount,
                self.rows == m0.rows,
                self.cols == m0.cols,
                self.max_scrollback == m0.max_scrollback,
                rows_view(self.grid@) == m0.cells.skip(i as int),
                rows_view(self.scrollback@) == keep_last(
                    m0.scrollback + m0.cells.take(i as int),
                    m0.max_scrollback as nat,
                ),
                self@ == (GridModel {
                    cells: self@.cells,
                    scrollback: self@.scrollback,
                    ..m0
                }),
            decreases scroll_amount - i,
        {
            let ghost sb0 = self.scrollback@;
            let ghost g0 = self.grid@;
            proof {
                lemma_keep_last_push(
                    m0.scrollback + m0.cells.take(i as int),
                    m0.max_scrollback as nat,
                    m0.cells[i as int],
                );
                assert(m0.scrollback + m0.cells.take(i as int + 1) =~= (m0.scrollback
                    + m0.cells.take(i as int)).push(m0.cells[i as int]));
                assert(rows_view(g0).len() == g0.len());
                assert(m0.cells.skip(i as int).len() == m0.rows - i);
                assert(rows_view(g0)[0] == m0.cells[i as int]);
            }
            if self.scrollback.len() >= self.max_scrollback {
                self.scrollback.remove(0);
                proof {
                    lemma_rows_view_subrange(sb0, 1, sb0.len() as int);
                    assert(rows_view(sb0).subrange(1, sb0.len() as int) =~= rows_view(sb0).drop_first());
                }
            }
            let ghost sb1 = self.scrollback@;
            let row = self.grid.remove(0);
            self.scrollback.push(row);
            proof {
                lemma_rows_view_push(sb1, row);
                lemma_rows_view_subrange(g0, 1, g0.len() as int);
                assert(m0.cells.skip(i as int + 1) =~= m0.cells.skip(i as int).subrange(1, m0.cells.skip(i as int).len() as int));
            }
            i = i + 1;
        }
        let mut j: usize = 0;
        while j < scroll_amount
            invariant
                m0.well_formed(),
                scroll_amount <= m0.rows,
                j <= scroll_amount,
                self.rows == m0.rows,
                self.cols == m0.cols,
                rows_view(self.grid@) == m0.cells.skip(scroll_amount as int) + blank_rows(j as nat, m0.cols as nat),
                rows_view(self.scrollback@) == keep_last(
                    m0.scrollback + m0.cells.take(scroll_amount as int),
                    m0.max_scrollback as nat,
                ),
                self@ == (GridModel {
                    cells: self@.cells,
                    scrollback: self@.scrollback,
                    ..m0
                }),
            decreases scroll_amount - j,
        {
            let ghost g0 = self.grid@;
            let r = blank_row(self.cols);
            self.grid.push(r);
            proof {
                lemma_rows_view_push(g0, r);
                assert(m0.cells.skip(scroll_amount as int) + blank_rows(j as nat + 1, m0.cols as nat) =~= (m0.cells.skip(scroll_amount as int) + blank_rows(j as nat, m0.cols as nat)).push(blank_cells(m0.cols as nat)));
            }
            j = j + 1;
        }
        self.scroll_offset = 0;
        self.mark_full_dirty();
        proof {
            let m1 = self@;
            assert(m1.cells.len() == m1.rows);
            assert forall|k: int| 0 <= k < m1.rows implies #[trigger] m1.cells[k].len() == m1.cols by {
                if k < m0.rows - scroll_amount {
                    assert(m1.cells[k] == m0.cells[k + scroll_amount]);
                } else {
                    assert(m1.cells[k] == blank_cells(m0.cols as nat));
                }
            }
        }
    }

    /// Scroll up in history (towards older content).
    ///
    /// Returns true if the scroll position changed.
    pub fn scroll_up_history(&mut self, lines: usize) -> (changed: bool)
        requires
            old(self)@.scroll_offset + lines <= usize::MAX,
        ensures
            ({
                let sb = old(self)@.scrollback.len();
                let wanted = old(self)@.scroll_offset + lines;
                let target = if wanted <= sb { wanted } else { sb as int };
                &&& changed == (target != old(self)@.scroll_offset)
                &&& final(self)@ == if changed {
                    GridModel {
                        scroll_offset: target as usize,
                        dirty: full_screen_region(),
                        ..old(self)@
                    }
                } else {
                    old(self)@
                }
            }),
            old(self)@.cursor_in_bounds() ==> final(self)@.cursor_in_bounds(),
    {
        let max_offset = self.scrollback.len();
        let wanted = self.scroll_offset + lines;
        let new_offset = if wanted <= max_offset { wanted } else { max_offset };
        if new_offset != self.scroll_offset {
            self.scroll_offset = new_offset;
            self.dirty_region = DirtyRegion::full_screen();
            true
        } else {
            false
        }
    }

    /// Scroll down in history (towards newer content).
    ///
    /// Returns true if the scroll position changed.
    pub fn scroll_down_history(&mut self, lines: usize) -> (changed: bool)
        ensures
            ({
                let target = if lines <= old(self)@.scroll_offset {
                    (old(self)@.scroll_offset - lines) as usize
                } else {
                    0usize
                };
                &&& changed == (target != old(self)@.scroll_offset)
                &&& final(self)@ == if changed {
                    GridModel { scroll_offset: target, dirty: full_screen_region(), ..old(self)@ }
                } else {
                    old(self)@
                }
            }),
            old(self)@.cursor_in_bounds() ==> final(self)@.cursor_in_bounds(),
    {
        let new_offset = self.scroll_offset.saturating_sub(lines);
        if new_offset != self.scroll_offset {
            self.scroll_offset = new_offset;
            self.dirty_region = DirtyRegion::full_screen();
            true
        } else {
            false
        }
    }

    /// Scroll to the bottom (reset scroll offset).
    pub fn scroll_to_bottom(&mut self)
        ensures
            final(self)@ == if old(self)@.scroll_offset > 0 {
                GridModel { scroll_offset: 0, dirty: full_screen_region(), ..old(self)@ }
            } else {
                old(self)@
            },
            old(self)@.cursor_in_bounds() ==> final(self)@.cursor_in_bounds(),
    {
        if self.scroll_offset > 0 {
            self.scroll_offset = 0;
            self.dirty_region = DirtyRegion::full_screen();
        }
    }

    /// Scroll to the top of scrollback.
    pub fn scroll_to_top(&mut self)
        ensures
            final(self)@ == if old(self)@.scroll_offset != old(self)@.scrollback.len() {
                GridModel {
                    scroll_offset: old(self)@.scrollback.len() as usize,
                    dirty: full_screen_region(),
                    ..old(self)@
                }
            } else {
                old(self)@
            },
            old(self)@.cursor_in_bounds() ==> final(self)@.cursor_in_bounds(),
    {
        let max_offset = self.scrollback.len();
        if self.scroll_offset != max_offset {
            self.scroll_offset = max_offset;
            self.dirty_region = DirtyRegion::full_screen();
        }
    }

    /// Get a cell from the visible area, considering scroll offset.
    ///
    /// When scrolled, this returns cells from the scrollback buffer for
    /// the upper portion of the screen.
    pub fn get_cell_with_scroll(&self, row: usize, col: usize) -> (c: Option<&Cell>)
        requires
            self.wf(),
        ensures
            ref_matches(c, self@.cell_with_scroll(row as int, col as int)),
    {
        if col >= self.cols {
            return None;
        }
        if self.scroll_offset == 0 {
            if row < self.grid.len() {
                proof {
                    assert(rows_view(self.grid@)[row as int] == self.grid@[row as int]@);
                }
                if col < self.grid[row].len() {
                    return Some(&self.grid[row][col]);
                }
            }
            None
        } else {
            let scrollback_len = self.scrollback.len();
            let scrolled_rows = if self.scroll_offset <= scrollback_len {
                self.scroll_offset
            } else {
                scrollback_len
            };
            if row < scrolled_rows {
                let idx = scrollback_len - scrolled_rows + row;
                proof {
                    assert(rows_view(self.scrollback@)[idx as int] == self.scrollback@[idx as int]@);
                }
                if col < self.scrollback[idx].len() {
                    Some(&self.scrollback[idx][col])
                } else {
                    None
                }
            } else {
                let grid_row = row - scrolled_rows;
                if grid_row < self.grid.len() {
                    proof {
                        assert(rows_view(self.grid@)[grid_row as int] == self.grid@[grid_row as int]@);
                    }
                    if col < self.grid[grid_row].len() {
                        return Some(&self.grid[grid_row][col]);
                    }
                }
                None
            }
        }
    }

    /// Move the cursor to a specific position.
    ///
    /// The position is clamped to valid grid coordinates.
    pub fn move_cursor(&mut self, row: usize, col: usize)
        ensures
            final(self)@ == old(self)@.cursor_moved(row, col),
            old(self)@.cursor_in_bounds() ==> final(self)@.cursor_in_bounds(),
    {
        let max_row = self.rows.saturating_sub(1);
        let max_col = self.cols.saturating_sub(1);
        self.cursor.row = if row <= max_row { row } else { max_row };
        self.cursor.col = if col <= max_col { col } else { max_col };
    }

    /// Move the cursor relative to its current position.
    pub fn move_cursor_relative(&mut self, row_delta: isize, col_delta: isize)
        requires
            row_delta >= 0 ==> old(self)@.cursor.row + row_delta <= usize::MAX,
            col_delta >= 0 ==> old(self)@.cursor.col + col_delta <= usize::MAX,
        ensures
            final(self)@ == old(self)@.moved_relative(row_delta, col_delta),
            old(self)@.cursor_in_bounds() ==> final(self)@.cursor_in_bounds(),
    {
        let max_row = self.rows.saturating_sub(1);
        let max_col = self.cols.saturating_sub(1);
        if row_delta < 0 {
            let back: usize = ((-(row_delta + 1)) as usize) + 1;
            self.cursor.row = self.cursor.row.saturating_sub(back);
        } else {
            let r = self.cursor.row + row_delta as usize;
            self.cursor.row = if r <= max_row { r } else { max_row };
        }
        if col_delta < 0 {
            let back: usize = ((-(col_delta + 1)) as usize) + 1;
            self.cursor.col = self.cursor.col.saturating_sub(back);
        } else {
            let c = self.cursor.col + col_delta as usize;
            self.cursor.col = if c <= max_col { c } else { max_col };
        }
    }

    /// Wrap to the start of the next line when the cursor is past the last
    /// column, scrolling when that line is below the screen.
    fn wrap_for_put(&mut self)
        requires
            old(self).wf(),
            old(self)@.can_put_char(),
        ensures
            final(self).wf(),
            final(self)@ == old(self)@.wrapped_for_put(),
    {
        let ghost m0 = self@;
        if self.cursor.col >= self.cols {
            self.cursor.col = 0;
            self.cursor.row = self.cursor.row + 1;
            if self.cursor.row >= self.rows {
                self.scroll_up(1);
                self.cursor.row = self.rows - 1;
            }
        }
        proof {
            assert(self@ == m0.wrapped_for_put());
        }
    }

    /// Put a character at the current cursor position and advance the cursor.
    ///
    /// If at the end of a line (cursor past last column), this wraps to the next line first.
    /// If at the bottom of the screen, this scrolls up.
    pub fn put_char(&mut self, c: char)
        requires
            old(self).wf(),
            old(self)@.can_put_char(),
        ensures
            final(self).wf(),
            final(self)@ == old(self)@.after_put_char(c),
            old(self)@.cursor_in_bounds() ==> final(self)@.cursor_in_bounds(),
    {
        self.wrap_for_put();
        if self.cursor.row < self.rows && self.cursor.col < self.cols {
            let cell = Cell {
                char: c,
                fg_color: self.fg_color,
                bg_color: self.bg_color,
                attributes: self.attributes,
            };
            self.apply_cell_update(self.cursor.row, self.cursor.col, cell);
        }
        self.cursor.col = self.cursor.col + 1;
    }

    /// Put a character without advancing the cursor.
    pub fn put_char_at(&mut self, row: usize, col: usize, c: char)
        requires
            old(self).wf(),
        ensures
            final(self).wf(),
            final(self)@ == if row < old(self)@.rows && col < old(self)@.cols {
                old(self)@.cell_update(row, col, old(self)@.pen_cell(c))
            } else {
                old(self)@
            },
            old(self)@.cursor_in_bounds() ==> final(self)@.cursor_in_bounds(),
    {
        if row < self.rows && col < self.cols {
            let cell = Cell {
                char: c,
                fg_color: self.fg_color,
                bg_color: self.bg_color,
                attributes: self.attributes,
            };
            self.apply_cell_update(row, col, cell);
        }
    }

    /// Get a cell at the given position.
    ///
    /// Returns None if the position is out of bounds.
    pub fn get_cell(&self, row: usize, col: usize) -> (c: Option<&Cell>)
        requires
            self.wf(),
        ensures
            ref_matches(c, cell_at(self@.cells, row as int, col as int)),
    {
        if row < self.grid.len() {
            proof {
                assert(rows_view(self.grid@)[row as int] == self.grid@[row as int]@);
            }
            if col < self.grid[row].len() {
                return Some(&self.grid[row][col]);
            }
        }
        None
    }

    /// Get a mutable reference to a cell at the given position.
    pub fn get_cell_mut(&mut self, row: usize, col: usize) -> (c: Option<&mut Cell>)
        requires
            old(self).wf(),
        ensures
            match c {
                Some(r) => {
                    &&& cell_at(old(self)@.cells, row as int, col as int) == Some(*r)
                    &&& final(self)@ == (GridModel {
                        cells: old(self)@.cells_with(row as int, col as int, *final(r)),
                        ..old(self)@
                    })
                },
                None => {
                    &&& cell_at(old(self)@.cells, row as int, col as int) is None
                    &&& final(self)@ == old(self)@
                },
            },
            old(self)@.cursor_in_bounds() ==> final(self)@.cursor_in_bounds(),
    {
        if row < self.grid.len() {
            proof {
                assert(rows_view(self.grid@)[row as int] == self.grid@[row as int]@);
            }
            if col < self.grid[row].len() {
                let ghost g0 = self.grid@;
                let r = &mut self.grid[row][col];
                proof {
                    assert(rows_view(after_borrow(self.grid)@) =~= rows_view(g0).update(
                        row as int,
                        g0[row as int]@.update(col as int, *final(r)),
                    ));
                }
                return Some(r);
            }
        }
        None
    }

    /// Get a reference to a row.
    pub fn get_row(&self, row: usize) -> (r: Option<&[Cell]>)
        requires
            self.wf(),
        ensures
            row < self@.rows <==> r is Some,
            r matches Some(s) ==> s@ == self@.cells[row as int],
    {
        if row < self.grid.len() {
            proof {
                assert(rows_view(self.grid@)[row as int] == self.grid@[row as int]@);
            }
            Some(self.grid[row].as_slice())
        } else {
            None
        }
    }

    /// Get the entire visible grid as a slice of rows.
    pub fn as_rows(&self) -> (r: &[Vec<Cell>])
        ensures
            rows_view(r@) == self@.cells,
    {
        self.grid.as_slice()
    }

    /// Get the scrollback buffer.
    pub fn scrollback(&self) -> (r: &[Vec<Cell>])
        ensures
            rows_view(r@) == self@.scrollback,
    {
        self.scrollback.as_slice()
    }

    /// Clear the scrollback buffer.
    pub fn clear_scrollback(&mut self)
        requires
            old(self).wf(),
        ensures
            final(self).wf(),
            final(self)@ == (GridModel { scrollback: Seq::empty(), ..old(self)@ }),
            old(self)@.cursor_in_bounds() ==> final(self)@.cursor_in_bounds(),
    {
        self.scrollback.clear();
        proof {
            assert(rows_view(self.scrollback@) =~= Seq::<Seq<Cell>>::empty());
        }
    }

    /// Save the current cursor position and attributes.
    pub fn save_cursor(&mut self) -> (saved: (Cursor, TextAttributes, Color, Color))
        ensures
            final(self)@ == old(self)@,
            saved == saved_state(old(self)@),
            old(self)@.cursor_in_bounds() ==> final(self)@.cursor_in_bounds(),
    {
        (self.cursor, self.attributes, self.fg_color, self.bg_color)
    }

    /// Restore a previously saved cursor position and attributes.
    pub fn restore_cursor(&mut self, saved: (Cursor, TextAttributes, Color, Color))
        ensures
            final(self)@ == restored(old(self)@, saved),
            old(self)@.cursor_in_bounds() && saved.0.row < old(self)@.rows && saved.0.col <= old(self)@.cols ==> final(self)@.cursor_in_bounds(),
    {
        self.cursor = saved.0;
        self.attributes = saved.1;
        self.fg_color = saved.2;
        self.bg_color = saved.3;
    }

    /// Get the current dirty region.
    pub fn dirty_region(&self) -> (r: &DirtyRegion)
        ensures
            *r == self@.dirty,
    {
        &self.dirty_region
    }

    /// Check if there are any dirty regions to render.
    pub fn has_dirty_regions(&self) -> (b: bool)
        ensures
            b == !self@.dirty.spec_is_empty(),
    {
        !self.dirty_region.is_empty()
    }

    /// Clear the dirty region (mark everything as clean).
    pub fn clear_dirty(&mut self)
        ensures
            final(self)@ == (GridModel { dirty: clean_region(), ..old(self)@ }),
            old(self)@.cursor_in_bounds() ==> final(self)@.cursor_in_bounds(),
    {
        self.dirty_region.clear();
    }

    /// Start batch update mode.
    ///
    /// While in batch mode, dirty region tracking is deferred and cell updates
    /// are buffered. Call `flush_batch()` to apply all updates and calculate the
    /// final dirty region.
    pub fn begin_batch(&mut self)
        ensures
            final(self)@ == (GridModel {
                batch: true,
                batch_buffer: Seq::empty(),
                batch_dirty: clean_region(),
                ..old(self)@
            }),
            old(self)@.cursor_in_bounds() ==> final(self)@.cursor_in_bounds(),
    {
        self.batch_updates = true;
        self.batch_buffer.clear();
        self.batch_dirty.clear();
    }

    /// Cancel batch update mode without applying updates.
    pub fn cancel_batch(&mut self)
        ensures
            final(self)@ == (GridModel {
                batch: false,
                batch_buffer: Seq::empty(),
                batch_dirty: clean_region(),
                ..old(self)@
            }),
            old(self)@.cursor_in_bounds() ==> final(self)@.cursor_in_bounds(),
    {
        self.batch_updates = false;
        self.batch_buffer.clear();
        self.batch_dirty.clear();
    }

    /// Check if currently in batch mode.
    pub fn is_in_batch_mode(&self) -> (b: bool)
        ensures
            b == self@.batch,
    {
        self.batch_updates
    }

    /// Reset the cells in columns `from..to` of one row.
    fn reset_row_range(&mut self, row: usize, from: usize, to: usize)
        requires
            old(self).wf(),
            row < old(self)@.rows,
            to <= old(self)@.cols,
        ensures
            final(self).wf(),
            final(self)@ == (GridModel {
                cells: old(self)@.cells.update(
                    row as int,
                    row_reset_range(old(self)@.cells[row as int], from as int, to as int),
                ),
                ..old(self)@
            }),
    {
        let ghost old_grid = self.grid@;
        proof {
            assert(rows_view(old_grid)[row as int] == old_grid[row as int]@);
        }
        let mut r: Vec<Cell> = Vec::new();
        self.grid.set_and_swap(row, &mut r);
        let ghost r0 = r@;
        let mut j: usize = from;
        while j < to
            invariant
                r0.len() == self.cols,
                to <= self.cols,
                from <= j,
                j <= to || j == from,
                r@ == Seq::new(
                    r0.len(),
                    |k: int| if from <= k < j { default_cell() } else { r0[k] },
                ),
            decreases to - j,
        {
            r.set(j, Cell::default());
            proof {
                assert(r@ =~= Seq::new(
                    r0.len(),
                    |k: int| if from <= k < j + 1 { default_cell() } else { r0[k] },
                ));
            }
            j = j + 1;
        }
        proof {
            assert(r@ =~= row_reset_range(r0, from as int, to as int));
        }
        self.grid.set_and_swap(row, &mut r);
        proof {
            assert(rows_view(self.grid@) =~= rows_view(old_grid).update(
                row as int,
                row_reset_range(r0, from as int, to as int),
            ));
        }
    }

    /// Replace one visible row.
    fn replace_row(&mut self, row: usize, new_row: Vec<Cell>)
        requires
            old(self).wf(),
            row < old(self)@.rows,
            new_row@.len() == old(self)@.cols,
        ensures
            final(self).wf(),
            final(self)@ == (GridModel {
                cells: old(self)@.cells.update(row as int, new_row@),
                ..old(self)@
            }),
    {
        let ghost old_grid = self.grid@;
        let ghost nr = new_row@;
        self.grid.set(row, new_row);
        proof {
            assert(rows_view(self.grid@) =~= rows_view(old_grid).update(row as int, nr));
        }
    }

    /// Reset every visible cell.
    fn blank_all_rows(&mut self)
        requires
            old(self).wf(),
        ensures
            final(self).wf(),
            final(self)@ == (GridModel {
                cells: blank_rows(old(self)@.rows as nat, old(self)@.cols as nat),
                ..old(self)@
            }),
    {
        let ghost m0 = self@;
        let mut i: usize = 0;
        proof {
            assert(self@.cells =~= Seq::new(
                m0.rows as nat,
                |k: int| if k < 0 { blank_cells(m0.cols as nat) } else { m0.cells[k] },
            ));
        }
        while i < self.rows
            invariant
                self.wf(),
                i <= self.rows,
                self@ == (GridModel {
                    cells: Seq::new(
                        m0.rows as nat,
                        |k: int| if k < i { blank_cells(m0.cols as nat) } else { m0.cells[k] },
                    ),
                    ..m0
                }),
            decreases self.rows - i,
        {
            let r = blank_row(self.cols);
            self.replace_row(i, r);
            proof {
                assert(self@.cells =~= Seq::new(
                    m0.rows as nat,
                    |k: int| if k < i + 1 { blank_cells(m0.cols as nat) } else { m0.cells[k] },
                ));
            }
            i = i + 1;
        }
        proof {
            assert(self@.cells =~= blank_rows(m0.rows as nat, m0.cols as nat));
        }
    }

    /// Clear the entire screen, filling with default cells.
    pub fn clear_screen(&mut self)
        requires
            old(self).wf(),
        ensures
            final(self).wf(),
            final(self)@ == old(self)@.after_clear_screen(),
            old(self)@.cursor_in_bounds() ==> final(self)@.cursor_in_bounds(),
    {
        self.blank_all_rows();
        self.scrollback.clear();
        proof {
            assert(rows_view(self.scrollback@) =~= Seq::<Seq<Cell>>::empty());
        }
        self.mark_full_dirty();
    }

    /// Clear the screen but preserve scrollback.
    pub fn clear_screen_keep_scrollback(&mut self)
        requires
            old(self).wf(),
        ensures
            final(self).wf(),
            final(self)@ == old(self)@.after_clear_screen_keep_scrollback(),
            old(self)@.cursor_in_bounds() ==> final(self)@.cursor_in_bounds(),
    {
        self.blank_all_rows();
        self.mark_full_dirty();
    }

    /// Clear from cursor to end of the current line.
    pub fn clear_to_end_of_line(&mut self)
        requires
            old(self).wf(),
            old(self)@.cursor.row < old(self)@.rows ==> old(self)@.cols > 0,
        ensures
            final(self).wf(),
            final(self)@ == old(self)@.after_clear_to_end_of_line(),
            old(self)@.cursor_in_bounds() ==> final(self)@.cursor_in_bounds(),
    {
        if self.cursor.row < self.rows {
            self.reset_row_range(self.cursor.row, self.cursor.col, self.cols);
            self.mark_region_dirty(self.cursor.row, self.cursor.row, self.cursor.col, self.cols - 1);
        }
    }

    /// Clear from start of the current line to cursor.
    pub fn clear_to_start_of_line(&mut self)
        requires
            old(self).wf(),
            old(self)@.cursor.row < old(self)@.rows ==> old(self)@.cols > 0,
        ensures
            final(self).wf(),
            final(self)@ == old(self)@.after_clear_to_start_of_line(),
            old(self)@.cursor_in_bounds() ==> final(self)@.cursor_in_bounds(),
    {
        if self.cursor.row < self.rows {
            let last = if self.cursor.col <= self.cols - 1 { self.cursor.col } else { self.cols - 1 };
            let ghost m0 = self@;
            self.reset_row_range(self.cursor.row, 0, last + 1);
            proof {
                assert(row_reset_range(m0.cells[m0.cursor.row as int], 0, last + 1) =~= row_reset_range(
                    m0.cells[m0.cursor.row as int],
                    0,
                    m0.cursor.col + 1,
                ));
            }
            self.mark_region_dirty(self.cursor.row, self.cursor.row, 0, self.cursor.col);
        }
    }

    /// Clear the current line.
    pub fn clear_line(&mut self)
        requires
            old(self).wf(),
            old(self)@.cursor.row < old(self)@.rows ==> old(self)@.cols > 0,
        ensures
            final(self).wf(),
            final(self)@ == old(self)@.after_clear_line(),
            old(self)@.cursor_in_bounds() ==> final(self)@.cursor_in_bounds(),
    {
        if self.cursor.row < self.rows {
            let r = blank_row(self.cols);
            self.replace_row(self.cursor.row, r);
            self.mark_region_dirty(self.cursor.row, self.cursor.row, 0, self.cols - 1);
        }
    }

    /// Clear from cursor to end of screen.
    pub fn clear_to_end_of_screen(&mut self)
        requires
            old(self).wf(),
            old(self)@.rows > 0,
            old(self)@.cols > 0,
            old(self)@.cursor.row < usize::MAX,
        ensures
            final(self).wf(),
            final(self)@ == old(self)@.after_clear_to_end_of_screen(),
            old(self)@.cursor_in_bounds() ==> final(self)@.cursor_in_bounds(),
    {
        let ghost m0 = self@;
        self.clear_to_end_of_line();
        let ghost m1 = self@;
        let mut i: usize = self.cursor.row + 1;
        proof {
            assert(self@.cells =~= Seq::new(
                m1.rows as nat,
                |k: int|
                    if m0.cursor.row < k < m0.cursor.row + 1 { blank_cells(m1.cols as nat) } else { m1.cells[k] },
            ));
        }
        while i < self.rows
            invariant
                self.wf(),
                m1.well_formed(),
                m0.cursor.row + 1 <= i,
                i <= self.rows || i == m0.cursor.row + 1,
                self@ == (GridModel {
                    cells: Seq::new(
                        m1.rows as nat,
                        |k: int|
                            if m0.cursor.row < k < i { blank_cells(m1.cols as nat) } else { m1.cells[k] },
                    ),
                    ..m1
                }),
            decreases self.rows - i,
        {
            let r = blank_row(self.cols);
            self.replace_row(i, r);
            proof {
                assert(self@.cells =~= Seq::new(
                    m1.rows as nat,
                    |k: int|
                        if m0.cursor.row < k < i + 1 { blank_cells(m1.cols as nat) } else { m1.cells[k] },
                ));
            }
            i = i + 1;
        }
        proof {
            assert(self@.cells =~= Seq::new(
                m0.rows as nat,
                |k: int| if k > m0.cursor.row { blank_cells(m0.cols as nat) } else { m1.cells[k] },
            ));
        }
        self.mark_region_dirty(self.cursor.row, self.rows - 1, 0, self.cols - 1);
    }

    /// Clear from start of screen to cursor.
    pub fn clear_to_start_of_screen(&mut self)
        requires
            old(self).wf(),
            old(self)@.cursor.row <= old(self)@.rows,
            old(self)@.cursor.row < old(self)@.rows ==> old(self)@.cols > 0,
        ensures
            final(self).wf(),
            final(self)@ == old(self)@.after_clear_to_start_of_screen(),
            old(self)@.cursor_in_bounds() ==> final(self)@.cursor_in_bounds(),
    {
        let ghost m0 = self@;
        let mut i: usize = 0;
        proof {
            assert(self@.cells =~= Seq::new(
                m0.rows as nat,
                |k: int| if k < 0 { blank_cells(m0.cols as nat) } else { m0.cells[k] },
            ));
        }
        while i < self.cursor.row
            invariant
                self.wf(),
                m0.well_formed(),
                i <= self.cursor.row,
                self.cursor.row <= self.rows,
                self@ == (GridModel {
                    cells: Seq::new(
                        m0.rows as nat,
                        |k: int| if k < i { blank_cells(m0.cols as nat) } else { m0.cells[k] },
                    ),
                    ..m0
                }),
            decreases self.cursor.row - i,
        {
            let r = blank_row(self.cols);
            self.replace_row(i, r);
            proof {
                assert(self@.cells =~= Seq::new(
                    m0.rows as nat,
                    |k: int| if k < i + 1 { blank_cells(m0.cols as nat) } else { m0.cells[k] },
                ));
            }
            i = i + 1;
        }
        proof {
            assert(self@.cells =~= Seq::new(
                m0.rows as nat,
                |k: int| if k < m0.cursor.row { blank_cells(m0.cols as nat) } else { m0.cells[k] },
            ));
        }
        self.clear_to_start_of_line();
        self.mark_region_dirty(0, self.cursor.row, 0, self.cursor.col);
    }

    /// Scroll the screen down by n lines.
    ///
    /// This is the opposite of scroll_up - new lines appear at the top.
    pub fn scroll_down(&mut self, n: usize)
        requires
            old(self).wf(),
            n != 0 && old(self)@.rows != 0 ==> old(self)@.cursor.row + old(self)@.scroll_amount(n)
                <= usize::MAX,
        ensures
            final(self).wf(),
            final(self)@ == old(self)@.scrolled_down(n),
            old(self)@.cursor_in_bounds() ==> final(self)@.cursor_in_bounds(),
    {
        if n == 0 || self.rows == 0 {
            return;
        }
        let ghost m0 = self@;
        let scroll_amount = if n <= self.rows { n } else { self.rows };
        let rows_to_keep = self.rows - scroll_amount;
        let ghost g0 = self.grid@;
        self.grid.truncate(rows_to_keep);
        proof {
            lemma_rows_view_subrange(g0, 0, rows_to_keep as int);
            assert(rows_view(self.grid@) =~= blank_rows(0, m0.cols as nat) + m0.cells.take(
                rows_to_keep as int,
            ));
        }
        let mut i: usize = 0;
        while i < scroll_amount
            invariant
                m0.well_formed(),
                i <= scroll_amount,
                scroll_amount <= m0.rows,
                rows_to_keep == m0.rows - scroll_amount,
                self.rows == m0.rows,
                self.cols == m0.cols,
                rows_view(self.grid@) == blank_rows(i as nat, m0.cols as nat) + m0.cells.take(
                    rows_to_keep as int,
                ),
                self@ == (GridModel { cells: self@.cells, ..m0 }),
            decreases scroll_amount - i,
        {
            let ghost g1 = self.grid@;
            let r = blank_row(self.cols);
            self.grid.insert(0, r);
            proof {
                assert(rows_view(self.grid@) =~= rows_view(g1).insert(0, blank_cells(m0.cols as nat)));
                assert(blank_rows(i as nat + 1, m0.cols as nat) + m0.cells.take(rows_to_keep as int)
                    =~= (blank_rows(i as nat, m0.cols as nat) + m0.cells.take(
                    rows_to_keep as int,
                )).insert(0, blank_cells(m0.cols as nat)));
            }
            i = i + 1;
        }
        let target = self.cursor.row + scroll_amount;
        self.cursor.row = if target <= self.rows - 1 { target } else { self.rows - 1 };
        self.mark_full_dirty();
        proof {
            let m1 = self@;
            assert forall|k: int| 0 <= k < m1.rows implies #[trigger] m1.cells[k].len() == m1.cols by {
                if k >= scroll_amount {
                    assert(m1.cells[k] == m0.cells[k - scroll_amount]);
                }
            }
        }
    }

    /// Scroll a region of the screen up by n lines.
    ///
    /// Only lines within [top, bottom] are affected. Lines above `top` and
    /// below `bottom` remain unchanged. The bottom `n` lines of the region
    /// are cleared.
    pub fn scroll_up_in_region(&mut self, n: usize, top: usize, bottom: usize)
        requires
            old(self).wf(),
            old(self)@.region_scroll_applies(n, top, bottom) ==> old(self)@.cols > 0,
        ensures
            final(self).wf(),
            final(self)@ == old(self)@.region_scrolled_up(n, top, bottom),
            old(self)@.cursor_in_bounds() ==> final(self)@.cursor_in_bounds(),
    {
        if n == 0 || self.rows == 0 || top >= bottom || bottom >= self.rows {
            return;
        }
        let ghost m0 = self@;
        let region_height = bottom - top + 1;
        let k = if n <= region_height { n } else { region_height };
        let mut i: usize = 0;
        proof {
            assert(m0.cells =~= m0.cells.take(top as int) + m0.cells.subrange(top + 0, bottom + 1)
                + blank_rows(0, m0.cols as nat) + m0.cells.skip(bottom + 1));
        }
        while i < k
            invariant
                m0.well_formed(),
                top < bottom < m0.rows,
                i <= k,
                k <= bottom - top + 1,
                self.rows == m0.rows,
                self.cols == m0.cols,
                rows_view(self.grid@) == m0.cells.take(top as int) + m0.cells.subrange(
                    top + i,
                    bottom + 1,
                ) + blank_rows(i as nat, m0.cols as nat) + m0.cells.skip(bottom + 1),
                self@ == (GridModel { cells: self@.cells, ..m0 }),
            decreases k - i,
        {
            let ghost g1 = self.grid@;
            proof {
                assert(rows_view(g1).len() == g1.len());
            }
            let removed = self.grid.remove(top);
            let ghost g2 = self.grid@;
            proof {
                assert(rows_view(g2) =~= rows_view(g1).remove(top as int));
            }
            let r = blank_row(self.cols);
            self.grid.insert(bottom, r);
            proof {
                assert(rows_view(self.grid@) =~= rows_view(g2).insert(
                    bottom as int,
                    blank_cells(m0.cols as nat),
                ));
                assert(m0.cells.take(top as int) + m0.cells.subrange(top + i + 1, bottom + 1)
                    + blank_rows(i as nat + 1, m0.cols as nat) + m0.cells.skip(bottom + 1)
                    =~= (m0.cells.take(top as int) + m0.cells.subrange(top + i, bottom + 1)
                    + blank_rows(i as nat, m0.cols as nat) + m0.cells.skip(bottom + 1)).remove(
                    top as int,
                ).insert(bottom as int, blank_cells(m0.cols as nat)));
            }
            i = i + 1;
        }
        proof {
            let m1 = self@;
            assert forall|j: int| 0 <= j < m1.rows implies #[trigger] m1.cells[j].len() == m1.cols by {
                if j < top {
                    assert(m1.cells[j] == m0.cells[j]);
                } else if j < bottom + 1 - k {
                    assert(m1.cells[j] == m0.cells[j + k]);
                } else if j > bottom {
                    assert(m1.cells[j] == m0.cells[j]);
                }
            }
        }
        self.mark_region_dirty(top, bottom, 0, self.cols - 1);
    }

    /// Scroll a region of the screen down by n lines.
    ///
    /// Only lines within [top, bottom] are affected. Lines above `top` and
    /// below `bottom` remain unchanged. The top `n` lines of the region
    /// are cleared.
    pub fn scroll_down_in_region(&mut self, n: usize, top: usize, bottom: usize)
        requires
            old(self).wf(),
            old(self)@.region_scroll_applies(n, top, bottom) ==> old(self)@.cols > 0,
        ensures
            final(self).wf(),
            final(self)@ == old(self)@.region_scrolled_down(n, top, bottom),
            old(self)@.cursor_in_bounds() ==> final(self)@.cursor_in_bounds(),
    {
        if n == 0 || self.rows == 0 || top >= bottom || bottom >= self.rows {
            return;
        }
        let ghost m0 = self@;
        let region_height = bottom - top + 1;
        let k = if n <= region_height { n } else { region_height };
        let mut i: usize = 0;
        proof {
            assert(m0.cells =~= m0.cells.take(top as int) + blank_rows(0, m0.cols as nat)
                + m0.cells.subrange(top as int, bottom + 1 - 0) + m0.cells.skip(bottom + 1));
        }
        while i < k
            invariant
                m0.well_formed(),
                top < bottom < m0.rows,
                i <= k,
                k <= bottom - top + 1,
                self.rows == m0.rows,
                self.cols == m0.cols,
                rows_view(self.grid@) == m0.cells.take(top as int) + blank_rows(
                    i as nat,
                    m0.cols as nat,
                ) + m0.cells.subrange(top as int, bottom + 1 - i) + m0.cells.skip(bottom + 1),
                self@ == (GridModel { cells: self@.cells, ..m0 }),
            decreases k - i,
        {
            let ghost g1 = self.grid@;
            proof {
                assert(rows_view(g1).len() == g1.len());
            }
            let removed = self.grid.remove(bottom);
            let ghost g2 = self.grid@;
            proof {
                assert(rows_view(g2) =~= rows_view(g1).remove(bottom as int));
            }
            let r = blank_row(self.cols);
            self.grid.insert(top, r);
            proof {
                assert(rows_view(self.grid@) =~= rows_view(g2).insert(
                    top as int,
                    blank_cells(m0.cols as nat),
                ));
                assert(m0.cells.take(top as int) + blank_rows(i as nat + 1, m0.cols as nat)
                    + m0.cells.subrange(top as int, bottom + 1 - (i + 1)) + m0.cells.skip(bottom + 1)
                    =~= (m0.cells.take(top as int) + blank_rows(i as nat, m0.cols as nat)
                    + m0.cells.subrange(top as int, bottom + 1 - i) + m0.cells.skip(
                    bottom + 1,
                )).remove(bottom as int).insert(top as int, blank_cells(m0.cols as nat)));
            }
            i = i + 1;
        }
        proof {
            let m1 = self@;
            assert forall|j: int| 0 <= j < m1.rows implies #[trigger] m1.cells[j].len() == m1.cols by {
                if j < top {
                    assert(m1.cells[j] == m0.cells[j]);
                } else if j >= top + k && j <= bottom {
                    assert(m1.cells[j] == m0.cells[j - k]);
                } else if j > bottom {
                    assert(m1.cells[j] == m0.cells[j]);
                }
            }
        }
        self.mark_region_dirty(top, bottom, 0, self.cols - 1);
    }

    /// Perform a line feed within a scroll region.
    ///
    /// If cursor is at the bottom of the region, scroll the region up.
    /// Otherwise, just move the cursor down.
    pub fn linefeed_in_region(&mut self, top: usize, bottom: usize)
        requires
            old(self).wf(),
            old(self)@.cursor.row != bottom ==> old(self)@.rows > 0,
            old(self)@.cursor.row == bottom && old(self)@.region_scroll_applies(1, top, bottom)
                ==> old(self)@.cols > 0,
        ensures
            final(self).wf(),
            final(self)@ == old(self)@.after_linefeed_in_region(top, bottom),
            old(self)@.cursor_in_bounds() ==> final(self)@.cursor_in_bounds(),
    {
        if self.cursor.row == bottom {
            self.scroll_up_in_region(1, top, bottom);
        } else if self.cursor.row < self.rows - 1 {
            self.cursor.row = self.cursor.row + 1;
        }
    }

    /// Erase in display with mode.
    ///
    /// Mode 0: Erase from cursor to end of screen
    /// Mode 1: Erase from start of screen to cursor
    /// Mode 2: Erase entire screen
    /// Mode 3: Erase entire screen and scrollback
    pub fn erase_in_display(&mut self, mode: u16)
        requires
            old(self).wf(),
            mode == 0 ==> old(self)@.rows > 0 && old(self)@.cols > 0 && old(self)@.cursor.row
                < usize::MAX,
            mode == 1 ==> old(self)@.cursor.row <= old(self)@.rows && (old(self)@.cursor.row
                < old(self)@.rows ==> old(self)@.cols > 0),
        ensures
            final(self).wf(),
            final(self)@ == if mode == 0 {
                old(self)@.after_clear_to_end_of_screen()
            } else if mode == 1 {
                old(self)@.after_clear_to_start_of_screen()
            } else if mode == 2 {
                old(self)@.after_clear_screen_keep_scrollback()
            } else if mode == 3 {
                old(self)@.after_clear_screen()
            } else {
                old(self)@
            },
            old(self)@.cursor_in_bounds() ==> final(self)@.cursor_in_bounds(),
    {
        if mode == 0 {
            self.clear_to_end_of_screen();
        } else if mode == 1 {
            self.clear_to_start_of_screen();
        } else if mode == 2 {
            self.clear_screen_keep_scrollback();
        } else if mode == 3 {
            self.clear_screen();
        }
    }

    /// Erase in line with mode.
    ///
    /// Mode 0: Erase from cursor to end of line
    /// Mode 1: Erase from start of line to cursor
    /// Mode 2: Erase entire line
    pub fn erase_in_line(&mut self, mode: u16)
        requires
            old(self).wf(),
            mode <= 2 && old(self)@.cursor.row < old(self)@.rows ==> old(self)@.cols > 0,
        ensures
            final(self).wf(),
            final(self)@ == if mode == 0 {
                old(self)@.after_clear_to_end_of_line()
            } else if mode == 1 {
                old(self)@.after_clear_to_start_of_line()
            } else if mode == 2 {
                old(self)@.after_clear_line()
            } else {
                old(self)@
            },
            old(self)@.cursor_in_bounds() ==> final(self)@.cursor_in_bounds(),
    {
        if mode == 0 {
            self.clear_to_end_of_line();
        } else if mode == 1 {
            self.clear_to_start_of_line();
        } else if mode == 2 {
            self.clear_line();
        }
    }

    /// Insert n blank lines at the cursor position.
    ///
    /// Lines below the cursor are shifted down, and lines that fall off
    /// the bottom are lost.
    pub fn insert_lines(&mut self, n: usize)
        requires
            old(self).wf(),
        ensures
            final(self).wf(),
            final(self)@ == old(self)@.lines_inserted(n),
            old(self)@.cursor_in_bounds() ==> final(self)@.cursor_in_bounds(),
    {
        if self.cursor.row >= self.rows {
            return;
        }
        let ghost m0 = self@;
        let row = self.cursor.row;
        let insert_count = if n <= self.rows - row { n } else { self.rows - row };
        let mut i: usize = 0;
        proof {
            assert(m0.cells =~= m0.cells.take(row as int) + blank_rows(0, m0.cols as nat)
                + m0.cells.skip(row as int));
        }
        while i < insert_count
            invariant
                m0.well_formed(),
                row < m0.rows,
                i <= insert_count,
                insert_count <= m0.rows - row,
                self.rows == m0.rows,
                self.cols == m0.cols,
                self.cursor == m0.cursor,
                row == m0.cursor.row,
                rows_view(self.grid@) == m0.cells.take(row as int) + blank_rows(
                    i as nat,
                    m0.cols as nat,
                ) + m0.cells.skip(row as int),
                self@ == (GridModel { cells: self@.cells, ..m0 }),
            decreases insert_count - i,
        {
            let ghost g1 = self.grid@;
            proof {
                assert(rows_view(g1).len() == g1.len());
            }
            let r = blank_row(self.cols);
            self.grid.insert(row, r);
            proof {
                assert(rows_view(self.grid@) =~= rows_view(g1).insert(
                    row as int,
                    blank_cells(m0.cols as nat),
                ));
                assert(m0.cells.take(row as int) + blank_rows(i as nat + 1, m0.cols as nat)
                    + m0.cells.skip(row as int) =~= (m0.cells.take(row as int) + blank_rows(
                    i as nat,
                    m0.cols as nat,
                ) + m0.cells.skip(row as int)).insert(row as int, blank_cells(m0.cols as nat)));
            }
            i = i + 1;
        }
        let ghost g3 = self.grid@;
        self.grid.truncate(self.rows);
        proof {
            assert(rows_view(g3).len() == g3.len());
            lemma_rows_view_subrange(g3, 0, m0.rows as int);
            let c = insert_count as int;
            assert(rows_view(self.grid@) =~= m0.cells.take(row as int) + blank_rows(
                c as nat,
                m0.cols as nat,
            ) + m0.cells.subrange(row as int, m0.rows - c));
            let m1 = self@;
            assert forall|j: int| 0 <= j < m1.rows implies #[trigger] m1.cells[j].len() == m1.cols by {
                if j < row {
                    assert(m1.cells[j] == m0.cells[j]);
                } else if j >= row + c {
                    assert(m1.cells[j] == m0.cells[j - c]);
                }
            }
        }
    }

    /// Delete n lines at the cursor position.
    ///
    /// Lines below the deleted lines are shifted up, and blank lines
    /// appear at the bottom.
    pub fn delete_lines(&mut self, n: usize)
        requires
            old(self).wf(),
        ensures
            final(self).wf(),
            final(self)@ == old(self)@.lines_deleted(n),
            old(self)@.cursor_in_bounds() ==> final(self)@.cursor_in_bounds(),
    {
        if self.cursor.row >= self.rows {
            return;
        }
        let ghost m0 = self@;
        let row = self.cursor.row;
        let delete_count = if n <= self.rows - row { n } else { self.rows - row };
        let mut i: usize = 0;
        proof {
            assert(m0.cells =~= m0.cells.take(row as int) + m0.cells.skip(row + 0));
        }
        while i < delete_count
            invariant
                m0.well_formed(),
                row < m0.rows,
                i <= delete_count,
                delete_count <= m0.rows - row,
                self.rows == m0.rows,
                self.cols == m0.cols,
                row == m0.cursor.row,
                rows_view(self.grid@) == m0.cells.take(row as int) + m0.cells.skip(row + i),
                self@ == (GridModel { cells: self@.cells, ..m0 }),
            decreases delete_count - i,
        {
            let ghost g1 = self.grid@;
            proof {
                assert(rows_view(g1).len() == g1.len());
            }
            let removed = self.grid.remove(row);
            proof {
                assert(rows_view(self.grid@) =~= rows_view(g1).remove(row as int));
                assert(m0.cells.take(row as int) + m0.cells.skip(row + i + 1) =~= (m0.cells.take(
                    row as int,
                ) + m0.cells.skip(row + i)).remove(row as int));
            }
            i = i + 1;
        }
        let mut j: usize = 0;
        while j < delete_count
            invariant
                m0.well_formed(),
                row < m0.rows,
                j <= delete_count,
                delete_count <= m0.rows - row,
                self.rows == m0.rows,
                self.cols == m0.cols,
                rows_view(self.grid@) == m0.cells.take(row as int) + m0.cells.skip(
                    row + delete_count,
                ) + blank_rows(j as nat, m0.cols as nat),
                self@ == (GridModel { cells: self@.cells, ..m0 }),
            decreases delete_count - j,
        {
            let ghost g1 = self.grid@;
            let r = blank_row(self.cols);
            self.grid.push(r);
            proof {
                lemma_rows_view_push(g1, r);
                assert(m0.cells.take(row as int) + m0.cells.skip(row + delete_count) + blank_rows(
                    j as nat + 1,
                    m0.cols as nat,
                ) =~= (m0.cells.take(row as int) + m0.cells.skip(row + delete_count) + blank_rows(
                    j as nat,
                    m0.cols as nat,
                )).push(blank_cells(m0.cols as nat)));
            }
            j = j + 1;
        }
        proof {
            let m1 = self@;
            let c = delete_count as int;
            assert forall|k: int| 0 <= k < m1.rows implies #[trigger] m1.cells[k].len() == m1.cols by {
                if k < row {
                    assert(m1.cells[k] == m0.cells[k]);
                } else if k < m0.rows - c {
                    assert(m1.cells[k] == m0.cells[k + c]);
                }
            }
        }
    }

    /// Perform a line feed (move cursor down, possibly scrolling).
    pub fn linefeed(&mut self)
        requires
            old(self).wf(),
            old(self)@.rows > 0,
            old(self)@.cursor.row >= old(self)@.rows - 1 ==> old(self)@.max_scrollback > 0,
        ensures
            final(self).wf(),
            final(self)@ == old(self)@.after_linefeed(),
            old(self)@.cursor_in_bounds() ==> final(self)@.cursor_in_bounds(),
    {
        if self.cursor.row < self.rows - 1 {
            self.cursor.row = self.cursor.row + 1;
        } else {
            self.scroll_up(1);
        }
    }

    /// Perform a carriage return (move cursor to column 0).
    pub fn carriage_return(&mut self)
        ensures
            final(self)@ == (GridModel {
                cursor: Cursor { row: old(self)@.cursor.row, col: 0 },
                ..old(self)@
            }),
            old(self)@.cursor_in_bounds() ==> final(self)@.cursor_in_bounds(),
    {
        self.cursor.col = 0;
    }

    /// Backspace (move cursor left by one, but not past column 0).
    pub fn backspace(&mut self)
        ensures
            final(self)@ == (GridModel {
                cursor: Cursor {
                    row: old(self)@.cursor.row,
                    col: if old(self)@.cursor.col > 0 {
                        (old(self)@.cursor.col - 1) as usize
                    } else {
                        0
                    },
                },
                ..old(self)@
            }),
            old(self)@.cursor_in_bounds() ==> final(self)@.cursor_in_bounds(),
    {
        self.cursor.col = self.cursor.col.saturating_sub(1);
    }

    /// Tab (move cursor to next tab stop, every 8 columns).
    pub fn tab(&mut self)
        requires
            (old(self)@.cursor.col / 8 + 1) * 8 <= usize::MAX,
            (old(self)@.cursor.col / 8 + 1) * 8 >= old(self)@.cols ==> old(self)@.cols > 0,
        ensures
            ({
                let next = (old(self)@.cursor.col / 8 + 1) * 8;
                final(self)@ == GridModel {
                    cursor: Cursor {
                        row: old(self)@.cursor.row,
                        col: if next >= old(self)@.cols {
                            (old(self)@.cols - 1) as usize
                        } else {
                            next as usize
                        },
                    },
                    ..old(self)@
                }
            }),
            old(self)@.cursor_in_bounds() ==> final(self)@.cursor_in_bounds(),
    {
        self.cursor.col = ((self.cursor.col / 8) + 1) * 8;
        if self.cursor.col >= self.cols {
            self.cursor.col = self.cols - 1;
        }
    }

    /// Back tab (move cursor to previous tab stop).
    pub fn back_tab(&mut self)
        ensures
            final(self)@ == old(self)@.back_tabbed(),
            old(self)@.cursor_in_bounds() ==> final(self)@.cursor_in_bounds(),
    {
        self.cursor.col = ((self.cursor.col.saturating_sub(1)) / 8) * 8;
    }

    /// Resize the terminal grid.
    ///
    /// Content is preserved where possible. New cells are initialized to default.
    pub fn resize(&mut self, new_cols: usize, new_rows: usize)
        requires
            old(self).wf(),
        ensures
            final(self).wf(),
            final(self)@ == old(self)@.resized(new_cols, new_rows),
            old(self)@.cursor_in_bounds() && new_cols > 0 && new_rows > 0 ==> final(self)@.cursor_in_bounds(),
    {
        let ghost m0 = self@;
        let mut new_grid: Vec<Vec<Cell>> = Vec::new();
        let mut i: usize = 0;
        while i < new_rows
            invariant
                m0.well_formed(),
                i <= new_rows,
                self@ == m0,
                new_grid@.len() == i,
                forall|k: int|
                    0 <= k < i ==> #[trigger] new_grid@[k]@ == (if k < m0.rows {
                        row_resized(m0.cells[k], new_cols as nat)
                    } else {
                        blank_cells(new_cols as nat)
                    }),
            decreases new_rows - i,
        {
            if i < self.rows {
                proof {
                    assert(rows_view(self.grid@)[i as int] == self.grid@[i as int]@);
                }
                let old_row = &self.grid[i];
                let mut r: Vec<Cell> = Vec::new();
                let mut j: usize = 0;
                while j < new_cols
                    invariant
                        j <= new_cols,
                        old_row@ == m0.cells[i as int],
                        r@ == row_resized(m0.cells[i as int], new_cols as nat).take(j as int),
                    decreases new_cols - j,
                {
                    if j < old_row.len() {
                        r.push(old_row[j]);
                    } else {
                        r.push(Cell::default());
                    }
                    proof {
                        assert(r@ =~= row_resized(m0.cells[i as int], new_cols as nat).take(
                            j as int + 1,
                        ));
                    }
                    j = j + 1;
                }
                proof {
                    assert(r@ =~= row_resized(m0.cells[i as int], new_cols as nat));
                }
                new_grid.push(r);
            } else {
                new_grid.push(blank_row(new_cols));
            }
            i = i + 1;
        }
        self.grid = new_grid;
        self.cols = new_cols;
        self.rows = new_rows;
        let max_row = self.rows.saturating_sub(1);
        let max_col = self.cols.saturating_sub(1);
        self.cursor.row = if self.cursor.row <= max_row { self.cursor.row } else { max_row };
        self.cursor.col = if self.cursor.col <= max_col { self.cursor.col } else { max_col };
        proof {
            assert(self@.cells =~= m0.resized(new_cols, new_rows).cells);
        }
    }

    /// End batch update mode and flush all pending updates.
    ///
    /// This applies all buffered cell updates and calculates the dirty region
    /// covering all modified cells: the marks deferred during the batch are
    /// merged in, then each applied update's cell is included.
    pub fn flush_batch(&mut self)
        requires
            old(self).wf(),
        ensures
            final(self).wf(),
            final(self)@ == apply_batch(old(self)@.batch_flushed(), old(self)@.batch_buffer),
            old(self)@.cursor_in_bounds() ==> final(self)@.cursor_in_bounds(),
    {
        let ghost m0 = self@;
        self.batch_updates = false;
        let pending = self.batch_dirty;
        self.dirty_region.merge(&pending);
        self.batch_dirty.clear();
        let mut buffer: Vec<(usize, usize, Cell)> = Vec::new();
        std::mem::swap(&mut buffer, &mut self.batch_buffer);
        let ghost base = self@;
        proof {
            assert(base == m0.batch_flushed());
            assert(buffer@.take(0) =~= Seq::<(usize, usize, Cell)>::empty());
        }
        let mut i: usize = 0;
        while i < buffer.len()
            invariant
                base.well_formed(),
                !base.batch,
                i <= buffer.len(),
                self.wf(),
                self@ == apply_batch(base, buffer@.take(i as int)),
                self@.rows == base.rows,
                self@.cols == base.cols,
                !self@.batch,
            decreases buffer.len() - i,
        {
            let (row, col, cell) = buffer[i];
            proof {
                assert(buffer@.take(i as int + 1).drop_last() =~= buffer@.take(i as int));
            }
            if row < self.rows && col < self.cols {
                self.set_cell(row, col, cell);
                self.dirty_region.include_cell(row, col);
            }
            i = i + 1;
        }
        proof {
            assert(buffer@.take(buffer@.len() as int) =~= buffer@);
            crate::terminal::cursor_bounds::lemma_flush_cursor(m0);
        }
    }

    /// Reset the grid to initial state.
    pub fn reset(&mut self)
        requires
            old(self).wf(),
        ensures
            final(self).wf(),
            final(self)@ == (GridModel {
                cursor: Cursor { row: 0, col: 0 },
                attributes: plain_attributes(),
                fg: Color::Default,
                bg: Color::Default,
                ..old(self)@.after_clear_screen()
            }),
            old(self)@.cursor_in_bounds() ==> final(self)@.cursor_in_bounds(),
    {
        self.clear_screen();
        self.cursor = Cursor::default();
        self.attributes = TextAttributes::default();
        self.fg_color = Color::Default;
        self.bg_color = Color::Default;
    }

    /// Get the content of a row as a string.
    pub fn row_to_string(&self, row: usize) -> (s: String)
        requires
            self.wf(),
        ensures
            s@ == if row < self@.rows { row_chars(self@.cells[row as int]) } else { Seq::empty() },
    {
        if row >= self.rows {
            return String::new();
        }
        proof {
            assert(rows_view(self.grid@)[row as int] == self.grid@[row as int]@);
        }
        row_string(&self.grid[row])
    }

    /// The whole visible grid as text: each row's characters, rows joined by newlines.
    pub fn to_string(&self) -> (s: String)
        requires
            self.wf(),
        ensures
            s@ == rows_text(self@.cells),
    {
        let mut s = String::new();
        let mut i: usize = 0;
        proof {
            assert(self@.cells.take(0) =~= Seq::<Seq<Cell>>::empty());
        }
        while i < self.grid.len()
            invariant
                self.wf(),
                i <= self.grid.len(),
                self.grid@.len() == self@.rows,
                s@ == rows_text(self@.cells.take(i as int)),
            decreases self.grid.len() - i,
        {
            proof {
                assert(rows_view(self.grid@)[i as int] == self.grid@[i as int]@);
                let t = self@.cells.take(i as int + 1);
                assert(t.drop_last() =~= self@.cells.take(i as int));
                assert(t.last() == self@.cells[i as int]);
            }
            if i > 0 {
                push_char(&mut s, '\n');
            }
            let ghost before = s@;
            let line = row_string(&self.grid[i]);
            let mut j: usize = 0;
            let n = line.unicode_len();
            while j < n
                invariant
                    j <= n,
                    n == line@.len(),
                    s@ == before + line@.take(j as int),
                decreases n - j,
            {
                push_char(&mut s, line.as_str().get_char(j));
                proof {
                    assert(before + line@.take(j as int + 1) =~= (before + line@.take(j as int)).push(
                        line@[j as int],
                    ));
                }
                j = j + 1;
            }
            proof {
                assert(line@.take(n as int) =~= line@);
                let t = self@.cells.take(i as int + 1);
                if i == 0 {
                    assert(before =~= Seq::<char>::empty());
                    assert(s@ =~= row_chars(t[0]));
                } else {
                    assert(s@ =~= rows_text(t.drop_last()) + seq!['\n'] + row_chars(t.last()));
                }
            }
            i = i + 1;
        }
        proof {
            assert(self@.cells.take(self.grid@.len() as int) =~= self@.cells);
        }
        s
    }

    /// Get the current foreground color.
    pub fn foreground(&self) -> (c: Color)
        ensures
            c == self@.fg,
    {
        self.fg_color
    }

    /// Get the current background color.
    pub fn background(&self) -> (c: Color)
        ensures
            c == self@.bg,
    {
        self.bg_color
    }
}

/// A write is read back: outside batch mode, writing `cell` at a position in
/// the grid puts `cell` there and leaves every other cell as it was.
pub proof fn lemma_cell_update_reads_back(
    g: GridModel,
    row: usize,
    col: usize,
    cell: Cell,
    r: int,
    c: int,
)
    requires
        g.well_formed(),
        !g.batch,
        row < g.rows,
        col < g.cols,
    ensures
        cell_at(g.cell_update(row, col, cell).cells, row as int, col as int) == Some(cell),
        r != row || c != col ==> cell_at(g.cell_update(row, col, cell).cells, r, c) == cell_at(
            g.cells,
            r,
            c,
        ),
{
}

/// Writes made in batch mode are read back once the batch is flushed: the
/// last write to a position in the grid wins.
pub proof fn lemma_batch_write_reads_back(
    m: GridModel,
    buf: Seq<(usize, usize, Cell)>,
    row: usize,
    col: usize,
    cell: Cell,
)
    requires
        m.well_formed(),
        !m.batch,
        row < m.rows,
        col < m.cols,
    ensures
        cell_at(apply_batch(m, buf.push((row, col, cell))).cells, row as int, col as int) == Some(
            cell,
        ),
{
    lemma_apply_batch_keeps_shape(m, buf);
    assert(buf.push((row, col, cell)).drop_last() =~= buf);
}

/// Applying buffered writes keeps the grid's shape and mode.
pub proof fn lemma_apply_batch_keeps_shape(m: GridModel, buf: Seq<(usize, usize, Cell)>)
    requires
        m.well_formed(),
    ensures
        apply_batch(m, buf).well_formed(),
        apply_batch(m, buf).rows == m.rows,
        apply_batch(m, buf).cols == m.cols,
        apply_batch(m, buf).batch == m.batch,
        apply_batch(m, buf).cursor == m.cursor,
    decreases buf.len(),
{
    if buf.len() > 0 {
        lemma_apply_batch_keeps_shape(m, buf.drop_last());
        let prev = apply_batch(m, buf.drop_last());
        let (r, c, cell) = buf.last();
        if r < prev.rows && c < prev.cols {
            assert forall|i: int| 0 <= i < prev.rows implies #[trigger] prev.cells_with(
                r as int,
                c as int,
                cell,
            )[i].len() == prev.cols by {}
        }
    }
}

/// `put_char` writes the pen cell where the cursor stands once any pending
/// wrap is done, and leaves the cursor one column to the right of it.
pub proof fn lemma_put_char_reads_back(g: GridModel, ch: char)
    requires
        g.well_formed(),
        !g.batch,
        g.can_put_char(),
    ensures
        ({
            let w = g.wrapped_for_put();
            let after = g.after_put_char(ch);
            &&& after.cursor == Cursor { row: w.cursor.row, col: (w.cursor.col + 1) as usize }
            &&& w.cursor.row < g.rows && w.cursor.col < g.cols ==> cell_at(
                after.cells,
                w.cursor.row as int,
                w.cursor.col as int,
            ) == Some(g.pen_cell(ch))
        }),
{
}

/// A region scroll up touches only the region: lines above and below it stay,
/// the region's lines move up by the scroll amount, and that many blank lines
/// enter at the region's bottom.
pub proof fn lemma_region_scroll_up_lines(g: GridModel, n: usize, top: usize, bottom: usize, r: int)
    requires
        g.well_formed(),
        0 <= r < g.rows,
    ensures
        ({
            let after = g.region_scrolled_up(n, top, bottom);
            let k = GridModel::region_amount(n, top, bottom);
            &&& after.cells.len() == g.cells.len()
            &&& (r < top || r > bottom || !g.region_scroll_applies(n, top, bottom)) ==> after.cells[r]
                == g.cells[r]
            &&& g.region_scroll_applies(n, top, bottom) && top <= r <= bottom - k ==> after.cells[r]
                == g.cells[r + k]
            &&& g.region_scroll_applies(n, top, bottom) && bottom - k < r <= bottom
                ==> after.cells[r] == blank_cells(g.cols as nat)
        }),
{
}

/// A region scroll down touches only the region: lines above and below it
/// stay, the region's lines move down by the scroll amount, and that many
/// blank lines enter at the region's top.
pub proof fn lemma_region_scroll_down_lines(g: GridModel, n: usize, top: usize, bottom: usize, r: int)
    requires
        g.well_formed(),
        0 <= r < g.rows,
    ensures
        ({
            let after = g.region_scrolled_down(n, top, bottom);
            let k = GridModel::region_amount(n, top, bottom);
            &&& after.cells.len() == g.cells.len()
            &&& (r < top || r > bottom || !g.region_scroll_applies(n, top, bottom)) ==> after.cells[r]
                == g.cells[r]
            &&& g.region_scroll_applies(n, top, bottom) && top + k <= r <= bottom ==> after.cells[r]
                == g.cells[r - k]
            &&& g.region_scroll_applies(n, top, bottom) && top <= r < top + k ==> after.cells[r]
                == blank_cells(g.cols as nat)
        }),
{
}

/// Resizing keeps the content both sizes share; cells outside the old grid
/// are blank; the cursor ends inside the new grid (when it has cells).
pub proof fn lemma_resize_keeps_overlap(g: GridModel, new_cols: usize, new_rows: usize, r: int, c: int)
    requires
        g.well_formed(),
        0 <= r < new_rows,
        0 <= c < new_cols,
    ensures
        cell_at(g.resized(new_cols, new_rows).cells, r, c) == if r < g.rows && c < g.cols {
            cell_at(g.cells, r, c)
        } else {
            Some(default_cell())
        },
        g.resized(new_cols, new_rows).cursor.row < new_rows,
        g.resized(new_cols, new_rows).cursor.col < new_cols,
        g.resized(new_cols, new_rows).well_formed(),
{
}

/// Clearing the screen blanks every cell and empties the scrollback.
pub proof fn lemma_clear_screen_blanks(g: GridModel, r: int, c: int)
    requires
        0 <= r < g.rows,
        0 <= c < g.cols,
    ensures
        cell_at(g.after_clear_screen().cells, r, c) == Some(default_cell()),
        g.after_clear_screen().scrollback.len() == 0,
{
}

/// Moving the cursor always lands inside a grid that has cells.
pub proof fn lemma_move_cursor_in_bounds(g: GridModel, row: usize, col: usize)
    requires
        g.rows > 0,
        g.cols > 0,
    ensures
        g.cursor_moved(row, col).cursor.row < g.rows,
        g.cursor_moved(row, col).cursor.col < g.cols,
        row < g.rows && col < g.cols ==> g.cursor_moved(row, col).cursor == (Cursor { row, col }),
{
}

/// The history never holds more than its bound: scrolling up keeps at most
/// `max_scrollback` lines, the newest ones, in order.
pub proof fn lemma_scroll_up_bounds_history(g: GridModel, n: usize)
    requires
        g.well_formed(),
    ensures
        g.scrolled_up(n).scrollback.len() <= g.max_scrollback,
        g.scrolled_up(n).well_formed(),
{
    if n != 0 && g.rows != 0 {
        let k = g.scroll_amount(n) as int;
        let all = g.scrollback + g.cells.take(k);
        assert(keep_last(all, g.max_scrollback as nat).len() <= g.max_scrollback);
        let after = g.scrolled_up(n);
        assert forall|i: int| 0 <= i < after.rows implies #[trigger] after.cells[i].len() == after.cols by {
            if i < g.rows - k {
                assert(after.cells[i] == g.cells[i + k]);
            }
        }
    }
}

/// What a saved cursor state holds: cursor and pen.
pub open spec fn saved_state(g: GridModel) -> (Cursor, TextAttributes, Color, Color) {
    (g.cursor, g.attributes, g.fg, g.bg)
}

/// The grid with a saved cursor state put back.
pub open spec fn restored(g: GridModel, s: (Cursor, TextAttributes, Color, Color)) -> GridModel {
    GridModel { cursor: s.0, attributes: s.1, fg: s.2, bg: s.3, ..g }
}

/// Restoring what was saved brings back the cursor and pen of the moment of
/// saving, whatever happened in between, and leaves the contents alone.
pub proof fn lemma_save_restore_roundtrip(at_save: GridModel, at_restore: GridModel)
    ensures
        restored(at_restore, saved_state(at_save)).cursor == at_save.cursor,
        restored(at_restore, saved_state(at_save)).attributes == at_save.attributes,
        restored(at_restore, saved_state(at_save)).fg == at_save.fg,
        restored(at_restore, saved_state(at_save)).bg == at_save.bg,
        restored(at_restore, saved_state(at_save)).cells == at_restore.cells,
{
}

/// Implement TerminalOutput trait to allow the parser to write directly to the grid.
///
/// Each operation is the grid's own; an operation whose input the grid
/// cannot take (for instance a character on a grid with no rows while the
/// cursor waits to wrap) leaves the grid as it is.
impl GridModel {
    /// The grid after the sink operation that `cmd` names. An operation whose
    /// grid method would not apply (a write or scroll with no room, a tab
    /// stop past `usize::MAX`) leaves the grid as it is; a relative move is
    /// no sink operation and changes nothing here.
    pub open spec fn after_output(self, cmd: OutputCommand) -> GridModel {
        let g = self;
        match cmd {
            OutputCommand::PutChar(c) => if g.can_put_char() {
                g.after_put_char(c)
            } else {
                g
            },
            OutputCommand::Backspace => GridModel {
                cursor: Cursor {
                    row: g.cursor.row,
                    col: if g.cursor.col > 0 {
                        (g.cursor.col - 1) as usize
                    } else {
                        0
                    },
                },
                ..g
            },
            OutputCommand::Tab => {
                let next = (g.cursor.col / 8 + 1) * 8;
                if next <= usize::MAX && (next >= g.cols ==> g.cols > 0) {
                    GridModel {
                        cursor: Cursor {
                            row: g.cursor.row,
                            col: if next >= g.cols {
                                (g.cols - 1) as usize
                            } else {
                                next as usize
                            },
                        },
                        ..g
                    }
                } else {
                    g
                }
            },
            OutputCommand::LinefeedInRegion { top, bottom } => if (g.cursor.row != bottom ==> g.rows
                > 0) && (g.cursor.row == bottom && g.region_scroll_applies(1, top, bottom) ==> g.cols
                > 0) {
                g.after_linefeed_in_region(top, bottom)
            } else {
                g
            },
            OutputCommand::CarriageReturn => GridModel {
                cursor: Cursor { row: g.cursor.row, col: 0 },
                ..g
            },
            OutputCommand::MoveCursor { row, col } => g.cursor_moved(row, col),
            OutputCommand::ClearScreen => g.after_clear_screen(),
            OutputCommand::ScrollUpInRegion { n, top, bottom } => if g.region_scroll_applies(
                n,
                top,
                bottom,
            ) ==> g.cols > 0 {
                g.region_scrolled_up(n, top, bottom)
            } else {
                g
            },
            OutputCommand::ScrollDownInRegion { n, top, bottom } => if g.region_scroll_applies(
                n,
                top,
                bottom,
            ) ==> g.cols > 0 {
                g.region_scrolled_down(n, top, bottom)
            } else {
                g
            },
            OutputCommand::EraseInDisplay(mode) => if (mode == 0 ==> g.rows > 0 && g.cols > 0
                && g.cursor.row < usize::MAX) && (mode == 1 ==> g.cursor.row <= g.rows && (
            g.cursor.row < g.rows ==> g.cols > 0)) {
                if mode == 0 {
                    g.after_clear_to_end_of_screen()
                } else if mode == 1 {
                    g.after_clear_to_start_of_screen()
                } else if mode == 2 {
                    g.after_clear_screen_keep_scrollback()
                } else if mode == 3 {
                    g.after_clear_screen()
                } else {
                    g
                }
            } else {
                g
            },
            OutputCommand::EraseInLine(mode) => if mode <= 2 && g.cursor.row < g.rows ==> g.cols
                > 0 {
                if mode == 0 {
                    g.after_clear_to_end_of_line()
                } else if mode == 1 {
                    g.after_clear_to_start_of_line()
                } else if mode == 2 {
                    g.after_clear_line()
                } else {
                    g
                }
            } else {
                g
            },
            _ => g,
        }
    }
}

impl TerminalOutput for TerminalGrid {
    open spec fn ready(&self) -> bool {
        self.wf()
    }

    open spec fn applied(v: GridModel, cmd: OutputCommand) -> GridModel {
        v.after_output(cmd)
    }

    open spec fn cursor_of(v: GridModel) -> (usize, usize) {
        (v.cursor.row, v.cursor.col)
    }

    fn put_char(&mut self, c: char)
        ensures
            old(self)@.cursor_in_bounds() ==> final(self)@.cursor_in_bounds(),
    {
        let ok = self.cursor.col < self.cols || (self.cursor.row < usize::MAX && (self.cursor.row
            + 1 < self.rows || (self.rows > 0 && self.max_scrollback > 0)));
        if ok {
            TerminalGrid::put_char(self, c);
        }
    }

    fn backspace(&mut self)
        ensures
            old(self)@.cursor_in_bounds() ==> final(self)@.cursor_in_bounds(),
    {
        TerminalGrid::backspace(self);
    }

    fn tab(&mut self)
        ensures
            old(self)@.cursor_in_bounds() ==> final(self)@.cursor_in_bounds(),
    {
        let q = self.cursor.col / 8;
        if q < usize::MAX / 8 {
            proof {
                assert((q + 1) * 8 <= usize::MAX) by (nonlinear_arith)
                    requires
                        q < usize::MAX / 8,
                ;
            }
            let next = (q + 1) * 8;
            if next < self.cols || self.cols > 0 {
                TerminalGrid::tab(self);
            }
        } else {
            proof {
                assert((q + 1) * 8 > usize::MAX) by (nonlinear_arith)
                    requires
                        q >= usize::MAX / 8,
                ;
            }
        }
    }

    fn linefeed_in_region(&mut self, top: usize, bottom: usize)
        ensures
            old(self)@.cursor_in_bounds() ==> final(self)@.cursor_in_bounds(),
    {
        let at_bottom = self.cursor.row == bottom;
        let applies = top < bottom && bottom < self.rows && self.rows != 0;
        if (at_bottom || self.rows > 0) && (!(at_bottom && applies) || self.cols > 0) {
            TerminalGrid::linefeed_in_region(self, top, bottom);
        }
    }

    fn carriage_return(&mut self)
        ensures
            old(self)@.cursor_in_bounds() ==> final(self)@.cursor_in_bounds(),
    {
        TerminalGrid::carriage_return(self);
    }

    fn move_cursor(&mut self, row: usize, col: usize)
        ensures
            old(self)@.cursor_in_bounds() ==> final(self)@.cursor_in_bounds(),
    {
        TerminalGrid::move_cursor(self, row, col);
    }

    fn clear_screen(&mut self)
        ensures
            old(self)@.cursor_in_bounds() ==> final(self)@.cursor_in_bounds(),
    {
        TerminalGrid::clear_screen(self);
    }

    fn cursor_position(&self) -> (p: (usize, usize)) {
        (self.cursor.row, self.cursor.col)
    }

    fn scroll_up_in_region(&mut self, n: usize, top: usize, bottom: usize)
        ensures
            old(self)@.cursor_in_bounds() ==> final(self)@.cursor_in_bounds(),
    {
        if !(n != 0 && self.rows != 0 && top < bottom && bottom < self.rows) || self.cols > 0 {
            TerminalGrid::scroll_up_in_region(self, n, top, bottom);
        }
    }

    fn scroll_down_in_region(&mut self, n: usize, top: usize, bottom: usize)
        ensures
            old(self)@.cursor_in_bounds() ==> final(self)@.cursor_in_bounds(),
    {
        if !(n != 0 && self.rows != 0 && top < bottom && bottom < self.rows) || self.cols > 0 {
            TerminalGrid::scroll_down_in_region(self, n, top, bottom);
        }
    }

    fn erase_in_display(&mut self, mode: u16)
        ensures
            final(self)@ == old(self)@.after_output(OutputCommand::EraseInDisplay(mode)),
            old(self)@.cursor_in_bounds() ==> final(self)@.cursor_in_bounds(),
    {
        let ok = if mode == 0 {
            self.rows > 0 && self.cols > 0 && self.cursor.row < usize::MAX
        } else if mode == 1 {
            self.cursor.row <= self.rows && (self.cursor.row >= self.rows || self.cols > 0)
        } else {
            true
        };
        if ok {
            TerminalGrid::erase_in_display(self, mode);
        }
    }

    fn erase_in_line(&mut self, mode: u16)
        ensures
            final(self)@ == old(self)@.after_output(OutputCommand::EraseInLine(mode)),
            old(self)@.cursor_in_bounds() ==> final(self)@.cursor_in_bounds(),
    {
        if !(mode <= 2 && self.cursor.row < self.rows) || self.cols > 0 {
            TerminalGrid::erase_in_line(self, mode);
        }
    }
}

} // verus!
