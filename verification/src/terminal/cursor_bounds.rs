//! The cursor stays on the screen: the grid operations that move the cursor
//! or change the screen's size keep it on a row of the screen and at most one
//! column past the last.
use vstd::prelude::*;
use crate::terminal::grid::{apply_batch, lemma_apply_batch_keeps_shape, restored, Cursor, GridModel};
use crate::terminal::parser::{Color, OutputCommand, TextAttributes};

verus! {

/// Writing keeps the cursor on the screen.
pub proof fn lemma_put_char_cursor(g: GridModel, c: char)
    ensures
        g.cursor_in_bounds() ==> g.after_put_char(c).cursor_in_bounds(),
{
}

/// Moving to a position keeps the cursor on the screen.
pub proof fn lemma_moved_cursor(g: GridModel, row: usize, col: usize)
    ensures
        g.cursor_in_bounds() ==> g.cursor_moved(row, col).cursor_in_bounds(),
{
}

/// Moving by deltas keeps the cursor on the screen.
pub proof fn lemma_moved_relative_cursor(g: GridModel, row_delta: isize, col_delta: isize)
    ensures
        g.cursor_in_bounds() ==> g.moved_relative(row_delta, col_delta).cursor_in_bounds(),
{
}

/// A back tab keeps the cursor on the screen.
pub proof fn lemma_back_tab_cursor(g: GridModel)
    ensures
        g.cursor_in_bounds() ==> g.back_tabbed().cursor_in_bounds(),
{
    let prev = if g.cursor.col > 0 { g.cursor.col - 1 } else { 0 };
    assert((prev / 8) * 8 <= prev) by (nonlinear_arith)
        requires
            prev >= 0,
    ;
}

/// A line feed keeps the cursor on the screen.
pub proof fn lemma_linefeed_cursor(g: GridModel)
    ensures
        g.cursor_in_bounds() ==> g.after_linefeed().cursor_in_bounds(),
{
}

/// Every operation the parser drives keeps the cursor on the screen.
pub proof fn lemma_output_cursor(g: GridModel, cmd: OutputCommand)
    ensures
        g.cursor_in_bounds() ==> g.after_output(cmd).cursor_in_bounds(),
{
    match cmd {
        OutputCommand::PutChar(ch) => {
            lemma_put_char_cursor(g, ch);
        },
        _ => {},
    }
}

/// Scrolling, inserting or deleting lines and clearing keep the cursor on
/// the screen.
pub proof fn lemma_scroll_cursor(g: GridModel, n: usize)
    ensures
        g.cursor_in_bounds() ==> g.scrolled_up(n).cursor_in_bounds(),
        g.cursor_in_bounds() ==> g.scrolled_down(n).cursor_in_bounds(),
        g.cursor_in_bounds() ==> g.lines_inserted(n).cursor_in_bounds(),
        g.cursor_in_bounds() ==> g.lines_deleted(n).cursor_in_bounds(),
{
}

/// Resizing to a non-empty size keeps the cursor on the screen.
pub proof fn lemma_resize_cursor(g: GridModel, new_cols: usize, new_rows: usize)
    ensures
        g.cursor_in_bounds() && new_cols > 0 && new_rows > 0 ==> g.resized(
            new_cols,
            new_rows,
        ).cursor_in_bounds(),
{
}

/// Leaving batch mode keeps the cursor on the screen.
pub proof fn lemma_flush_cursor(g: GridModel)
    ensures
        g.well_formed() && g.cursor_in_bounds() ==> apply_batch(
            g.batch_flushed(),
            g.batch_buffer,
        ).cursor_in_bounds(),
{
    if g.well_formed() {
        lemma_apply_batch_keeps_shape(g.batch_flushed(), g.batch_buffer);
    }
}

/// The cursor stays on a non-empty screen through every operation that
/// changes the grid: writing, moving (absolutely, relatively, by tab),
/// line feeds, scrolling, inserting and deleting lines, erasing, resizing to
/// a non-empty size, restoring a cursor saved on the screen, and leaving
/// batch mode. (Every other operation leaves cursor and size as they are.)
/// Each mutating method of [`TerminalGrid`] states this in its `ensures`,
/// so it holds over any sequence of calls.
pub proof fn lemma_cursor_stays_in_bounds(
    g: GridModel,
    c: char,
    row: usize,
    col: usize,
    row_delta: isize,
    col_delta: isize,
    n: usize,
    cmd: OutputCommand,
    new_cols: usize,
    new_rows: usize,
    saved: (Cursor, TextAttributes, Color, Color),
)
    requires
        g.well_formed(),
        g.cursor_in_bounds(),
    ensures
        g.after_put_char(c).cursor_in_bounds(),
        g.cursor_moved(row, col).cursor_in_bounds(),
        g.moved_relative(row_delta, col_delta).cursor_in_bounds(),
        g.back_tabbed().cursor_in_bounds(),
        g.after_linefeed().cursor_in_bounds(),
        g.after_output(cmd).cursor_in_bounds(),
        g.scrolled_up(n).cursor_in_bounds(),
        g.scrolled_down(n).cursor_in_bounds(),
        g.lines_inserted(n).cursor_in_bounds(),
        g.lines_deleted(n).cursor_in_bounds(),
        g.after_clear_screen_keep_scrollback().cursor_in_bounds(),
        new_cols > 0 && new_rows > 0 ==> g.resized(new_cols, new_rows).cursor_in_bounds(),
        saved.0.row < g.rows && saved.0.col <= g.cols ==> restored(g, saved).cursor_in_bounds(),
        apply_batch(g.batch_flushed(), g.batch_buffer).cursor_in_bounds(),
{
    lemma_put_char_cursor(g, c);
    lemma_moved_cursor(g, row, col);
    lemma_moved_relative_cursor(g, row_delta, col_delta);
    lemma_back_tab_cursor(g);
    lemma_linefeed_cursor(g);
    lemma_output_cursor(g, cmd);
    lemma_scroll_cursor(g, n);
    lemma_resize_cursor(g, new_cols, new_rows);
    lemma_flush_cursor(g);
}

} // verus!
