//! What parsing terminal output does to the screen: inserted and deleted
//! lines, bright colors, and history shown when scrolled back.
use vstd::prelude::*;
use crate::terminal::grid::{blank_cells, cell_at, default_cell, TerminalGrid, lemma_region_scroll_down_lines, lemma_region_scroll_up_lines, GridModel};
use crate::terminal::parser::{command_result, param_or, sgr, sgr_code, sgr_from, Color, OutputCommand, ParserModel, Pen};

verus! {

/// Insert Lines (`CSI n L`) with the cursor on a row of the scroll region
/// above its bottom makes the screen open `k` blank lines at the cursor row
/// (`k` is `n`, at most the rows left down to the region's bottom): the
/// lines from the cursor row move down by `k`, those pushed past the
/// region's bottom are lost, and every line outside the region stays.
pub proof fn lemma_insert_lines_open_blank_rows(m: ParserModel, p: Seq<u16>, g: GridModel, r: int)
    requires
        g.well_formed(),
        g.cols > 0,
        m.region_top <= m.cursor.row < m.effective_bottom(g.rows),
        param_or(p, 0, 1) > 0,
        0 <= r < g.rows,
    ensures
        ({
            let cmds = m.out_csi(p, 'L', g.cols, g.rows).1;
            let row = m.cursor.row as int;
            let bottom = m.effective_bottom(g.rows) as int;
            let n = param_or(p, 0, 1) as int;
            let k = if n <= bottom - row + 1 { n } else { bottom - row + 1 };
            let after = g.after_output(cmds[0]);
            &&& cmds.len() == 1
            &&& row <= r < row + k ==> after.cells[r] == blank_cells(g.cols as nat)
            &&& row + k <= r <= bottom ==> after.cells[r] == g.cells[r - k]
            &&& (r < row || r > bottom) ==> after.cells[r] == g.cells[r]
        }),
{
    let row = m.cursor.row;
    let bottom = m.effective_bottom(g.rows);
    let n = param_or(p, 0, 1) as usize;
    lemma_region_scroll_down_lines(g, n, row, bottom, r);
}

/// Delete Lines (`CSI n M`) with the cursor on a row of the scroll region
/// above its bottom removes `k` lines at the cursor row (`k` is `n`, at most
/// the rows left down to the region's bottom): the lines below move up by
/// `k`, blank lines enter at the region's bottom, and every line outside
/// the region stays.
pub proof fn lemma_delete_lines_close_rows(m: ParserModel, p: Seq<u16>, g: GridModel, r: int)
    requires
        g.well_formed(),
        g.cols > 0,
        m.region_top <= m.cursor.row < m.effective_bottom(g.rows),
        param_or(p, 0, 1) > 0,
        0 <= r < g.rows,
    ensures
        ({
            let cmds = m.out_csi(p, 'M', g.cols, g.rows).1;
            let row = m.cursor.row as int;
            let bottom = m.effective_bottom(g.rows) as int;
            let n = param_or(p, 0, 1) as int;
            let k = if n <= bottom - row + 1 { n } else { bottom - row + 1 };
            let after = g.after_output(cmds[0]);
            &&& cmds.len() == 1
            &&& row <= r <= bottom - k ==> after.cells[r] == g.cells[r + k]
            &&& bottom - k < r <= bottom ==> after.cells[r] == blank_cells(g.cols as nat)
            &&& (r < row || r > bottom) ==> after.cells[r] == g.cells[r]
        }),
{
    let row = m.cursor.row;
    let bottom = m.effective_bottom(g.rows);
    let n = param_or(p, 0, 1) as usize;
    lemma_region_scroll_up_lines(g, n, row, bottom, r);
}

/// The bright foreground colors: SGR `c` for `90 <= c <= 97` selects the
/// palette color `c - 82` (8 to 15), and the plain SGR `c - 60` selects
/// `c - 90` (0 to 7); so a bright color never equals its plain one. The
/// same holds when the output is fed to a screen.
pub proof fn lemma_bright_foreground(m: ParserModel, c: u16, cols: usize, rows: usize)
    requires
        90 <= c <= 97,
    ensures
        m.csi(seq![c], 'm').fg == Color::Indexed((c - 82) as u8),
        m.csi(seq![(c - 60) as u16], 'm').fg == Color::Indexed((c - 90) as u8),
        m.csi(seq![c], 'm').fg != m.csi(seq![(c - 60) as u16], 'm').fg,
        m.out_csi(seq![c], 'm', cols, rows).0.fg == Color::Indexed((c - 82) as u8),
{
    let pen = m.pen();
    let bright = seq![c];
    let plain = seq![(c - 60) as u16];
    assert(sgr_code(pen, bright, 0) == (Pen { fg: Color::Indexed((c - 82) as u8), ..pen }, 0int));
    assert(sgr_from(Pen { fg: Color::Indexed((c - 82) as u8), ..pen }, bright, 1) == Pen { fg: Color::Indexed((c - 82) as u8), ..pen });
    assert(sgr(pen, bright).fg == Color::Indexed((c - 82) as u8));
    assert(sgr_code(pen, plain, 0) == (Pen { fg: Color::Indexed((c - 90) as u8), ..pen }, 0int));
    assert(sgr_from(Pen { fg: Color::Indexed((c - 90) as u8), ..pen }, plain, 1) == Pen { fg: Color::Indexed((c - 90) as u8), ..pen });
    assert(sgr(pen, plain).fg == Color::Indexed((c - 90) as u8));
}

/// The palette colors SGR selects: `30..=37` foreground and `40..=47`
/// background pick colors 0 to 7, `90..=97` and `100..=107` the bright
/// colors 8 to 15; each leaves the other color as it was, and a bright
/// background never equals the plain one it brightens.
pub proof fn lemma_palette_colors(m: ParserModel, c: u16)
    requires
        30 <= c <= 37,
    ensures
        m.csi(seq![c], 'm').fg == Color::Indexed((c - 30) as u8),
        m.csi(seq![c], 'm').bg == m.bg,
        m.csi(seq![(c + 10) as u16], 'm').bg == Color::Indexed((c - 30) as u8),
        m.csi(seq![(c + 10) as u16], 'm').fg == m.fg,
        m.csi(seq![(c + 60) as u16], 'm').fg == Color::Indexed((c - 22) as u8),
        m.csi(seq![(c + 60) as u16], 'm').bg == m.bg,
        m.csi(seq![(c + 70) as u16], 'm').bg == Color::Indexed((c - 22) as u8),
        m.csi(seq![(c + 70) as u16], 'm').fg == m.fg,
        m.csi(seq![(c + 70) as u16], 'm').bg != m.csi(seq![(c + 10) as u16], 'm').bg,
{
    let pen = m.pen();
    lemma_single_sgr(pen, c);
    lemma_single_sgr(pen, (c + 10) as u16);
    lemma_single_sgr(pen, (c + 60) as u16);
    lemma_single_sgr(pen, (c + 70) as u16);
}

/// A lone SGR code other than an extended color acts by itself.
proof fn lemma_single_sgr(pen: Pen, code: u16)
    requires
        code != 38,
        code != 48,
    ensures
        sgr(pen, seq![code]) == sgr_code(pen, seq![code], 0).0,
{
    let p = seq![code];
    let (next, j) = sgr_code(pen, p, 0);
    assert(j == 0);
    assert(sgr_from(next, p, 1) == next);
}

/// Relative cursor moves go their own way: `CSI n A` (up) and `CSI n F`
/// never raise the row, `B` (down) and `E` never lower it, `C` (forward)
/// never moves left and `D` (back) never right; each changes only its own
/// coordinate (`E`/`F` also return to column 0), and each moves when there
/// is room, so no two of up/down or forward/back agree.
pub proof fn lemma_cursor_moves_go_their_way(m: ParserModel, p: Seq<u16>)
    requires
        param_or(p, 0, 1) >= 1,
        m.cursor.row + param_or(p, 0, 1) <= usize::MAX,
        m.cursor.col + param_or(p, 0, 1) <= usize::MAX,
    ensures
        ({
            let c = m.cursor;
            let up = m.csi(p, 'A').cursor;
            let down = m.csi(p, 'B').cursor;
            let fwd = m.csi(p, 'C').cursor;
            let back = m.csi(p, 'D').cursor;
            let next = m.csi(p, 'E').cursor;
            let prev = m.csi(p, 'F').cursor;
            &&& up.row <= c.row && up.col == c.col && (c.row > 0 ==> up.row < c.row)
            &&& down.row > c.row && down.col == c.col
            &&& fwd.col > c.col && fwd.row == c.row
            &&& back.col <= c.col && back.row == c.row && (c.col > 0 ==> back.col < c.col)
            &&& next.row > c.row && next.col == 0
            &&& prev.row <= c.row && prev.col == 0 && (c.row > 0 ==> prev.row < c.row)
        }),
{
}

/// The same on a screen of `cols` × `rows`: up stays below the top limit it
/// starts under and moves when above it, down moves when above the bottom
/// limit, forward moves when left of the last column, back moves when right
/// of the first; each keeps the other coordinate.
pub proof fn lemma_output_cursor_moves_go_their_way(m: ParserModel, p: Seq<u16>, cols: usize, rows: usize)
    requires
        param_or(p, 0, 1) >= 1,
        cols > 0,
        m.out_csi_fits(p, 'B', cols, rows),
        m.out_csi_fits(p, 'C', cols, rows),
    ensures
        ({
            let c = m.cursor;
            let up = m.out_csi(p, 'A', cols, rows).0.cursor;
            let down = m.out_csi(p, 'B', cols, rows).0.cursor;
            let fwd = m.out_csi(p, 'C', cols, rows).0.cursor;
            let back = m.out_csi(p, 'D', cols, rows).0.cursor;
            &&& up.col == c.col && (m.top_limit() <= c.row ==> up.row <= c.row)
            &&& (m.top_limit() < c.row ==> up.row < c.row)
            &&& down.col == c.col && (c.row <= m.bottom_limit(rows) ==> down.row >= c.row)
            &&& (c.row < m.bottom_limit(rows) ==> down.row > c.row)
            &&& fwd.row == c.row && (c.col <= cols - 1 ==> fwd.col >= c.col)
            &&& (c.col < cols - 1 ==> fwd.col > c.col)
            &&& back.row == c.row && back.col <= c.col && (c.col > 0 ==> back.col < c.col)
        }),
{
}

/// Scrolling the screen up by `n` lines and then viewing `n` lines back
/// shows exactly the screen as it was: the top `n` view rows are the `n`
/// newest history lines (the ones that just scrolled off), in order, and
/// the rows below them are the live screen.
pub proof fn lemma_scrolled_back_view_shows_old_screen(g: GridModel, n: usize, r: int, c: int)
    requires
        g.well_formed(),
        1 <= n <= g.rows,
        n <= g.max_scrollback,
        0 <= r < g.rows,
        0 <= c < g.cols,
    ensures
        (GridModel { scroll_offset: n, ..g.scrolled_up(n) }).cell_with_scroll(r, c) == cell_at(g.cells, r, c),
{
    let h = g.scrolled_up(n);
    let whole = g.scrollback + g.cells.take(n as int);
    let sb = h.scrollback;
    assert(sb.len() >= n);
    assert(sb.skip(sb.len() - n) =~= g.cells.take(n as int)) by {
        if whole.len() > g.max_scrollback {
            assert(sb =~= whole.skip(whole.len() - g.max_scrollback));
        }
    }
    if r < n {
        assert(sb[sb.len() - n + r] == sb.skip(sb.len() - n)[r]);
        assert(sb[sb.len() - n + r] == g.cells[r]);
        assert(g.cells[r].len() == g.cols);
    } else {
        assert(h.cells[r - n] == g.cells[r]);
    }
}

/// The grid's own line insertion: `k` blank lines (`n`, at most the rows
/// from the cursor down) open at the cursor row, the lines from there move
/// down by `k` and the last ones drop off; rows above stay.
pub proof fn lemma_grid_insert_lines(g: GridModel, n: usize, r: int)
    requires
        g.well_formed(),
        g.cursor.row < g.rows,
        0 <= r < g.rows,
    ensures
        ({
            let row = g.cursor.row as int;
            let k = if n <= g.rows - row { n as int } else { g.rows - row };
            let after = g.lines_inserted(n);
            &&& after.cells.len() == g.rows
            &&& r < row ==> after.cells[r] == g.cells[r]
            &&& row <= r < row + k ==> after.cells[r] == blank_cells(g.cols as nat)
            &&& row + k <= r ==> after.cells[r] == g.cells[r - k]
        }),
{
}

/// The grid's own line deletion: `k` lines (`n`, at most the rows from the
/// cursor down) are removed at the cursor row, the lines below move up by
/// `k` and blank lines fill the bottom; rows above stay.
pub proof fn lemma_grid_delete_lines(g: GridModel, n: usize, r: int)
    requires
        g.well_formed(),
        g.cursor.row < g.rows,
        0 <= r < g.rows,
    ensures
        ({
            let row = g.cursor.row as int;
            let k = if n <= g.rows - row { n as int } else { g.rows - row };
            let after = g.lines_deleted(n);
            &&& after.cells.len() == g.rows
            &&& r < row ==> after.cells[r] == g.cells[r]
            &&& row <= r < g.rows - k ==> after.cells[r] == g.cells[r + k]
            &&& g.rows - k <= r ==> after.cells[r] == blank_cells(g.cols as nat)
        }),
{
}

/// Erasing in a line: mode 0 blanks the cursor's cell and everything to its
/// right, mode 1 the cursor's cell and everything to its left, mode 2 the
/// whole line; every other cell, and every other row, stays.
pub proof fn lemma_erase_in_line_sides(g: GridModel, r: int, j: int)
    requires
        g.well_formed(),
        g.cursor.row < g.rows,
        0 <= r < g.rows,
        0 <= j < g.cols,
    ensures
        ({
            let row = g.cursor.row as int;
            let col = g.cursor.col as int;
            let right = g.after_clear_to_end_of_line().cells;
            let left = g.after_clear_to_start_of_line().cells;
            let all = g.after_clear_line().cells;
            &&& r != row ==> right[r][j] == g.cells[r][j] && left[r][j] == g.cells[r][j] && all[r][j]
                == g.cells[r][j]
            &&& r == row && j >= col ==> right[r][j] == default_cell()
            &&& r == row && j < col ==> right[r][j] == g.cells[r][j]
            &&& r == row && j <= col ==> left[r][j] == default_cell()
            &&& r == row && j > col ==> left[r][j] == g.cells[r][j]
            &&& r == row ==> all[r][j] == default_cell()
        }),
{
}

/// Scroll Up (`CSI n S`) moves the region's content up: with `k` lines
/// scrolled (`n`, at most the region's height), region row `r` shows what
/// row `r + k` showed and the bottom `k` rows are blank. Scroll Down
/// (`CSI n T`) moves it down: row `r` shows row `r - k` and the top `k` rows
/// are blank. Rows outside the region stay.
pub proof fn lemma_scroll_commands_move_content(m: ParserModel, p: Seq<u16>, g: GridModel, r: int)
    requires
        g.well_formed(),
        g.cols > 0,
        m.region_top < m.effective_bottom(g.rows),
        param_or(p, 0, 1) > 0,
        0 <= r < g.rows,
    ensures
        ({
            let top = m.region_top as int;
            let bottom = m.effective_bottom(g.rows) as int;
            let n = param_or(p, 0, 1) as int;
            let k = if n <= bottom - top + 1 { n } else { bottom - top + 1 };
            let up_cmds = m.out_csi(p, 'S', g.cols, g.rows).1;
            let down_cmds = m.out_csi(p, 'T', g.cols, g.rows).1;
            let up = g.after_output(up_cmds[0]);
            let down = g.after_output(down_cmds[0]);
            &&& up_cmds.len() == 1 && down_cmds.len() == 1
            &&& top <= r <= bottom - k ==> up.cells[r] == g.cells[r + k]
            &&& bottom - k < r <= bottom ==> up.cells[r] == blank_cells(g.cols as nat)
            &&& top + k <= r <= bottom ==> down.cells[r] == g.cells[r - k]
            &&& top <= r < top + k ==> down.cells[r] == blank_cells(g.cols as nat)
            &&& (r < top || r > bottom) ==> up.cells[r] == g.cells[r] && down.cells[r] == g.cells[r]
        }),
{
    let n = param_or(p, 0, 1) as usize;
    let bottom = m.effective_bottom(g.rows);
    lemma_region_scroll_up_lines(g, n, m.region_top, bottom, r);
    lemma_region_scroll_down_lines(g, n, m.region_top, bottom, r);
}

/// Reverse index (`ESC M`) on the region's top line scrolls the region down
/// one line (a blank line opens at the top, the others move down); above
/// the top it moves the cursor up one row. Index (`ESC D`) below the
/// region's bottom and above the last row moves the cursor down one row.
pub proof fn lemma_index_and_reverse_index(m: ParserModel, g: GridModel, r: int)
    requires
        g.well_formed(),
        g.cols > 0,
        m.region_top < m.effective_bottom(g.rows),
        0 <= r < g.rows,
    ensures
        ({
            let top = m.region_top as int;
            let bottom = m.effective_bottom(g.rows) as int;
            let (ri, ri_cmds) = m.out_esc(0x4D, g.rows);
            let (ix, _) = m.out_esc(0x44, g.rows);
            &&& m.cursor.row == top ==> ri_cmds.len() == 1 && (top < r <= bottom ==> g.after_output(
                ri_cmds[0],
            ).cells[r] == g.cells[r - 1]) && g.after_output(ri_cmds[0]).cells[top] == blank_cells(
                g.cols as nat,
            )
            &&& m.cursor.row != top && m.cursor.row > 0 ==> ri.cursor.row == m.cursor.row - 1
                && ri.cursor.col == m.cursor.col
            &&& m.cursor.row != bottom && m.cursor.row + 1 < g.rows ==> ix.cursor.row == m.cursor.row
                + 1 && ix.cursor.col == m.cursor.col
        }),
{
    let bottom = m.effective_bottom(g.rows);
    lemma_region_scroll_down_lines(g, 1, m.region_top, bottom, r);
    lemma_region_scroll_down_lines(g, 1, m.region_top, bottom, m.region_top as int);
}

/// On the grid, the relative-move commands go their own way: up never
/// lowers the cursor (from at or below its limit) and moves it when there is
/// room, down never raises it, forward never moves it left, back never
/// right; each keeps the other coordinate.
pub proof fn lemma_grid_relative_moves(g: GridModel, n: usize, limit: usize)
    requires
        g.cursor_in_bounds(),
        g.cursor.col < g.cols,
        n >= 1,
        g.cursor.row + n <= usize::MAX,
        g.cursor.col + n <= usize::MAX,
    ensures
        ({
            let c = g.cursor;
            let up = command_result::<TerminalGrid>(g, OutputCommand::CursorUp { n, min_row: limit }).cursor;
            let down = command_result::<TerminalGrid>(g, OutputCommand::CursorDown { n, max_row: limit }).cursor;
            let fwd = command_result::<TerminalGrid>(g, OutputCommand::CursorForward { n, max_col: limit }).cursor;
            let back = command_result::<TerminalGrid>(g, OutputCommand::CursorBack { n }).cursor;
            &&& up.col == c.col && (limit <= c.row ==> up.row <= c.row) && (limit < c.row ==> up.row < c.row)
            &&& down.col == c.col && (c.row <= limit ==> down.row >= c.row)
            &&& (c.row < limit && c.row + 1 < g.rows ==> down.row > c.row)
            &&& fwd.row == c.row && (c.col <= limit ==> fwd.col >= c.col)
            &&& (c.col < limit && c.col + 1 < g.cols ==> fwd.col > c.col)
            &&& back.row == c.row && back.col <= c.col && (c.col > 0 ==> back.col < c.col)
        }),
{
}

/// Scrolling back one more line moves everything the view shows down one
/// row: at offset `k + 1`, view row `r + 1` shows what view row `r` showed at
/// offset `k` (while the history is long enough).
pub proof fn lemma_scrolling_back_shifts_view_down(g: GridModel, k: usize, r: int, c: int)
    requires
        g.well_formed(),
        k + 1 <= g.scrollback.len(),
        0 <= r,
        r + 1 < g.rows,
        0 <= c < g.cols,
    ensures
        (GridModel { scroll_offset: (k + 1) as usize, ..g }).cell_with_scroll(r + 1, c) == (GridModel {
            scroll_offset: k,
            ..g
        }).cell_with_scroll(r, c),
{
}

/// Erasing in the display through the screen sink: mode 0 blanks every row
/// below the cursor (and the cursor's row from its column on) and keeps the
/// rows above; mode 1 blanks every row above the cursor (and its row up to
/// its column) and keeps the rows below; mode 2 blanks the whole screen and
/// keeps the history; mode 3 blanks the screen and empties the history.
pub proof fn lemma_erase_in_display_modes(g: GridModel, r: int, j: int)
    requires
        g.well_formed(),
        g.cursor.row < g.rows,
        g.rows < usize::MAX,
        0 <= r < g.rows,
        0 <= j < g.cols,
    ensures
        ({
            let row = g.cursor.row as int;
            let col = g.cursor.col as int;
            let below = g.after_output(OutputCommand::EraseInDisplay(0)).cells;
            let above = g.after_output(OutputCommand::EraseInDisplay(1)).cells;
            let screen = g.after_output(OutputCommand::EraseInDisplay(2));
            let all = g.after_output(OutputCommand::EraseInDisplay(3));
            &&& r > row ==> below[r][j] == default_cell() && above[r][j] == g.cells[r][j]
            &&& r < row ==> below[r][j] == g.cells[r][j] && above[r][j] == default_cell()
            &&& r == row && j >= col ==> below[r][j] == default_cell()
            &&& r == row && j <= col ==> above[r][j] == default_cell()
            &&& screen.cells[r][j] == default_cell() && screen.scrollback == g.scrollback
            &&& all.cells[r][j] == default_cell() && all.scrollback.len() == 0
        }),
{
}

/// A full reset (`ESC c`) on a screen clears it, sends the cursor home,
/// resets the pen and the scroll region.
pub proof fn lemma_full_reset(m: ParserModel, g: GridModel, r: int, j: int)
    requires
        g.well_formed(),
        0 <= r < g.rows,
        0 <= j < g.cols,
    ensures
        ({
            let (after, cmds) = m.out_esc(0x63, g.rows);
            let screen = g.after_output(cmds[0]).after_output(cmds[1]);
            &&& cmds.len() == 2
            &&& screen.cells[r][j] == default_cell()
            &&& screen.cursor.row == 0 && screen.cursor.col == 0
            &&& after.cursor.row == 0 && after.cursor.col == 0
            &&& after.fg == Color::Default && after.bg == Color::Default
            &&& after.region_top == 0 && !after.origin_mode
        }),
{
}

/// SGR attribute codes: 1 bold, 3 italic, 4 underline, 7 reverse and 9
/// strikethrough each switch their own attribute on and leave the colors;
/// 23, 24, 27 and 29 switch the same ones off again.
pub proof fn lemma_sgr_attributes(m: ParserModel)
    ensures
        m.csi(seq![1u16], 'm').attributes.bold && m.csi(seq![1u16], 'm').fg == m.fg,
        m.csi(seq![3u16], 'm').attributes.italic && !m.csi(seq![23u16], 'm').attributes.italic,
        m.csi(seq![4u16], 'm').attributes.underline && !m.csi(seq![24u16], 'm').attributes.underline,
        m.csi(seq![7u16], 'm').attributes.reverse && !m.csi(seq![27u16], 'm').attributes.reverse,
        m.csi(seq![9u16], 'm').attributes.strikethrough && !m.csi(seq![29u16], 'm').attributes.strikethrough,
        m.csi(seq![3u16], 'm').attributes.underline == m.attributes.underline,
        m.csi(seq![4u16], 'm').attributes.italic == m.attributes.italic,
        !m.csi(seq![22u16], 'm').attributes.bold,
{
    let pen = m.pen();
    lemma_single_sgr(pen, 1);
    lemma_single_sgr(pen, 3);
    lemma_single_sgr(pen, 4);
    lemma_single_sgr(pen, 7);
    lemma_single_sgr(pen, 9);
    lemma_single_sgr(pen, 22);
    lemma_single_sgr(pen, 23);
    lemma_single_sgr(pen, 24);
    lemma_single_sgr(pen, 27);
    lemma_single_sgr(pen, 29);
}

} // verus!
