//! What holds of every sketch: the laws of the grid, of touching and of
//! repainting, stated over the mathematical content of a model.

use crate::color::Rgb;
use crate::draw::DrawCommand;
use crate::draw::RepaintPolicy;
use crate::layout::cells_needed;
use crate::layout::lemma_axis_covers;
use crate::layout::lemma_axis_index_holds;
use crate::layout::lemma_axis_is_centred;
use crate::layout::lemma_cells_needed_is_ceiling;
use crate::sketch::touched_in_column;
use crate::sketch::touched_in_columns;
use crate::sketch::ModelView;
use crate::sketch::SiqRect;
use crate::sketch::TouchRule;
use crate::sketch::WindowEvent;
use vstd::prelude::*;

verus! {

/// A touch keeps the grid's dimensions and every cell's place.
pub proof fn lemma_touch_keeps_wf(model: ModelView, col: int, row: int)
    requires
        model.wf(),
    ensures
        model.touch(col, row).wf(),
        model.touch(col, row).cols == model.cols,
        model.touch(col, row).rows == model.rows,
        forall|c: int, r: int|
            model.in_grid(c, r) ==> (#[trigger] model.touch(col, row).cells[c][r]).rect
                == model.cells[c][r].rect,
{
    let after = model.touch(col, row);
    if model.in_grid(col, row) {
        assert forall|c: int| 0 <= c < after.cols implies (#[trigger] after.cells[c]).len()
            == after.rows by {
            assert(model.cells[c].len() == model.rows);
        }
        assert forall|c: int, r: int| 0 <= c < after.cols && 0 <= r < after.rows implies (
        #[trigger] after.cells[c][r]).rect.is_cell(
            c,
            r,
            after.cols as int,
            after.rows as int,
            after.cell_width,
            after.cell_height,
        ) && after.cells[c][r].rect == model.cells[c][r].rect by {
            assert(model.cells[c].len() == model.rows);
            assert(model.cells[col].len() == model.rows);
            assert(model.cells[c][r].rect.is_cell(
                c,
                r,
                model.cols as int,
                model.rows as int,
                model.cell_width,
                model.cell_height,
            ));
        }
    }
}

/// [`ModelView::cell_at`] names a cell exactly when that cell is in the grid
/// and its rectangle holds the point: a point of the grid's box lies in one
/// cell and no more, and a point outside it in none.
pub proof fn lemma_cell_at_holds(model: ModelView, x2: int, y2: int, col: int, row: int)
    requires
        model.wf(),
    ensures
        model.cell_at(x2, y2) == Some((col, row)) <==> model.in_grid(col, row)
            && model.cells[col][row].rect.holds(x2, y2),
{
    let cols = model.cols as int;
    let rows = model.rows as int;
    lemma_axis_index_holds(x2, cols, model.cell_width, col);
    lemma_axis_index_holds(y2, rows, model.cell_height, row);
    if model.in_grid(col, row) {
        assert(model.cells[col][row].rect.is_cell(
            col,
            row,
            cols,
            rows,
            model.cell_width,
            model.cell_height,
        ));
    }
}

/// Replacing one cell of a column changes the column's count by the
/// difference between the two cells.
pub proof fn lemma_column_count_update(column: Seq<SiqRect>, row: int, cell: SiqRect)
    requires
        0 <= row < column.len(),
    ensures
        touched_in_column(column.update(row, cell)) + (if column[row].touched {
            1nat
        } else {
            0nat
        }) == touched_in_column(column) + (if cell.touched {
            1nat
        } else {
            0nat
        }),
    decreases column.len(),
{
    let updated = column.update(row, cell);
    if row == column.len() - 1 {
        assert(updated.drop_last() =~= column.drop_last());
    } else {
        assert(updated.drop_last() =~= column.drop_last().update(row, cell));
        lemma_column_count_update(column.drop_last(), row, cell);
    }
}

/// Replacing one column changes the count by the difference between the
/// two columns.
pub proof fn lemma_columns_count_update(
    columns: Seq<Seq<SiqRect>>,
    col: int,
    column: Seq<SiqRect>,
)
    requires
        0 <= col < columns.len(),
    ensures
        touched_in_columns(columns.update(col, column)) + touched_in_column(columns[col])
            == touched_in_columns(columns) + touched_in_column(column),
    decreases columns.len(),
{
    let updated = columns.update(col, column);
    if col == columns.len() - 1 {
        assert(updated.drop_last() =~= columns.drop_last());
    } else {
        assert(updated.drop_last() =~= columns.drop_last().update(col, column));
        lemma_columns_count_update(columns.drop_last(), col, column);
    }
}

/// Touching a cell of the grid raises the number of touched cells by one
/// if the cell was untouched, and leaves it as it is otherwise. Every other
/// cell stays as it was.
pub proof fn lemma_touch_counts(model: ModelView, col: int, row: int)
    requires
        model.wf(),
        model.in_grid(col, row),
    ensures
        model.touch(col, row).cells[col][row].touched,
        model.touch(col, row).touched_count() == model.touched_count() + (if model.cells[col][row].touched {
            0nat
        } else {
            1nat
        }),
        forall|c: int, r: int|
            model.in_grid(c, r) && (c != col || r != row) ==> (#[trigger] model.touch(
                col,
                row,
            ).cells[c][r]) == model.cells[c][r],
{
    let cell = model.cells[col][row].touch(model.policy);
    assert(model.cells[col].len() == model.rows);
    lemma_column_count_update(model.cells[col], row, cell);
    lemma_columns_count_update(model.cells, col, model.cells[col].update(row, cell));
    assert forall|c: int, r: int| model.in_grid(c, r) && (c != col || r != row) implies (
    #[trigger] model.touch(col, row).cells[c][r]) == model.cells[c][r] by {
        assert(model.cells[c].len() == model.rows);
    }
}

/// Reacting to an event touches one cell of the grid or changes nothing: no
/// cell loses its mark, at most one gains it, and the number of touched
/// cells never decreases. The grid keeps its dimensions and every cell its
/// place.
pub proof fn lemma_reaction_touches_one(model: ModelView, event: WindowEvent, after: ModelView)
    requires
        model.wf(),
        model.reacts(event, after),
    ensures
        after.wf(),
        after == model || exists|c: int, r: int|
            model.in_grid(c, r) && after == #[trigger] model.touch(c, r),
        model.touched_count() <= after.touched_count() <= model.touched_count() + 1,
        after.cols == model.cols,
        after.rows == model.rows,
        forall|c: int, r: int|
            model.in_grid(c, r) ==> {
                &&& (#[trigger] after.cells[c][r]).rect == model.cells[c][r].rect
                &&& model.cells[c][r].touched ==> after.cells[c][r].touched
            },
{
    if after != model {
        let (col, row) = match event {
            WindowEvent::MouseMoved { x2, y2 } => match model.touch_rule {
                TouchRule::Random => choose|c: int, r: int|
                    model.in_grid(c, r) && after == #[trigger] model.touch(c, r),
                TouchRule::UnderPointer => model.cell_at(x2 as int, y2 as int).unwrap(),
            },
            WindowEvent::Other => (0, 0),
        };
        if let WindowEvent::MouseMoved { x2, y2 } = event {
            lemma_cell_at_holds(model, x2 as int, y2 as int, col, row);
        }
        assert(model.in_grid(col, row) && after == model.touch(col, row));
        lemma_touch_keeps_wf(model, col, row);
        lemma_touch_counts(model, col, row);
        assert forall|c: int, r: int| model.in_grid(c, r) implies {
            &&& (#[trigger] after.cells[c][r]).rect == model.cells[c][r].rect
            &&& model.cells[c][r].touched ==> after.cells[c][r].touched
        } by {
            assert(model.cells[c].len() == model.rows);
        }
    }
}

/// Touching a cell twice is touching it once.
pub proof fn lemma_touch_is_idempotent(model: ModelView, col: int, row: int)
    requires
        model.wf(),
    ensures
        model.touch(col, row).touch(col, row) == model.touch(col, row),
{
    if model.in_grid(col, row) {
        assert(model.cells[col].len() == model.rows);
        assert(model.touch(col, row).touch(col, row).cells =~~= model.touch(col, row).cells);
    }
}

/// Columns of one common length hold, together, that length times their
/// number of cells.
proof fn lemma_flatten_len(columns: Seq<Seq<SiqRect>>, rows: nat)
    requires
        forall|c: int| 0 <= c < columns.len() ==> (#[trigger] columns[c]).len() == rows,
    ensures
        columns.flatten().len() == columns.len() * rows,
    decreases columns.len(),
{
    if columns.len() == 0 {
        assert(columns.flatten() =~= Seq::<SiqRect>::empty());
    } else {
        let front = columns.drop_last();
        lemma_flatten_len(front, rows);
        assert(columns =~= front.push(columns.last()));
        front.lemma_flatten_push(columns.last());
        assert(columns.len() * rows == front.len() * rows + rows) by (nonlinear_arith)
            requires
                columns.len() == front.len() + 1,
        ;
    }
}

/// A grid holds exactly as many cells as its columns times its rows, and
/// these are the ceilings of the window's extents over the cell's.
pub proof fn lemma_cell_count(model: ModelView)
    requires
        model.wf(),
    ensures
        model.cols == cells_needed(model.window_width, model.cell_width),
        model.rows == cells_needed(model.window_height, model.cell_height),
        model.cell_count() == model.cols * model.rows,
{
    lemma_flatten_len(model.cells, model.rows);
}

/// A column without a touched cell counts none.
proof fn lemma_column_count_zero(column: Seq<SiqRect>)
    requires
        forall|r: int| 0 <= r < column.len() ==> !(#[trigger] column[r]).touched,
    ensures
        touched_in_column(column) == 0,
    decreases column.len(),
{
    if column.len() > 0 {
        let front = column.drop_last();
        assert forall|r: int| 0 <= r < front.len() implies !(#[trigger] front[r]).touched by {
            assert(front[r] == column[r]);
        }
        lemma_column_count_zero(front);
    }
}

/// Columns without a touched cell count none.
proof fn lemma_columns_count_zero(columns: Seq<Seq<SiqRect>>)
    requires
        forall|c: int, r: int|
            0 <= c < columns.len() && 0 <= r < columns[c].len() ==> !(
            #[trigger] columns[c][r]).touched,
    ensures
        touched_in_columns(columns) == 0,
    decreases columns.len(),
{
    if columns.len() > 0 {
        let front = columns.drop_last();
        assert forall|c: int, r: int| 0 <= c < front.len() && 0 <= r < front[c].len() implies !(
        #[trigger] front[c][r]).touched by {
            assert(front[c] == columns[c]);
            assert(!columns[c][r].touched);
        }
        lemma_columns_count_zero(front);
        let last = columns.last();
        assert forall|r: int| 0 <= r < last.len() implies !(#[trigger] last[r]).touched by {
            assert(!columns[columns.len() - 1][r].touched);
        }
        lemma_column_count_zero(last);
    }
}

/// A grid in which no cell has been touched counts no touched cell: so it
/// is with every grid that has just been built.
pub proof fn lemma_untouched_counts_zero(model: ModelView)
    requires
        model.wf(),
        model.untouched(),
    ensures
        model.touched_count() == 0,
{
    assert forall|c: int, r: int|
        0 <= c < model.cells.len() && 0 <= r < model.cells[c].len() implies !(
    #[trigger] model.cells[c][r]).touched by {
        assert(model.cells[c].len() == model.rows);
    }
    lemma_columns_count_zero(model.cells);
}

/// A column holds no more touched cells than cells.
proof fn lemma_column_count_bounded(column: Seq<SiqRect>)
    ensures
        touched_in_column(column) <= column.len(),
    decreases column.len(),
{
    if column.len() > 0 {
        lemma_column_count_bounded(column.drop_last());
    }
}

/// Columns of one common length hold no more touched cells than cells.
proof fn lemma_columns_count_bounded(columns: Seq<Seq<SiqRect>>, rows: nat)
    requires
        forall|c: int| 0 <= c < columns.len() ==> (#[trigger] columns[c]).len() == rows,
    ensures
        touched_in_columns(columns) <= columns.len() * rows,
    decreases columns.len(),
{
    if columns.len() > 0 {
        let front = columns.drop_last();
        lemma_columns_count_bounded(front, rows);
        lemma_column_count_bounded(columns.last());
        assert(columns.len() * rows == front.len() * rows + rows) by (nonlinear_arith)
            requires
                columns.len() == front.len() + 1,
        ;
    }
}

/// No more cells are touched than the grid holds.
pub proof fn lemma_touched_count_bounded(model: ModelView)
    requires
        model.wf(),
    ensures
        model.touched_count() <= model.cols * model.rows,
{
    lemma_columns_count_bounded(model.cells, model.rows);
}

/// The grid is centred on the window's centre, the origin: its first and
/// its last cell span the box that holds every cell, and the edges of that
/// box lie opposite each other. The box covers the window, and on each side
/// it overshoots the window by less than one cell.
pub proof fn lemma_grid_is_centred(model: ModelView)
    requires
        model.wf(),
        model.cols > 0,
        model.rows > 0,
    ensures
        ({
            let first = model.cells[0][0].rect;
            let last = model.cells[model.cols - 1][model.rows - 1].rect;
            &&& first.left2() + last.right2() == 0
            &&& first.bottom2() + last.top2() == 0
            &&& forall|c: int, r: int|
                model.in_grid(c, r) ==> {
                    let rect = (#[trigger] model.cells[c][r]).rect;
                    &&& first.left2() <= rect.left2()
                    &&& rect.right2() <= last.right2()
                    &&& first.bottom2() <= rect.bottom2()
                    &&& rect.top2() <= last.top2()
                }
            &&& model.window_width <= last.right2() < model.window_width + model.cell_width
            &&& model.window_height <= last.top2() < model.window_height + model.cell_height
        }),
{
    let cols = model.cols as int;
    let rows = model.rows as int;
    let cw = model.cell_width;
    let ch = model.cell_height;
    let first = model.cells[0][0].rect;
    let last = model.cells[cols - 1][rows - 1].rect;
    assert(first.is_cell(0, 0, cols, rows, cw, ch));
    assert(last.is_cell(cols - 1, rows - 1, cols, rows, cw, ch));
    lemma_axis_covers(model.window_width, cw);
    lemma_axis_covers(model.window_height, ch);
    lemma_axis_is_centred(0, cols, cw);
    lemma_axis_is_centred(cols - 1, cols, cw);
    lemma_axis_is_centred(0, rows, ch);
    lemma_axis_is_centred(rows - 1, rows, ch);
    assert forall|c: int, r: int| model.in_grid(c, r) implies ({
        let rect = (#[trigger] model.cells[c][r]).rect;
        &&& first.left2() <= rect.left2()
        &&& rect.right2() <= last.right2()
        &&& first.bottom2() <= rect.bottom2()
        &&& rect.top2() <= last.top2()
    }) by {
        assert(model.cells[c][r].rect.is_cell(c, r, cols, rows, cw, ch));
        lemma_axis_is_centred(c, cols, cw);
        lemma_axis_is_centred(r, rows, ch);
    }
}

/// Neighbouring cells are one whole cell apart: each cell's right edge is
/// the left edge of the next column's cell, and its top edge the bottom edge
/// of the next row's.
pub proof fn lemma_cells_adjoin(model: ModelView, col: int, row: int)
    requires
        model.wf(),
        model.in_grid(col, row),
    ensures
        col + 1 < model.cols ==> model.cells[col + 1][row].rect.left2()
            == model.cells[col][row].rect.right2(),
        row + 1 < model.rows ==> model.cells[col][row + 1].rect.bottom2()
            == model.cells[col][row].rect.top2(),
{
    let cols = model.cols as int;
    let rows = model.rows as int;
    let cw = model.cell_width;
    let ch = model.cell_height;
    assert(model.cells[col][row].rect.is_cell(col, row, cols, rows, cw, ch));
    if col + 1 < cols {
        assert(model.cells[col + 1][row].rect.is_cell(col + 1, row, cols, rows, cw, ch));
        assert(cw * (2 * (col + 1) + 1 - cols) - cw == cw * (2 * col + 1 - cols) + cw)
            by (nonlinear_arith);
    }
    if row + 1 < rows {
        assert(model.cells[col][row + 1].rect.is_cell(col, row + 1, cols, rows, cw, ch));
        assert(ch * (2 * (row + 1) + 1 - rows) - ch == ch * (2 * row + 1 - rows) + ch)
            by (nonlinear_arith);
    }
}

/// Two grids built for the same window and the same cell size have the same
/// geometry: the same dimensions, and every cell in the same place. Colours
/// and touches may differ.
pub proof fn lemma_geometry_is_determined(first: ModelView, second: ModelView)
    requires
        first.wf(),
        second.wf(),
        first.window_width == second.window_width,
        first.window_height == second.window_height,
        first.cell_width == second.cell_width,
        first.cell_height == second.cell_height,
    ensures
        first.cols == second.cols,
        first.rows == second.rows,
        forall|c: int, r: int|
            first.in_grid(c, r) ==> (#[trigger] first.cells[c][r]).rect == second.cells[c][r].rect,
{
    assert forall|c: int, r: int| first.in_grid(c, r) implies (#[trigger] first.cells[c][r]).rect
        == second.cells[c][r].rect by {
        assert(first.cells[c][r].rect.is_cell(
            c,
            r,
            first.cols as int,
            first.rows as int,
            first.cell_width,
            first.cell_height,
        ));
        assert(second.cells[c][r].rect.is_cell(
            c,
            r,
            first.cols as int,
            first.rows as int,
            first.cell_width,
            first.cell_height,
        ));
    }
}

/// Under [`RepaintPolicy::RandomUnlessPinned`] a touched cell is filled with
/// its stored colour in every frame, so any two frames of one model fill it
/// alike.
pub proof fn lemma_pinned_fill_is_stable(
    model: ModelView,
    first: Seq<DrawCommand>,
    second: Seq<DrawCommand>,
    col: int,
    row: int,
)
    requires
        model.is_frame(first),
        model.is_frame(second),
        model.in_grid(col, row),
        model.policy == RepaintPolicy::RandomUnlessPinned,
        model.cells[col][row].touched,
    ensures
        first[1 + 2 * model.rank(col, row)] == second[1 + 2 * model.rank(col, row)],
        first[1 + 2 * model.rank(col, row)] == (DrawCommand::Rectangle {
            rect: model.cells[col][row].rect,
            color: model.cells[col][row].color,
        }),
{
    assert(model.draws_cell(first, col, row));
    assert(model.draws_cell(second, col, row));
}

/// Under [`RepaintPolicy::BlackUntilTouched`] an untouched cell is filled
/// with black in every frame.
pub proof fn lemma_untouched_fill_is_black(
    model: ModelView,
    frame: Seq<DrawCommand>,
    col: int,
    row: int,
)
    requires
        model.is_frame(frame),
        model.in_grid(col, row),
        model.policy == RepaintPolicy::BlackUntilTouched,
        !model.cells[col][row].touched,
    ensures
        frame[1 + 2 * model.rank(col, row)] == (DrawCommand::Rectangle {
            rect: model.cells[col][row].rect,
            color: Rgb::black(),
        }),
{
    assert(model.draws_cell(frame, col, row));
}

/// Where the policy fixes no fill colour for a cell, a frame stays a frame
/// whatever colour the cell is filled with: the cell may show a different
/// colour in every frame.
pub proof fn lemma_free_fill_is_any(
    model: ModelView,
    frame: Seq<DrawCommand>,
    col: int,
    row: int,
    color: Rgb,
)
    requires
        model.wf(),
        model.is_frame(frame),
        model.in_grid(col, row),
        model.cells[col][row].fixed_fill(model.policy) is None,
    ensures
        model.is_frame(
            frame.update(
                1 + 2 * model.rank(col, row),
                DrawCommand::Rectangle { rect: model.cells[col][row].rect, color },
            ),
        ),
{
    let place = 1 + 2 * model.rank(col, row);
    let repainted = frame.update(
        place,
        DrawCommand::Rectangle { rect: model.cells[col][row].rect, color },
    );
    lemma_rank_in_frame(model, col, row);
    assert forall|c: int, r: int| model.in_grid(c, r) implies #[trigger] model.draws_cell(
        repainted,
        c,
        r,
    ) by {
        assert(model.draws_cell(frame, c, r));
        lemma_rank_in_frame(model, c, r);
        let rows = model.rows as int;
        if c < col || (c == col && r < row) {
            lemma_rank_below(c, r, col, row, rows);
        } else if col < c || (col == c && row < r) {
            lemma_rank_below(col, row, c, r, rows);
        }
    }
}

/// The two commands of a cell lie inside the frame, after the background.
proof fn lemma_rank_in_frame(model: ModelView, col: int, row: int)
    requires
        model.in_grid(col, row),
    ensures
        0 <= model.rank(col, row) < model.cols * model.rows,
{
    lemma_rank_below(col, row, model.cols as int, 0, model.rows as int);
}

/// Cell (`c`, `r`) is drawn before the cell that column `i`, row `j` would
/// name as soon as it comes earlier in column order.
pub(crate) proof fn lemma_rank_below(c: int, r: int, i: int, j: int, rows: int)
    requires
        0 <= c,
        0 <= r < rows,
        0 <= j <= rows,
        c < i || (c == i && r < j),
    ensures
        0 <= c * rows + r < i * rows + j,
{
    assert(0 <= c * rows + r < i * rows + j) by (nonlinear_arith)
        requires
            0 <= c,
            0 <= r < rows,
            0 <= j <= rows,
            c < i || (c == i && r < j),
    ;
}

} // verus!
