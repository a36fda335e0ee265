//! The sketch: the grid of cells, how it is built, painted and touched.

use crate::chance::is_alphanumeric;
use crate::chance::random_below;
use crate::chance::random_channel;
use crate::chance::random_letters;
use crate::color::Rgb;
use crate::draw::DrawCommand;
use crate::draw::RepaintPolicy;
use crate::draw::FONT_SIZE;
use crate::layout::axis_index;
use crate::layout::cell_center;
use crate::layout::cells_needed;
use crate::layout::center_doubled;
use crate::layout::count_cells;
use crate::layout::lemma_cells_needed_bounded;
use crate::layout::locate;
use crate::layout::Rect;
use crate::laws::lemma_cell_at_holds;
use crate::laws::lemma_cell_count;
use crate::laws::lemma_rank_below;
use crate::laws::lemma_touch_counts;
use crate::laws::lemma_touch_keeps_wf;
use crate::laws::lemma_untouched_counts_zero;
use vstd::prelude::*;

verus! {

/// Width of a cell.
pub const RECTANGLE_WIDTH: i32 = 16;

/// Height of a cell.
pub const RECTANGLE_HEIGHT: i32 = 24;

/// One cell of the grid.
#[derive(Clone, Copy, Debug, PartialEq, Eq, Structural)]
pub struct SiqRect {
    /// The colour stored for this cell.
    pub color: Rgb,
    /// Where the cell sits. Fixed when the grid is built.
    pub rect: Rect,
    /// Whether a pointer movement has marked this cell.
    pub touched: bool,
}

impl SiqRect {
    /// A cell that has not been touched yet.
    pub fn new(color: Rgb, rect: Rect) -> (cell: SiqRect)
        ensures
            cell == (SiqRect { color, rect, touched: false }),
    {
        SiqRect { color, rect, touched: false }
    }

    /// The fill colour that the policy fixes for this cell, or `None` where
    /// the policy asks for a fresh random colour in every frame.
    pub open spec fn spec_fixed_fill(&self, policy: RepaintPolicy) -> Option<Rgb> {
        match policy {
            RepaintPolicy::RandomUnlessPinned => if self.touched {
                Some(self.color)
            } else {
                None
            },
            RepaintPolicy::BlackUntilTouched => if self.touched {
                None
            } else {
                Some(Rgb::black())
            },
        }
    }

    /// Computes [`SiqRect::spec_fixed_fill`].
    #[verifier::when_used_as_spec(spec_fixed_fill)]
    pub fn fixed_fill(&self, policy: RepaintPolicy) -> (fill: Option<Rgb>)
        ensures
            fill == self.fixed_fill(policy),
    {
        match policy {
            RepaintPolicy::RandomUnlessPinned => if self.touched {
                Some(self.color)
            } else {
                None
            },
            RepaintPolicy::BlackUntilTouched => if self.touched {
                None
            } else {
                Some(Rgb::black())
            },
        }
    }

    /// The cell after a touch: marked, and under
    /// [`RepaintPolicy::RandomUnlessPinned`] with its colour pinned to black.
    /// Its place does not change.
    pub open spec fn spec_touch(self, policy: RepaintPolicy) -> SiqRect {
        SiqRect {
            color: match policy {
                RepaintPolicy::RandomUnlessPinned => Rgb::black(),
                RepaintPolicy::BlackUntilTouched => self.color,
            },
            rect: self.rect,
            touched: true,
        }
    }

    /// Computes [`SiqRect::spec_touch`].
    #[verifier::when_used_as_spec(spec_touch)]
    pub fn touch(self, policy: RepaintPolicy) -> (cell: SiqRect)
        ensures
            cell == self.touch(policy),
    {
        let color = match policy {
            RepaintPolicy::RandomUnlessPinned => Rgb::black(),
            RepaintPolicy::BlackUntilTouched => self.color,
        };
        SiqRect { color, rect: self.rect, touched: true }
    }

    /// `command` fills this cell's rectangle, with the colour that the policy
    /// fixes where it fixes one.
    pub open spec fn filled_by(&self, policy: RepaintPolicy, command: DrawCommand) -> bool {
        &&& command matches DrawCommand::Rectangle { rect, color }
        &&& rect == self.rect
        &&& (self.fixed_fill(policy) matches Some(fixed) ==> color == fixed)
    }

    /// `command` writes one letter or digit on the centre of this cell.
    pub open spec fn labelled_by(&self, command: DrawCommand) -> bool {
        &&& command matches DrawCommand::Text { text, x2, y2, font_size, color }
        &&& text@.len() == 1
        &&& is_alphanumeric(text@[0])
        &&& x2 == self.rect.x2
        &&& y2 == self.rect.y2
        &&& font_size == FONT_SIZE
    }
}

/// Number of touched cells in one column.
pub open spec fn touched_in_column(column: Seq<SiqRect>) -> nat
    decreases column.len(),
{
    if column.len() == 0 {
        0
    } else {
        touched_in_column(column.drop_last()) + if column.last().touched {
            1nat
        } else {
            0nat
        }
    }
}

/// Number of touched cells in a sequence of columns.
pub open spec fn touched_in_columns(columns: Seq<Seq<SiqRect>>) -> nat
    decreases columns.len(),
{
    if columns.len() == 0 {
        0
    } else {
        touched_in_columns(columns.drop_last()) + touched_in_column(columns.last())
    }
}

/// Which cell a pointer movement touches.
#[derive(Clone, Copy, Debug, PartialEq, Eq, Structural)]
pub enum TouchRule {
    /// A cell picked at random, wherever the pointer is.
    Random,
    /// The cell under the pointer, if there is one.
    UnderPointer,
}

/// What can reach the sketch from the window.
#[derive(Clone, Copy, Debug, PartialEq, Eq, Structural)]
pub enum WindowEvent {
    /// The pointer moved to (`x2`, `y2`), given in half units.
    MouseMoved { x2: i64, y2: i64 },
    /// Anything else.
    Other,
}

/// The mathematical content of a [`Model`].
pub struct ModelView {
    pub window_width: int,
    pub window_height: int,
    pub cell_width: int,
    pub cell_height: int,
    pub policy: RepaintPolicy,
    pub touch_rule: TouchRule,
    pub cols: nat,
    pub rows: nat,
    /// The cells, column by column: `cells[col][row]`.
    pub cells: Seq<Seq<SiqRect>>,
}

impl ModelView {
    /// The grid has the dimensions its window calls for, and every cell sits
    /// where the centred layout puts it.
    pub open spec fn wf(self) -> bool {
        &&& self.cols == cells_needed(self.window_width, self.cell_width)
        &&& self.rows == cells_needed(self.window_height, self.cell_height)
        &&& self.cells.len() == self.cols
        &&& forall|c: int| 0 <= c < self.cols ==> (#[trigger] self.cells[c]).len() == self.rows
        &&& forall|c: int, r: int|
            0 <= c < self.cols && 0 <= r < self.rows ==> (#[trigger] self.cells[c][r]).rect.is_cell(
                c,
                r,
                self.cols as int,
                self.rows as int,
                self.cell_width,
                self.cell_height,
            )
    }

    /// (`col`, `row`) names a cell of the grid.
    pub open spec fn in_grid(self, col: int, row: int) -> bool {
        0 <= col < self.cols && 0 <= row < self.rows
    }

    /// Place of cell (`col`, `row`) in the order in which cells are drawn:
    /// column after column, each from its first row to its last.
    pub open spec fn rank(self, col: int, row: int) -> int {
        col * self.rows + row
    }

    /// In `frame`, the two commands at the place of cell (`col`, `row`) fill
    /// it and then label it.
    pub open spec fn draws_cell(self, frame: Seq<DrawCommand>, col: int, row: int) -> bool {
        &&& self.cells[col][row].filled_by(self.policy, frame[1 + 2 * self.rank(col, row)])
        &&& self.cells[col][row].labelled_by(frame[2 + 2 * self.rank(col, row)])
    }

    /// `frame` is a rendering of this model: the canvas is cleared to black,
    /// then every cell is filled and labelled, in drawing order, and nothing
    /// else is drawn.
    pub open spec fn is_frame(self, frame: Seq<DrawCommand>) -> bool {
        &&& frame.len() == 1 + 2 * (self.cols * self.rows)
        &&& frame[0] == (DrawCommand::Background { color: Rgb::black() })
        &&& forall|c: int, r: int| self.in_grid(c, r) ==> #[trigger] self.draws_cell(frame, c, r)
    }

    /// The model after cell (`col`, `row`) is touched; the model itself where
    /// there is no such cell.
    pub open spec fn touch(self, col: int, row: int) -> ModelView {
        if self.in_grid(col, row) {
            ModelView {
                cells: self.cells.update(
                    col,
                    self.cells[col].update(row, self.cells[col][row].touch(self.policy)),
                ),
                ..self
            }
        } else {
            self
        }
    }

    /// Number of cells.
    pub open spec fn cell_count(self) -> nat {
        self.cells.flatten().len()
    }

    /// Number of touched cells.
    pub open spec fn touched_count(self) -> nat {
        touched_in_columns(self.cells)
    }

    /// The cell that holds the point (`x2`, `y2`), given in half units.
    pub open spec fn cell_at(self, x2: int, y2: int) -> Option<(int, int)> {
        match (
            axis_index(x2, self.cols as int, self.cell_width),
            axis_index(y2, self.rows as int, self.cell_height),
        ) {
            (Some(col), Some(row)) => Some((col, row)),
            _ => None,
        }
    }

    /// The model after the cell that holds the point (`x2`, `y2`) is
    /// touched; the model itself where no cell holds it.
    pub open spec fn touch_at(self, x2: int, y2: int) -> ModelView {
        match self.cell_at(x2, y2) {
            Some((col, row)) => self.touch(col, row),
            None => self,
        }
    }

    /// `after` is what touching a cell picked at random can make of this
    /// model: one cell of the grid has been touched, or nothing has changed
    /// because the grid has no cell.
    pub open spec fn touched_at_random(self, after: ModelView) -> bool {
        if self.cols == 0 || self.rows == 0 {
            after == self
        } else {
            exists|c: int, r: int| self.in_grid(c, r) && after == #[trigger] self.touch(c, r)
        }
    }

    /// `after` is what `event` can make of this model. A pointer movement
    /// touches a cell, chosen as the touch rule says; any other event
    /// changes nothing.
    pub open spec fn reacts(self, event: WindowEvent, after: ModelView) -> bool {
        match event {
            WindowEvent::MouseMoved { x2, y2 } => match self.touch_rule {
                TouchRule::Random => self.touched_at_random(after),
                TouchRule::UnderPointer => after == self.touch_at(x2 as int, y2 as int),
            },
            WindowEvent::Other => after == self,
        }
    }

    /// No cell has been touched.
    pub open spec fn untouched(self) -> bool {
        forall|c: int, r: int|
            0 <= c < self.cols && 0 <= r < self.rows ==> !(#[trigger] self.cells[c][r]).touched
    }
}

/// The state of the sketch: the window it was built for and its grid.
pub struct Model {
    /// width of the window
    window_width: i32,
    /// height of the window
    window_height: i32,
    /// width of a cell
    cell_width: i32,
    /// height of a cell
    cell_height: i32,
    /// how cells are painted and touched
    policy: RepaintPolicy,
    /// which cell a pointer movement touches
    touch_rule: TouchRule,
    /// number of columns
    num_cols: usize,
    /// number of rows
    num_rows: usize,
    /// the grid of rectangles, column by column
    grid: Vec<Vec<SiqRect>>,
}

impl View for Model {
    type V = ModelView;

    closed spec fn view(&self) -> ModelView {
        ModelView {
            window_width: self.window_width as int,
            window_height: self.window_height as int,
            cell_width: self.cell_width as int,
            cell_height: self.cell_height as int,
            policy: self.policy,
            touch_rule: self.touch_rule,
            cols: self.num_cols as nat,
            rows: self.num_rows as nat,
            cells: cells_of(self.grid@),
        }
    }
}

impl Model {
    /// Every model is well formed: constructors establish this and methods
    /// keep it.
    #[verifier::type_invariant]
    spec fn inv(&self) -> bool {
        self@.wf()
    }

    /// The grid for a window of the given size, with cells of
    /// [`RECTANGLE_WIDTH`] by [`RECTANGLE_HEIGHT`].
    pub fn new(
        window_width: i32,
        window_height: i32,
        policy: RepaintPolicy,
        touch_rule: TouchRule,
    ) -> (model: Model)
        ensures
            model@.wf(),
            model@.window_width == window_width,
            model@.window_height == window_height,
            model@.cell_width == RECTANGLE_WIDTH,
            model@.cell_height == RECTANGLE_HEIGHT,
            model@.policy == policy,
            model@.touch_rule == touch_rule,
            model@.cols == cells_needed(window_width as int, RECTANGLE_WIDTH as int),
            model@.rows == cells_needed(window_height as int, RECTANGLE_HEIGHT as int),
            model@.cell_count() == model@.cols * model@.rows,
            model@.untouched(),
            model@.touched_count() == 0,
    {
        Model::build_grid(
            window_width,
            window_height,
            RECTANGLE_WIDTH,
            RECTANGLE_HEIGHT,
            policy,
            touch_rule,
        )
    }

    /// Builds the grid that covers a window of the given size with cells of
    /// the given size, centred on the window's centre. Every cell starts
    /// untouched, with a random colour. A size that is not positive gives a
    /// grid without columns or without rows.
    pub fn build_grid(
        window_width: i32,
        window_height: i32,
        cell_width: i32,
        cell_height: i32,
        policy: RepaintPolicy,
        touch_rule: TouchRule,
    ) -> (model: Model)
        ensures
            model@.wf(),
            model@.window_width == window_width,
            model@.window_height == window_height,
            model@.cell_width == cell_width,
            model@.cell_height == cell_height,
            model@.policy == policy,
            model@.touch_rule == touch_rule,
            model@.cols == cells_needed(window_width as int, cell_width as int),
            model@.rows == cells_needed(window_height as int, cell_height as int),
            model@.cell_count() == model@.cols * model@.rows,
            model@.untouched(),
            model@.touched_count() == 0,
    {
        let num_cols = count_cells(window_width, cell_width);
        let num_rows = count_cells(window_height, cell_height);
        let mut grid: Vec<Vec<SiqRect>> = Vec::new();
        let mut i: usize = 0;
        while i < num_cols
            invariant
                i <= num_cols <= i32::MAX,
                num_rows <= i32::MAX,
                grid@.len() == i,
                forall|c: int| 0 <= c < i ==> (#[trigger] grid@[c])@.len() == num_rows,
                forall|c: int, r: int|
                    0 <= c < i && 0 <= r < num_rows ==> {
                        &&& (#[trigger] grid@[c]@[r]).rect.is_cell(
                            c,
                            r,
                            num_cols as int,
                            num_rows as int,
                            cell_width as int,
                            cell_height as int,
                        )
                        &&& !grid@[c]@[r].touched
                    },
            decreases num_cols - i,
        {
            let x2 = cell_center(i, num_cols, cell_width);
            let mut column: Vec<SiqRect> = Vec::new();
            let mut j: usize = 0;
            while j < num_rows
                invariant
                    i < num_cols <= i32::MAX,
                    j <= num_rows <= i32::MAX,
                    x2 == center_doubled(i as int, num_cols as int, cell_width as int),
                    column@.len() == j,
                    forall|r: int|
                        0 <= r < j ==> {
                            &&& (#[trigger] column@[r]).rect.is_cell(
                                i as int,
                                r,
                                num_cols as int,
                                num_rows as int,
                                cell_width as int,
                                cell_height as int,
                            )
                            &&& !column@[r].touched
                        },
                decreases num_rows - j,
            {
                let y2 = cell_center(j, num_rows, cell_height);
                let rect = Rect { x2, y2, w: cell_width, h: cell_height };
                column.push(SiqRect::new(get_random_color(), rect));
                j += 1;
            }
            grid.push(column);
            i += 1;
        }
        let model = Model {
            window_width,
            window_height,
            cell_width,
            cell_height,
            policy,
            touch_rule,
            num_cols,
            num_rows,
            grid,
        };
        proof {
            lemma_cell_count(model@);
            lemma_untouched_counts_zero(model@);
        }
        model
    }

    /// Touches cell (`col`, `row`) and says whether there is such a cell.
    pub fn touch(&mut self, col: usize, row: usize) -> (hit: bool)
        ensures
            final(self)@.wf(),
            hit == old(self)@.in_grid(col as int, row as int),
            final(self)@ == old(self)@.touch(col as int, row as int),
    {
        proof {
            use_type_invariant(&*self);
        }
        if col < self.num_cols && row < self.num_rows {
            assert(self@.cells[col as int].len() == self.num_rows);
            let cell = self.grid[col][row].touch(self.policy);
            proof {
                lemma_touch_keeps_wf(self@, col as int, row as int);
            }
            set_cell(&mut self.grid, col, row, cell);
            true
        } else {
            false
        }
    }

    /// The cell that holds the point (`x2`, `y2`), given in half units.
    pub fn cell_at(&self, x2: i64, y2: i64) -> (place: Option<(usize, usize)>)
        ensures
            self@.wf(),
            match place {
                Some((col, row)) => self@.cell_at(x2 as int, y2 as int) == Some(
                    (col as int, row as int),
                ),
                None => self@.cell_at(x2 as int, y2 as int) is None,
            },
    {
        proof {
            use_type_invariant(self);
            lemma_cells_needed_bounded(self@.window_width, self@.cell_width);
            lemma_cells_needed_bounded(self@.window_height, self@.cell_height);
        }
        match (locate(x2, self.num_cols, self.cell_width), locate(y2, self.num_rows, self.cell_height)) {
            (Some(col), Some(row)) => Some((col, row)),
            _ => None,
        }
    }

    /// Touches the cell that holds the point (`x2`, `y2`), given in half
    /// units, and says whether there is such a cell.
    pub fn touch_at(&mut self, x2: i64, y2: i64) -> (hit: bool)
        ensures
            final(self)@.wf(),
            hit == old(self)@.cell_at(x2 as int, y2 as int).is_some(),
            final(self)@ == old(self)@.touch_at(x2 as int, y2 as int),
            old(self)@.touched_count() <= final(self)@.touched_count() <= old(self)@.touched_count()
                + 1,
    {
        match self.cell_at(x2, y2) {
            Some((col, row)) => {
                proof {
                    lemma_cell_at_holds(self@, x2 as int, y2 as int, col as int, row as int);
                    lemma_touch_counts(self@, col as int, row as int);
                }
                self.touch(col, row)
            },
            None => false,
        }
    }

    /// Reacts to a pointer movement by touching one cell picked at random,
    /// the column and the row each on its own, wherever the pointer is. A
    /// grid without cells is left as it is.
    pub fn on_pointer_move(&mut self)
        ensures
            final(self)@.wf(),
            old(self)@.touched_at_random(final(self)@),
            old(self)@.touched_count() <= final(self)@.touched_count() <= old(self)@.touched_count()
                + 1,
    {
        proof {
            use_type_invariant(&*self);
        }
        if self.num_cols > 0 && self.num_rows > 0 {
            let col = random_below(self.num_cols);
            let row = random_below(self.num_rows);
            proof {
                lemma_touch_counts(self@, col as int, row as int);
            }
            self.touch(col, row);
        }
    }

    /// Counts the touched cells.
    pub fn touched_count(&self) -> (count: u64)
        ensures
            self@.wf(),
            count == self@.touched_count(),
    {
        proof {
            lemma_cells_needed_bounded(self@.window_width, self@.cell_width);
            lemma_cells_needed_bounded(self@.window_height, self@.cell_height);
        }
        proof {
            use_type_invariant(self);
        }
        let mut count: u64 = 0;
        let mut i: usize = 0;
        while i < self.num_cols
            invariant
                self@.wf(),
                i <= self.num_cols <= i32::MAX,
                self.num_rows <= i32::MAX,
                count == touched_in_columns(self@.cells.take(i as int)),
                count <= i * self.num_rows,
            decreases self.num_cols - i,
        {
            let ghost column = self@.cells[i as int];
            assert(column.len() == self.num_rows);
            let mut in_column: u64 = 0;
            let mut j: usize = 0;
            while j < self.num_rows
                invariant
                    self@.wf(),
                    i < self.num_cols,
                    j <= self.num_rows <= i32::MAX,
                    column == self@.cells[i as int],
                    column.len() == self.num_rows,
                    in_column == touched_in_column(column.take(j as int)),
                    in_column <= j,
                decreases self.num_rows - j,
            {
                assert(column.take(j + 1).drop_last() =~= column.take(j as int));
                if self.grid[i][j].touched {
                    in_column += 1;
                }
                j += 1;
            }
            assert(column.take(j as int) =~= column);
            assert(self@.cells.take(i + 1).drop_last() =~= self@.cells.take(i as int));
            assert((i + 1) * self.num_rows == i * self.num_rows + self.num_rows)
                by (nonlinear_arith);
            assert((i + 1) * self.num_rows <= 0x7fff_ffff * 0x7fff_ffff) by (nonlinear_arith)
                requires
                    i + 1 <= 0x7fff_ffff,
                    self.num_rows <= 0x7fff_ffff,
            ;
            count += in_column;
            i += 1;
        }
        assert(self@.cells.take(i as int) =~= self@.cells);
        count
    }

    /// Counts the cells.
    pub fn cell_count(&self) -> (count: u64)
        ensures
            self@.wf(),
            count == self@.cell_count(),
            count == self@.cols * self@.rows,
    {
        proof {
            use_type_invariant(self);
            lemma_cells_needed_bounded(self@.window_width, self@.cell_width);
            lemma_cells_needed_bounded(self@.window_height, self@.cell_height);
            lemma_cell_count(self@);
            assert(self.num_cols * self.num_rows <= 0x7fff_ffff * 0x7fff_ffff) by (nonlinear_arith)
                requires
                    self.num_cols <= 0x7fff_ffff,
                    self.num_rows <= 0x7fff_ffff,
            ;
        }
        (self.num_cols as u64) * (self.num_rows as u64)
    }

    /// The cell at (`col`, `row`), if the grid has one there.
    pub fn cell(&self, col: usize, row: usize) -> (cell: Option<SiqRect>)
        ensures
            self@.wf(),
            cell == if self@.in_grid(col as int, row as int) {
                Some(self@.cells[col as int][row as int])
            } else {
                None
            },
    {
        proof {
            use_type_invariant(self);
        }
        if col < self.num_cols && row < self.num_rows {
            assert(self@.cells[col as int].len() == self.num_rows);
            Some(self.grid[col][row])
        } else {
            None
        }
    }

    /// Number of columns.
    pub fn num_cols(&self) -> (cols: usize)
        ensures
            cols == self@.cols,
    {
        self.num_cols
    }

    /// Number of rows.
    pub fn num_rows(&self) -> (rows: usize)
        ensures
            rows == self@.rows,
    {
        self.num_rows
    }

    /// Width of the window the grid was built for.
    pub fn window_width(&self) -> (width: i32)
        ensures
            width == self@.window_width,
    {
        self.window_width
    }

    /// Height of the window the grid was built for.
    pub fn window_height(&self) -> (height: i32)
        ensures
            height == self@.window_height,
    {
        self.window_height
    }

    /// Width of a cell.
    pub fn cell_width(&self) -> (width: i32)
        ensures
            width == self@.cell_width,
    {
        self.cell_width
    }

    /// Height of a cell.
    pub fn cell_height(&self) -> (height: i32)
        ensures
            height == self@.cell_height,
    {
        self.cell_height
    }

    /// The touch rule the model was built with.
    pub fn touch_rule(&self) -> (touch_rule: TouchRule)
        ensures
            touch_rule == self@.touch_rule,
    {
        self.touch_rule
    }

    /// The repaint policy the model was built with.
    pub fn policy(&self) -> (policy: RepaintPolicy)
        ensures
            policy == self@.policy,
    {
        self.policy
    }

    /// Renders one frame: a black background, then for every cell its fill
    /// and, on top, a random letter or digit in a random colour. The model is
    /// only read; colours drawn for a frame are not stored.
    pub fn render_frame(&self) -> (frame: Vec<DrawCommand>)
        ensures
            self@.wf(),
            self@.is_frame(frame@),
    {
        proof {
            use_type_invariant(self);
        }
        let mut frame: Vec<DrawCommand> = Vec::new();
        frame.push(DrawCommand::Background { color: Rgb::black() });
        let mut i: usize = 0;
        while i < self.num_cols
            invariant
                self@.wf(),
                i <= self.num_cols,
                frame@.len() == 1 + 2 * (i * self.num_rows),
                frame@[0] == (DrawCommand::Background { color: Rgb::black() }),
                forall|c: int, r: int|
                    0 <= c < i && 0 <= r < self.num_rows ==> #[trigger] self@.draws_cell(
                        frame@,
                        c,
                        r,
                    ),
            decreases self.num_cols - i,
        {
            let mut j: usize = 0;
            while j < self.num_rows
                invariant
                    self@.wf(),
                    i < self.num_cols,
                    j <= self.num_rows,
                    frame@.len() == 1 + 2 * (i * self.num_rows + j),
                    frame@[0] == (DrawCommand::Background { color: Rgb::black() }),
                    forall|c: int, r: int|
                        0 <= r < self.num_rows && (0 <= c < i || (c == i && r < j))
                            ==> #[trigger] self@.draws_cell(frame@, c, r),
                decreases self.num_rows - j,
            {
                let ghost before = frame@;
                assert(self@.cells[i as int].len() == self.num_rows);
                let cell = self.grid[i][j];
                let fill = match cell.fixed_fill(self.policy) {
                    Some(fixed) => fixed,
                    None => get_random_color(),
                };
                frame.push(DrawCommand::Rectangle { rect: cell.rect, color: fill });
                let text = random_letters(1);
                frame.push(
                    DrawCommand::Text {
                        text,
                        x2: cell.rect.x2,
                        y2: cell.rect.y2,
                        font_size: FONT_SIZE,
                        color: get_random_color(),
                    },
                );
                proof {
                    assert forall|c: int, r: int|
                        0 <= r < self.num_rows && (0 <= c < i || (c == i && r < j + 1))
                            implies #[trigger] self@.draws_cell(frame@, c, r) by {
                        if c == i && r == j {
                            assert(self@.cells[c][r] == cell);
                        } else {
                            lemma_rank_below(c, r, i as int, j as int, self.num_rows as int);
                            assert(self@.draws_cell(before, c, r));
                        }
                    }
                }
                j += 1;
            }
            proof {
                assert((i + 1) * self.num_rows == i * self.num_rows + self.num_rows)
                    by (nonlinear_arith);
            }
            i += 1;
        }
        frame
    }
}

/// Dispatches a window event: a pointer movement touches a cell, chosen as
/// the model's touch rule says; anything else leaves the model as it is.
pub fn event(model: &mut Model, event: WindowEvent)
    ensures
        final(model)@.wf(),
        old(model)@.reacts(event, final(model)@),
        old(model)@.touched_count() <= final(model)@.touched_count() <= old(model)@.touched_count()
            + 1,
{
    proof {
        use_type_invariant(&*model);
    }
    match event {
        WindowEvent::MouseMoved { x2, y2 } => match model.touch_rule {
            TouchRule::Random => {
                model.on_pointer_move();
            },
            TouchRule::UnderPointer => {
                model.touch_at(x2, y2);
            },
        },
        WindowEvent::Other => {},
    }
}

/// The cells held by a grid that is stored column by column.
spec fn cells_of(grid: Seq<Vec<SiqRect>>) -> Seq<Seq<SiqRect>> {
    Seq::new(grid.len(), |c: int| grid[c]@)
}

/// Replaces one cell of a grid stored column by column.
fn set_cell(grid: &mut Vec<Vec<SiqRect>>, col: usize, row: usize, cell: SiqRect)
    requires
        col < old(grid)@.len(),
        row < old(grid)@[col as int]@.len(),
    ensures
        cells_of(final(grid)@) == cells_of(old(grid)@).update(
            col as int,
            cells_of(old(grid)@)[col as int].update(row as int, cell),
        ),
    no_unwind
{
    grid[col][row] = cell;
    assert(cells_of(grid@) =~~= cells_of(old(grid)@).update(
        col as int,
        cells_of(old(grid)@)[col as int].update(row as int, cell),
    ));
}

/// A colour drawn at random, each channel on its own.
fn get_random_color() -> Rgb {
    let red = random_channel();
    let green = random_channel();
    let blue = random_channel();
    Rgb::new(red, green, blue)
}

} // verus!
