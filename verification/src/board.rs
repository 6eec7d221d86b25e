//! The board of a sliding puzzle: a grid of pieces with one empty cell, the hole.
//!
//! A move is a slide: the pieces between a cell and the hole, in the row or column they
//! share, all step towards the hole, and the hole arrives at the cell the slide started
//! from.

use vstd::prelude::*;
use crate::grid::cell_index;
use crate::grid::column_of;
use crate::grid::is_permutation;
use crate::grid::lemma_coordinates;
use crate::grid::lemma_index;
use crate::grid::lemma_permutation_onto;
use crate::grid::lemma_permutation_unique;
use crate::grid::lemma_row_step;
use crate::grid::row_of;

verus! {

/// The four ways the pieces of a slide can travel.
#[derive(Clone, Copy, Debug, PartialEq, Eq, Structural)]
pub enum Direction {
    /// Towards the first row.
    Up,
    /// Towards the last row.
    Down,
    /// Towards the first column.
    Left,
    /// Towards the last column.
    Right,
}

/// What a board is to its contracts: its shape and, row by row, the label in each cell.
/// Label `0` is the hole; piece `p` belongs in the cell with index `p - 1`.
pub struct BoardView {
    pub width: nat,
    pub height: nat,
    pub cells: Seq<usize>,
}

/// The arrangement `1, 2, ..., n - 1, 0`: every piece at home and the hole last.
pub open spec fn solved_cells(n: nat) -> Seq<usize> {
    Seq::new(
        n,
        |i: int|
            if i + 1 < n {
                (i + 1) as usize
            } else {
                0usize
            },
    )
}

impl BoardView {
    /// The cells fill the shape, there are at least two of them and no more than the
    /// machine can count, and they hold each of the labels `0..width * height` once.
    pub open spec fn wf(self) -> bool {
        &&& self.cells.len() == self.width * self.height
        &&& 2 <= self.cells.len() <= usize::MAX
        &&& is_permutation(self.cells)
    }

    /// Column `x`, row `y` is a cell of the board.
    pub open spec fn contains(self, x: int, y: int) -> bool {
        0 <= x < self.width && 0 <= y < self.height
    }

    /// The label in column `x`, row `y`.
    pub open spec fn at(self, x: int, y: int) -> usize {
        self.cells[cell_index(self.width as int, x, y)]
    }

    /// The column and row of the cell that holds `label`.
    pub open spec fn position_of(self, label: usize) -> (int, int) {
        let i = self.cells.index_of(label);
        (column_of(self.width as int, i), row_of(self.width as int, i))
    }

    /// The column and row of the hole.
    pub open spec fn hole(self) -> (int, int) {
        self.position_of(0)
    }

    /// The piece `label` is in the cell where it belongs: the one whose index, counted
    /// from one, is the label. The hole belongs nowhere.
    pub open spec fn is_home(self, label: usize) -> bool {
        self.cells.index_of(label) + 1 == label
    }

    /// Every piece is at home and the hole is in the last cell.
    pub open spec fn is_solved(self) -> bool {
        self.cells =~= solved_cells(self.cells.len())
    }

    /// The cell shares its row or its column with the hole and is not the hole itself.
    pub open spec fn aligned(self, ox: int, oy: int) -> bool {
        (ox == self.hole().0) != (oy == self.hole().1)
    }

    /// How many pieces a slide from column `ox`, row `oy` moves: the distance to the hole
    /// along the shared row or column, and `0` where the cell is not aligned with the hole.
    pub open spec fn slide_count(self, ox: int, oy: int) -> nat {
        let (hx, hy) = self.hole();
        if !self.aligned(ox, oy) {
            0
        } else if oy == hy {
            if ox < hx {
                (hx - ox) as nat
            } else {
                (ox - hx) as nat
            }
        } else {
            if oy < hy {
                (hy - oy) as nat
            } else {
                (oy - hy) as nat
            }
        }
    }

    /// The label in column `x`, row `y` once every piece between column `ox`, row `oy`
    /// (that piece included) and the hole has moved one cell towards the hole. The cell
    /// at `ox`, `oy` itself keeps its old label here.
    pub open spec fn pushed_at(self, ox: int, oy: int, x: int, y: int) -> usize {
        let (hx, hy) = self.hole();
        if y == oy && oy == hy && ox < x <= hx {
            self.at(x - 1, y)
        } else if y == oy && oy == hy && hx <= x < ox {
            self.at(x + 1, y)
        } else if x == ox && ox == hx && oy < y <= hy {
            self.at(x, y - 1)
        } else if x == ox && ox == hx && hy <= y < oy {
            self.at(x, y + 1)
        } else {
            self.at(x, y)
        }
    }

    /// The label in column `x`, row `y` after a slide from the aligned cell `ox`, `oy`:
    /// the pieces are pushed towards the hole and the hole arrives at `ox`, `oy`.
    pub open spec fn slid_at(self, ox: int, oy: int, x: int, y: int) -> usize {
        if x == ox && y == oy {
            0
        } else {
            self.pushed_at(ox, oy, x, y)
        }
    }

    /// The board after a slide from column `ox`, row `oy`. A cell that is not aligned
    /// with the hole leaves the board as it is.
    pub open spec fn slid(self, ox: int, oy: int) -> BoardView {
        if self.aligned(ox, oy) {
            BoardView {
                width: self.width,
                height: self.height,
                cells: Seq::new(
                    self.cells.len(),
                    |i: int|
                        self.slid_at(
                            ox,
                            oy,
                            column_of(self.width as int, i),
                            row_of(self.width as int, i),
                        ),
                ),
            }
        } else {
            self
        }
    }

    /// The cell from which a slide moves `distance` pieces one step in `direction`: it
    /// lies `distance` cells from the hole, against `direction`.
    pub open spec fn origin_towards(self, direction: Direction, distance: int) -> (int, int) {
        let (hx, hy) = self.hole();
        match direction {
            Direction::Up => (hx, hy + distance),
            Direction::Down => (hx, hy - distance),
            Direction::Left => (hx + distance, hy),
            Direction::Right => (hx - distance, hy),
        }
    }

    /// The board after a slide of `distance` pieces in `direction`. Where the board has
    /// no cell that far from the hole, it stays as it is.
    pub open spec fn slid_towards(self, direction: Direction, distance: int) -> BoardView {
        let (ox, oy) = self.origin_towards(direction, distance);
        if self.contains(ox, oy) {
            self.slid(ox, oy)
        } else {
            self
        }
    }

    /// How many pieces a slide of `distance` pieces in `direction` moves: `distance`, or
    /// `0` where the board has no cell that far from the hole.
    pub open spec fn moved_towards(self, direction: Direction, distance: int) -> nat {
        let (ox, oy) = self.origin_towards(direction, distance);
        if self.contains(ox, oy) {
            self.slide_count(ox, oy)
        } else {
            0
        }
    }

    /// The board after one slide from each cell of `origins` in turn.
    pub open spec fn after_slides(self, origins: Seq<(int, int)>) -> BoardView
        decreases origins.len(),
    {
        if origins.len() == 0 {
            self
        } else {
            self.after_slides(origins.drop_last()).slid(origins.last().0, origins.last().1)
        }
    }

    /// The cell whose old label a slide from the aligned cell `ox`, `oy` brings to the
    /// cell with index `i`.
    spec fn slide_source(self, ox: int, oy: int, i: int) -> (int, int) {
        let x = column_of(self.width as int, i);
        let y = row_of(self.width as int, i);
        let (hx, hy) = self.hole();
        if x == ox && y == oy {
            (hx, hy)
        } else if y == oy && oy == hy && ox < x <= hx {
            (x - 1, y)
        } else if y == oy && oy == hy && hx <= x < ox {
            (x + 1, y)
        } else if x == ox && ox == hx && oy < y <= hy {
            (x, y - 1)
        } else if x == ox && ox == hx && hy <= y < oy {
            (x, y + 1)
        } else {
            (x, y)
        }
    }

    /// On a well-formed board the hole is a cell of the board and holds label `0`, and
    /// no other cell does.
    pub proof fn lemma_hole(self)
        requires
            self.wf(),
        ensures
            self.contains(self.hole().0, self.hole().1),
            self.at(self.hole().0, self.hole().1) == 0,
            0 <= self.cells.index_of(0) < self.cells.len(),
            self.cells[self.cells.index_of(0)] == 0,
            forall|i: int|
                0 <= i < self.cells.len() && self.cells[i] == 0 ==> i == self.cells.index_of(0),
    {
        lemma_permutation_onto(self.cells, 0);
        let h = self.cells.index_of(0);
        assert(self.width > 0) by (nonlinear_arith)
            requires
                self.width * self.height >= 2,
        ;
        lemma_coordinates(self.width as int, self.height as int, h);
        assert forall|i: int| 0 <= i < self.cells.len() && self.cells[i] == 0 implies i == h by {
            lemma_permutation_unique(self.cells, i, h);
        }
    }

    /// The label that a slide puts at index `i` is the old label of the cell that
    /// `slide_source` names, and that cell is on the board.
    proof fn lemma_slide_source(self, ox: int, oy: int, i: int)
        requires
            self.wf(),
            self.contains(ox, oy),
            self.aligned(ox, oy),
            0 <= i < self.cells.len(),
        ensures
            self.contains(self.slide_source(ox, oy, i).0, self.slide_source(ox, oy, i).1),
            self.slid(ox, oy).cells[i] == self.at(
                self.slide_source(ox, oy, i).0,
                self.slide_source(ox, oy, i).1,
            ),
    {
        self.lemma_hole();
        lemma_coordinates(self.width as int, self.height as int, i);
    }

    /// A slide keeps the board well formed: the cells remain an arrangement of the same
    /// labels, each once.
    pub proof fn lemma_slid_wf(self, ox: int, oy: int)
        requires
            self.wf(),
            self.contains(ox, oy),
        ensures
            self.slid(ox, oy).wf(),
    {
        if self.aligned(ox, oy) {
            let w = self.width as int;
            let h = self.height as int;
            let after = self.slid(ox, oy).cells;
            self.lemma_hole();
            assert forall|i: int| 0 <= i < after.len() implies (#[trigger] after[i])
                < after.len() by {
                self.lemma_slide_source(ox, oy, i);
                let s = self.slide_source(ox, oy, i);
                lemma_index(w, h, s.0, s.1);
            }
            assert forall|i: int, j: int| 0 <= i < j < after.len() implies after[i]
                != after[j] by {
                self.lemma_slide_source(ox, oy, i);
                self.lemma_slide_source(ox, oy, j);
                lemma_coordinates(w, h, i);
                lemma_coordinates(w, h, j);
                let si = self.slide_source(ox, oy, i);
                let sj = self.slide_source(ox, oy, j);
                lemma_index(w, h, si.0, si.1);
                lemma_index(w, h, sj.0, sj.1);
                if after[i] == after[j] {
                    lemma_permutation_unique(
                        self.cells,
                        cell_index(w, si.0, si.1),
                        cell_index(w, sj.0, sj.1),
                    );
                    assert(si == sj);
                    assert(column_of(w, i) == column_of(w, j));
                    assert(row_of(w, i) == row_of(w, j));
                }
            }
        }
    }

    /// After a slide that moves something the hole is where the slide started from.
    pub proof fn lemma_hole_after_slide(self, ox: int, oy: int)
        requires
            self.wf(),
            self.contains(ox, oy),
            self.aligned(ox, oy),
        ensures
            self.slid(ox, oy).hole() == (ox, oy),
    {
        let w = self.width as int;
        let h = self.height as int;
        let after = self.slid(ox, oy);
        self.lemma_slid_wf(ox, oy);
        self.lemma_hole();
        lemma_index(w, h, ox, oy);
        assert(after.cells[cell_index(w, ox, oy)] == 0);
        after.lemma_hole();
    }

    /// Whatever slides are made, from cells of the board, the cells remain an arrangement
    /// of the labels `0..width * height`, and exactly one cell holds the hole.
    pub proof fn lemma_slides_keep_permutation(self, origins: Seq<(int, int)>)
        requires
            self.wf(),
            forall|k: int| 0 <= k < origins.len() ==> self.contains(origins[k].0, origins[k].1),
        ensures
            self.after_slides(origins).wf(),
            self.after_slides(origins).width == self.width,
            self.after_slides(origins).height == self.height,
            is_permutation(self.after_slides(origins).cells),
            exists|i: int|
                {
                    &&& 0 <= i < self.cells.len()
                    &&& self.after_slides(origins).cells[i] == 0
                    &&& forall|j: int|
                        0 <= j < self.cells.len() && self.after_slides(origins).cells[j] == 0
                            ==> j == i
                },
        decreases origins.len(),
    {
        if origins.len() > 0 {
            let earlier = origins.drop_last();
            assert forall|k: int| 0 <= k < earlier.len() implies self.contains(
                earlier[k].0,
                earlier[k].1,
            ) by {
                assert(earlier[k] == origins[k]);
            }
            self.lemma_slides_keep_permutation(earlier);
            self.after_slides(earlier).lemma_slid_wf(origins.last().0, origins.last().1);
        }
        let end = self.after_slides(origins);
        end.lemma_hole();
        assert(end.cells[end.cells.index_of(0)] == 0);
    }

    /// A slide that moves no piece leaves every cell as it was.
    pub proof fn lemma_no_move_no_change(self, ox: int, oy: int)
        requires
            self.wf(),
            self.contains(ox, oy),
            self.slide_count(ox, oy) == 0,
        ensures
            self.slid(ox, oy) == self,
    {
    }

    /// A slide from a cell that shares neither row nor column with the hole, or from the
    /// hole's own cell, moves nothing; a slide from any other cell moves at least one piece.
    pub proof fn lemma_alignment(self, ox: int, oy: int)
        requires
            self.wf(),
            self.contains(ox, oy),
        ensures
            ox != self.hole().0 && oy != self.hole().1 ==> self.slide_count(ox, oy) == 0,
            ox == self.hole().0 && oy == self.hole().1 ==> self.slide_count(ox, oy) == 0,
            self.slide_count(ox, oy) == 0 <==> !self.aligned(ox, oy),
            self.slide_count(ox, oy) == 0 ==> self.slid(ox, oy) == self,
    {
    }
}

/// The solved arrangement is a well-formed board whose hole is in the last column of the
/// last row.
pub proof fn lemma_solved_hole(width: nat, height: nat)
    requires
        2 <= width * height <= usize::MAX,
    ensures
        (BoardView { width, height, cells: solved_cells(width * height) }).wf(),
        (BoardView { width, height, cells: solved_cells(width * height) }).hole() == (
            width - 1,
            height - 1,
        ),
{
    let n = width * height;
    let board = BoardView { width, height, cells: solved_cells(n) };
    assert(width > 0 && height > 0) by (nonlinear_arith)
        requires
            width * height >= 2,
    ;
    assert(board.cells[n - 1] == 0);
    board.lemma_hole();
    lemma_index(width as int, height as int, width - 1, height - 1);
    assert((height - 1) * width + (width - 1) == width * height - 1) by (nonlinear_arith);
}

/// Exchanging two neighbouring cells of the solved arrangement gives an arrangement that
/// is not solved.
pub proof fn lemma_transposition_unsolves(width: nat, height: nat, i: int)
    requires
        2 <= width * height <= usize::MAX,
        0 <= i < width * height - 1,
    ensures
        !(BoardView {
            width,
            height,
            cells: solved_cells(width * height).update(
                i,
                solved_cells(width * height)[i + 1],
            ).update(i + 1, solved_cells(width * height)[i]),
        }).is_solved(),
{
    let n = width * height;
    let swapped = solved_cells(n).update(i, solved_cells(n)[i + 1]).update(
        i + 1,
        solved_cells(n)[i],
    );
    assert(swapped[i + 1] == i + 1);
    assert(solved_cells(n)[i + 1] != i + 1);
}

/// A sliding-puzzle board.
pub struct Board {
    width: usize,
    height: usize,
    cells: Vec<usize>,
}

impl View for Board {
    type V = BoardView;

    closed spec fn view(&self) -> BoardView {
        BoardView { width: self.width as nat, height: self.height as nat, cells: self.cells@ }
    }
}

impl Board {
    /// The board's invariant: what it holds is a well-formed board.
    pub open spec fn wf(&self) -> bool {
        self@.wf()
    }

    /// The solved board of the given shape.
    pub fn solved(shape: (usize, usize)) -> (board: Board)
        requires
            2 <= shape.0 * shape.1 <= usize::MAX,
        ensures
            board.wf(),
            board@.width == shape.0,
            board@.height == shape.1,
            board@.cells == solved_cells((shape.0 * shape.1) as nat),
            board@.is_solved(),
            board@.hole() == (shape.0 - 1, shape.1 - 1),
    {
        proof {
            lemma_solved_hole(shape.0 as nat, shape.1 as nat);
        }
        let n: usize = shape.0 * shape.1;
        let mut cells: Vec<usize> = Vec::new();
        let mut i: usize = 0;
        while i + 1 < n
            invariant
                n >= 2,
                i + 1 <= n,
                cells@.len() == i,
                forall|j: int| 0 <= j < i ==> cells@[j] == j + 1,
            decreases n - i,
        {
            cells.push(i + 1);
            i = i + 1;
        }
        cells.push(0);
        assert(cells@ =~= solved_cells(n as nat));
        Board { width: shape.0, height: shape.1, cells }
    }

    /// The board of the given shape that holds `cells`, row by row; `None` unless `cells`
    /// fills the shape with at least two cells and holds each label below its length once.
    pub fn from_cells(shape: (usize, usize), cells: Vec<usize>) -> (made: Option<Board>)
        ensures
            made is Some <==> (BoardView {
                width: shape.0 as nat,
                height: shape.1 as nat,
                cells: cells@,
            }).wf(),
            made matches Some(board) ==> board.wf() && board@ == (BoardView {
                width: shape.0 as nat,
                height: shape.1 as nat,
                cells: cells@,
            }),
    {
        let n: usize = cells.len();
        let area: Option<usize> = shape.0.checked_mul(shape.1);
        if n < 2 || area != Some(n) {
            return None;
        }
        let mut seen: Vec<bool> = Vec::new();
        let mut k: usize = 0;
        while k < n
            invariant
                k <= n,
                seen@.len() == k,
                forall|v: int| 0 <= v < k ==> !seen@[v],
            decreases n - k,
        {
            seen.push(false);
            k = k + 1;
        }
        let mut i: usize = 0;
        while i < n
            invariant
                n == cells@.len(),
                seen@.len() == n,
                i <= n,
                forall|j: int| 0 <= j < i ==> (#[trigger] cells@[j]) < n,
                forall|j: int, l: int| 0 <= j < l < i ==> cells@[j] != cells@[l],
                forall|v: int|
                    0 <= v < n ==> (#[trigger] seen@[v] <==> exists|j: int|
                        0 <= j < i && cells@[j] == v),
            decreases n - i,
        {
            let label: usize = cells[i];
            if label >= n {
                assert(!is_permutation(cells@));
                return None;
            }
            if seen[label] {
                proof {
                    let j = choose|j: int| 0 <= j < i && cells@[j] == label;
                    assert(cells@[j] == cells@[i as int]);
                    assert(!is_permutation(cells@));
                }
                return None;
            }
            let ghost marked = seen@;
            seen[label] = true;
            proof {
                assert forall|v: int| 0 <= v < n implies (#[trigger] seen@[v] <==> exists|j: int|
                    0 <= j < i + 1 && cells@[j] == v) by {
                    if v == label {
                        assert(cells@[i as int] == v);
                    } else {
                        assert(seen@[v] == marked[v]);
                        if marked[v] {
                            let j = choose|j: int| 0 <= j < i && cells@[j] == v;
                            assert(0 <= j < i + 1 && cells@[j] == v);
                        }
                        if exists|j: int| 0 <= j < i + 1 && cells@[j] == v {
                            let j = choose|j: int| 0 <= j < i + 1 && cells@[j] == v;
                            assert(j != i);
                            assert(0 <= j < i && cells@[j] == v);
                        }
                    }
                }
            }
            i = i + 1;
        }
        Some(Board { width: shape.0, height: shape.1, cells })
    }

    /// The board of the given shape that holds `cells`, which are known to fill the shape
    /// with an arrangement of its labels.
    pub(crate) fn arranged(shape: (usize, usize), cells: Vec<usize>) -> (board: Board)
        requires
            (BoardView { width: shape.0 as nat, height: shape.1 as nat, cells: cells@ }).wf(),
        ensures
            board.wf(),
            board@ == (BoardView { width: shape.0 as nat, height: shape.1 as nat, cells: cells@ }),
    {
        Board { width: shape.0, height: shape.1, cells }
    }

    /// The board's width and height.
    pub fn shape(&self) -> (shape: (usize, usize))
        ensures
            shape.0 == self@.width,
            shape.1 == self@.height,
    {
        (self.width, self.height)
    }

    /// A copy of the cells, row by row.
    pub fn cells(&self) -> (cells: Vec<usize>)
        ensures
            cells@ == self@.cells,
    {
        self.cells.clone()
    }

    /// The label in the given column and row.
    pub fn piece_at(&self, position: (usize, usize)) -> (label: usize)
        requires
            self.wf(),
            self@.contains(position.0 as int, position.1 as int),
        ensures
            label == self@.at(position.0 as int, position.1 as int),
            label < self@.width * self@.height,
    {
        proof {
            lemma_index(
                self.width as int,
                self.height as int,
                position.0 as int,
                position.1 as int,
            );
        }
        self.cells[position.1 * self.width + position.0]
    }

    /// The index of the cell that holds `label`.
    fn index_of(&self, label: usize) -> (index: usize)
        requires
            self.wf(),
            label < self@.width * self@.height,
        ensures
            index == self@.cells.index_of(label),
            index < self@.cells.len(),
            self@.cells[index as int] == label,
            self.width > 0,
            self@.position_of(label) == (
                column_of(self.width as int, index as int),
                row_of(self.width as int, index as int),
            ),
            self@.contains(
                column_of(self.width as int, index as int),
                row_of(self.width as int, index as int),
            ),
            index == cell_index(
                self.width as int,
                column_of(self.width as int, index as int),
                row_of(self.width as int, index as int),
            ),
    {
        let ghost found = self.cells@.index_of(label);
        proof {
            lemma_permutation_onto(self.cells@, label);
            assert(self.width > 0) by (nonlinear_arith)
                requires
                    self.width * self.height >= 2,
            ;
        }
        let n: usize = self.cells.len();
        let mut index: usize = 0;
        while self.cells[index] != label
            invariant
                n == self.cells@.len(),
                0 <= index <= found < n,
                self.cells@[found] == label,
            decreases found - index,
        {
            assert(self.cells@[index as int] != label);
            index = index + 1;
        }
        proof {
            lemma_permutation_unique(self.cells@, index as int, found);
            lemma_coordinates(self.width as int, self.height as int, index as int);
        }
        index
    }

    /// The column and row of the cell that holds `label`.
    pub fn position_of(&self, label: usize) -> (position: (usize, usize))
        requires
            self.wf(),
            label < self@.width * self@.height,
        ensures
            (position.0 as int, position.1 as int) == self@.position_of(label),
            self@.contains(position.0 as int, position.1 as int),
            self@.at(position.0 as int, position.1 as int) == label,
    {
        let index: usize = self.index_of(label);
        (index % self.width, index / self.width)
    }

    /// For every label, in order, the column and row of the cell that holds it.
    pub fn positions(&self) -> (positions: Vec<(usize, usize)>)
        requires
            self.wf(),
        ensures
            positions@.len() == self@.cells.len(),
            forall|label: usize|
                label < positions@.len() ==> (
                    (#[trigger] positions@[label as int]).0 as int,
                    positions@[label as int].1 as int,
                ) == self@.position_of(label),
    {
        let n: usize = self.cells.len();
        let w: usize = self.width;
        proof {
            assert(self.width > 0) by (nonlinear_arith)
                requires
                    self.width * self.height >= 2,
            ;
        }
        let mut positions: Vec<(usize, usize)> = Vec::new();
        let mut k: usize = 0;
        while k < n
            invariant
                k <= n,
                positions@.len() == k,
            decreases n - k,
        {
            positions.push((0, 0));
            k = k + 1;
        }
        let mut i: usize = 0;
        while i < n
            invariant
                self.wf(),
                n == self.cells@.len(),
                w == self.width,
                w > 0,
                i <= n,
                positions@.len() == n,
                forall|j: int|
                    0 <= j < i ==> positions@[self.cells@[j] as int] == (
                        (j % w as int) as usize,
                        (j / w as int) as usize,
                    ),
            decreases n - i,
        {
            let label: usize = self.cells[i];
            let ghost earlier = positions@;
            positions[label] = (i % w, i / w);
            proof {
                assert forall|j: int| 0 <= j < i + 1 implies positions@[self.cells@[j] as int] == (
                    (j % w as int) as usize,
                    (j / w as int) as usize,
                ) by {
                    if j < i {
                        assert(self.cells@[j] != self.cells@[i as int]);
                        assert(positions@[self.cells@[j] as int] == earlier[self.cells@[j] as int]);
                    }
                }
            }
            i = i + 1;
        }
        proof {
            assert forall|label: usize| label < positions@.len() implies (
                (#[trigger] positions@[label as int]).0 as int,
                positions@[label as int].1 as int,
            ) == self@.position_of(label) by {
                lemma_permutation_onto(self.cells@, label);
                let j = self.cells@.index_of(label);
                lemma_coordinates(w as int, self.height as int, j);
            }
        }
        positions
    }

    /// Whether the piece `label` is in the cell where it belongs. The hole belongs nowhere.
    pub fn piece_is_home(&self, label: usize) -> (home: bool)
        requires
            self.wf(),
            label < self@.width * self@.height,
        ensures
            home == self@.is_home(label),
    {
        proof {
            lemma_permutation_onto(self.cells@, label);
            if label >= 1 && self.cells@[label - 1] == label {
                lemma_permutation_unique(self.cells@, self.cells@.index_of(label), label - 1);
            }
        }
        label >= 1 && self.cells[label - 1] == label
    }

    /// Whether every piece is at home and the hole is in the last cell.
    pub fn is_solved(&self) -> (solved: bool)
        requires
            self.wf(),
        ensures
            solved == self@.is_solved(),
    {
        let n: usize = self.cells.len();
        let mut i: usize = 0;
        while i + 1 < n
            invariant
                n == self.cells@.len(),
                n >= 2,
                i + 1 <= n,
                forall|j: int| 0 <= j < i ==> self.cells@[j] == j + 1,
            decreases n - i,
        {
            if self.cells[i] != i + 1 {
                assert(solved_cells(n as nat)[i as int] != self.cells@[i as int]);
                return false;
            }
            i = i + 1;
        }
        proof {
            let last = self.cells@[n - 1];
            if last != 0 {
                assert(self.cells@[last - 1] == last);
            }
            assert(self.cells@ =~= solved_cells(n as nat));
        }
        true
    }

    /// Slides the pieces between `origin` and the hole one cell towards the hole, so that
    /// the hole arrives at `origin`, and returns how many pieces moved. Where `origin` is
    /// the hole itself or shares neither row nor column with it, nothing moves and the
    /// result is `0`.
    pub fn slide_from(&mut self, origin: (usize, usize)) -> (moved: usize)
        requires
            old(self).wf(),
            old(self)@.contains(origin.0 as int, origin.1 as int),
        ensures
            final(self).wf(),
            final(self)@ == old(self)@.slid(origin.0 as int, origin.1 as int),
            moved == old(self)@.slide_count(origin.0 as int, origin.1 as int),
            moved == 0 ==> final(self)@ == old(self)@,
            final(self)@.hole() == (if moved > 0 {
                (origin.0 as int, origin.1 as int)
            } else {
                old(self)@.hole()
            }),
    {
        let ox: usize = origin.0;
        let oy: usize = origin.1;
        let w: usize = self.width;
        let ghost before = self@;
        let ghost n = self.cells@.len() as int;
        let ghost h = self.height as int;
        let hole: usize = self.index_of(0);
        let hx: usize = hole % w;
        let hy: usize = hole / w;
        if (ox == hx) == (oy == hy) {
            return 0;
        }
        let along_row: bool = oy == hy;
        let to_lower: bool = if along_row {
            ox < hx
        } else {
            oy < hy
        };
        let count: usize = if along_row {
            if ox < hx {
                hx - ox
            } else {
                ox - hx
            }
        } else {
            if oy < hy {
                hy - oy
            } else {
                oy - hy
            }
        };
        let stride: usize = if along_row {
            1
        } else {
            w
        };
        // The hole travels from its cell to the origin, one cell at a time; each cell it
        // leaves takes the piece of the cell it enters.
        let mut pos: usize = hole;
        let mut moved: usize = 0;
        let ghost mut px: int = hx as int;
        let ghost mut py: int = hy as int;
        proof {
            assert forall|i: int| 0 <= i < n implies self.cells@[i] == before.pushed_at(
                px,
                py,
                column_of(w as int, i),
                row_of(w as int, i),
            ) by {
                lemma_coordinates(w as int, h, i);
            }
        }
        while moved < count
            invariant
                self.width == w,
                self.height == h,
                self.cells@.len() == n,
                n == w * h,
                n <= usize::MAX,
                before.wf(),
                before.width == w,
                before.height == h,
                before.cells.len() == n,
                before.contains(ox as int, oy as int),
                before.hole() == (hx as int, hy as int),
                hx < w,
                hy < h,
                along_row == (oy == hy),
                along_row ==> ox != hx,
                !along_row ==> ox == hx,
                to_lower == (if along_row {
                    ox < hx
                } else {
                    oy < hy
                }),
                count == before.slide_count(ox as int, oy as int),
                stride == (if along_row {
                    1
                } else {
                    w
                }),
                moved <= count,
                along_row ==> py == hy && px == (if to_lower {
                    hx - moved
                } else {
                    hx + moved
                }),
                !along_row ==> px == hx && py == (if to_lower {
                    hy - moved
                } else {
                    hy + moved
                }),
                pos == cell_index(w as int, px, py),
                forall|i: int|
                    0 <= i < n ==> self.cells@[i] == before.pushed_at(
                        px,
                        py,
                        column_of(w as int, i),
                        row_of(w as int, i),
                    ),
            decreases count - moved,
        {
            let ghost nx: int = if along_row {
                if to_lower {
                    px - 1
                } else {
                    px + 1
                }
            } else {
                px
            };
            let ghost ny: int = if along_row {
                py
            } else {
                if to_lower {
                    py - 1
                } else {
                    py + 1
                }
            };
            proof {
                lemma_index(w as int, h, px, py);
                lemma_index(w as int, h, nx, ny);
                lemma_row_step(w as int, px, py);
            }
            let next: usize = if to_lower {
                pos - stride
            } else {
                pos + stride
            };
            let piece: usize = self.cells[next];
            let ghost stale = self.cells@;
            self.cells[pos] = piece;
            proof {
                assert forall|i: int| 0 <= i < n implies self.cells@[i] == before.pushed_at(
                    nx,
                    ny,
                    column_of(w as int, i),
                    row_of(w as int, i),
                ) by {
                    lemma_coordinates(w as int, h, i);
                    if i == pos {
                        assert(piece == before.at(nx, ny));
                    } else {
                        assert(self.cells@[i] == stale[i]);
                    }
                }
                px = nx;
                py = ny;
            }
            pos = next;
            moved = moved + 1;
        }
        proof {
            lemma_index(w as int, h, px, py);
        }
        self.cells[pos] = 0;
        proof {
            before.lemma_hole_after_slide(ox as int, oy as int);
            assert forall|i: int| 0 <= i < n implies self.cells@[i] == before.slid(
                ox as int,
                oy as int,
            ).cells[i] by {
                lemma_coordinates(w as int, h, i);
            }
            assert(self@.cells =~= before.slid(ox as int, oy as int).cells);
            before.lemma_slid_wf(ox as int, oy as int);
        }
        moved
    }

    /// Slides `distance` pieces one cell in `direction`: the same move as `slide_from`
    /// from the cell `distance` cells away from the hole, against `direction`. Where the
    /// board has no such cell, or `distance` is `0`, nothing moves and the result is `0`.
    pub fn slide_towards(&mut self, direction: Direction, distance: usize) -> (moved: usize)
        requires
            old(self).wf(),
        ensures
            final(self).wf(),
            final(self)@ == old(self)@.slid_towards(direction, distance as int),
            moved == old(self)@.moved_towards(direction, distance as int),
            moved == 0 || moved == distance,
            moved == 0 ==> final(self)@ == old(self)@,
    {
        let hole: usize = self.index_of(0);
        let hx: usize = hole % self.width;
        let hy: usize = hole / self.width;
        let origin: Option<(usize, usize)> = match direction {
            Direction::Up => if distance < self.height - hy {
                Some((hx, hy + distance))
            } else {
                None
            },
            Direction::Down => if distance <= hy {
                Some((hx, hy - distance))
            } else {
                None
            },
            Direction::Left => if distance < self.width - hx {
                Some((hx + distance, hy))
            } else {
                None
            },
            Direction::Right => if distance <= hx {
                Some((hx - distance, hy))
            } else {
                None
            },
        };
        match origin {
            Some(cell) => self.slide_from(cell),
            None => 0,
        }
    }
}

} // verus!
