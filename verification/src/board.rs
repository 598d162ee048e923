//! The playing board: a square grid of cell values with 8-neighborhood
//! queries. All rule decisions elsewhere are made from what surrounds a cell,
//! so the neighborhood functions here carry exact sequence-level contracts.

use vstd::prelude::*;
use vstd::string::StringExecFns;

verus! {

/// A cell value. The total order
/// `Empty < Birth < Gift < Wealth < Knowledge < Joy` is load-bearing:
/// "best" move selection picks the maximum-ranked legal symbol.
#[derive(Clone, Copy, PartialEq, Eq, Structural, Debug, Hash)]
pub enum Field {
    Empty,
    Birth,
    Gift,
    Wealth,
    Knowledge,
    Joy,
}

impl Field {
    /// Numeric rank realizing the total order on cell values.
    pub open spec fn rank(self) -> int {
        match self {
            Field::Empty => 0,
            Field::Birth => 1,
            Field::Gift => 2,
            Field::Wealth => 3,
            Field::Knowledge => 4,
            Field::Joy => 5,
        }
    }

    /// Executable form of [`Field::rank`].
    pub fn rank_u8(self) -> (r: u8)
        ensures
            r == self.rank(),
    {
        match self {
            Field::Empty => 0,
            Field::Birth => 1,
            Field::Gift => 2,
            Field::Wealth => 3,
            Field::Knowledge => 4,
            Field::Joy => 5,
        }
    }

    /// The one-character label a cell is written out with.
    pub open spec fn spec_label(self) -> Seq<char> {
        match self {
            Field::Empty => " "@,
            Field::Birth => "B"@,
            Field::Gift => "X"@,
            Field::Wealth => "W"@,
            Field::Knowledge => "K"@,
            Field::Joy => "J"@,
        }
    }

    /// Executable form of [`Field::spec_label`].
    pub fn label(self) -> (r: &'static str)
        ensures
            r@ == self.spec_label(),
    {
        match self {
            Field::Empty => " ",
            Field::Birth => "B",
            Field::Gift => "X",
            Field::Wealth => "W",
            Field::Knowledge => "K",
            Field::Joy => "J",
        }
    }
}

/// A pair of zero-based row/column indices into the square grid.
#[derive(Clone, Copy, PartialEq, Eq, Structural, Debug)]
pub struct Position(pub usize, pub usize);

impl Position {
    /// Chebyshev distance at most 1: the 8-neighborhood of `other`, plus
    /// `other` itself.
    pub open spec fn spec_near(self, other: Position) -> bool {
        -2 < self.0 - other.0 < 2 && -2 < self.1 - other.1 < 2
    }

    /// Whether both coordinate deltas are at most 1.
    pub fn near(&self, other: &Position) -> (r: bool)
        ensures
            r == self.spec_near(*other),
    {
        let dr: usize = if self.0 >= other.0 {
            self.0 - other.0
        } else {
            other.0 - self.0
        };
        let dc: usize = if self.1 >= other.1 {
            self.1 - other.1
        } else {
            other.1 - self.1
        };
        dr < 2 && dc < 2
    }
}

/// The mathematical content of a [`Board`]: the side length and the cell
/// values in row-major order.
pub struct BoardView {
    pub size: nat,
    pub cells: Seq<Field>,
}

impl BoardView {
    /// The cell count matches the declared square shape, and the grid is
    /// large enough that every cell has a genuine (clipped) 8-neighborhood.
    pub open spec fn wf(self) -> bool {
        &&& self.cells.len() == self.size * self.size
        &&& 2 <= self.size
    }

    pub open spec fn in_bounds(self, r: int, c: int) -> bool {
        0 <= r < self.size && 0 <= c < self.size
    }

    pub open spec fn contains_pos(self, p: Position) -> bool {
        self.in_bounds(p.0 as int, p.1 as int)
    }

    /// The cell value at row `r`, column `c`.
    pub open spec fn at(self, r: int, c: int) -> Field {
        self.cells[r * self.size + c]
    }

    pub open spec fn at_pos(self, p: Position) -> Field {
        self.at(p.0 as int, p.1 as int)
    }

    /// No `Empty` cell remains.
    pub open spec fn full(self) -> bool {
        forall|i: int| 0 <= i < self.cells.len() ==> self.cells[i] != Field::Empty
    }

    /// A one-cell sequence if `(r, c)` is on the board, empty otherwise.
    /// Building block for the clipped neighborhood below.
    pub open spec fn cell_if_in_bounds(self, r: int, c: int) -> Seq<Field> {
        if self.in_bounds(r, c) {
            seq![self.at(r, c)]
        } else {
            Seq::empty()
        }
    }

    /// The up-to-8 neighboring cell values of `(r, c)`, excluding the cell
    /// itself, in row-major order, clipped at the grid edges. Opaque: proofs
    /// that need the segments reveal it, everything else treats a
    /// neighborhood as one value.
    #[verifier::opaque]
    pub open spec fn around(self, r: int, c: int) -> Seq<Field> {
        self.cell_if_in_bounds(r - 1, c - 1) + self.cell_if_in_bounds(r - 1, c)
            + self.cell_if_in_bounds(r - 1, c + 1) + self.cell_if_in_bounds(r, c - 1)
            + self.cell_if_in_bounds(r, c + 1) + self.cell_if_in_bounds(r + 1, c - 1)
            + self.cell_if_in_bounds(r + 1, c) + self.cell_if_in_bounds(r + 1, c + 1)
    }

    pub open spec fn around_pos(self, p: Position) -> Seq<Field> {
        self.around(p.0 as int, p.1 as int)
    }
}

/// How many entries of `s` equal `f`.
pub open spec fn count_of(s: Seq<Field>, f: Field) -> nat
    decreases s.len(),
{
    if s.len() == 0 {
        0
    } else {
        count_of(s.drop_last(), f) + if s.last() == f {
            1nat
        } else {
            0nat
        }
    }
}

/// A flat `size * size` grid of cell values, row-major, all cells initially
/// `Empty`.
pub struct Board {
    pub fields: Vec<Field>,
    pub size: usize,
}

impl View for Board {
    type V = BoardView;

    open spec fn view(&self) -> BoardView {
        BoardView { size: self.size as nat, cells: self.fields@ }
    }
}

impl Clone for Board {
    /// A copy with the same mathematical content, used to hand each search
    /// node its own snapshot.
    fn clone(&self) -> (r: Self)
        ensures
            r@ == self@,
    {
        let ghost s = self.fields@;
        let n = self.fields.len();
        let mut fields: Vec<Field> = Vec::new();
        let mut i: usize = 0;
        while i < n
            invariant
                i <= n,
                n == s.len(),
                self.fields@ == s,
                fields@ == s.subrange(0, i as int),
            decreases n - i,
        {
            fields.push(self.fields[i]);
            proof {
                assert(fields@ =~= s.subrange(0, i + 1));
            }
            i = i + 1;
        }
        proof {
            assert(s.subrange(0, s.len() as int) =~= s);
        }
        Board { fields, size: self.size }
    }
}

/// Row-major cell indices stay inside the grid.
pub proof fn lemma_row_major_index(size: int, r: int, c: int)
    requires
        0 <= r < size,
        0 <= c < size,
    ensures
        0 <= r * size + c < size * size,
{
    assert(0 <= r * size + c < size * size) by (nonlinear_arith)
        requires
            0 <= r < size,
            0 <= c < size,
    ;
}

impl Board {
    /// A fresh all-`Empty` grid. The side length must be at least 2 (a
    /// smaller grid has no genuine neighborhoods) and small enough that the
    /// cell count fits the machine word.
    pub fn new(size: usize) -> (r: Self)
        requires
            2 <= size,
            size * size <= usize::MAX,
        ensures
            r@.wf(),
            r@.size == size,
            r@.cells.len() == size * size,
            forall|i: int| 0 <= i < r@.cells.len() ==> r@.cells[i] == Field::Empty,
    {
        let n = size * size;
        let mut fields: Vec<Field> = Vec::new();
        let mut i: usize = 0;
        while i < n
            invariant
                i <= n,
                fields@.len() == i,
                forall|k: int| 0 <= k < i ==> fields@[k] == Field::Empty,
            decreases n - i,
        {
            fields.push(Field::Empty);
            i = i + 1;
        }
        Board { fields, size }
    }

    /// Sets the cell at `pos`; the caller must guarantee `pos` is on the
    /// board.
    pub fn change(&mut self, pos: Position, symbol: Field)
        requires
            old(self)@.wf(),
            old(self)@.contains_pos(pos),
        ensures
            final(self)@.size == old(self)@.size,
            final(self)@.cells == old(self)@.cells.update(
                pos.0 * old(self)@.size + pos.1,
                symbol,
            ),
            final(self)@.wf(),
    {
        proof {
            lemma_row_major_index(self@.size as int, pos.0 as int, pos.1 as int);
        }
        let _n = self.fields.len();
        let idx = pos.0 * self.size + pos.1;
        self.fields.set(idx, symbol);
    }

    /// The cell value at `pos`.
    pub fn field_at(&self, pos: &Position) -> (r: Field)
        requires
            self@.wf(),
            self@.contains_pos(*pos),
        ensures
            r == self@.at_pos(*pos),
    {
        proof {
            lemma_row_major_index(self@.size as int, pos.0 as int, pos.1 as int);
        }
        let _n = self.fields.len();
        self.fields[pos.0 * self.size + pos.1]
    }

    /// Whether the cell at `pos` is `Empty`.
    pub fn is_empty(&self, pos: &Position) -> (r: bool)
        requires
            self@.wf(),
            self@.contains_pos(*pos),
        ensures
            r == (self@.at_pos(*pos) == Field::Empty),
    {
        let f = self.field_at(pos);
        f == Field::Empty
    }

    /// The up-to-8 neighboring cell values of `pos`, excluding `pos` itself,
    /// in row-major order, clipped at the grid edges (fewer than 8 near a
    /// border or corner).
    /// Appends the cell at `(rr, cc)` when `ok` holds; `ok` must say whether
    /// the intended (possibly off-grid) coordinates `(tr, tc)` are on the
    /// board, and `(rr, cc)` must realize them when they are.
    fn push_neighbor(
        &self,
        around: &mut Vec<Field>,
        rr: usize,
        cc: usize,
        ok: bool,
        Ghost(tr): Ghost<int>,
        Ghost(tc): Ghost<int>,
    )
        requires
            self@.wf(),
            ok == self@.in_bounds(tr, tc),
            ok ==> rr == tr && cc == tc,
        ensures
            final(around)@ == old(around)@ + self@.cell_if_in_bounds(tr, tc),
    {
        if ok {
            around.push(self.field_at(&Position(rr, cc)));
            proof {
                assert(around@ =~= old(around)@ + self@.cell_if_in_bounds(tr, tc));
            }
        } else {
            proof {
                assert(around@ =~= old(around)@ + self@.cell_if_in_bounds(tr, tc));
            }
        }
    }

    pub fn fields_around(&self, pos: &Position) -> (r: Vec<Field>)
        requires
            self@.wf(),
            self@.contains_pos(*pos),
        ensures
            r@ == self@.around_pos(*pos),
    {
        let ghost v = self@;
        let ghost r0 = pos.0 as int;
        let ghost c0 = pos.1 as int;
        let mut around: Vec<Field> = Vec::new();
        let row = pos.0;
        let col = pos.1;
        let last = self.size - 1;
        let up = if row > 0 { row - 1 } else { 0 };
        let left = if col > 0 { col - 1 } else { 0 };
        self.push_neighbor(&mut around, up, left, row > 0 && col > 0, Ghost(r0 - 1), Ghost(c0 - 1));
        proof {
            assert(around@ =~= v.cell_if_in_bounds(r0 - 1, c0 - 1));
        }
        self.push_neighbor(&mut around, up, col, row > 0, Ghost(r0 - 1), Ghost(c0));
        self.push_neighbor(
            &mut around,
            up,
            col + 1,
            row > 0 && col < last,
            Ghost(r0 - 1),
            Ghost(c0 + 1),
        );
        self.push_neighbor(&mut around, row, left, col > 0, Ghost(r0), Ghost(c0 - 1));
        self.push_neighbor(&mut around, row, col + 1, col < last, Ghost(r0), Ghost(c0 + 1));
        self.push_neighbor(
            &mut around,
            row + 1,
            left,
            row < last && col > 0,
            Ghost(r0 + 1),
            Ghost(c0 - 1),
        );
        self.push_neighbor(&mut around, row + 1, col, row < last, Ghost(r0 + 1), Ghost(c0));
        self.push_neighbor(
            &mut around,
            row + 1,
            col + 1,
            row < last && col < last,
            Ghost(r0 + 1),
            Ghost(c0 + 1),
        );
        proof {
            reveal(BoardView::around);
        }
        around
    }

    /// The neighborhood of `pos` pre-aggregated into five counts:
    /// `(empty, birth, gift, wealth, knowledge)`. `Joy` is never counted.
    pub fn count_around(&self, pos: &Position) -> (r: (u8, u8, u8, u8, u8))
        requires
            self@.wf(),
            self@.contains_pos(*pos),
        ensures
            r.0 == count_of(self@.around_pos(*pos), Field::Empty),
            r.1 == count_of(self@.around_pos(*pos), Field::Birth),
            r.2 == count_of(self@.around_pos(*pos), Field::Gift),
            r.3 == count_of(self@.around_pos(*pos), Field::Wealth),
            r.4 == count_of(self@.around_pos(*pos), Field::Knowledge),
    {
        let around = self.fields_around(pos);
        let ghost s = around@;
        proof {
            assert(s.len() <= 8) by {
                reveal(BoardView::around);
            }
        }
        let mut empty_count: u8 = 0;
        let mut birth_count: u8 = 0;
        let mut gift_count: u8 = 0;
        let mut wealth_count: u8 = 0;
        let mut knowledge_count: u8 = 0;
        let mut i: usize = 0;
        while i < around.len()
            invariant
                i <= s.len(),
                s.len() <= 8,
                around@ == s,
                empty_count == count_of(s.subrange(0, i as int), Field::Empty),
                birth_count == count_of(s.subrange(0, i as int), Field::Birth),
                gift_count == count_of(s.subrange(0, i as int), Field::Gift),
                wealth_count == count_of(s.subrange(0, i as int), Field::Wealth),
                knowledge_count == count_of(s.subrange(0, i as int), Field::Knowledge),
            decreases s.len() - i,
        {
            proof {
                lemma_count_of_bound(s.subrange(0, i as int), Field::Empty);
                lemma_count_of_bound(s.subrange(0, i as int), Field::Birth);
                lemma_count_of_bound(s.subrange(0, i as int), Field::Gift);
                lemma_count_of_bound(s.subrange(0, i as int), Field::Wealth);
                lemma_count_of_bound(s.subrange(0, i as int), Field::Knowledge);
                assert(s.subrange(0, i + 1).drop_last() =~= s.subrange(0, i as int));
            }
            match around[i] {
                Field::Empty => empty_count = empty_count + 1,
                Field::Birth => birth_count = birth_count + 1,
                Field::Gift => gift_count = gift_count + 1,
                Field::Wealth => wealth_count = wealth_count + 1,
                Field::Knowledge => knowledge_count = knowledge_count + 1,
                Field::Joy => (),
            }
            i = i + 1;
        }
        proof {
            assert(s.subrange(0, s.len() as int) =~= s);
        }
        (empty_count, birth_count, gift_count, wealth_count, knowledge_count)
    }

    /// Clears every cell back to `Empty`, keeping the side length.
    pub fn reset(&mut self)
        requires
            old(self)@.wf(),
        ensures
            final(self)@.wf(),
            final(self)@.size == old(self)@.size,
            forall|i: int|
                0 <= i < final(self)@.cells.len() ==> final(self)@.cells[i] == Field::Empty,
    {
        let n = self.fields.len();
        let mut fields: Vec<Field> = Vec::new();
        let mut i: usize = 0;
        while i < n
            invariant
                i <= n,
                fields@.len() == i,
                forall|k: int| 0 <= k < i ==> fields@[k] == Field::Empty,
            decreases n - i,
        {
            fields.push(Field::Empty);
            i = i + 1;
        }
        self.fields = fields;
    }

    /// Whether no `Empty` cell remains.
    pub fn is_full(&self) -> (r: bool)
        requires
            self@.wf(),
        ensures
            r == self@.full(),
    {
        let mut i: usize = 0;
        let n = self.fields.len();
        while i < n
            invariant
                i <= n,
                n == self@.cells.len(),
                forall|k: int| 0 <= k < i ==> self@.cells[k] != Field::Empty,
            decreases n - i,
        {
            if self.fields[i] == Field::Empty {
                return false;
            }
            i = i + 1;
        }
        true
    }
}

/// `count_of` never exceeds the sequence length.
pub proof fn lemma_count_of_bound(s: Seq<Field>, f: Field)
    ensures
        count_of(s, f) <= s.len(),
    decreases s.len(),
{
    if s.len() > 0 {
        lemma_count_of_bound(s.drop_last(), f);
    }
}

/// Counting distributes over concatenation.
pub proof fn lemma_count_of_concat(a: Seq<Field>, b: Seq<Field>, f: Field)
    ensures
        count_of(a + b, f) == count_of(a, f) + count_of(b, f),
    decreases b.len(),
{
    if b.len() == 0 {
        assert(a + b =~= a);
    } else {
        lemma_count_of_concat(a, b.drop_last(), f);
        assert((a + b).drop_last() =~= a + b.drop_last());
        assert((a + b).last() == b.last());
    }
}

/// A one-cell list counts its cell once.
pub proof fn lemma_count_of_singleton(x: Field, f: Field)
    ensures
        count_of(seq![x], f) == if x == f {
            1nat
        } else {
            0nat
        },
{
    reveal_with_fuel(count_of, 2);
    assert(seq![x].drop_last() =~= Seq::<Field>::empty());
}

/// The six per-value counts partition a list of cells.
pub proof fn lemma_count_of_partition(s: Seq<Field>)
    ensures
        count_of(s, Field::Empty) + count_of(s, Field::Birth) + count_of(s, Field::Gift)
            + count_of(s, Field::Wealth) + count_of(s, Field::Knowledge) + count_of(
            s,
            Field::Joy,
        ) == s.len(),
    decreases s.len(),
{
    if s.len() > 0 {
        lemma_count_of_partition(s.drop_last());
    }
}

/// What a clipped neighborhood can look like: on a board holding no `Joy`,
/// it holds none either, and it never has exactly 7 cells — a clipped
/// 3-by-3 window minus its center has 8 cells in the interior and at most 5
/// along an edge.
pub proof fn lemma_around_profile(b: BoardView, p: Position)
    requires
        b.wf(),
        forall|i: int| 0 <= i < b.cells.len() ==> b.cells[i] != Field::Joy,
    ensures
        count_of(b.around_pos(p), Field::Joy) == 0,
        b.around_pos(p).len() <= 8,
        b.around_pos(p).len() != 7,
{
    reveal(BoardView::around);
    let r = p.0 as int;
    let c = p.1 as int;
    let size = b.size as int;
    assert forall|rr: int, cc: int|
        b.in_bounds(rr, cc) implies count_of(#[trigger] b.cell_if_in_bounds(rr, cc), Field::Joy)
        == 0 by {
        lemma_row_major_index(size, rr, cc);
        lemma_count_of_singleton(b.at(rr, cc), Field::Joy);
    }
    assert forall|rr: int, cc: int|
        !b.in_bounds(rr, cc) implies count_of(#[trigger] b.cell_if_in_bounds(rr, cc), Field::Joy)
        == 0 by {
        assert(b.cell_if_in_bounds(rr, cc).len() == 0);
    }
    let s1 = b.cell_if_in_bounds(r - 1, c - 1);
    let s2 = b.cell_if_in_bounds(r - 1, c);
    let s3 = b.cell_if_in_bounds(r - 1, c + 1);
    let s4 = b.cell_if_in_bounds(r, c - 1);
    let s5 = b.cell_if_in_bounds(r, c + 1);
    let s6 = b.cell_if_in_bounds(r + 1, c - 1);
    let s7 = b.cell_if_in_bounds(r + 1, c);
    let s8 = b.cell_if_in_bounds(r + 1, c + 1);
    lemma_count_of_concat(s1, s2, Field::Joy);
    lemma_count_of_concat(s1 + s2, s3, Field::Joy);
    lemma_count_of_concat(s1 + s2 + s3, s4, Field::Joy);
    lemma_count_of_concat(s1 + s2 + s3 + s4, s5, Field::Joy);
    lemma_count_of_concat(s1 + s2 + s3 + s4 + s5, s6, Field::Joy);
    lemma_count_of_concat(s1 + s2 + s3 + s4 + s5 + s6, s7, Field::Joy);
    lemma_count_of_concat(s1 + s2 + s3 + s4 + s5 + s6 + s7, s8, Field::Joy);
}

/// The text of a list of cell values: each cell's one-character label,
/// separated by `", "`.
pub open spec fn labels_text(s: Seq<Field>) -> Seq<char>
    decreases s.len(),
{
    if s.len() == 0 {
        Seq::empty()
    } else if s.len() == 1 {
        s[0].spec_label()
    } else {
        labels_text(s.drop_last()) + ", "@ + s.last().spec_label()
    }
}

/// The bracketed text of a list of cell values, as a board row or a
/// neighborhood listing is written out.
pub open spec fn field_list_text(s: Seq<Field>) -> Seq<char> {
    "["@ + labels_text(s) + "]"@
}

/// Renders a list of cell values as `"[ , B, X]"`-style text.
pub fn fields_to_string(fields: &Vec<Field>) -> (r: String)
    ensures
        r@ == field_list_text(fields@),
{
    let ghost s = fields@;
    let mut out = String::new();
    out.append("[");
    proof {
        assert(out@ =~= "["@ + labels_text(s.subrange(0, 0)));
    }
    let mut i: usize = 0;
    while i < fields.len()
        invariant
            i <= s.len(),
            fields@ == s,
            out@ == "["@ + labels_text(s.subrange(0, i as int)),
        decreases s.len() - i,
    {
        if i > 0 {
            out.append(", ");
        }
        out.append(fields[i].label());
        proof {
            let pre = s.subrange(0, i + 1);
            assert(pre.drop_last() =~= s.subrange(0, i as int));
            assert(pre.last() == s[i as int]);
            assert(out@ =~= "["@ + labels_text(pre));
        }
        i = i + 1;
    }
    out.append("]");
    proof {
        assert(s.subrange(0, s.len() as int) =~= s);
    }
    out
}

} // verus!
