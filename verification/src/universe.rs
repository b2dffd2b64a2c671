//! The grid itself: a flat toroidal buffer of cells, the rule set and
//! topology that drive it, and the generation step.

use vstd::prelude::*;
use vstd::arithmetic::div_mod::lemma_fundamental_div_mod_converse_div;
use vstd::arithmetic::div_mod::lemma_fundamental_div_mod_converse_mod;
use vstd::arithmetic::div_mod::lemma_mod_add_multiples_vanish;
use crate::essentials::Cell;
use crate::essentials::CellFormFactor;
use crate::essentials::LifeError;
use crate::essentials::LifeRules;
use crate::essentials::all_digit_chars;
use crate::essentials::cell_value;
use crate::essentials::chars_of_digits;
use crate::essentials::digits_of_chars;
use crate::essentials::digits_wf;
use crate::essentials::flipped;
use crate::essentials::rule_applies;

verus! {

/// The mathematical state of a grid: the two rule sequences, the stored
/// dimensions, the topology, the flat cell buffer, and the generation
/// counter. The buffer is indexed as `cell_index(w, h, width)`.
#[verifier::ext_equal]
pub ghost struct GridModel {
    pub born: Seq<u8>,
    pub survives: Seq<u8>,
    pub width: u32,
    pub height: u32,
    pub form: CellFormFactor,
    pub cells: Seq<Cell>,
    pub generation: u32,
}

impl GridModel {
    /// Both rule sequences hold single decimal digits only.
    pub open spec fn rules_wf(self) -> bool {
        digits_wf(self.born) && digits_wf(self.survives)
    }

    /// The buffer holds exactly one cell per coordinate pair.
    pub open spec fn size_wf(self) -> bool {
        self.cells.len() == self.width * self.height
    }

    /// The grid's full well-formedness invariant.
    pub open spec fn inv(self) -> bool {
        self.rules_wf() && self.size_wf()
    }
}

/// The buffer position of the cell at (w, h) on a grid of the given width.
pub open spec fn cell_index(w: int, h: int, width: int) -> int {
    w + h * width
}

/// The numeric value of the neighbour reached from (w, h) by the raw
/// offsets (dw, dh); both sums wrap modulo the dimensions (toroidal
/// adjacency).
pub open spec fn neighbour_value(
    cells: Seq<Cell>,
    width: int,
    height: int,
    w: int,
    h: int,
    dw: int,
    dh: int,
) -> nat {
    cell_value(cells[cell_index((w + dw) % width, (h + dh) % height, width)])
}

/// One candidate of the square scheme: the neighbour at (dw, dh), or
/// nothing when both offset values are zero. The skip goes by the offset
/// values themselves, so on a grid of width 1 the offset width-1 is zero
/// and its pairs with a zero vertical offset are skipped too.
pub open spec fn square_term(
    cells: Seq<Cell>,
    width: int,
    height: int,
    w: int,
    h: int,
    dw: int,
    dh: int,
) -> nat {
    if dw == 0 && dh == 0 {
        0
    } else {
        neighbour_value(cells, width, height, w, h, dw, dh)
    }
}

/// Square topology: the toroidal Moore neighbourhood, reached by the
/// offset pairs {width-1, 0, 1} x {height-1, 0, 1}, each pair skipped
/// when both of its offset values are zero. On grids at least 2 wide and
/// 2 high only (0, 0) is skipped, leaving the usual eight cells.
pub open spec fn square_count(cells: Seq<Cell>, width: int, height: int, w: int, h: int) -> nat {
    square_term(cells, width, height, w, h, width - 1, height - 1) + square_term(
        cells,
        width,
        height,
        w,
        h,
        width - 1,
        0,
    ) + square_term(cells, width, height, w, h, width - 1, 1) + square_term(
        cells,
        width,
        height,
        w,
        h,
        0,
        height - 1,
    ) + square_term(cells, width, height, w, h, 0, 0) + square_term(
        cells,
        width,
        height,
        w,
        h,
        0,
        1,
    ) + square_term(cells, width, height, w, h, 1, height - 1) + square_term(
        cells,
        width,
        height,
        w,
        h,
        1,
        0,
    ) + square_term(cells, width, height, w, h, 1, 1)
}

/// The three-candidate row of the triangle scheme: horizontal offsets
/// {width-1, 0, 1} at one vertical offset.
pub open spec fn tri_row3_count(
    cells: Seq<Cell>,
    width: int,
    height: int,
    w: int,
    h: int,
    dh: int,
) -> nat {
    neighbour_value(cells, width, height, w, h, width - 1, dh) + neighbour_value(
        cells,
        width,
        height,
        w,
        h,
        0,
        dh,
    ) + neighbour_value(cells, width, height, w, h, 1, dh)
}

/// The four-candidate row of the triangle scheme: horizontal offsets
/// {width-2, width-1, 1, 2} at one vertical offset.
pub open spec fn tri_row4_count(
    cells: Seq<Cell>,
    width: int,
    height: int,
    w: int,
    h: int,
    dh: int,
) -> nat {
    neighbour_value(cells, width, height, w, h, width - 2, dh) + neighbour_value(
        cells,
        width,
        height,
        w,
        h,
        width - 1,
        dh,
    ) + neighbour_value(cells, width, height, w, h, 1, dh) + neighbour_value(
        cells,
        width,
        height,
        w,
        h,
        2,
        dh,
    )
}

/// The five-candidate row of the triangle scheme: horizontal offsets
/// {width-2, width-1, 0, 1, 2} at one vertical offset.
pub open spec fn tri_row5_count(
    cells: Seq<Cell>,
    width: int,
    height: int,
    w: int,
    h: int,
    dh: int,
) -> nat {
    neighbour_value(cells, width, height, w, h, width - 2, dh) + neighbour_value(
        cells,
        width,
        height,
        w,
        h,
        width - 1,
        dh,
    ) + neighbour_value(cells, width, height, w, h, 0, dh) + neighbour_value(
        cells,
        width,
        height,
        w,
        h,
        1,
        dh,
    ) + neighbour_value(cells, width, height, w, h, 2, dh)
}

/// Triangle topology: three row groups of 3, 4, and 5 candidates keyed by
/// vertical offset; when (w, h) have the same parity the 3- and
/// 5-candidate groups swap vertical offsets. This is the stylized,
/// deliberately duplicating scheme of the engine, not a geometric
/// triangulation.
pub open spec fn triangle_count(cells: Seq<Cell>, width: int, height: int, w: int, h: int) -> nat {
    if w % 2 == h % 2 {
        tri_row5_count(cells, width, height, w, h, height - 1) + tri_row4_count(
            cells,
            width,
            height,
            w,
            h,
            0,
        ) + tri_row3_count(cells, width, height, w, h, 1)
    } else {
        tri_row3_count(cells, width, height, w, h, height - 1) + tri_row4_count(
            cells,
            width,
            height,
            w,
            h,
            0,
        ) + tri_row5_count(cells, width, height, w, h, 1)
    }
}

/// Hexagon topology: six candidates in offset coordinates, with the
/// horizontal offsets keyed by the parity of h.
pub open spec fn hexagon_count(cells: Seq<Cell>, width: int, height: int, w: int, h: int) -> nat {
    if h % 2 == 0 {
        neighbour_value(cells, width, height, w, h, 0, height - 1) + neighbour_value(
            cells,
            width,
            height,
            w,
            h,
            1,
            height - 1,
        ) + neighbour_value(cells, width, height, w, h, width - 1, 0) + neighbour_value(
            cells,
            width,
            height,
            w,
            h,
            1,
            0,
        ) + neighbour_value(cells, width, height, w, h, 0, 1) + neighbour_value(
            cells,
            width,
            height,
            w,
            h,
            1,
            1,
        )
    } else {
        neighbour_value(cells, width, height, w, h, width - 1, height - 1) + neighbour_value(
            cells,
            width,
            height,
            w,
            h,
            0,
            height - 1,
        ) + neighbour_value(cells, width, height, w, h, width - 1, 0) + neighbour_value(
            cells,
            width,
            height,
            w,
            h,
            1,
            0,
        ) + neighbour_value(cells, width, height, w, h, width - 1, 1) + neighbour_value(
            cells,
            width,
            height,
            w,
            h,
            0,
            1,
        )
    }
}

/// The live-neighbour count of (w, h) under the selected topology.
pub open spec fn neighbour_count(
    form: CellFormFactor,
    cells: Seq<Cell>,
    width: int,
    height: int,
    w: int,
    h: int,
) -> nat {
    match form {
        CellFormFactor::Square => square_count(cells, width, height, w, h),
        CellFormFactor::Triangle => triangle_count(cells, width, height, w, h),
        CellFormFactor::Hexagon => hexagon_count(cells, width, height, w, h),
    }
}

/// The transition rule of the automaton, applied to one cell: a live cell
/// survives exactly when its count is in the survival set, a dead cell is
/// born exactly when its count is in the birth set, and every other cell
/// keeps its state.
pub open spec fn next_cell(c: Cell, n: nat, born: Seq<u8>, survives: Seq<u8>) -> Cell {
    if c is Alive {
        if rule_applies(survives, n) {
            Cell::Alive
        } else {
            Cell::Dead
        }
    } else {
        if rule_applies(born, n) {
            Cell::Alive
        } else {
            c
        }
    }
}

/// The whole next buffer: every cell steps simultaneously, each reading
/// only the frozen pre-step buffer.
pub open spec fn next_cells(m: GridModel) -> Seq<Cell> {
    Seq::new(
        m.cells.len(),
        |i: int|
            next_cell(
                m.cells[i],
                neighbour_count(
                    m.form,
                    m.cells,
                    m.width as int,
                    m.height as int,
                    i % (m.width as int),
                    i / (m.width as int),
                ),
                m.born,
                m.survives,
            ),
    )
}

/// One full generation step: the buffer is replaced by `next_cells` and
/// the generation counter advances by one; rules, dimensions, and
/// topology are untouched.
pub open spec fn next_model(m: GridModel) -> GridModel {
    GridModel { cells: next_cells(m), generation: (m.generation + 1) as u32, ..m }
}

/// The buffer after toggling the cell at one position.
pub open spec fn toggled(cells: Seq<Cell>, i: int) -> Seq<Cell> {
    cells.update(i, flipped(cells[i]))
}

/// A generation step keeps the buffer length, so the well-formedness
/// invariant survives every tick.
pub proof fn lemma_tick_preserves_inv(m: GridModel)
    requires
        m.inv(),
    ensures
        next_model(m).inv(),
{
}

/// Determinism of the generation step: two grids with the same rules,
/// topology, dimensions, and buffer contents step to the same next
/// buffer, whatever their generation counters.
pub proof fn lemma_tick_deterministic(a: GridModel, b: GridModel)
    requires
        a.born == b.born,
        a.survives == b.survives,
        a.width == b.width,
        a.height == b.height,
        a.form == b.form,
        a.cells == b.cells,
    ensures
        next_cells(a) == next_cells(b),
{
    assert(next_cells(a) =~= next_cells(b));
}

/// Toggling the same cell twice returns the buffer to its original
/// contents, and a single toggle never touches any other cell.
pub proof fn lemma_toggle_involution(cells: Seq<Cell>, i: int)
    requires
        0 <= i < cells.len(),
    ensures
        toggled(toggled(cells, i), i) == cells,
        forall|j: int| 0 <= j < cells.len() && j != i ==> #[trigger] toggled(cells, i)[j]
            == cells[j],
{
    assert(toggled(toggled(cells, i), i) =~= cells);
}

/// The grids reached by iterating the generation step.
pub open spec fn ticks_from(m: GridModel, n: nat) -> GridModel
    decreases n,
{
    if n == 0 {
        m
    } else {
        next_model(ticks_from(m, (n - 1) as nat))
    }
}

/// The generation counter counts ticks exactly: from a grid at
/// generation 0, n steps land at generation n.
pub proof fn lemma_generation_counts(m: GridModel, n: nat)
    requires
        m.generation == 0,
        n <= u32::MAX,
    ensures
        ticks_from(m, n).generation == n,
    decreases n,
{
    if n > 0 {
        lemma_generation_counts(m, (n - 1) as nat);
    }
}

/// Whether every listed coordinate pair lies inside the given dimensions.
pub open spec fn coords_in_range(coords: Seq<(u32, u32)>, width: u32, height: u32) -> bool {
    forall|k: int| 0 <= k < coords.len() ==> (#[trigger] coords[k]).0 < width && coords[k].1
        < height
}

/// Whether a buffer position is named by one of the listed coordinate
/// pairs.
pub open spec fn listed(coords: Seq<(u32, u32)>, width: int, i: int) -> bool {
    exists|k: int|
        0 <= k < coords.len() && i == cell_index(
            (#[trigger] coords[k]).0 as int,
            coords[k].1 as int,
            width,
        )
}

/// The buffer with every listed position made Alive and every other cell
/// kept as it was.
pub open spec fn with_alive(cells: Seq<Cell>, coords: Seq<(u32, u32)>, width: int) -> Seq<Cell> {
    Seq::new(
        cells.len(),
        |i: int|
            if listed(coords, width, i) {
                Cell::Alive
            } else {
                cells[i]
            },
    )
}

/// The one-character rendering of a cell: a filled square for a live
/// cell, an open square for a dead one.
pub open spec fn glyph(c: Cell) -> char {
    if c is Alive {
        '◼'
    } else {
        '◻'
    }
}

/// One rendered row: the glyph of every cell of row h, in column order.
pub open spec fn row_chars(cells: Seq<Cell>, width: int, h: int) -> Seq<char> {
    Seq::new(width as nat, |w: int| glyph(cells[cell_index(w, h, width)]))
}

/// The rendered rows from row h down: each row's glyphs followed by a
/// line break.
pub open spec fn rows_from(cells: Seq<Cell>, width: int, height: int, h: int) -> Seq<char>
    decreases height - h,
{
    if h >= height {
        Seq::empty()
    } else {
        row_chars(cells, width, h) + seq!['\n'] + rows_from(cells, width, height, h + 1)
    }
}

/// The whole textual rendering: one line per row, one glyph per cell, a
/// line break after every row; a grid with a zero dimension renders as
/// the empty string.
pub open spec fn rendered(m: GridModel) -> Seq<char> {
    if m.width == 0 || m.height == 0 {
        Seq::<char>::empty()
    } else {
        rows_from(m.cells, m.width as int, m.height as int, 0)
    }
}

/// The one-character string a cell is rendered as.
fn glyph_str(c: Cell) -> (r: &'static str)
    ensures
        r@ =~= seq![glyph(c)],
{
    proof {
        reveal_strlit("◼");
        reveal_strlit("◻");
    }
    match c {
        Cell::Alive => "◼",
        Cell::Dead => "◻",
    }
}

/// A grid of two-state cells on a torus, evolving under configurable
/// birth/survival rules with a selectable adjacency scheme.
#[derive(Debug)]
pub struct Universe {
    rules: LifeRules,
    wdim: u32,
    hdim: u32,
    cells: Vec<Cell>,
    cell_form_factor: CellFormFactor,
    tick: u32,
}

impl View for Universe {
    type V = GridModel;

    closed spec fn view(&self) -> GridModel {
        GridModel {
            born: self.rules.spec_born(),
            survives: self.rules.spec_survives(),
            width: self.wdim,
            height: self.hdim,
            form: self.cell_form_factor,
            cells: self.cells@,
            generation: self.tick,
        }
    }
}

impl Universe {
    /// Builds a grid from two rule digit strings, the dimensions, a
    /// topology, and the seed contents of the whole buffer. Seeding is an
    /// injected capability: the host draws its random seeds and hands
    /// them in as plain cells, so construction itself is deterministic.
    pub fn new(
        born: &str,
        survives: &str,
        w: u32,
        h: u32,
        cell_form_factor: CellFormFactor,
        seed: Vec<Cell>,
    ) -> (r: Result<Universe, LifeError>)
        requires
            seed@.len() == w * h,
        ensures
            all_digit_chars(born@) && all_digit_chars(survives@) ==> (r matches Ok(u) && u@.born
                == digits_of_chars(born@) && u@.survives == digits_of_chars(survives@) && u@.width
                == w && u@.height == h && u@.form == cell_form_factor && u@.cells == seed@
                && u@.generation == 0 && u@.inv()),
            !(all_digit_chars(born@) && all_digit_chars(survives@)) ==> r == Err::<
                Universe,
                LifeError,
            >(LifeError::InvalidRuleSpec),
    {
        let rules = LifeRules::parse(born, survives)?;
        Ok(
            Universe {
                rules,
                wdim: w,
                hdim: h,
                cells: seed,
                cell_form_factor,
                tick: 0,
            },
        )
    }

    /// Discards the current state and reseeds as if freshly constructed,
    /// resetting the generation counter to 0. On a bad rule string the
    /// grid is left exactly as it was.
    pub fn restart(
        &mut self,
        born: &str,
        survives: &str,
        w: u32,
        h: u32,
        cell_form_factor: CellFormFactor,
        seed: Vec<Cell>,
    ) -> (r: Result<(), LifeError>)
        requires
            seed@.len() == w * h,
        ensures
            all_digit_chars(born@) && all_digit_chars(survives@) ==> (r is Ok && final(self)@
                == (GridModel {
                born: digits_of_chars(born@),
                survives: digits_of_chars(survives@),
                width: w,
                height: h,
                form: cell_form_factor,
                cells: seed@,
                generation: 0,
            }) && final(self)@.inv()),
            !(all_digit_chars(born@) && all_digit_chars(survives@)) ==> r == Err::<
                (),
                LifeError,
            >(LifeError::InvalidRuleSpec) && final(self)@ == old(self)@,
    {
        let rules = LifeRules::parse(born, survives)?;
        self.rules = rules;
        self.wdim = w;
        self.hdim = h;
        self.cell_form_factor = cell_form_factor;
        self.cells = seed;
        self.tick = 0;
        Ok(())
    }

    /// The buffer position of (w, h), in range whenever the invariant
    /// holds and both coordinates are in range.
    fn index_of(&self, w: u32, h: u32) -> (idx: usize)
        requires
            self@.inv(),
            w < self@.width,
            h < self@.height,
        ensures
            idx as int == cell_index(w as int, h as int, self@.width as int),
            idx < self@.cells.len(),
    {
        let len = self.cells.len();
        proof {
            let wi = self@.width as int;
            let hi = self@.height as int;
            assert((h as int) * wi <= 0xffff_ffff * 0xffff_ffff) by (nonlinear_arith)
                requires
                    0 <= (h as int) <= 0xffff_ffff,
                    0 <= wi <= 0xffff_ffff,
            ;
            assert((h as int) * wi + wi <= hi * wi) by (nonlinear_arith)
                requires
                    (h as int) < hi,
                    0 <= (h as int),
                    0 <= wi,
            ;
            assert(hi * wi == wi * hi) by (nonlinear_arith);
        }
        let idx64: u64 = (w as u64) + (h as u64) * (self.wdim as u64);
        idx64 as usize
    }

    /// The numeric value of one wrapped neighbour: the raw offsets are
    /// added to the coordinates and reduced modulo the dimensions.
    fn neighbour_at(&self, w: u32, h: u32, dw: u64, dh: u64) -> (r: u8)
        requires
            self@.inv(),
            w < self@.width,
            h < self@.height,
            dw <= 4 * (self@.width as int),
            dh <= 4 * (self@.height as int),
        ensures
            r as nat == neighbour_value(
                self@.cells,
                self@.width as int,
                self@.height as int,
                w as int,
                h as int,
                dw as int,
                dh as int,
            ),
            r <= 1,
    {
        let nw = (((w as u64) + dw) % (self.wdim as u64)) as u32;
        let nh = (((h as u64) + dh) % (self.hdim as u64)) as u32;
        let idx = self.index_of(nw, nh);
        self.cells[idx].value()
    }

    /// One candidate of the square scheme: skipped when both offset
    /// values are zero, counted otherwise.
    fn square_term_at(&self, w: u32, h: u32, dw: u64, dh: u64) -> (r: u8)
        requires
            self@.inv(),
            w < self@.width,
            h < self@.height,
            dw <= 4 * (self@.width as int),
            dh <= 4 * (self@.height as int),
        ensures
            r as nat == square_term(
                self@.cells,
                self@.width as int,
                self@.height as int,
                w as int,
                h as int,
                dw as int,
                dh as int,
            ),
            r <= 1,
    {
        if dw == 0 && dh == 0 {
            0
        } else {
            self.neighbour_at(w, h, dw, dh)
        }
    }

    /// Live-neighbour count for the square topology: the toroidal Moore
    /// neighbourhood, a pair of offsets skipped when both values are
    /// zero — the eight surrounding cells on grids at least 2 wide and
    /// 2 high.
    pub fn live_neighbour_count_square(&self, w: u32, h: u32) -> (r: u8)
        requires
            self@.inv(),
            w < self@.width,
            h < self@.height,
        ensures
            r as nat == square_count(
                self@.cells,
                self@.width as int,
                self@.height as int,
                w as int,
                h as int,
            ),
            r <= 8,
    {
        let dwm: u64 = (self.wdim as u64) - 1;
        let dhm: u64 = (self.hdim as u64) - 1;
        let mut count: u8 = 0;
        count = count + self.square_term_at(w, h, dwm, dhm);
        count = count + self.square_term_at(w, h, dwm, 0);
        count = count + self.square_term_at(w, h, dwm, 1);
        count = count + self.square_term_at(w, h, 0, dhm);
        count = count + self.square_term_at(w, h, 0, 0);
        count = count + self.square_term_at(w, h, 0, 1);
        count = count + self.square_term_at(w, h, 1, dhm);
        count = count + self.square_term_at(w, h, 1, 0);
        count = count + self.square_term_at(w, h, 1, 1);
        count
    }

    /// The three-candidate row of the triangle scheme at one vertical
    /// offset.
    fn tri_row3(&self, w: u32, h: u32, dh: u64) -> (r: u8)
        requires
            self@.inv(),
            w < self@.width,
            h < self@.height,
            dh <= 4 * (self@.height as int),
        ensures
            r as nat == tri_row3_count(
                self@.cells,
                self@.width as int,
                self@.height as int,
                w as int,
                h as int,
                dh as int,
            ),
            r <= 3,
    {
        let dwm: u64 = (self.wdim as u64) - 1;
        let mut count: u8 = 0;
        count = count + self.neighbour_at(w, h, dwm, dh);
        count = count + self.neighbour_at(w, h, 0, dh);
        count = count + self.neighbour_at(w, h, 1, dh);
        count
    }

    /// The four-candidate row of the triangle scheme at one vertical
    /// offset. The offset two short of the width is taken one full wrap
    /// higher, which lands on the same wrapped column.
    fn tri_row4(&self, w: u32, h: u32, dh: u64) -> (r: u8)
        requires
            self@.inv(),
            w < self@.width,
            h < self@.height,
            dh <= 4 * (self@.height as int),
        ensures
            r as nat == tri_row4_count(
                self@.cells,
                self@.width as int,
                self@.height as int,
                w as int,
                h as int,
                dh as int,
            ),
            r <= 4,
    {
        let dwm: u64 = (self.wdim as u64) - 1;
        let dwmm: u64 = 2 * (self.wdim as u64) - 2;
        proof {
            lemma_mod_add_multiples_vanish(
                (w as int) + (self@.width as int) - 2,
                self@.width as int,
            );
        }
        let mut count: u8 = 0;
        count = count + self.neighbour_at(w, h, dwmm, dh);
        count = count + self.neighbour_at(w, h, dwm, dh);
        count = count + self.neighbour_at(w, h, 1, dh);
        count = count + self.neighbour_at(w, h, 2, dh);
        count
    }

    /// The five-candidate row of the triangle scheme at one vertical
    /// offset. The offset two short of the width is taken one full wrap
    /// higher, which lands on the same wrapped column.
    fn tri_row5(&self, w: u32, h: u32, dh: u64) -> (r: u8)
        requires
            self@.inv(),
            w < self@.width,
            h < self@.height,
            dh <= 4 * (self@.height as int),
        ensures
            r as nat == tri_row5_count(
                self@.cells,
                self@.width as int,
                self@.height as int,
                w as int,
                h as int,
                dh as int,
            ),
            r <= 5,
    {
        let dwm: u64 = (self.wdim as u64) - 1;
        let dwmm: u64 = 2 * (self.wdim as u64) - 2;
        proof {
            lemma_mod_add_multiples_vanish(
                (w as int) + (self@.width as int) - 2,
                self@.width as int,
            );
        }
        let mut count: u8 = 0;
        count = count + self.neighbour_at(w, h, dwmm, dh);
        count = count + self.neighbour_at(w, h, dwm, dh);
        count = count + self.neighbour_at(w, h, 0, dh);
        count = count + self.neighbour_at(w, h, 1, dh);
        count = count + self.neighbour_at(w, h, 2, dh);
        count
    }

    /// Live-neighbour count for the triangle topology: twelve candidates
    /// in three row groups, with the 3- and 5-candidate groups swapped
    /// when the coordinates share a parity.
    pub fn live_neighbour_count_triangle(&self, w: u32, h: u32) -> (r: u8)
        requires
            self@.inv(),
            w < self@.width,
            h < self@.height,
        ensures
            r as nat == triangle_count(
                self@.cells,
                self@.width as int,
                self@.height as int,
                w as int,
                h as int,
            ),
            r <= 12,
    {
        let dhm: u64 = (self.hdim as u64) - 1;
        if w % 2 == h % 2 {
            let a = self.tri_row5(w, h, dhm);
            let b = self.tri_row4(w, h, 0);
            let c = self.tri_row3(w, h, 1);
            a + b + c
        } else {
            let a = self.tri_row3(w, h, dhm);
            let b = self.tri_row4(w, h, 0);
            let c = self.tri_row5(w, h, 1);
            a + b + c
        }
    }

    /// Live-neighbour count for the hexagon topology: six candidates in
    /// offset coordinates, keyed by the parity of h.
    pub fn live_neighbour_count_hexagon(&self, w: u32, h: u32) -> (r: u8)
        requires
            self@.inv(),
            w < self@.width,
            h < self@.height,
        ensures
            r as nat == hexagon_count(
                self@.cells,
                self@.width as int,
                self@.height as int,
                w as int,
                h as int,
            ),
            r <= 6,
    {
        let dwm: u64 = (self.wdim as u64) - 1;
        let dhm: u64 = (self.hdim as u64) - 1;
        let mut count: u8 = 0;
        if h % 2 == 0 {
            count = count + self.neighbour_at(w, h, 0, dhm);
            count = count + self.neighbour_at(w, h, 1, dhm);
            count = count + self.neighbour_at(w, h, dwm, 0);
            count = count + self.neighbour_at(w, h, 1, 0);
            count = count + self.neighbour_at(w, h, 0, 1);
            count = count + self.neighbour_at(w, h, 1, 1);
        } else {
            count = count + self.neighbour_at(w, h, dwm, dhm);
            count = count + self.neighbour_at(w, h, 0, dhm);
            count = count + self.neighbour_at(w, h, dwm, 0);
            count = count + self.neighbour_at(w, h, 1, 0);
            count = count + self.neighbour_at(w, h, dwm, 1);
            count = count + self.neighbour_at(w, h, 0, 1);
        }
        count
    }

    /// Live-neighbour count of (w, h) under the grid's current topology.
    pub fn live_neighbour_count(&self, w: u32, h: u32) -> (r: u8)
        requires
            self@.inv(),
            w < self@.width,
            h < self@.height,
        ensures
            r as nat == neighbour_count(
                self@.form,
                self@.cells,
                self@.width as int,
                self@.height as int,
                w as int,
                h as int,
            ),
            r <= 12,
    {
        match self.cell_form_factor {
            CellFormFactor::Square => self.live_neighbour_count_square(w, h),
            CellFormFactor::Triangle => self.live_neighbour_count_triangle(w, h),
            CellFormFactor::Hexagon => self.live_neighbour_count_hexagon(w, h),
        }
    }

    /// Advances the grid by exactly one generation and returns the new
    /// generation count. Every cell is rewritten simultaneously from the
    /// frozen previous buffer under the current rules and topology;
    /// dimensions, rules, and topology are untouched.
    #[verifier::loop_isolation(false)]
    pub fn tick(&mut self) -> (r: u32)
        requires
            old(self)@.inv(),
            old(self)@.generation < u32::MAX,
        ensures
            final(self)@ == next_model(old(self)@),
            final(self)@.inv(),
            r == final(self)@.generation,
    {
        let ghost m = self@;
        let wd = self.wdim;
        let hd = self.hdim;
        let mut next: Vec<Cell> = Vec::new();
        let mut h: u32 = 0;
        while h < hd
            invariant
                h <= hd,
                next@.len() == (h as int) * (wd as int),
                forall|i: int| 0 <= i < next@.len() ==> #[trigger] next@[i] == next_cells(m)[i],
            decreases hd - h,
        {
            let mut w: u32 = 0;
            while w < wd
                invariant
                    h < hd,
                    w <= wd,
                    next@.len() == (h as int) * (wd as int) + (w as int),
                    forall|i: int| 0 <= i < next@.len() ==> #[trigger] next@[i] == next_cells(m)[
                        i
                    ],
                decreases wd - w,
            {
                let idx = self.index_of(w, h);
                let cell = self.cells[idx];
                let n = self.live_neighbour_count(w, h);
                let state = match cell {
                    Cell::Alive => if self.rules.is_survivor(n) {
                        Cell::Alive
                    } else {
                        Cell::Dead
                    },
                    Cell::Dead => if self.rules.is_born(n) {
                        Cell::Alive
                    } else {
                        Cell::Dead
                    },
                };
                proof {
                    lemma_fundamental_div_mod_converse_mod(
                        idx as int,
                        wd as int,
                        h as int,
                        w as int,
                    );
                    lemma_fundamental_div_mod_converse_div(
                        idx as int,
                        wd as int,
                        h as int,
                        w as int,
                    );
                    assert(next_cells(m)[idx as int] == state);
                }
                next.push(state);
                w = w + 1;
            }
            proof {
                assert(((h as int) + 1) * (wd as int) == (h as int) * (wd as int) + (
                wd as int)) by (nonlinear_arith);
            }
            h = h + 1;
        }
        proof {
            assert((hd as int) * (wd as int) == (wd as int) * (hd as int)) by (nonlinear_arith);
            assert(next@ =~= next_cells(m));
        }
        self.cells = next;
        self.tick = self.tick + 1;
        proof {
            assert(self@ =~= next_model(m));
        }
        self.tick
    }

    /// The stored width.
    pub fn width(&self) -> (r: u32)
        ensures
            r == self@.width,
    {
        self.wdim
    }

    /// Changes only the stored width. The buffer is deliberately not
    /// resized: the engine keeps the stored dimensions decoupled from the
    /// buffer until the next `restart` or `clear_universe` reconciles
    /// them.
    pub fn set_width(&mut self, w: u32)
        ensures
            final(self)@ == (GridModel { width: w, ..old(self)@ }),
    {
        self.wdim = w;
    }

    /// The stored height.
    pub fn height(&self) -> (r: u32)
        ensures
            r == self@.height,
    {
        self.hdim
    }

    /// Changes only the stored height; see `set_width`.
    pub fn set_height(&mut self, h: u32)
        ensures
            final(self)@ == (GridModel { height: h, ..old(self)@ }),
    {
        self.hdim = h;
    }

    /// A read-only, zero-copy view of the whole cell buffer, for a
    /// rendering collaborator.
    pub fn cells(&self) -> (r: &[Cell])
        ensures
            r@ == self@.cells,
    {
        self.cells.as_slice()
    }

    /// The cell buffer, as `cells` hands it out.
    pub fn get_cells(&self) -> (r: &[Cell])
        ensures
            r@ == self@.cells,
    {
        self.cells.as_slice()
    }

    /// The number of completed generations since construction or the last
    /// restart.
    pub fn generation(&self) -> (r: u32)
        ensures
            r == self@.generation,
    {
        self.tick
    }

    /// Flips the cell at (w, h) and returns its new state; a coordinate
    /// at or past the stored dimensions is reported as `OutOfBounds` and
    /// leaves the grid unchanged.
    pub fn cell_toggle(&mut self, w: u32, h: u32) -> (r: Result<Cell, LifeError>)
        requires
            old(self)@.inv(),
        ensures
            final(self)@.inv(),
            w < old(self)@.width && h < old(self)@.height ==> (r matches Ok(c) && c == flipped(
                old(self)@.cells[cell_index(w as int, h as int, old(self)@.width as int)],
            ) && final(self)@ == (GridModel {
                cells: toggled(
                    old(self)@.cells,
                    cell_index(w as int, h as int, old(self)@.width as int),
                ),
                ..old(self)@
            })),
            !(w < old(self)@.width && h < old(self)@.height) ==> r == Err::<Cell, LifeError>(
                LifeError::OutOfBounds,
            ) && final(self)@ == old(self)@,
    {
        if w < self.wdim && h < self.hdim {
            let idx = self.index_of(w, h);
            let mut cell = self.cells[idx];
            cell.toggle();
            self.cells.set(idx, cell);
            Ok(cell)
        } else {
            Err(LifeError::OutOfBounds)
        }
    }

    /// The birth digits rendered back as a string, in original order.
    pub fn born_rules(&self) -> (r: String)
        requires
            self@.rules_wf(),
        ensures
            r@ == chars_of_digits(self@.born),
    {
        self.rules.born_digits()
    }

    /// The survival digits rendered back as a string, in original order.
    pub fn survives_rules(&self) -> (r: String)
        requires
            self@.rules_wf(),
        ensures
            r@ == chars_of_digits(self@.survives),
    {
        self.rules.survives_digits()
    }

    /// Replaces the rule set from two digit strings without touching the
    /// buffer, the dimensions, the topology, or the generation counter.
    /// On a bad rule string the grid is left exactly as it was.
    pub fn set_rules(&mut self, born: &str, survives: &str) -> (r: Result<(), LifeError>)
        ensures
            all_digit_chars(born@) && all_digit_chars(survives@) ==> (r is Ok && final(self)@
                == (GridModel {
                born: digits_of_chars(born@),
                survives: digits_of_chars(survives@),
                ..old(self)@
            }) && final(self)@.rules_wf()),
            !(all_digit_chars(born@) && all_digit_chars(survives@)) ==> r == Err::<
                (),
                LifeError,
            >(LifeError::InvalidRuleSpec) && final(self)@ == old(self)@,
    {
        let rules = LifeRules::parse(born, survives)?;
        self.rules = rules;
        Ok(())
    }

    /// Replaces every cell with Dead, reallocating the buffer to the
    /// stored dimensions; rules, topology, and the generation counter are
    /// untouched.
    pub fn clear_universe(&mut self)
        requires
            old(self)@.width * old(self)@.height <= usize::MAX,
        ensures
            final(self)@ == (GridModel {
                cells: Seq::new((old(self)@.width * old(self)@.height) as nat, |i: int| Cell::Dead),
                ..old(self)@
            }),
            final(self)@.size_wf(),
    {
        let n64: u64 = (self.wdim as u64) * (self.hdim as u64);
        proof {
            assert((self@.width as int) * (self@.height as int) <= 0xffff_ffff
                * 0xffff_ffff) by (nonlinear_arith)
                requires
                    0 <= (self@.width as int) <= 0xffff_ffff,
                    0 <= (self@.height as int) <= 0xffff_ffff,
            ;
        }
        let n = n64 as usize;
        self.cells = vec![Cell::Dead; n];
        proof {
            assert(self@.cells =~= Seq::new(
                (old(self)@.width * old(self)@.height) as nat,
                |i: int| Cell::Dead,
            ));
        }
    }

    /// The current topology selector.
    pub fn cell_form_factor(&self) -> (r: CellFormFactor)
        ensures
            r == self@.form,
    {
        self.cell_form_factor
    }

    /// Replaces the topology without touching anything else.
    pub fn set_cell_form_factor(&mut self, cell_form_factor: CellFormFactor)
        ensures
            final(self)@ == (GridModel { form: cell_form_factor, ..old(self)@ }),
    {
        self.cell_form_factor = cell_form_factor;
    }

    /// Marks each listed (w, h) coordinate Alive, leaving every other
    /// cell unchanged. If any listed coordinate is out of range, the grid
    /// is left untouched and `OutOfBounds` is reported.
    #[verifier::loop_isolation(false)]
    pub fn set_cells(&mut self, coords: &[(u32, u32)]) -> (r: Result<(), LifeError>)
        requires
            old(self)@.inv(),
        ensures
            final(self)@.inv(),
            coords_in_range(coords@, old(self)@.width, old(self)@.height) ==> (r is Ok
                && final(self)@ == (GridModel {
                cells: with_alive(old(self)@.cells, coords@, old(self)@.width as int),
                ..old(self)@
            })),
            !coords_in_range(coords@, old(self)@.width, old(self)@.height) ==> r == Err::<
                (),
                LifeError,
            >(LifeError::OutOfBounds) && final(self)@ == old(self)@,
    {
        let ghost m = self@;
        let n = coords.len();
        let mut k: usize = 0;
        while k < n
            invariant
                k <= n,
                forall|j: int| 0 <= j < k ==> (#[trigger] coords@[j]).0 < m.width && coords@[j].1
                    < m.height,
            decreases n - k,
        {
            let (cw, ch) = coords[k];
            if cw >= self.wdim || ch >= self.hdim {
                proof {
                    assert(!((coords@[k as int]).0 < m.width && (coords@[k as int]).1 < m.height));
                }
                return Err(LifeError::OutOfBounds);
            }
            k = k + 1;
        }
        let mut k: usize = 0;
        while k < n
            invariant
                k <= n,
                self@.inv(),
                self@.born == m.born,
                self@.survives == m.survives,
                self@.width == m.width,
                self@.height == m.height,
                self@.form == m.form,
                self@.generation == m.generation,
                self@.cells.len() == m.cells.len(),
                forall|i: int| 0 <= i < self@.cells.len() ==> #[trigger] self@.cells[i] == (
                if listed(coords@.take(k as int), m.width as int, i) {
                    Cell::Alive
                } else {
                    m.cells[i]
                }),
            decreases n - k,
        {
            let (cw, ch) = coords[k];
            let idx = self.index_of(cw, ch);
            self.cells.set(idx, Cell::Alive);
            proof {
                let t0 = coords@.take(k as int);
                let t1 = coords@.take(k as int + 1);
                assert forall|i: int| 0 <= i < self@.cells.len() implies #[trigger] self@.cells[i]
                    == (if listed(t1, m.width as int, i) {
                    Cell::Alive
                } else {
                    m.cells[i]
                }) by {
                    if i == idx as int {
                        assert(t1[k as int] == coords@[k as int]);
                        assert(listed(t1, m.width as int, i));
                    } else {
                        if listed(t1, m.width as int, i) {
                            let kk = choose|kk: int|
                                0 <= kk < t1.len() && i == cell_index(
                                    (#[trigger] t1[kk]).0 as int,
                                    t1[kk].1 as int,
                                    m.width as int,
                                );
                            assert(kk < k as int);
                            assert(t0[kk] == t1[kk]);
                            assert(listed(t0, m.width as int, i));
                        }
                        if listed(t0, m.width as int, i) {
                            let kk = choose|kk: int|
                                0 <= kk < t0.len() && i == cell_index(
                                    (#[trigger] t0[kk]).0 as int,
                                    t0[kk].1 as int,
                                    m.width as int,
                                );
                            assert(t1[kk] == t0[kk]);
                            assert(listed(t1, m.width as int, i));
                        }
                    }
                }
            }
            k = k + 1;
        }
        proof {
            assert(coords@.take(n as int) =~= coords@);
            assert(self@.cells =~= with_alive(m.cells, coords@, m.width as int));
            assert(self@ =~= (GridModel {
                cells: with_alive(m.cells, coords@, m.width as int),
                ..m
            }));
        }
        Ok(())
    }

    /// Renders the grid to text: one line per row, one glyph per cell, a
    /// line break after every row; a grid with a zero dimension renders
    /// as the empty string.
    #[verifier::loop_isolation(false)]
    pub fn render_to_string(&self) -> (r: String)
        requires
            self@.inv(),
        ensures
            r@ == rendered(self@),
    {
        let mut out = String::new();
        if self.wdim == 0 || self.hdim == 0 {
            return out;
        }
        let wd = self.wdim;
        let hd = self.hdim;
        proof {
            assert(Seq::<char>::empty() + rows_from(self@.cells, wd as int, hd as int, 0)
                =~= rows_from(self@.cells, wd as int, hd as int, 0));
        }
        let mut h: u32 = 0;
        while h < hd
            invariant
                h <= hd,
                out@ + rows_from(self@.cells, wd as int, hd as int, h as int) == rendered(self@),
            decreases hd - h,
        {
            let ghost row_start = out@;
            let mut w: u32 = 0;
            while w < wd
                invariant
                    h < hd,
                    w <= wd,
                    out@ == row_start + row_chars(self@.cells, wd as int, h as int).take(w as int),
                decreases wd - w,
            {
                let idx = self.index_of(w, h);
                let g = glyph_str(self.cells[idx]);
                out.append(g);
                proof {
                    let rc = row_chars(self@.cells, wd as int, h as int);
                    assert(rc.take(w as int + 1) =~= rc.take(w as int) + seq![rc[w as int]]);
                    assert(out@ =~= row_start + rc.take(w as int + 1));
                }
                w = w + 1;
            }
            out.append("\n");
            proof {
                reveal_strlit("\n");
                let rc = row_chars(self@.cells, wd as int, h as int);
                assert(rc.take(wd as int) =~= rc);
                assert("\n"@ =~= seq!['\n']);
                assert(out@ =~= row_start + rc + seq!['\n']);
                assert((row_start + rc + seq!['\n']) + rows_from(
                    self@.cells,
                    wd as int,
                    hd as int,
                    h as int + 1,
                ) =~= row_start + (rc + seq!['\n'] + rows_from(
                    self@.cells,
                    wd as int,
                    hd as int,
                    h as int + 1,
                )));
            }
            h = h + 1;
        }
        proof {
            assert(out@ + rows_from(self@.cells, wd as int, hd as int, hd as int) =~= out@);
        }
        out
    }
}

} // verus!

