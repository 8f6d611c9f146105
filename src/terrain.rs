use vstd::arithmetic::div_mod::{
    lemma_fundamental_div_mod, lemma_fundamental_div_mod_converse, lemma_mod_pos_bound,
};
use vstd::prelude::*;

verus! {

/// Kind of ground in a terrain cell.
#[derive(Clone, Copy, Debug, PartialEq, Eq, Structural)]
pub enum TerrainType {
    Open,
    Rough,
    Mud,
    Crater,
    Trench,
    Water,
    Road,
    Forest,
    Rubble,
}

impl TerrainType {
    pub open spec fn code_spec(self) -> u8 {
        match self {
            TerrainType::Open => 0,
            TerrainType::Rough => 1,
            TerrainType::Mud => 2,
            TerrainType::Crater => 3,
            TerrainType::Trench => 4,
            TerrainType::Water => 5,
            TerrainType::Road => 6,
            TerrainType::Forest => 7,
            TerrainType::Rubble => 8,
        }
    }

    /// The small integer of the type in a terrain snapshot (0 to 8).
    pub fn code(&self) -> (r: u8)
        ensures
            r == self.code_spec(),
            r <= 8,
    {
        match self {
            TerrainType::Open => 0,
            TerrainType::Rough => 1,
            TerrainType::Mud => 2,
            TerrainType::Crater => 3,
            TerrainType::Trench => 4,
            TerrainType::Water => 5,
            TerrainType::Road => 6,
            TerrainType::Forest => 7,
            TerrainType::Rubble => 8,
        }
    }

    /// Only forest blocks line of sight.
    pub fn blocks_los(&self) -> (r: bool)
        ensures
            r == (*self == TerrainType::Forest),
    {
        match self {
            TerrainType::Forest => true,
            _ => false,
        }
    }
}

/// The type of a cell after crater damage, by the first rule that applies:
/// damage above 2 makes a crater, above 1 turns forest into rubble, above
/// 0.5 turns open ground rough.
pub open spec fn promote_spec(t: TerrainType, over_two: bool, over_one: bool, over_half: bool) -> TerrainType {
    if over_two {
        TerrainType::Crater
    } else if over_one && t == TerrainType::Forest {
        TerrainType::Rubble
    } else if over_half && t == TerrainType::Open {
        TerrainType::Rough
    } else {
        t
    }
}

/// Applies the promotion rule, given which damage thresholds the cell's
/// accumulated damage exceeds.
pub fn promote(t: TerrainType, over_two: bool, over_one: bool, over_half: bool) -> (r: TerrainType)
    ensures
        r == promote_spec(t, over_two, over_one, over_half),
{
    if over_two {
        TerrainType::Crater
    } else if over_one && t == TerrainType::Forest {
        TerrainType::Rubble
    } else if over_half && t == TerrainType::Open {
        TerrainType::Rough
    } else {
        t
    }
}

/// Index of a grid coordinate, held to `0..n`.
pub open spec fn clamp_spec(g: i64, n: usize) -> usize {
    if g < 0 {
        0
    } else if g >= n {
        (n - 1) as usize
    } else {
        g as usize
    }
}

/// Holds a cell coordinate (the floor of a world coordinate over the cell
/// size) to the grid's range `0..n`.
pub fn clamp_to_grid(g: i64, n: usize) -> (r: usize)
    requires
        n > 0,
    ensures
        r == clamp_spec(g, n),
        r < n,
{
    if g < 0 {
        0
    } else if g as u64 >= n as u64 {
        n - 1
    } else {
        g as usize
    }
}

/// Squared distance between two grid coordinates.
pub open spec fn dist_sq(x: int, y: int, cx: int, cy: int) -> int {
    (x - cx) * (x - cx) + (y - cy) * (y - cy)
}

/// A point within `radius` of a centre lies in the square of side
/// `2 · radius` around it.
pub proof fn lemma_disk_in_square(x: int, y: int, cx: int, cy: int, radius: int)
    requires
        radius >= 0,
        dist_sq(x, y, cx, cy) <= radius * radius,
    ensures
        cx - radius <= x <= cx + radius,
        cy - radius <= y <= cy + radius,
{
    assert((x - cx) * (x - cx) <= radius * radius) by (nonlinear_arith)
        requires
            (x - cx) * (x - cx) + (y - cy) * (y - cy) <= radius * radius,
    ;
    assert((y - cy) * (y - cy) <= radius * radius) by (nonlinear_arith)
        requires
            (x - cx) * (x - cx) + (y - cy) * (y - cy) <= radius * radius,
    ;
    assert(cx - radius <= x <= cx + radius) by (nonlinear_arith)
        requires
            (x - cx) * (x - cx) <= radius * radius,
            radius >= 0,
    ;
    assert(cy - radius <= y <= cy + radius) by (nonlinear_arith)
        requires
            (y - cy) * (y - cy) <= radius * radius,
            radius >= 0,
    ;
}

/// Cells `cells` of a grid with `w` columns after a disk patch of `radius`
/// around `(cx, cy)`: forest covers anything, rough ground covers only open
/// ground.
pub open spec fn patch_seq(
    cells: Seq<TerrainType>,
    w: int,
    cx: int,
    cy: int,
    radius: int,
    forest: bool,
) -> Seq<TerrainType> {
    Seq::new(
        cells.len(),
        |i: int|
            if dist_sq(i % w, i / w, cx, cy) <= radius * radius {
                TerrainLayer::patch_type(cells[i], forest)
            } else {
                cells[i]
            },
    )
}

/// Cells `cells` of a grid with `w` columns with row `row` paved as road.
pub open spec fn road_seq(cells: Seq<TerrainType>, w: int, row: int) -> Seq<TerrainType> {
    Seq::new(cells.len(), |i: int| if i / w == row { TerrainType::Road } else { cells[i] })
}

/// Open ground of `n` cells.
pub open spec fn open_seq(n: int) -> Seq<TerrainType> {
    Seq::new(n as nat, |i: int| TerrainType::Open)
}

/// The featured map of `w × h` cells: open ground, a two-lane road across
/// the middle rows, four forest patches and two rough patches.
pub open spec fn featured_cells(w: int, h: int) -> Seq<TerrainType> {
    let mid = h / 2;
    let c1 = road_seq(open_seq(w * h), w, mid);
    let c2 = if mid > 0 {
        road_seq(c1, w, mid - 1)
    } else {
        c1
    };
    let c3 = patch_seq(c2, w, w / 4, h / 4, 5, true);
    let c4 = patch_seq(c3, w, 3 * w / 4, h / 4, 4, true);
    let c5 = patch_seq(c4, w, w / 4, 3 * h / 4, 4, true);
    let c6 = patch_seq(c5, w, 3 * w / 4, 3 * h / 4, 5, true);
    let c7 = patch_seq(c6, w, w / 3, h / 3, 3, false);
    patch_seq(c7, w, 2 * w / 3, 2 * h / 3, 3, false)
}

/// Largest grid side and patch radius that the integer arithmetic allows.
pub const MAX_SIDE: usize = 60_000;

/// The terrain types of a `width × height` grid of cells, row-major.
pub struct TerrainLayer {
    width: usize,
    height: usize,
    types: Vec<TerrainType>,
}

impl TerrainLayer {
    pub closed spec fn cells(&self) -> Seq<TerrainType> {
        self.types@
    }

    /// Number of columns.
    pub closed spec fn cols(&self) -> usize {
        self.width
    }

    /// Number of rows.
    pub closed spec fn rows(&self) -> usize {
        self.height
    }

    pub fn width(&self) -> (r: usize)
        ensures
            r == self.cols(),
    {
        self.width
    }

    pub fn height(&self) -> (r: usize)
        ensures
            r == self.rows(),
    {
        self.height
    }

    /// The type of cell `(x, y)` of the layer.
    pub open spec fn at(&self, x: int, y: int) -> TerrainType {
        self.cells()[y * self.cols() + x]
    }

    pub open spec fn wf(&self) -> bool {
        &&& self.cols() <= MAX_SIDE
        &&& self.rows() <= MAX_SIDE
        &&& self.cells().len() == self.cols() * self.rows()
    }

    /// Whether `(x, y)` is a cell of the layer.
    pub open spec fn inside(&self, x: int, y: int) -> bool {
        0 <= x < self.cols() && 0 <= y < self.rows()
    }

    /// A layer of open ground.
    pub fn new(width: usize, height: usize) -> (r: TerrainLayer)
        requires
            width <= MAX_SIDE,
            height <= MAX_SIDE,
        ensures
            r.wf(),
            r.cols() == width,
            r.rows() == height,
            r.cells() == open_seq(width * height),
    {
        assert(width * height <= MAX_SIDE * MAX_SIDE) by (nonlinear_arith)
            requires
                width <= MAX_SIDE,
                height <= MAX_SIDE,
        ;
        let n = width * height;
        let mut types: Vec<TerrainType> = Vec::new();
        let mut i: usize = 0;
        while i < n
            invariant
                i <= n,
                types@.len() == i,
                forall|k: int| 0 <= k < i ==> types@[k] == TerrainType::Open,
            decreases n - i,
        {
            types.push(TerrainType::Open);
            i = i + 1;
        }
        assert(types@ =~= open_seq(width * height));
        TerrainLayer { width, height, types }
    }

    /// A layer whose every cell `(x, y)` is `g` of its position in storage
    /// has exactly those cells.
    proof fn lemma_cells_by_index(&self, g: spec_fn(int) -> TerrainType)
        requires
            self.wf(),
            forall|x: int, y: int|
                #![trigger self.at(x, y)]
                self.inside(x, y) ==> self.at(x, y) == g(y * self.cols() + x),
        ensures
            self.cells() == Seq::new(self.cells().len(), g),
    {
        let w = self.cols() as int;
        let h = self.rows() as int;
        assert forall|i: int| 0 <= i < self.cells().len() implies self.cells()[i] == g(i) by {
            assert(w > 0) by (nonlinear_arith)
                requires
                    0 <= i < w * h,
                    w >= 0,
                    h >= 0,
            ;
            let x = i % w;
            let y = i / w;
            lemma_fundamental_div_mod(i, w);
            lemma_mod_pos_bound(i, w);
            assert(0 <= y < h) by (nonlinear_arith)
                requires
                    i == w * y + x,
                    0 <= x < w,
                    0 <= i < w * h,
                    w > 0,
            ;
            assert(y * w + x == i) by (nonlinear_arith)
                requires
                    i == w * y + x,
            ;
            assert(self.inside(x, y));
            let _ = self.at(x, y);
        }
        assert(self.cells() =~= Seq::new(self.cells().len(), g));
    }

    /// Position `y * w + x` of a cell gives back its column and row.
    proof fn lemma_split_index(w: int, x: int, y: int)
        requires
            0 <= x < w,
            0 <= y,
        ensures
            (y * w + x) % w == x,
            (y * w + x) / w == y,
    {
        lemma_fundamental_div_mod_converse(y * w + x, w, y, x);
    }

    proof fn lemma_index(&self, x: int, y: int)
        requires
            self.wf(),
            self.inside(x, y),
        ensures
            0 <= y * self.cols() + x < self.cells().len(),
            y * self.cols() + x < MAX_SIDE * MAX_SIDE,
    {
        self.lemma_size();
        assert(0 <= y * self.cols() + x < self.cols() * self.rows()) by (nonlinear_arith)
            requires
                0 <= x < self.cols(),
                0 <= y < self.rows(),
        ;
    }

    proof fn lemma_size(&self)
        requires
            self.wf(),
        ensures
            self.cols() * self.rows() <= MAX_SIDE * MAX_SIDE,
    {
        assert(self.cols() * self.rows() <= MAX_SIDE * MAX_SIDE) by (nonlinear_arith)
            requires
                self.cols() <= MAX_SIDE,
                self.rows() <= MAX_SIDE,
        ;
    }

    /// Position of cell `(x, y)` in the row-major storage, if it is a cell.
    pub fn cell_index(&self, x: usize, y: usize) -> (r: Option<usize>)
        requires
            self.wf(),
        ensures
            self.inside(x as int, y as int) ==> r is Some && r->0 == y * self.cols() + x,
            !self.inside(x as int, y as int) ==> r is None,
            r matches Some(i) ==> i < self.cells().len(),
    {
        if x < self.width && y < self.height {
            proof {
                self.lemma_index(x as int, y as int);
            }
            Some(y * self.width + x)
        } else {
            None
        }
    }

    /// The type of cell `(x, y)`, if it is a cell.
    pub fn get(&self, x: usize, y: usize) -> (r: Option<TerrainType>)
        requires
            self.wf(),
        ensures
            self.inside(x as int, y as int) ==> r == Some(self.at(x as int, y as int)),
            !self.inside(x as int, y as int) ==> r is None,
    {
        match self.cell_index(x, y) {
            Some(i) => Some(self.types[i]),
            None => None,
        }
    }

    /// Sets the type of cell `(x, y)`; nothing happens off the grid.
    pub fn set(&mut self, x: usize, y: usize, t: TerrainType)
        requires
            old(self).wf(),
        ensures
            final(self).wf(),
            final(self).cols() == old(self).cols(),
            final(self).rows() == old(self).rows(),
            old(self).inside(x as int, y as int) ==> final(self).cells() == old(self).cells().update(
                y * old(self).cols() + x,
                t,
            ),
            !old(self).inside(x as int, y as int) ==> final(self).cells() == old(self).cells(),
    {
        match self.cell_index(x, y) {
            Some(i) => {
                self.types[i] = t;
            },
            None => {},
        }
    }

    /// Applies the crater promotion rule to cell `(x, y)`.
    pub fn promote_cell(&mut self, x: usize, y: usize, over_two: bool, over_one: bool, over_half: bool)
        requires
            old(self).wf(),
        ensures
            final(self).wf(),
            final(self).cols() == old(self).cols(),
            final(self).rows() == old(self).rows(),
            old(self).inside(x as int, y as int) ==> final(self).cells() == old(self).cells().update(
                y * old(self).cols() + x,
                promote_spec(old(self).at(x as int, y as int), over_two, over_one, over_half),
            ),
            !old(self).inside(x as int, y as int) ==> final(self).cells() == old(self).cells(),
    {
        match self.get(x, y) {
            Some(t) => {
                let p = promote(t, over_two, over_one, over_half);
                self.set(x, y, p);
            },
            None => {},
        }
    }

    /// The snapshot codes of all cells, row-major.
    pub fn type_codes(&self) -> (r: Vec<u8>)
        ensures
            r@.len() == self.cells().len(),
            forall|i: int| 0 <= i < r@.len() ==> r@[i] == self.cells()[i].code_spec(),
    {
        let mut r: Vec<u8> = Vec::new();
        let mut i: usize = 0;
        while i < self.types.len()
            invariant
                i <= self.types@.len(),
                r@.len() == i,
                forall|k: int| 0 <= k < i ==> r@[k] == self.cells()[k].code_spec(),
            decreases self.types.len() - i,
        {
            r.push(self.types[i].code());
            i = i + 1;
        }
        r
    }

    /// The type that a disk patch gives a cell of type `t`: forest covers
    /// anything, rough ground covers only open ground.
    pub open spec fn patch_type(t: TerrainType, forest: bool) -> TerrainType {
        if forest {
            TerrainType::Forest
        } else if t == TerrainType::Open {
            TerrainType::Rough
        } else {
            t
        }
    }

    /// The layer's cells after a disk patch of `radius` around `(cx, cy)`.
    pub open spec fn patched(
        &self,
        old_cells: Seq<TerrainType>,
        cx: int,
        cy: int,
        radius: int,
        forest: bool,
    ) -> bool {
        &&& self.cells().len() == old_cells.len()
        &&& forall|x: int, y: int|
            #![trigger self.at(x, y)]
            self.inside(x, y) ==> self.at(x, y) == if dist_sq(x, y, cx, cy) <= radius * radius {
                TerrainLayer::patch_type(old_cells[y * self.cols() + x], forest)
            } else {
                old_cells[y * self.cols() + x]
            }
    }

    /// Covers the cells within `radius` of `(cx, cy)` with forest (or, when
    /// `forest` is false, turns the open ones among them rough).
    pub fn add_patch(&mut self, cx: usize, cy: usize, radius: usize, forest: bool)
        requires
            old(self).wf(),
            cx <= MAX_SIDE,
            cy <= MAX_SIDE,
            radius <= MAX_SIDE,
        ensures
            final(self).wf(),
            final(self).cols() == old(self).cols(),
            final(self).rows() == old(self).rows(),
            final(self).patched(old(self).cells(), cx as int, cy as int, radius as int, forest),
            final(self).cells() == patch_seq(
                old(self).cells(),
                old(self).cols() as int,
                cx as int,
                cy as int,
                radius as int,
                forest,
            ),
    {
        let ghost old_cells = self.cells();
        let x0: usize = if cx >= radius { cx - radius } else { 0 };
        let y0: usize = if cy >= radius { cy - radius } else { 0 };
        let x1: usize = cx + radius;
        let y1: usize = cy + radius;
        assert(radius * radius <= MAX_SIDE * MAX_SIDE) by (nonlinear_arith)
            requires
                radius <= MAX_SIDE,
        ;
        let r2: u64 = (radius as u64) * (radius as u64);
        let mut y: usize = y0;
        proof {
            assert forall|px: int, py: int|
                #![trigger self.at(px, py)]
                self.inside(px, py) && py < y && dist_sq(px, py, cx as int, cy as int) <= radius
                    * radius implies false by {
                lemma_disk_in_square(px, py, cx as int, cy as int, radius as int);
            }
        }
        while y <= y1
            invariant
                self.wf(),
                self.cols() == old(self).cols(),
                self.rows() == old(self).rows(),
                old_cells == old(self).cells(),
                old(self).wf(),
                y0 <= y <= y1 + 1,
                x0 == (if cx >= radius { cx - radius } else { 0 }),
                y0 == (if cy >= radius { cy - radius } else { 0 }),
                x1 == cx + radius,
                y1 == cy + radius,
                cx <= MAX_SIDE,
                cy <= MAX_SIDE,
                radius <= MAX_SIDE,
                r2 == radius * radius,
                forall|px: int, py: int|
                    #![trigger self.at(px, py)]
                    self.inside(px, py) ==> self.at(px, py) == if py < y && dist_sq(px, py, cx as int, cy as int) <= radius * radius {
                        TerrainLayer::patch_type(old_cells[py * self.cols() + px], forest)
                    } else {
                        old_cells[py * self.cols() + px]
                    },
            decreases y1 + 1 - y,
        {
            let mut x: usize = x0;
            proof {
                assert forall|px: int, py: int|
                    #![trigger self.at(px, py)]
                    self.inside(px, py) && py == y && px < x && dist_sq(px, py, cx as int, cy as int)
                        <= radius * radius implies false by {
                    lemma_disk_in_square(px, py, cx as int, cy as int, radius as int);
                }
            }
            while x <= x1
                invariant
                    self.wf(),
                    self.cols() == old(self).cols(),
                    self.rows() == old(self).rows(),
                    old_cells == old(self).cells(),
                    old(self).wf(),
                    y0 <= y <= y1,
                    x0 <= x <= x1 + 1,
                    x0 == (if cx >= radius { cx - radius } else { 0 }),
                    y0 == (if cy >= radius { cy - radius } else { 0 }),
                    x1 == cx + radius,
                    y1 == cy + radius,
                    cx <= MAX_SIDE,
                    cy <= MAX_SIDE,
                    radius <= MAX_SIDE,
                    r2 == radius * radius,
                    forall|px: int, py: int|
                        #![trigger self.at(px, py)]
                        self.inside(px, py) ==> self.at(px, py) == if (py < y || (py == y && px < x))
                            && dist_sq(px, py, cx as int, cy as int) <= radius * radius {
                            TerrainLayer::patch_type(old_cells[py * self.cols() + px], forest)
                        } else {
                            old_cells[py * self.cols() + px]
                        },
                decreases x1 + 1 - x,
            {
                let ddx: u64 = if x >= cx { (x - cx) as u64 } else { (cx - x) as u64 };
                let ddy: u64 = if y >= cy { (y - cy) as u64 } else { (cy - y) as u64 };
                assert(ddx * ddx + ddy * ddy <= 8 * MAX_SIDE * MAX_SIDE) by (nonlinear_arith)
                    requires
                        ddx <= 2 * MAX_SIDE,
                        ddy <= 2 * MAX_SIDE,
                ;
                let d2: u64 = ddx * ddx + ddy * ddy;
                assert(d2 == dist_sq(x as int, y as int, cx as int, cy as int)) by (nonlinear_arith)
                    requires
                        d2 == ddx * ddx + ddy * ddy,
                        ddx == (if x >= cx { x - cx } else { cx - x }),
                        ddy == (if y >= cy { y - cy } else { cy - y }),
                ;
                if d2 <= r2 {
                    let ghost prev = *self;
                    let ghost w = self.cols();
                    match self.get(x, y) {
                        Some(t) => {
                            let nt = if forest {
                                TerrainType::Forest
                            } else if t == TerrainType::Open {
                                TerrainType::Rough
                            } else {
                                t
                            };
                            self.set(x, y, nt);
                            proof {
                                assert(prev.inside(x as int, y as int));
                                prev.lemma_index(x as int, y as int);
                                assert(self.cols() == w);
                                assert(self.cells() == prev.cells().update(y * w + x, nt));
                                assert forall|px: int, py: int|
                                    #![trigger self.at(px, py)]
                                    self.inside(px, py) implies self.at(px, py) == if (py < y || (py
                                        == y && px < x + 1)) && dist_sq(px, py, cx as int, cy as int)
                                        <= radius * radius {
                                        TerrainLayer::patch_type(old_cells[py * w + px], forest)
                                    } else {
                                        old_cells[py * w + px]
                                    } by {
                                    prev.lemma_index(px, py);
                                    // the loop invariant, taken at this cell before the write
                                    assert(prev.inside(px, py));
                                    let _ = prev.at(px, py);
                                    if px == x && py == y {
                                        assert(self.cells()[y * w + x] == nt);
                                        assert(prev.at(x as int, y as int) == old_cells[y * w + x]);
                                        assert(nt == TerrainLayer::patch_type(old_cells[y * w + x], forest));
                                        assert(dist_sq(px, py, cx as int, cy as int) <= radius * radius);
                                    } else {
                                        assert(py * w + px != y * w + x) by (nonlinear_arith)
                                            requires
                                                0 <= px < w,
                                                0 <= x < w,
                                                py >= 0,
                                                y >= 0,
                                                px != x || py != y,
                                        ;
                                        assert(w == prev.cols());
                                        assert(0 <= py * w + px < prev.cells().len());
                                        assert(0 <= y * w + x < prev.cells().len());
                                        assert(self.cells()[py * w + px] == prev.cells()[py * w + px]);
                                        assert(self.at(px, py) == prev.at(px, py));
                                    }
                                }
                            }
                        },
                        None => {},
                    }
                }
                x = x + 1;
            }
            proof {
                assert forall|px: int, py: int|
                    #![trigger self.at(px, py)]
                    self.inside(px, py) && py == y && dist_sq(px, py, cx as int, cy as int) <= radius
                        * radius implies px < x by {
                    lemma_disk_in_square(px, py, cx as int, cy as int, radius as int);
                }
            }
            y = y + 1;
        }
        proof {
            assert forall|px: int, py: int|
                #![trigger self.at(px, py)]
                self.inside(px, py) && dist_sq(px, py, cx as int, cy as int) <= radius * radius
                    implies py < y by {
                lemma_disk_in_square(px, py, cx as int, cy as int, radius as int);
            }
        }
        proof {
            let w = self.cols() as int;
            let g = |i: int|
                if dist_sq(i % w, i / w, cx as int, cy as int) <= radius * radius {
                    TerrainLayer::patch_type(old_cells[i], forest)
                } else {
                    old_cells[i]
                };
            assert forall|px: int, py: int|
                #![trigger self.at(px, py)]
                self.inside(px, py) implies self.at(px, py) == g(py * w + px) by {
                TerrainLayer::lemma_split_index(w, px, py);
            }
            self.lemma_cells_by_index(g);
            assert(Seq::new(self.cells().len(), g) =~= patch_seq(
                old_cells,
                w,
                cx as int,
                cy as int,
                radius as int,
                forest,
            ));
        }
    }

    /// Paves row `y` with road; nothing happens for a row off the grid.
    pub fn add_road_row(&mut self, y: usize)
        requires
            old(self).wf(),
        ensures
            final(self).wf(),
            final(self).cols() == old(self).cols(),
            final(self).rows() == old(self).rows(),
            forall|px: int, py: int|
                #![trigger final(self).at(px, py)]
                final(self).inside(px, py) ==> final(self).at(px, py) == if py == y {
                    TerrainType::Road
                } else {
                    old(self).at(px, py)
                },
            final(self).cells() == road_seq(old(self).cells(), old(self).cols() as int, y as int),
    {
        let ghost old_layer = *self;
        let w = self.width;
        let mut x: usize = 0;
        while x < w
            invariant
                self.wf(),
                old_layer.wf(),
                self.cols() == old_layer.cols(),
                self.rows() == old_layer.rows(),
                w == self.cols(),
                x <= w,
                forall|px: int, py: int|
                    #![trigger self.at(px, py)]
                    self.inside(px, py) ==> self.at(px, py) == if py == y && px < x {
                        TerrainType::Road
                    } else {
                        old_layer.at(px, py)
                    },
            decreases w - x,
        {
            let ghost prev = *self;
            self.set(x, y, TerrainType::Road);
            proof {
                assert forall|px: int, py: int|
                    #![trigger self.at(px, py)]
                    self.inside(px, py) implies self.at(px, py) == if py == y && px < x + 1 {
                        TerrainType::Road
                    } else {
                        old_layer.at(px, py)
                    } by {
                    prev.lemma_index(px, py);
                    // the loop invariant, taken at this cell before the write
                    let _ = prev.at(px, py);
                    if prev.inside(x as int, y as int) {
                        prev.lemma_index(x as int, y as int);
                        if px != x || py != y {
                            assert(py * w + px != y * w + x) by (nonlinear_arith)
                                requires
                                    0 <= px < w,
                                    0 <= x < w,
                                    py >= 0,
                                    y >= 0,
                                    px != x || py != y,
                            ;
                        }
                    }
                }
            }
            x = x + 1;
        }
        proof {
            let g = |i: int| if i / (w as int) == y { TerrainType::Road } else { old_layer.cells()[i] };
            assert forall|px: int, py: int|
                #![trigger self.at(px, py)]
                self.inside(px, py) implies self.at(px, py) == g(py * w + px) by {
                TerrainLayer::lemma_split_index(w as int, px, py);
                old_layer.lemma_index(px, py);
            }
            self.lemma_cells_by_index(g);
            assert(Seq::new(self.cells().len(), g) =~= road_seq(old_layer.cells(), w as int, y as int));
        }
    }

    /// A layer of open ground with a two-lane road across the middle, four
    /// forest patches and two rough patches.
    pub fn new_with_features(width: usize, height: usize) -> (r: TerrainLayer)
        requires
            width <= MAX_SIDE,
            height <= MAX_SIDE,
        ensures
            r.wf(),
            r.cols() == width,
            r.rows() == height,
            r.cells() == featured_cells(width as int, height as int),
    {
        let mut layer = TerrainLayer::new(width, height);
        let mid_y = height / 2;
        layer.add_road_row(mid_y);
        if mid_y > 0 {
            layer.add_road_row(mid_y - 1);
        }
        layer.add_patch(width / 4, height / 4, 5, true);
        layer.add_patch(3 * width / 4, height / 4, 4, true);
        layer.add_patch(width / 4, 3 * height / 4, 4, true);
        layer.add_patch(3 * width / 4, 3 * height / 4, 5, true);
        layer.add_patch(width / 3, height / 3, 3, false);
        layer.add_patch(2 * width / 3, 2 * height / 3, 3, false);
        layer
    }
}

} // verus!
