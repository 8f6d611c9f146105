use vstd::arithmetic::div_mod::lemma_fundamental_div_mod_converse;
use vstd::prelude::*;
use std::collections::HashMap;

verus! {

broadcast use vstd::std_specs::hash::group_hash_axioms;

/// Coordinates of a cell of the uniform grid.
pub type CellKey = (i32, i32);

/// An entry of the grid: the key of the entity it stands for, and what the
/// grid stores for it.
pub type Entry<T> = (u64, T);

/// The cells' entries, by cell id.
pub type Buckets<T> = Map<u64, Seq<Entry<T>>>;

/// The cell id of each entity in the grid.
pub type Locations = Map<u64, u64>;

/// The id of cell `(cx, cy)`: both coordinates packed into one `u64`.
pub open spec fn cell_id(cx: i32, cy: i32) -> u64 {
    ((cx + 2147483648) * 4294967296 + (cy + 2147483648)) as u64
}

/// Distinct cells have distinct ids.
pub proof fn lemma_cell_id_injective(ax: i32, ay: i32, bx: i32, by: i32)
    ensures
        cell_id(ax, ay) == cell_id(bx, by) <==> (ax == bx && ay == by),
{
    let d: int = 4294967296;
    let qa = ax + 2147483648;
    let ra = ay + 2147483648;
    let qb = bx + 2147483648;
    let rb = by + 2147483648;
    assert(0 <= qa * d + ra < 18446744073709551616) by (nonlinear_arith)
        requires
            0 <= qa < d,
            0 <= ra < d,
            d == 4294967296,
    ;
    assert(0 <= qb * d + rb < 18446744073709551616) by (nonlinear_arith)
        requires
            0 <= qb < d,
            0 <= rb < d,
            d == 4294967296,
    ;
    if cell_id(ax, ay) == cell_id(bx, by) {
        let x = qa * d + ra;
        assert(x == qb * d + rb);
        lemma_fundamental_div_mod_converse(x, d, qa, ra);
        lemma_fundamental_div_mod_converse(x, d, qb, rb);
    }
}

/// Computes the id of cell `(cx, cy)`.
pub fn cell_id_of(cx: i32, cy: i32) -> (r: u64)
    ensures
        r == cell_id(cx, cy),
{
    let hi: u64 = (cx as i64 + 2147483648) as u64;
    let lo: u64 = (cy as i64 + 2147483648) as u64;
    assert(hi * 4294967296 + lo <= u64::MAX) by (nonlinear_arith)
        requires
            hi < 4294967296,
            lo < 4294967296,
    ;
    hi * 4294967296 + lo
}

/// The entries of cell `c`, empty for a cell that holds none.
pub open spec fn bucket<T>(b: Buckets<T>, c: u64) -> Seq<Entry<T>> {
    if b.contains_key(c) {
        b[c]
    } else {
        Seq::empty()
    }
}

/// The entries of cell `(cx, cy)`.
pub open spec fn entries_at<T>(b: Buckets<T>, key: CellKey) -> Seq<Entry<T>> {
    bucket(b, cell_id(key.0, key.1))
}

/// Whether `s` holds an entry of entity `key`.
pub open spec fn holds_key<T>(s: Seq<Entry<T>>, key: u64) -> bool {
    exists|j: int| 0 <= j < s.len() && s[j].0 == key
}

/// `s` without the entry of entity `key`.
pub open spec fn without_key<T>(s: Seq<Entry<T>>, key: u64) -> Seq<Entry<T>> {
    if holds_key(s, key) {
        s.remove(choose|j: int| 0 <= j < s.len() && s[j].0 == key)
    } else {
        s
    }
}

/// The cells after entity `key` is placed in cell `c` with `item`: its
/// earlier entry, if any, leaves its old cell, and the new entry goes to
/// the end of cell `c`.
pub open spec fn placed<T>(b: Buckets<T>, l: Locations, c: u64, key: u64, item: T) -> Buckets<T> {
    let b1 = if l.contains_key(key) {
        b.insert(l[key], without_key(bucket(b, l[key]), key))
    } else {
        b
    };
    b1.insert(c, bucket(b1, c).push((key, item)))
}

/// The grid's invariant: every entry sits in the cell its entity is
/// located in, a cell holds at most one entry per entity, and every
/// located entity has its entry.
pub open spec fn grid_ok<T>(b: Buckets<T>, l: Locations) -> bool {
    &&& forall|c: u64, i: int|
        #![trigger b[c][i]]
        b.contains_key(c) && 0 <= i < b[c].len() ==> l.contains_key(b[c][i].0) && l[b[c][i].0] == c
    &&& forall|c: u64, i: int, j: int|
        #![trigger b[c][i], b[c][j]]
        b.contains_key(c) && 0 <= i < j < b[c].len() ==> b[c][i].0 != b[c][j].0
    &&& forall|k: u64|
        #![trigger l[k]]
        l.contains_key(k) ==> b.contains_key(l[k]) && holds_key(b[l[k]], k)
}

proof fn lemma_placed_ok<T>(b: Buckets<T>, l: Locations, c: u64, key: u64, item: T)
    requires
        grid_ok(b, l),
    ensures
        grid_ok(placed(b, l, c, key, item), l.insert(key, c)),
{
    let l2 = l.insert(key, c);
    let b1 = if l.contains_key(key) {
        b.insert(l[key], without_key(bucket(b, l[key]), key))
    } else {
        b
    };
    // after the removal, no cell holds an entry of `key`
    assert forall|c1: u64, i: int| b1.contains_key(c1) && 0 <= i < b1[c1].len() implies b1[c1][i].0
        != key && l.contains_key(b1[c1][i].0) && l[b1[c1][i].0] == c1 by {
        if l.contains_key(key) && c1 == l[key] {
            let s = bucket(b, l[key]);
            let j = choose|j: int| 0 <= j < s.len() && s[j].0 == key;
            assert(s == b[c1]);
            assert(b1[c1] == s.remove(j));
            let i0 = if i < j { i } else { i + 1 };
            assert(b1[c1][i] == s[i0]);
            assert(s[i0].0 != s[j].0 || i0 == j);
        } else {
            assert(b1[c1] == b[c1]);
            assert(b[c1][i].0 != key);
        }
    }
    assert forall|c1: u64, i: int, j: int|
        b1.contains_key(c1) && 0 <= i < j < b1[c1].len() implies b1[c1][i].0 != b1[c1][j].0 by {
        if l.contains_key(key) && c1 == l[key] {
            let s = bucket(b, l[key]);
            let m = choose|m: int| 0 <= m < s.len() && s[m].0 == key;
            let i0 = if i < m { i } else { i + 1 };
            let j0 = if j < m { j } else { j + 1 };
            assert(b1[c1][i] == s[i0]);
            assert(b1[c1][j] == s[j0]);
            assert(b[c1][i0].0 != b[c1][j0].0);
        } else {
            assert(b1[c1] == b[c1]);
        }
    }
    assert forall|k: u64| k != key && l.contains_key(k) implies b1.contains_key(l[k]) && holds_key(
        b1[l[k]],
        k,
    ) by {
        let s0 = b[l[k]];
        let i = choose|i: int| 0 <= i < s0.len() && s0[i].0 == k;
        if l.contains_key(key) && l[k] == l[key] {
            let s = bucket(b, l[key]);
            let m = choose|m: int| 0 <= m < s.len() && s[m].0 == key;
            let i1 = if i < m { i } else { i - 1 };
            assert(i != m);
            assert(b1[l[k]][i1] == s[i]);
        } else {
            assert(b1[l[k]] == s0);
            assert(b1[l[k]][i] == s0[i]);
        }
    }
    let b2 = placed(b, l, c, key, item);
    assert(b2 == b1.insert(c, bucket(b1, c).push((key, item))));
    assert forall|c1: u64, i: int|
        #![trigger b2[c1][i]]
        b2.contains_key(c1) && 0 <= i < b2[c1].len() implies l2.contains_key(b2[c1][i].0) && l2[b2[c1][i].0]
        == c1 by {
        if c1 == c {
            if i < bucket(b1, c).len() {
                assert(b2[c1][i] == b1[c1][i]);
            }
        } else {
            assert(b2[c1][i] == b1[c1][i]);
        }
    }
    assert forall|c1: u64, i: int, j: int|
        #![trigger b2[c1][i], b2[c1][j]]
        b2.contains_key(c1) && 0 <= i < j < b2[c1].len() implies b2[c1][i].0 != b2[c1][j].0 by {
        if c1 == c {
            if j < bucket(b1, c).len() {
                assert(b2[c1][i] == b1[c1][i]);
                assert(b2[c1][j] == b1[c1][j]);
            } else {
                assert(b2[c1][i] == b1[c1][i]);
            }
        } else {
            assert(b2[c1][i] == b1[c1][i]);
            assert(b2[c1][j] == b1[c1][j]);
        }
    }
    assert forall|k: u64|
        #![trigger l2[k]]
        l2.contains_key(k) implies b2.contains_key(l2[k]) && holds_key(b2[l2[k]], k) by {
        if k == key {
            let n = bucket(b1, c).len() as int;
            assert(b2[c][n].0 == key);
        } else {
            let s0 = b1[l[k]];
            let i = choose|i: int| 0 <= i < s0.len() && s0[i].0 == k;
            assert(b2[l[k]][i] == s0[i]);
        }
    }
}

/// The grid's state after placing the alive inputs one after the other.
pub open spec fn replay<T>(s: Seq<GridInput<T>>) -> (Buckets<T>, Locations)
    decreases s.len(),
{
    if s.len() == 0 {
        (Map::empty(), Map::empty())
    } else {
        let (b, l) = replay(s.drop_last());
        let x = s.last();
        if x.alive {
            (placed(b, l, cell_id(x.cell_x, x.cell_y), x.key, x.item), l.insert(
                x.key,
                cell_id(x.cell_x, x.cell_y),
            ))
        } else {
            (b, l)
        }
    }
}

/// The alive inputs in cell `key`, in input order, as entries.
pub open spec fn alive_in<T>(s: Seq<GridInput<T>>, key: CellKey) -> Seq<Entry<T>>
    decreases s.len(),
{
    if s.len() == 0 {
        Seq::empty()
    } else {
        let x = s.last();
        let rest = alive_in(s.drop_last(), key);
        if x.alive && x.cell_x == key.0 && x.cell_y == key.1 {
            rest.push((x.key, x.item))
        } else {
            rest
        }
    }
}

/// Whether no two alive inputs stand for the same entity.
pub open spec fn alive_keys_distinct<T>(s: Seq<GridInput<T>>) -> bool {
    forall|i: int, j: int|
        0 <= i < j < s.len() && s[i].alive && s[j].alive ==> s[i].key != s[j].key
}

/// The keys of the alive inputs.
pub open spec fn alive_keys<T>(s: Seq<GridInput<T>>) -> Set<u64> {
    Set::new(|k: u64| exists|i: int| 0 <= i < s.len() && s[i].alive && s[i].key == k)
}

/// Placing inputs that stand for distinct entities puts each alive input,
/// and nothing else, into its own cell in input order, and locates exactly
/// as many entities as there are alive inputs.
pub proof fn lemma_replay_distinct<T>(s: Seq<GridInput<T>>)
    requires
        alive_keys_distinct(s),
    ensures
        forall|key: CellKey| #[trigger] entries_at(replay(s).0, key) == alive_in(s, key),
        replay(s).1.dom() == alive_keys(s),
        replay(s).1.dom().finite(),
        replay(s).1.dom().len() == alive_count(s),
    decreases s.len(),
{
    if s.len() == 0 {
        assert(alive_keys(s) =~= Set::<u64>::empty());
        assert forall|key: CellKey| #[trigger] entries_at(replay(s).0, key) == alive_in(s, key) by {
            assert(entries_at(replay(s).0, key) =~= Seq::<Entry<T>>::empty());
        }
    } else {
        let p = s.drop_last();
        assert(alive_keys_distinct(p));
        lemma_replay_distinct(p);
        let (b, l) = replay(p);
        let x = s.last();
        if x.alive {
            let c = cell_id(x.cell_x, x.cell_y);
            assert(!l.contains_key(x.key)) by {
                if l.contains_key(x.key) {
                    assert(alive_keys(p).contains(x.key));
                    let i = choose|i: int| 0 <= i < p.len() && p[i].alive && p[i].key == x.key;
                    assert(s[i] == p[i]);
                    assert(s[s.len() - 1] == x);
                }
            }
            assert forall|key: CellKey| #[trigger] entries_at(replay(s).0, key) == alive_in(s, key) by {
                lemma_cell_id_injective(key.0, key.1, x.cell_x, x.cell_y);
                assert(entries_at(b, key) == alive_in(p, key));
            }
            assert(alive_keys(s) =~= alive_keys(p).insert(x.key)) by {
                assert forall|k: u64| alive_keys(p).contains(k) implies alive_keys(s).contains(k) by {
                    let i = choose|i: int| 0 <= i < p.len() && p[i].alive && p[i].key == k;
                    assert(s[i] == p[i]);
                }
                assert(s[s.len() - 1] == x);
                assert forall|k: u64| alive_keys(s).contains(k) implies alive_keys(p).insert(
                    x.key,
                ).contains(k) by {
                    let i = choose|i: int| 0 <= i < s.len() && s[i].alive && s[i].key == k;
                    if i < s.len() - 1 {
                        assert(p[i] == s[i]);
                    }
                }
            }
        } else {
            assert forall|key: CellKey| #[trigger] entries_at(replay(s).0, key) == alive_in(s, key) by {
                assert(entries_at(b, key) == alive_in(p, key));
            }
            assert(alive_keys(s) =~= alive_keys(p)) by {
                assert forall|k: u64| alive_keys(p).contains(k) implies alive_keys(s).contains(k) by {
                    let i = choose|i: int| 0 <= i < p.len() && p[i].alive && p[i].key == k;
                    assert(s[i] == p[i]);
                }
                assert forall|k: u64| alive_keys(s).contains(k) implies alive_keys(p).contains(k) by {
                    let i = choose|i: int| 0 <= i < s.len() && s[i].alive && s[i].key == k;
                    if i < s.len() - 1 {
                        assert(p[i] == s[i]);
                    }
                }
            }
        }
    }
}

/// The cells of the square of side `2 · reach + 1` around `(cx, cy)`, column
/// by column: index `i` is the cell at offset `(i / side, i % side)` from the
/// square's lower corner.
pub open spec fn square_keys(cx: int, cy: int, reach: int) -> Seq<CellKey> {
    let side = 2 * reach + 1;
    Seq::new(
        (side * side) as nat,
        |i: int| ((cx - reach + i / side) as i32, (cy - reach + i % side) as i32),
    )
}

/// The entries of the cells `keys`, cell after cell.
pub open spec fn gather<T>(b: Buckets<T>, keys: Seq<CellKey>) -> Seq<Entry<T>>
    decreases keys.len(),
{
    if keys.len() == 0 {
        Seq::empty()
    } else {
        gather(b, keys.drop_last()) + entries_at(b, keys.last())
    }
}

/// One item to index: its cell, whether it counts (a dead squad does not),
/// the key of its entity, and what the grid stores for it.
#[derive(Clone, Copy, Debug)]
pub struct GridInput<T> {
    pub cell_x: i32,
    pub cell_y: i32,
    pub alive: bool,
    pub key: u64,
    pub item: T,
}

/// Number of inputs that count.
pub open spec fn alive_count<T>(s: Seq<GridInput<T>>) -> nat
    decreases s.len(),
{
    if s.len() == 0 {
        0
    } else {
        alive_count(s.drop_last()) + if s.last().alive {
            1nat
        } else {
            0nat
        }
    }
}

/// A uniform cell hash of entries, one per entity, rebuilt from scratch
/// every tick. It owns only plain copies of what it indexes.
pub struct SpatialGrid<T> {
    cells: HashMap<u64, Vec<Entry<T>>>,
    entity_cells: HashMap<u64, u64>,
}

impl<T: Copy> SpatialGrid<T> {
    /// The entries of each cell, by cell id, in order of insertion.
    pub closed spec fn buckets(&self) -> Buckets<T> {
        self.cells@.map_values(|v: Vec<Entry<T>>| v@)
    }

    /// The cell id of each entity in the grid.
    pub closed spec fn locations(&self) -> Locations {
        self.entity_cells@
    }

    pub open spec fn wf(&self) -> bool {
        grid_ok(self.buckets(), self.locations())
    }

    /// Number of entities in the grid.
    pub open spec fn size(&self) -> nat {
        self.locations().dom().len()
    }

    pub fn new() -> (r: SpatialGrid<T>)
        ensures
            r.wf(),
            r.buckets() == Buckets::<T>::empty(),
            r.locations() == Locations::empty(),
    {
        let r = SpatialGrid { cells: HashMap::new(), entity_cells: HashMap::new() };
        assert(r.buckets() =~= Buckets::<T>::empty());
        r
    }

    /// Removes every entry and every cell.
    pub fn clear(&mut self)
        ensures
            final(self).wf(),
            final(self).buckets() == Buckets::<T>::empty(),
            final(self).locations() == Locations::empty(),
    {
        self.cells.clear();
        self.entity_cells.clear();
        assert(self.buckets() =~= Buckets::<T>::empty());
    }

    /// Places entity `key` in cell `(cx, cy)` with `item`. An earlier entry
    /// of the same entity leaves its cell, so the grid holds one entry per
    /// entity, and the count grows only for an entity that is new.
    pub fn insert(&mut self, cx: i32, cy: i32, key: u64, item: T)
        requires
            old(self).wf(),
        ensures
            final(self).wf(),
            final(self).buckets() == placed(
                old(self).buckets(),
                old(self).locations(),
                cell_id(cx, cy),
                key,
                item,
            ),
            final(self).locations() == old(self).locations().insert(key, cell_id(cx, cy)),
            final(self).size() == old(self).size() + if old(self).locations().contains_key(key) {
                0nat
            } else {
                1nat
            },
    {
        let ghost b0 = self.buckets();
        let ghost l0 = self.locations();
        let c = cell_id_of(cx, cy);
        match self.entity_cells.get(&key) {
            Some(oc_ref) => {
                let oc = *oc_ref;
                let mut v = match self.cells.remove(&oc) {
                    Some(v) => v,
                    None => Vec::new(),
                };
                let ghost s = v@;
                assert(s == bucket(b0, oc));
                let mut j: usize = 0;
                while j < v.len()
                    invariant
                        v@ == s,
                        j <= s.len(),
                        forall|m: int| 0 <= m < j ==> s[m].0 != key,
                    ensures
                        j <= s.len(),
                        j < s.len() ==> s[j as int].0 == key,
                        forall|m: int| 0 <= m < j ==> s[m].0 != key,
                    decreases v.len() - j,
                {
                    if v[j].0 == key {
                        break;
                    }
                    j = j + 1;
                }
                if j < v.len() {
                    proof {
                        let m = choose|m: int| 0 <= m < s.len() && s[m].0 == key;
                        assert(s[j as int].0 == key);
                        assert(m == j) by {
                            if m != j {
                                if m < j {
                                } else {
                                    assert(b0[oc][j as int].0 != b0[oc][m].0);
                                }
                            }
                        }
                    }
                    v.remove(j);
                } else {
                    assert(!holds_key(s, key));
                }
                assert(v@ == without_key(s, key));
                self.cells.insert(oc, v);
            },
            None => {},
        }
        let ghost b1 = if l0.contains_key(key) {
            b0.insert(l0[key], without_key(bucket(b0, l0[key]), key))
        } else {
            b0
        };
        assert(self.buckets() =~= b1);
        let mut w = match self.cells.remove(&c) {
            Some(w) => w,
            None => Vec::new(),
        };
        assert(w@ == bucket(b1, c));
        w.push((key, item));
        self.cells.insert(c, w);
        self.entity_cells.insert(key, c);
        proof {
            lemma_placed_ok(b0, l0, c, key, item);
            assert(self.buckets() =~= placed(b0, l0, c, key, item));
            assert(self.locations() == l0.insert(key, c));
        }
    }

    /// Number of entities in the grid.
    pub fn total_count(&self) -> (r: usize)
        ensures
            r == self.size(),
    {
        self.entity_cells.len()
    }

    /// Number of cells that were given an entry since the last clear.
    pub fn cell_count(&self) -> (r: usize)
        ensures
            r == self.buckets().len(),
    {
        assert(self.buckets().dom() =~= self.cells@.dom());
        self.cells.len()
    }

    /// The entries of cell `(cx, cy)`, in order of insertion.
    pub fn cell(&self, cx: i32, cy: i32) -> (r: &[Entry<T>])
        ensures
            r@ == entries_at(self.buckets(), (cx, cy)),
    {
        let c = cell_id_of(cx, cy);
        match self.cells.get(&c) {
            Some(v) => v.as_slice(),
            None => &[],
        }
    }

    /// The entries of all cells within `reach` cells of `(cx, cy)`, cell
    /// after cell as `square_keys` orders them: the candidates of a range query.
    pub fn entries_around(&self, cx: i32, cy: i32, reach: i32) -> (r: Vec<Entry<T>>)
        requires
            self.wf(),
            0 <= reach < i32::MAX,
            i32::MIN <= cx - reach,
            cx + reach <= i32::MAX,
            i32::MIN <= cy - reach,
            cy + reach <= i32::MAX,
        ensures
            r@ == gather(self.buckets(), square_keys(cx as int, cy as int, reach as int)),
    {
        let ghost keys = square_keys(cx as int, cy as int, reach as int);
        let ghost side = 2 * reach + 1;
        let mut r: Vec<Entry<T>> = Vec::new();
        let mut dx: i32 = -reach;
        assert(keys.take(0) =~= Seq::<CellKey>::empty());
        assert(gather(self.buckets(), keys.take(0)) =~= Seq::<Entry<T>>::empty());
        assert(dx + reach == 0);
        assert((dx + reach) * side == 0) by (nonlinear_arith)
            requires
                dx + reach == 0,
        ;
        assert(r@ =~= Seq::<Entry<T>>::empty());
        while dx <= reach
            invariant
                self.wf(),
                0 <= reach < i32::MAX,
                i32::MIN <= cx - reach,
                cx + reach <= i32::MAX,
                i32::MIN <= cy - reach,
                cy + reach <= i32::MAX,
                side == 2 * reach + 1,
                keys == square_keys(cx as int, cy as int, reach as int),
                -reach <= dx <= reach + 1,
                r@ == gather(self.buckets(), keys.take((dx + reach) * side)),
            decreases reach + 1 - dx,
        {
            let mut dy: i32 = -reach;
            while dy <= reach
                invariant
                    self.wf(),
                    0 <= reach < i32::MAX,
                    i32::MIN <= cx - reach,
                    cx + reach <= i32::MAX,
                    i32::MIN <= cy - reach,
                    cy + reach <= i32::MAX,
                    side == 2 * reach + 1,
                    keys == square_keys(cx as int, cy as int, reach as int),
                    -reach <= dx <= reach,
                    -reach <= dy <= reach + 1,
                    r@ == gather(self.buckets(), keys.take((dx + reach) * side + (dy + reach))),
                decreases reach + 1 - dy,
            {
                let ghost n = (dx + reach) * side + (dy + reach);
                proof {
                    assert(0 <= n < side * side) by (nonlinear_arith)
                        requires
                            n == (dx + reach) * side + (dy + reach),
                            0 <= dx + reach < side,
                            0 <= dy + reach < side,
                    ;
                    lemma_fundamental_div_mod_converse(n, side, dx + reach, dy + reach);
                    assert(keys[n] == ((cx + dx) as i32, (cy + dy) as i32));
                    assert(keys.take(n + 1).drop_last() =~= keys.take(n));
                    assert(keys.take(n + 1).last() == keys[n]);
                }
                let entries = self.cell(cx + dx, cy + dy);
                let mut j: usize = 0;
                let ghost before = r@;
                while j < entries.len()
                    invariant
                        r@ == before + entries@.take(j as int),
                        j <= entries@.len(),
                    decreases entries.len() - j,
                {
                    r.push(entries[j]);
                    j = j + 1;
                    assert(before + entries@.take(j as int) =~= (before + entries@.take(j - 1)).push(
                        entries@[j - 1],
                    ));
                }
                assert(entries@.take(entries@.len() as int) =~= entries@);
                dy = dy + 1;
            }
            proof {
                assert((dx + reach) * side + (dy + reach) == (dx + 1 + reach) * side) by (nonlinear_arith)
                    requires
                        dy == reach + 1,
                        side == 2 * reach + 1,
                ;
            }
            dx = dx + 1;
        }
        proof {
            assert(keys.len() == side * side);
            assert((dx + reach) * side == side * side) by (nonlinear_arith)
                requires
                    dx == reach + 1,
                    side == 2 * reach + 1,
            ;
            assert(keys.take(side * side) =~= keys);
        }
        r
    }

    /// Replaces the grid's contents with the inputs that count, placed one
    /// after the other. When the alive inputs stand for distinct entities,
    /// each cell then holds exactly the alive inputs in it, in input order,
    /// and the grid counts exactly as many entities as there are alive inputs.
    pub fn rebuild(&mut self, inputs: &Vec<GridInput<T>>)
        ensures
            final(self).wf(),
            (final(self).buckets(), final(self).locations()) == replay(inputs@),
            alive_keys_distinct(inputs@) ==> {
                &&& forall|key: CellKey|
                    #[trigger] entries_at(final(self).buckets(), key) == alive_in(inputs@, key)
                &&& final(self).size() == alive_count(inputs@)
            },
    {
        self.clear();
        let mut i: usize = 0;
        assert(inputs@.take(0) =~= Seq::<GridInput<T>>::empty());
        while i < inputs.len()
            invariant
                self.wf(),
                0 <= i <= inputs@.len(),
                (self.buckets(), self.locations()) == replay(inputs@.take(i as int)),
            decreases inputs.len() - i,
        {
            proof {
                assert(inputs@.take(i + 1).drop_last() =~= inputs@.take(i as int));
            }
            let input = inputs[i];
            if input.alive {
                self.insert(input.cell_x, input.cell_y, input.key, input.item);
            }
            i = i + 1;
        }
        assert(inputs@.take(inputs@.len() as int) =~= inputs@);
        proof {
            assert(self.buckets() == replay(inputs@).0);
            assert(self.locations() == replay(inputs@).1);
            if alive_keys_distinct(inputs@) {
                lemma_replay_distinct(inputs@);
            }
        }
    }
}

} // verus!
