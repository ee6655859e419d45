use vstd::prelude::*;

verus! {

/// The cells of the spatial grid: a hash map from cell coordinates to the
/// ids of the particles registered in that cell, in insertion order.
#[verifier::external_body]
pub struct CellTable {
    cells: bevy::utils::HashMap<(i32, i32), Vec<u64>>,
}

/// What a cell table holds: for each cell that has an entry, its particle ids.
pub uninterp spec fn cell_table_contents(table: CellTable) -> Map<(i32, i32), Seq<u64>>;

impl View for CellTable {
    type V = Map<(i32, i32), Seq<u64>>;

    open spec fn view(&self) -> Map<(i32, i32), Seq<u64>> {
        cell_table_contents(*self)
    }
}

/// `HashMap::default` (bevy's hash map): a new map has no entries.
#[verifier::external_body]
fn empty_cell_table() -> (table: CellTable)
    ensures
        cell_table_contents(table) == empty_cells(),
{
    CellTable { cells: bevy::utils::HashMap::default() }
}

/// `HashMap::entry(cell).or_default().push(id)` (bevy's hash map): the entry of
/// `cell` is created empty if absent, and `id` is appended to it; no other
/// entry changes.
#[verifier::external_body]
fn cell_table_push(table: &mut CellTable, cell: (i32, i32), id: u64)
    ensures
        cell_table_contents(*final(table)) == cell_table_contents(*old(table)).insert(
            cell,
            entities_at(cell_table_contents(*old(table)), cell).push(id),
        ),
{
    table.cells.entry(cell).or_default().push(id);
}

/// `HashMap::get(&cell)` (bevy's hash map): the entry of `cell`, if it has one.
#[verifier::external_body]
fn cell_table_get(table: &CellTable, cell: (i32, i32)) -> (found: Option<&Vec<u64>>)
    ensures
        match found {
            Some(ids) => cell_table_contents(*table).dom().contains(cell) && ids@
                == cell_table_contents(*table)[cell],
            None => !cell_table_contents(*table).dom().contains(cell),
        },
{
    table.cells.get(&cell)
}

/// `HashMap::keys` (bevy's hash map), collected into a vector: every key of
/// the map exactly once, in an order left to chance and not stated.
#[verifier::external_body]
fn cell_table_keys(table: &CellTable) -> (keys: Vec<(i32, i32)>)
    ensures
        forall|c: (i32, i32)|
            #[trigger] keys@.contains(c) <==> cell_table_contents(*table).dom().contains(c),
        keys@.no_duplicates(),
{
    table.cells.keys().copied().collect()
}

/// `HashMap::entry(cell).or_default().clear()` (bevy's hash map): the entry
/// of `cell` is empty afterwards (created empty if absent) and keeps its
/// place in the map; no other entry changes.
#[verifier::external_body]
fn cell_table_empty_cell(table: &mut CellTable, cell: (i32, i32))
    ensures
        cell_table_contents(*final(table)) == cell_table_contents(*old(table)).insert(
            cell,
            Seq::<u64>::empty(),
        ),
{
    table.cells.entry(cell).or_default().clear();
}

/// A grid with no registrations.
pub open spec fn empty_cells() -> Map<(i32, i32), Seq<u64>> {
    Map::empty()
}

/// The particle ids registered in `cell`: its entry, or nothing.
pub open spec fn entities_at(cells: Map<(i32, i32), Seq<u64>>, cell: (i32, i32)) -> Seq<u64> {
    if cells.dom().contains(cell) {
        cells[cell]
    } else {
        Seq::empty()
    }
}

/// The `k`-th of the nine cells around `center` (`k` in `0..9`): horizontal
/// offset `k / 3 - 1`, vertical offset `k % 3 - 1`, both wrapped around the
/// grid's `cols` x `rows` torus.
pub open spec fn neighbor_cell(center: (i32, i32), k: int, cols: int, rows: int) -> (i32, i32) {
    (((center.0 + (k / 3 - 1)) % cols) as i32, ((center.1 + (k % 3 - 1)) % rows) as i32)
}

/// The ids found in the first `k` neighbour cells of `center`, cell by cell.
pub open spec fn gathered(
    cells: Map<(i32, i32), Seq<u64>>,
    center: (i32, i32),
    cols: int,
    rows: int,
    k: nat,
) -> Seq<u64>
    decreases k,
{
    if k == 0 {
        Seq::empty()
    } else {
        gathered(cells, center, cols, rows, (k - 1) as nat) + entities_at(
            cells,
            neighbor_cell(center, k - 1, cols, rows),
        )
    }
}

/// The ids in the 3 x 3 block of cells around `center` on the torus.
pub open spec fn neighborhood(
    cells: Map<(i32, i32), Seq<u64>>,
    center: (i32, i32),
    cols: int,
    rows: int,
) -> Seq<u64> {
    gathered(cells, center, cols, rows, 9)
}

/// The ids that a list of placements puts into `cell`, in list order.
pub open spec fn placed_at(placements: Seq<((i32, i32), u64)>, cell: (i32, i32)) -> Seq<u64>
    decreases placements.len(),
{
    if placements.len() == 0 {
        Seq::empty()
    } else {
        let earlier = placed_at(placements.drop_last(), cell);
        if placements.last().0 == cell {
            earlier.push(placements.last().1)
        } else {
            earlier
        }
    }
}

/// Whether `cell` lies on a `cols` x `rows` grid.
pub open spec fn on_grid(cell: (i32, i32), cols: int, rows: int) -> bool {
    0 <= cell.0 < cols && 0 <= cell.1 < rows
}

/// A uniform grid over the world, wrapping at its edges, that records which
/// particles lie in which cell so that neighbours are found without looking
/// at every particle.
pub struct SpatialGrid {
    pub grid: CellTable,
    pub cols: i32,
    pub rows: i32,
}

impl SpatialGrid {
    /// An empty grid of `cols` columns and `rows` rows.
    pub fn new(cols: i32, rows: i32) -> (g: Self)
        ensures
            g.cols == cols,
            g.rows == rows,
            g.grid@ == empty_cells(),
    {
        SpatialGrid { grid: empty_cell_table(), cols, rows }
    }

    /// The ids registered in `cell`, in insertion order.
    pub fn cell_entities(&self, cell: (i32, i32)) -> (ids: Vec<u64>)
        ensures
            ids@ == entities_at(self.grid@, cell),
    {
        let mut ids: Vec<u64> = Vec::new();
        match cell_table_get(&self.grid, cell) {
            Some(found) => {
                let n = found.len();
                let mut j: usize = 0;
                while j < n
                    invariant
                        n == found@.len(),
                        j <= n,
                        ids@ == found@.take(j as int),
                    decreases n - j,
                {
                    ids.push(found[j]);
                    j += 1;
                    assert(ids@ =~= found@.take(j as int));
                }
                assert(found@.take(n as int) =~= found@);
            },
            None => {},
        }
        ids
    }

    /// Registers particle `entity` in `cell`.
    pub fn insert(&mut self, cell: (i32, i32), entity: u64)
        ensures
            final(self).cols == old(self).cols,
            final(self).rows == old(self).rows,
            final(self).grid@ == old(self).grid@.insert(
                cell,
                entities_at(old(self).grid@, cell).push(entity),
            ),
    {
        cell_table_push(&mut self.grid, cell, entity);
    }

    /// Forgets every registration, keeping every cell that has an entry (now
    /// empty), so that its storage is reused.
    pub fn clear(&mut self)
        ensures
            final(self).cols == old(self).cols,
            final(self).rows == old(self).rows,
            final(self).grid@.dom() == old(self).grid@.dom(),
            forall|c: (i32, i32)| #[trigger] entities_at(final(self).grid@, c) == Seq::<u64>::empty(),
    {
        let keys = cell_table_keys(&self.grid);
        let ghost before = self.grid@;
        let n = keys.len();
        let mut i: usize = 0;
        while i < n
            invariant
                n == keys@.len(),
                i <= n,
                self.cols == old(self).cols,
                self.rows == old(self).rows,
                before == old(self).grid@,
                forall|c: (i32, i32)| #[trigger] keys@.contains(c) <==> before.dom().contains(c),
                self.grid@.dom() == before.dom(),
                forall|c: (i32, i32)|
                    #[trigger] self.grid@.dom().contains(c) && keys@.take(i as int).contains(c)
                        ==> self.grid@[c] == Seq::<u64>::empty(),
            decreases n - i,
        {
            let cell = keys[i];
            let ghost prev = self.grid@;
            cell_table_empty_cell(&mut self.grid, cell);
            proof {
                assert(keys@.contains(cell));
                assert(self.grid@.dom() =~= prev.dom());
                assert forall|c: (i32, i32)|
                    #[trigger] self.grid@.dom().contains(c) && keys@.take(i + 1).contains(c)
                        implies self.grid@[c] == Seq::<u64>::empty() by {
                    if c != cell {
                        let j = choose|j: int| 0 <= j < i + 1 && #[trigger] keys@.take(i + 1)[j] == c;
                        assert(j != i);
                        assert(keys@.take(i as int)[j] == c);
                    }
                }
            }
            i += 1;
        }
        proof {
            assert(keys@.take(n as int) =~= keys@);
            assert forall|c: (i32, i32)| #[trigger] entities_at(self.grid@, c) == Seq::<u64>::empty() by {
                if self.grid@.dom().contains(c) {
                    assert(keys@.contains(c));
                }
            }
        }
    }

    /// Re-registers every particle: afterwards each cell holds exactly the ids
    /// that `placements` puts there, in list order; every cell that had an
    /// entry keeps one, and the only new entries are those of occupied cells.
    pub fn rebuild(&mut self, placements: &Vec<((i32, i32), u64)>)
        ensures
            final(self).cols == old(self).cols,
            final(self).rows == old(self).rows,
            forall|c: (i32, i32)| #[trigger] entities_at(final(self).grid@, c) == placed_at(placements@, c),
            forall|c: (i32, i32)|
                #[trigger] final(self).grid@.dom().contains(c) <==> (old(self).grid@.dom().contains(c)
                    || placed_at(placements@, c).len() > 0),
    {
        self.clear();
        let ghost kept = self.grid@.dom();
        let n = placements.len();
        let mut i: usize = 0;
        while i < n
            invariant
                n == placements@.len(),
                i <= n,
                self.cols == old(self).cols,
                self.rows == old(self).rows,
                kept == old(self).grid@.dom(),
                forall|c: (i32, i32)|
                    #[trigger] entities_at(self.grid@, c) == placed_at(placements@.take(i as int), c),
                forall|c: (i32, i32)|
                    #[trigger] self.grid@.dom().contains(c) <==> (kept.contains(c) || placed_at(
                        placements@.take(i as int),
                        c,
                    ).len() > 0),
            decreases n - i,
        {
            let (cell, entity) = placements[i];
            let ghost before = self.grid@;
            self.insert(cell, entity);
            proof {
                let prefix = placements@.take(i + 1);
                assert(prefix.drop_last() =~= placements@.take(i as int));
                assert(prefix.last() == (cell, entity));
                assert forall|c: (i32, i32)|
                    #[trigger] entities_at(self.grid@, c) == placed_at(prefix, c) by {
                    assert(entities_at(before, c) == placed_at(placements@.take(i as int), c));
                }
                assert forall|c: (i32, i32)|
                    #[trigger] self.grid@.dom().contains(c) <==> (kept.contains(c) || placed_at(
                        prefix,
                        c,
                    ).len() > 0) by {
                    assert(before.dom().contains(c) <==> (kept.contains(c) || placed_at(
                        placements@.take(i as int),
                        c,
                    ).len() > 0));
                }
            }
            i += 1;
        }
        assert(placements@.take(n as int) =~= placements@);
    }

    /// The ids registered in the 3 x 3 block of cells around `cell`, wrapping
    /// around the grid's edges: cell by cell, horizontal offset -1, 0, 1 in
    /// the outer order and vertical offset -1, 0, 1 in the inner order.
    pub fn get_neighbors(&self, cell: (i32, i32)) -> (ids: Vec<u64>)
        requires
            self.cols != 0,
            self.rows != 0,
            i32::MIN < cell.0 < i32::MAX,
            i32::MIN < cell.1 < i32::MAX,
            self.cols == -1 ==> cell.0 != i32::MIN + 1,
            self.rows == -1 ==> cell.1 != i32::MIN + 1,
        ensures
            ids@ == neighborhood(self.grid@, cell, self.cols as int, self.rows as int),
    {
        let cols = self.cols;
        let rows = self.rows;
        let mut ids: Vec<u64> = Vec::new();
        let mut k: usize = 0;
        while k < 9
            invariant
                k <= 9,
                cols == self.cols,
                rows == self.rows,
                cols != 0,
                rows != 0,
                i32::MIN < cell.0 < i32::MAX,
                i32::MIN < cell.1 < i32::MAX,
                cols == -1 ==> cell.0 != i32::MIN + 1,
                rows == -1 ==> cell.1 != i32::MIN + 1,
                ids@ == gathered(self.grid@, cell, cols as int, rows as int, k as nat),
            decreases 9 - k,
        {
            let dx: i32 = (k / 3) as i32 - 1;
            let dy: i32 = (k % 3) as i32 - 1;
            let x = cell.0 + dx;
            let y = cell.1 + dy;
            proof {
                lemma_euclid_mod_bound(x as int, cols as int);
                lemma_euclid_mod_bound(y as int, rows as int);
            }
            let nx: i32 = x.checked_rem_euclid(cols).unwrap();
            let ny: i32 = y.checked_rem_euclid(rows).unwrap();
            let ghost before = ids@;
            assert((nx, ny) == neighbor_cell(cell, k as int, cols as int, rows as int));
            match cell_table_get(&self.grid, (nx, ny)) {
                Some(found) => {
                    let n = found.len();
                    let mut j: usize = 0;
                    while j < n
                        invariant
                            n == found@.len(),
                            j <= n,
                            ids@ == before + found@.take(j as int),
                        decreases n - j,
                    {
                        ids.push(found[j]);
                        j += 1;
                        assert(ids@ =~= before + found@.take(j as int));
                    }
                    assert(found@.take(n as int) =~= found@);
                },
                None => {
                    assert(ids@ =~= before + Seq::<u64>::empty());
                },
            }
            k += 1;
        }
        ids
    }
}

proof fn lemma_euclid_mod_bound(x: int, d: int)
    requires
        d != 0,
    ensures
        0 <= x % d < if d > 0 { d } else { -d },
{
    if d > 0 {
        vstd::arithmetic::div_mod::lemma_mod_bound(x, d);
    } else {
        assert(0 <= x % d < -d) by (nonlinear_arith)
            requires
                d < 0,
        ;
    }
}

/// Every id registered in one of the nine cells around `center` is among the
/// ids that the neighbourhood of `center` gathers.
pub proof fn lemma_neighbor_cells_are_gathered(
    cells: Map<(i32, i32), Seq<u64>>,
    center: (i32, i32),
    cols: int,
    rows: int,
    k: int,
    id: u64,
)
    requires
        0 <= k < 9,
        entities_at(cells, neighbor_cell(center, k, cols, rows)).contains(id),
    ensures
        neighborhood(cells, center, cols, rows).contains(id),
{
    lemma_gathered_prefix(cells, center, cols, rows, k, 9, id);
}

proof fn lemma_gathered_prefix(
    cells: Map<(i32, i32), Seq<u64>>,
    center: (i32, i32),
    cols: int,
    rows: int,
    k: int,
    upto: nat,
    id: u64,
)
    requires
        0 <= k < upto,
        entities_at(cells, neighbor_cell(center, k, cols, rows)).contains(id),
    ensures
        gathered(cells, center, cols, rows, upto).contains(id),
    decreases upto,
{
    let earlier = gathered(cells, center, cols, rows, (upto - 1) as nat);
    let last = entities_at(cells, neighbor_cell(center, upto - 1, cols, rows));
    assert(gathered(cells, center, cols, rows, upto) == earlier + last);
    if k == upto - 1 {
        let j = choose|j: int| 0 <= j < last.len() && last[j] == id;
        assert((earlier + last)[earlier.len() + j] == id);
    } else {
        lemma_gathered_prefix(cells, center, cols, rows, k, (upto - 1) as nat, id);
        let j = choose|j: int| 0 <= j < earlier.len() && earlier[j] == id;
        assert((earlier + last)[j] == id);
    }
}

/// Nothing else is gathered: every id in the neighbourhood of `center` is
/// registered in one of the nine cells around it.
pub proof fn lemma_gathered_ids_come_from_neighbor_cells(
    cells: Map<(i32, i32), Seq<u64>>,
    center: (i32, i32),
    cols: int,
    rows: int,
    id: u64,
)
    requires
        neighborhood(cells, center, cols, rows).contains(id),
    ensures
        exists|k: int|
            0 <= k < 9 && #[trigger] entities_at(cells, neighbor_cell(center, k, cols, rows)).contains(
                id,
            ),
{
    lemma_gathered_origin(cells, center, cols, rows, 9, id);
}

proof fn lemma_gathered_origin(
    cells: Map<(i32, i32), Seq<u64>>,
    center: (i32, i32),
    cols: int,
    rows: int,
    upto: nat,
    id: u64,
)
    requires
        gathered(cells, center, cols, rows, upto).contains(id),
    ensures
        exists|k: int|
            0 <= k < upto && #[trigger] entities_at(
                cells,
                neighbor_cell(center, k, cols, rows),
            ).contains(id),
    decreases upto,
{
    if upto == 0 {
        assert(gathered(cells, center, cols, rows, 0) =~= Seq::<u64>::empty());
    } else {
        let earlier = gathered(cells, center, cols, rows, (upto - 1) as nat);
        let last = entities_at(cells, neighbor_cell(center, upto - 1, cols, rows));
        let all = earlier + last;
        assert(gathered(cells, center, cols, rows, upto) == all);
        let j = choose|j: int| 0 <= j < all.len() && all[j] == id;
        if j < earlier.len() {
            assert(earlier[j] == id);
            lemma_gathered_origin(cells, center, cols, rows, (upto - 1) as nat, id);
        } else {
            assert(last[j - earlier.len()] == id);
            assert(last.contains(id));
        }
    }
}

proof fn lemma_wrap_back(b: int, d: int, n: int)
    requires
        0 <= b < n,
    ensures
        ((b + d) % n - d) % n == b,
{
    vstd::arithmetic::div_mod::lemma_add_mod_noop_right(-d, b + d, n);
    vstd::arithmetic::div_mod::lemma_small_mod(b as nat, n as nat);
    assert(-d + (b + d) == b);
    assert(-d + (b + d) % n == (b + d) % n - d);
}

/// Being neighbours is mutual on the torus: when cell `a` is the `k`-th
/// neighbour of cell `b` (both on the grid), `b` is the `(8 - k)`-th
/// neighbour of `a`.
pub proof fn lemma_neighbor_relation_symmetric(a: (i32, i32), b: (i32, i32), cols: i32, rows: i32, k: int)
    requires
        cols > 0,
        rows > 0,
        on_grid(a, cols as int, rows as int),
        on_grid(b, cols as int, rows as int),
        0 <= k < 9,
        a == neighbor_cell(b, k, cols as int, rows as int),
    ensures
        b == neighbor_cell(a, 8 - k, cols as int, rows as int),
{
    let dx = k / 3 - 1;
    let dy = k % 3 - 1;
    assert((8 - k) / 3 - 1 == -dx && (8 - k) % 3 - 1 == -dy) by {
        assert(0 <= k < 9);
        if k < 3 {
        } else if k < 6 {
        } else {
        }
    }
    vstd::arithmetic::div_mod::lemma_mod_bound(b.0 + dx, cols as int);
    vstd::arithmetic::div_mod::lemma_mod_bound(b.1 + dy, rows as int);
    assert(a.0 == (b.0 + dx) % (cols as int));
    assert(a.1 == (b.1 + dy) % (rows as int));
    lemma_wrap_back(b.0 as int, dx, cols as int);
    lemma_wrap_back(b.1 as int, dy, rows as int);
}

/// Particles registered in neighbouring cells see each other: after the grid
/// is rebuilt from `placements`, when particle `e` is placed in cell `a` and
/// particle `f` in cell `b`, and `a` is one of the nine cells around `b`,
/// then `e` is among the neighbours of `b` and `f` among those of `a`.
pub proof fn lemma_neighbors_see_each_other(
    cells: Map<(i32, i32), Seq<u64>>,
    placements: Seq<((i32, i32), u64)>,
    cols: i32,
    rows: i32,
    a: (i32, i32),
    e: u64,
    b: (i32, i32),
    f: u64,
    k: int,
)
    requires
        forall|c: (i32, i32)| #[trigger] entities_at(cells, c) == placed_at(placements, c),
        placements.contains((a, e)),
        placements.contains((b, f)),
        cols > 0,
        rows > 0,
        on_grid(a, cols as int, rows as int),
        on_grid(b, cols as int, rows as int),
        0 <= k < 9,
        a == neighbor_cell(b, k, cols as int, rows as int),
    ensures
        neighborhood(cells, b, cols as int, rows as int).contains(e),
        neighborhood(cells, a, cols as int, rows as int).contains(f),
{
    lemma_placed_is_registered(placements, a, e);
    lemma_placed_is_registered(placements, b, f);
    assert(entities_at(cells, a) == placed_at(placements, a));
    assert(entities_at(cells, b) == placed_at(placements, b));
    lemma_neighbor_cells_are_gathered(cells, b, cols as int, rows as int, k, e);
    lemma_neighbor_relation_symmetric(a, b, cols, rows, k);
    lemma_neighbor_cells_are_gathered(cells, a, cols as int, rows as int, 8 - k, f);
}

/// A placement puts its id into its cell.
pub proof fn lemma_placed_is_registered(placements: Seq<((i32, i32), u64)>, cell: (i32, i32), id: u64)
    requires
        placements.contains((cell, id)),
    ensures
        placed_at(placements, cell).contains(id),
    decreases placements.len(),
{
    let i = choose|i: int| 0 <= i < placements.len() && placements[i] == (cell, id);
    let earlier = placements.drop_last();
    if i == placements.len() - 1 {
        let got = placed_at(earlier, cell).push(id);
        assert(got[got.len() - 1] == id);
    } else {
        assert(earlier[i] == (cell, id));
        lemma_placed_is_registered(earlier, cell, id);
        let prev = placed_at(earlier, cell);
        let j = choose|j: int| 0 <= j < prev.len() && prev[j] == id;
        if placements.last().0 == cell {
            assert(prev.push(placements.last().1)[j] == id);
        }
    }
}

} // verus!
