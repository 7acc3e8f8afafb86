//! The spatial tile index: a discretization of the sky into cells at six
//! zoom levels, recording per cell the named stars it contains. Built
//! once from the catalog and read-only afterwards; lookups off the grid
//! yield empty results rather than errors.

use vstd::prelude::*;
use crate::angles::{DEC_MAX, DEC_MIN, RA_FULL};
use crate::catalog::{is_named, Star, StarId};
use crate::coord::CelestialCoord;

verus! {

/// How many zoom levels the index distinguishes.
pub const TILE_LEVELS: u8 = 6;

/// A zoom bucket, from 0 (whole sky) to `TILE_LEVELS - 1` (finest).
#[derive(Clone, Copy, Debug, PartialEq, Eq, Structural, Hash)]
pub struct ZoomLevel(pub u8);

/// The zoom bucket of a zoom factor in thousandths: the floor of its
/// binary logarithm, capped at the finest level.
pub open spec fn zoom_level_spec(zoom: int) -> int {
    if zoom < 2000 {
        0
    } else if zoom < 4000 {
        1
    } else if zoom < 8000 {
        2
    } else if zoom < 16000 {
        3
    } else if zoom < 32000 {
        4
    } else {
        5
    }
}

/// The zoom bucket of a zoom factor in thousandths.
pub fn zoom_level_for(zoom: i64) -> (l: ZoomLevel)
    ensures
        l.0 == zoom_level_spec(zoom as int),
        l.0 < TILE_LEVELS,
{
    if zoom < 2000 {
        ZoomLevel(0)
    } else if zoom < 4000 {
        ZoomLevel(1)
    } else if zoom < 8000 {
        ZoomLevel(2)
    } else if zoom < 16000 {
        ZoomLevel(3)
    } else if zoom < 32000 {
        ZoomLevel(4)
    } else {
        ZoomLevel(5)
    }
}

/// Grid columns at a level: doubling from 4 up to 128.
pub open spec fn cols_of(level: int) -> int {
    if level <= 0 {
        4
    } else if level == 1 {
        8
    } else if level == 2 {
        16
    } else if level == 3 {
        32
    } else if level == 4 {
        64
    } else {
        128
    }
}

/// Grid rows at a level: doubling from 2 up to 64.
pub open spec fn rows_of(level: int) -> int {
    if level <= 0 {
        2
    } else if level == 1 {
        4
    } else if level == 2 {
        8
    } else if level == 3 {
        16
    } else if level == 4 {
        32
    } else {
        64
    }
}

/// Grid columns at a level.
pub fn cols_at(level: u8) -> (c: i64)
    ensures
        c == cols_of(level as int),
        4 <= c <= 128,
{
    if level == 0 {
        4
    } else if level == 1 {
        8
    } else if level == 2 {
        16
    } else if level == 3 {
        32
    } else if level == 4 {
        64
    } else {
        128
    }
}

/// Grid rows at a level.
pub fn rows_at(level: u8) -> (r: i64)
    ensures
        r == rows_of(level as int),
        2 <= r <= 64,
{
    if level == 0 {
        2
    } else if level == 1 {
        4
    } else if level == 2 {
        8
    } else if level == 3 {
        16
    } else if level == 4 {
        32
    } else {
        64
    }
}

/// The grid column of a right ascension at a level.
pub open spec fn col_of(ra: int, level: int) -> int {
    ra * cols_of(level) / (RA_FULL as int)
}

/// The grid row of a declination at a level; the north pole itself falls
/// in the last row.
pub open spec fn row_of(dec: int, level: int) -> int {
    let r = (dec - DEC_MIN) * rows_of(level) / ((DEC_MAX - DEC_MIN) as int);
    if r >= rows_of(level) {
        rows_of(level) - 1
    } else {
        r
    }
}

/// The flat cell index of a coordinate at a level.
pub open spec fn cell_of(c: CelestialCoord, level: int) -> int {
    row_of(c.dec as int, level) * cols_of(level) + col_of(c.ra as int, level)
}

/// A nonnegative number below a multiple of the divisor divides below
/// the factor.
proof fn lemma_div_below(x: int, d: int, m: int)
    requires
        0 <= x,
        1 <= d,
        x < d * m,
    ensures
        x / d < m,
{
    vstd::arithmetic::div_mod::lemma_fundamental_div_mod(x, d);
    vstd::arithmetic::div_mod::lemma_mod_bound(x, d);
    if x / d >= m {
        assert(d * (x / d) >= d * m) by (nonlinear_arith)
            requires d >= 1, x / d >= m,
        ;
    }
}

/// A nonnegative numerator divides to a nonnegative quotient.
proof fn lemma_div_nonneg(x: int, d: int)
    requires
        0 <= x,
        1 <= d,
    ensures
        0 <= x / d,
{
    vstd::arithmetic::div_mod::lemma_fundamental_div_mod(x, d);
    vstd::arithmetic::div_mod::lemma_mod_bound(x, d);
    if x / d < 0 {
        assert(d * (x / d) <= x / d) by (nonlinear_arith)
            requires d >= 1, x / d < 0,
        ;
    }
}

/// The cell of a well-formed coordinate lies on the grid.
pub proof fn lemma_cell_in_grid(c: CelestialCoord, level: int)
    requires
        c.wf(),
    ensures
        0 <= col_of(c.ra as int, level) < cols_of(level),
        0 <= row_of(c.dec as int, level) < rows_of(level),
        0 <= cell_of(c, level) < cols_of(level) * rows_of(level),
{
    let cols = cols_of(level);
    let rows = rows_of(level);
    assert(c.ra * cols < RA_FULL as int * cols) by (nonlinear_arith)
        requires c.ra < RA_FULL, cols >= 1,
    ;
    assert(RA_FULL as int * cols == cols * RA_FULL as int) by (nonlinear_arith);
    assert(c.ra * cols >= 0) by (nonlinear_arith)
        requires c.ra >= 0, cols >= 1,
    ;
    lemma_div_below(c.ra * cols, RA_FULL as int, cols);
    lemma_div_nonneg(c.ra * cols, RA_FULL as int);
    let dd = (c.dec - DEC_MIN) as int;
    assert(dd * rows >= 0) by (nonlinear_arith)
        requires dd >= 0, rows >= 1,
    ;
    lemma_div_nonneg(dd * rows, (DEC_MAX - DEC_MIN) as int);
    let row = row_of(c.dec as int, level);
    let col = col_of(c.ra as int, level);
    assert(0 <= row < rows);
    assert(row * cols + col < cols * rows) by (nonlinear_arith)
        requires 0 <= row < rows, 0 <= col < cols,
    ;
    assert(row * cols + col >= 0) by (nonlinear_arith)
        requires 0 <= row, 0 <= col, 1 <= cols,
    ;
}

/// One tile: the identifiers of the named stars whose position falls in
/// its cell.
#[derive(Debug)]
pub struct Tile {
    pub named_star_ids: Vec<StarId>,
}

/// A tile's address: its zoom level and cell coordinates.
#[derive(Clone, Copy, Debug, PartialEq, Eq, Structural, Hash)]
pub struct TileId {
    pub zoom: ZoomLevel,
    pub col: u32,
    pub row: u32,
}

/// An exact copy of a list of identifiers.
fn clone_ids(v: &Vec<StarId>) -> (r: Vec<StarId>)
    ensures
        r@ == v@,
{
    let mut out: Vec<StarId> = Vec::new();
    let n = v.len();
    for i in 0..n
        invariant
            n == v@.len(),
            out@ == v@.take(i as int),
    {
        out.push(v[i]);
        proof {
            assert(out@ =~= v@.take(i + 1 as int));
        }
    }
    proof {
        assert(v@.take(n as int) =~= v@);
    }
    out
}

/// The named stars of a star list that fall in one cell, as identifiers,
/// in list order.
pub open spec fn cell_members(stars: Seq<Star>, level: int, cell: int) -> Seq<StarId> {
    stars.filter(|s: Star| is_named(s) && cell_of(s.coord, level) == cell).map_values(
        |s: Star| s.id,
    )
}

/// The level-of-detail spatial index over the named stars.
pub struct TileSystem {
    /// Per level, the tiles of its grid in row-major order.
    levels: Vec<Vec<Tile>>,
    /// The named stars the index was built from, in input order.
    index: Vec<(StarId, CelestialCoord)>,
}

impl TileSystem {
    /// The tiles of one level.
    pub closed spec fn tile_ids(self, level: int, cell: int) -> Seq<StarId> {
        self.levels@[level]@[cell].named_star_ids@
    }

    /// The named stars the index knows, in input order.
    pub closed spec fn star_entries(self) -> Seq<(StarId, CelestialCoord)> {
        self.index@
    }

    /// The grids have their full size and every indexed star is on them.
    pub open spec fn wf(self) -> bool {
        &&& self.grid_len() == TILE_LEVELS as int
        &&& forall|l: int|
            0 <= l < TILE_LEVELS ==> #[trigger] self.level_len(l) == cols_of(l) * rows_of(l)
        &&& forall|k: int|
            0 <= k < self.star_entries().len() ==> (#[trigger] self.star_entries()[k]).1.wf()
        &&& forall|k1: int, k2: int|
            0 <= k1 < k2 < self.star_entries().len() ==> (#[trigger] self.star_entries()[k1]).0.0
                != (#[trigger] self.star_entries()[k2]).0.0
    }

    /// How many levels the index holds.
    pub closed spec fn grid_len(self) -> int {
        self.levels@.len() as int
    }

    /// How many tiles one level holds.
    pub closed spec fn level_len(self, level: int) -> int {
        self.levels@[level]@.len() as int
    }
}

/// The named stars of a star list, as identifier/coordinate pairs, in
/// list order.
pub open spec fn named_entries(stars: Seq<Star>) -> Seq<(StarId, CelestialCoord)> {
    stars.filter(|s: Star| is_named(s)).map_values(|s: Star| (s.id, s.coord))
}

/// One step of collecting a prefix's cell members.
proof fn lemma_cell_members_take_step(stars: Seq<Star>, level: int, cell: int, j: int)
    requires
        0 <= j < stars.len(),
    ensures
        cell_members(stars.take(j + 1), level, cell) == if is_named(stars[j]) && cell_of(
            stars[j].coord,
            level,
        ) == cell {
            cell_members(stars.take(j), level, cell).push(stars[j].id)
        } else {
            cell_members(stars.take(j), level, cell)
        },
{
    crate::catalog::lemma_filter_take_step(
        stars,
        |s: Star| is_named(s) && cell_of(s.coord, level) == cell,
        j,
    );
    let f1 = stars.take(j + 1).filter(|s: Star| is_named(s) && cell_of(s.coord, level) == cell);
    let f0 = stars.take(j).filter(|s: Star| is_named(s) && cell_of(s.coord, level) == cell);
    if is_named(stars[j]) && cell_of(stars[j].coord, level) == cell {
        assert(f1 =~= f0.push(stars[j]));
        assert(f0.push(stars[j]).map_values(|s: Star| s.id) =~= f0.map_values(
            |s: Star| s.id,
        ).push(stars[j].id));
    }
}

/// One step of collecting a prefix's named entries.
proof fn lemma_named_entries_take_step(stars: Seq<Star>, j: int)
    requires
        0 <= j < stars.len(),
    ensures
        named_entries(stars.take(j + 1)) == if is_named(stars[j]) {
            named_entries(stars.take(j)).push((stars[j].id, stars[j].coord))
        } else {
            named_entries(stars.take(j))
        },
{
    crate::catalog::lemma_filter_take_step(stars, |s: Star| is_named(s), j);
    let f1 = stars.take(j + 1).filter(|s: Star| is_named(s));
    let f0 = stars.take(j).filter(|s: Star| is_named(s));
    if is_named(stars[j]) {
        assert(f1 =~= f0.push(stars[j]));
        assert(f0.push(stars[j]).map_values(|s: Star| (s.id, s.coord)) =~= f0.map_values(
            |s: Star| (s.id, s.coord),
        ).push((stars[j].id, stars[j].coord)));
    }
}

/// The grid column of a right ascension at a level.
fn col_at_level(ra: i64, level: u8) -> (c: i64)
    requires
        0 <= ra < RA_FULL,
    ensures
        c == col_of(ra as int, level as int),
        0 <= c < cols_of(level as int),
{
    let cols = cols_at(level);
    proof {
        assert(0 <= ra * cols && ra * cols < RA_FULL as int * cols && RA_FULL as int * cols
            == cols * RA_FULL as int) by (nonlinear_arith)
            requires 0 <= ra < RA_FULL, 1 <= cols,
        ;
        lemma_div_below(ra as int * cols, RA_FULL as int, cols as int);
        lemma_div_nonneg(ra as int * cols, RA_FULL as int);
    }
    (ra * cols) / RA_FULL
}

/// The grid row of a declination at a level.
fn row_at_level(dec: i64, level: u8) -> (r: i64)
    requires
        DEC_MIN <= dec <= DEC_MAX,
    ensures
        r == row_of(dec as int, level as int),
        0 <= r < rows_of(level as int),
{
    let rows = rows_at(level);
    proof {
        let dd = (dec - DEC_MIN) as int;
        assert(0 <= dd * rows) by (nonlinear_arith)
            requires 0 <= dd, 1 <= rows,
        ;
        lemma_div_nonneg(dd * rows, (DEC_MAX - DEC_MIN) as int);
        vstd::arithmetic::div_mod::lemma_div_is_ordered(
            dd * rows,
            180000 * rows as int,
            (DEC_MAX - DEC_MIN) as int,
        );
        assert(dd * rows <= 180000 * rows) by (nonlinear_arith)
            requires dd <= 180000, 0 <= rows,
        ;
        assert(180000 * rows == rows * 180000) by (nonlinear_arith);
        vstd::arithmetic::div_mod::lemma_div_multiples_vanish(rows as int, 180000);
    }
    let raw = ((dec - DEC_MIN) * rows) / (DEC_MAX - DEC_MIN);
    if raw >= rows {
        rows - 1
    } else {
        raw
    }
}

/// The flat cell index of a coordinate at a level.
fn cell_index(c: &CelestialCoord, level: u8) -> (i: usize)
    requires
        c.wf(),
    ensures
        i == cell_of(*c, level as int),
        i < cols_of(level as int) * rows_of(level as int),
{
    let col = col_at_level(c.ra, level);
    let row = row_at_level(c.dec, level);
    let cols = cols_at(level);
    proof {
        lemma_cell_in_grid(*c, level as int);
    }
    (row * cols + col) as usize
}

impl TileSystem {
    /// Build the index from the full star list: for every level, each
    /// grid cell records the named stars whose position falls in it, in
    /// list order. The result depends only on each star's coordinates,
    /// never on how the list interleaves named and unnamed stars.
    pub fn from_stars(stars: &Vec<Star>) -> (ts: TileSystem)
        requires
            forall|i: int| 0 <= i < stars@.len() ==> (#[trigger] stars@[i]).coord.wf(),
            forall|i: int, j: int|
                0 <= i < j < stars@.len() ==> (#[trigger] stars@[i]).id.0 != (
                #[trigger] stars@[j]).id.0,
        ensures
            ts.wf(),
            ts.star_entries() == named_entries(stars@),
            forall|l: int, c: int|
                0 <= l < TILE_LEVELS && 0 <= c < cols_of(l) * rows_of(l)
                    ==> #[trigger] ts.tile_ids(l, c) == cell_members(stars@, l, c),
    {
        let n = stars.len();
        let mut levels: Vec<Vec<Tile>> = Vec::new();
        let mut l: u8 = 0;
        while l < TILE_LEVELS
            invariant
                l <= TILE_LEVELS,
                levels@.len() == l as int,
                n == stars@.len(),
                forall|i: int| 0 <= i < stars@.len() ==> (#[trigger] stars@[i]).coord.wf(),
                forall|ll: int|
                    0 <= ll < l as int ==> (#[trigger] levels@[ll])@.len() == cols_of(ll) * rows_of(
                        ll,
                    ),
                forall|ll: int, c: int|
                    0 <= ll < l as int && 0 <= c < cols_of(ll) * rows_of(ll) ==> (
                    #[trigger] levels@[ll]@[c]).named_star_ids@ == cell_members(stars@, ll, c),
            decreases TILE_LEVELS - l,
        {
            let cols = cols_at(l);
            let rows = rows_at(l);
            let n_cells = (cols * rows) as usize;
            let mut tiles: Vec<Tile> = Vec::new();
            let mut c: usize = 0;
            while c < n_cells
                invariant
                    c <= n_cells,
                    n_cells == cols_of(l as int) * rows_of(l as int),
                    tiles@.len() == c as int,
                    n == stars@.len(),
                    forall|i: int| 0 <= i < stars@.len() ==> (#[trigger] stars@[i]).coord.wf(),
                    forall|cc: int|
                        0 <= cc < c as int ==> (#[trigger] tiles@[cc]).named_star_ids@
                            == cell_members(stars@, l as int, cc),
                decreases n_cells - c,
            {
                let mut ids: Vec<StarId> = Vec::new();
                for j in 0..n
                    invariant
                        n == stars@.len(),
                        forall|i: int| 0 <= i < stars@.len() ==> (#[trigger] stars@[i]).coord.wf(),
                        ids@ == cell_members(stars@.take(j as int), l as int, c as int),
                {
                    proof {
                        lemma_cell_members_take_step(stars@, l as int, c as int, j as int);
                    }
                    let s = &stars[j];
                    if s.name.is_some() {
                        let cell = cell_index(&s.coord, l);
                        if cell == c {
                            ids.push(s.id);
                        }
                    }
                }
                proof {
                    assert(stars@.take(n as int) =~= stars@);
                }
                tiles.push(Tile { named_star_ids: ids });
                c = c + 1;
            }
            levels.push(tiles);
            l = l + 1;
        }
        let mut index: Vec<(StarId, CelestialCoord)> = Vec::new();
        for j in 0..n
            invariant
                n == stars@.len(),
                forall|i: int| 0 <= i < stars@.len() ==> (#[trigger] stars@[i]).coord.wf(),
                forall|i: int, jj: int|
                    0 <= i < jj < stars@.len() ==> (#[trigger] stars@[i]).id.0 != (
                    #[trigger] stars@[jj]).id.0,
                index@ == named_entries(stars@.take(j as int)),
                forall|k: int|
                    0 <= k < index@.len() ==> (#[trigger] index@[k]).1.wf(),
                forall|k: int, m: int|
                    0 <= k < index@.len() && j <= m < stars@.len() ==> (#[trigger] index@[k]).0.0
                        != (#[trigger] stars@[m]).id.0,
                forall|k1: int, k2: int|
                    0 <= k1 < k2 < index@.len() ==> (#[trigger] index@[k1]).0.0 != (
                    #[trigger] index@[k2]).0.0,
        {
            proof {
                lemma_named_entries_take_step(stars@, j as int);
            }
            let s = &stars[j];
            if s.name.is_some() {
                index.push((s.id, s.coord));
            }
        }
        proof {
            assert(stars@.take(n as int) =~= stars@);
        }
        TileSystem { levels, index }
    }

    /// The tile addresses a star participates in, one per level; nothing
    /// where the identifier is not among the indexed named stars.
    pub fn get_tiles_for_star(&self, id: StarId) -> (r: Option<Vec<TileId>>)
        requires
            self.wf(),
        ensures
            r is Some <==> exists|k: int|
                0 <= k < self.star_entries().len() && (#[trigger] self.star_entries()[k]).0.0
                    == id.0,
            r matches Some(v) ==> exists|k: int|
                0 <= k < self.star_entries().len() && (#[trigger] self.star_entries()[k]).0.0
                    == id.0 && v@.len() == TILE_LEVELS as int && (forall|l: int|
                    0 <= l < TILE_LEVELS as int ==> (#[trigger] v@[l]).zoom.0 == l && v@[l].col
                        == col_of(self.star_entries()[k].1.ra as int, l) && v@[l].row == row_of(
                        self.star_entries()[k].1.dec as int,
                        l,
                    )),
    {
        let n = self.index.len();
        for k in 0..n
            invariant
                n == self.star_entries().len(),
                self.wf(),
                forall|m: int| 0 <= m < k ==> (#[trigger] self.star_entries()[m]).0.0 != id.0,
        {
            if self.index[k].0.0 == id.0 {
                let coord = self.index[k].1;
                let mut v: Vec<TileId> = Vec::new();
                let mut l: u8 = 0;
                while l < TILE_LEVELS
                    invariant
                        l <= TILE_LEVELS,
                        coord.wf(),
                        v@.len() == l as int,
                        forall|ll: int|
                            0 <= ll < l as int ==> (#[trigger] v@[ll]).zoom.0 == ll && v@[ll].col
                                == col_of(coord.ra as int, ll) && v@[ll].row == row_of(
                                coord.dec as int,
                                ll,
                            ),
                    decreases TILE_LEVELS - l,
                {
                    let col = col_at_level(coord.ra, l);
                    let row = row_at_level(coord.dec, l);
                    v.push(TileId { zoom: ZoomLevel(l), col: col as u32, row: row as u32 });
                    l = l + 1;
                }
                return Some(v);
            }
        }
        None
    }

    /// The tile at an address, where the address is on the grid.
    pub fn get_tile(&self, tile_id: &TileId) -> (r: Option<&Tile>)
        requires
            self.wf(),
        ensures
            r is Some <==> (tile_id.zoom.0 < TILE_LEVELS && tile_id.col < cols_of(
                tile_id.zoom.0 as int,
            ) && tile_id.row < rows_of(tile_id.zoom.0 as int)),
            r matches Some(t) ==> t.named_star_ids@ == self.tile_ids(
                tile_id.zoom.0 as int,
                tile_id.row as int * cols_of(tile_id.zoom.0 as int) + tile_id.col as int,
            ),
    {
        let l = tile_id.zoom.0;
        if l >= TILE_LEVELS {
            return None;
        }
        let cols = cols_at(l);
        let rows = rows_at(l);
        if tile_id.col as i64 >= cols || tile_id.row as i64 >= rows {
            return None;
        }
        let cell = (tile_id.row as i64 * cols + tile_id.col as i64) as usize;
        proof {
            assert((tile_id.row as int) * (cols as int) + (tile_id.col as int) < (cols as int) * (
            rows as int)) by (nonlinear_arith)
                requires
                    0 <= tile_id.row < rows,
                    0 <= tile_id.col < cols,
                    1 <= cols,
            ;
            assert((tile_id.row as int) * (cols as int) >= 0) by (nonlinear_arith)
                requires 0 <= tile_id.row, 1 <= cols,
            ;
            assert(self.grid_len() == TILE_LEVELS as int);
            assert(self.level_len(l as int) == cols_of(l as int) * rows_of(l as int));
        }
        Some(&self.levels[l as usize][cell])
    }
}

/// The neighbor offsets of a cell, in reading order.
pub open spec fn delta(k: int) -> (int, int) {
    if k == 0 {
        (-1, -1)
    } else if k == 1 {
        (0, -1)
    } else if k == 2 {
        (1, -1)
    } else if k == 3 {
        (-1, 0)
    } else if k == 4 {
        (1, 0)
    } else if k == 5 {
        (-1, 1)
    } else if k == 6 {
        (0, 1)
    } else {
        (1, 1)
    }
}

/// A column shifted by one, wrapped around the seam of the grid.
pub open spec fn wrap_col(c: int, level: int) -> int {
    if c < 0 {
        c + cols_of(level)
    } else if c >= cols_of(level) {
        c - cols_of(level)
    } else {
        c
    }
}

/// The neighbor cell one offset away, or nothing beyond a pole.
pub open spec fn neighbor_cell(level: int, col: int, row: int, k: int) -> Option<(int, int)> {
    let d = delta(k);
    let nr = row + d.1;
    if 0 <= nr < rows_of(level) {
        Some((wrap_col(col + d.0, level), nr))
    } else {
        None
    }
}

/// The valid neighbor cells of a cell, in reading order.
pub open spec fn adjacent_cells(level: int, col: int, row: int, k: int) -> Seq<(int, int)>
    decreases k,
{
    if k <= 0 {
        Seq::empty()
    } else {
        let pre = adjacent_cells(level, col, row, k - 1);
        match neighbor_cell(level, col, row, k - 1) {
            Some(c) => pre.push(c),
            None => pre,
        }
    }
}

/// The neighbor offsets of a cell, in reading order.
fn delta_at(k: usize) -> (d: (i64, i64))
    requires
        k < 8,
    ensures
        d.0 == delta(k as int).0,
        d.1 == delta(k as int).1,
{
    if k == 0 {
        (-1, -1)
    } else if k == 1 {
        (0, -1)
    } else if k == 2 {
        (1, -1)
    } else if k == 3 {
        (-1, 0)
    } else if k == 4 {
        (1, 0)
    } else if k == 5 {
        (-1, 1)
    } else if k == 6 {
        (0, 1)
    } else {
        (1, 1)
    }
}

impl TileSystem {
    /// The up-to-eight neighboring tiles of a tile, wrapping across the
    /// right-ascension seam and dropping rows beyond the poles; empty
    /// where the address is off the grid.
    pub fn get_adjacent_tiles(&self, tile_id: &TileId) -> (r: Vec<Tile>)
        requires
            self.wf(),
        ensures
            (tile_id.zoom.0 < TILE_LEVELS && tile_id.col < cols_of(tile_id.zoom.0 as int)
                && tile_id.row < rows_of(tile_id.zoom.0 as int)) ==> ({
                let cells = adjacent_cells(
                    tile_id.zoom.0 as int,
                    tile_id.col as int,
                    tile_id.row as int,
                    8,
                );
                &&& r@.len() == cells.len()
                &&& forall|m: int|
                    0 <= m < cells.len() ==> (#[trigger] r@[m]).named_star_ids@ == self.tile_ids(
                        tile_id.zoom.0 as int,
                        (#[trigger] cells[m]).1 * cols_of(tile_id.zoom.0 as int) + cells[m].0,
                    )
            }),
            !(tile_id.zoom.0 < TILE_LEVELS && tile_id.col < cols_of(tile_id.zoom.0 as int)
                && tile_id.row < rows_of(tile_id.zoom.0 as int)) ==> r@.len() == 0,
    {
        let mut out: Vec<Tile> = Vec::new();
        let l = tile_id.zoom.0;
        if l >= TILE_LEVELS {
            return out;
        }
        let cols = cols_at(l);
        let rows = rows_at(l);
        let col = tile_id.col as i64;
        let row = tile_id.row as i64;
        if col >= cols || row >= rows {
            return out;
        }
        let mut k: usize = 0;
        while k < 8
            invariant
                k <= 8,
                self.wf(),
                l == tile_id.zoom.0,
                l < TILE_LEVELS,
                cols == cols_of(l as int),
                rows == rows_of(l as int),
                col == tile_id.col as int,
                row == tile_id.row as int,
                0 <= col < cols,
                0 <= row < rows,
                out@.len() == adjacent_cells(l as int, col as int, row as int, k as int).len(),
                forall|m: int|
                    0 <= m < out@.len() ==> (#[trigger] out@[m]).named_star_ids@ == self.tile_ids(
                        l as int,
                        (#[trigger] adjacent_cells(l as int, col as int, row as int, k as int)[m]).1
                            * cols_of(l as int) + adjacent_cells(
                            l as int,
                            col as int,
                            row as int,
                            k as int,
                        )[m].0,
                    ),
            decreases 8 - k,
        {
            let d = delta_at(k);
            let nr = row + d.1;
            let ghost cells_pre = adjacent_cells(l as int, col as int, row as int, k as int);
            if 0 <= nr && nr < rows {
                let nc = if col + d.0 < 0 {
                    col + d.0 + cols
                } else if col + d.0 >= cols {
                    col + d.0 - cols
                } else {
                    col + d.0
                };
                let cell = (nr * cols + nc) as usize;
                proof {
                    assert((nr as int) * (cols as int) + nc < (cols as int) * (rows as int))
                        by (nonlinear_arith)
                        requires 0 <= nr < rows, 0 <= nc < cols, 1 <= cols,
                    ;
                    assert((nr as int) * (cols as int) >= 0) by (nonlinear_arith)
                        requires 0 <= nr, 1 <= cols,
                    ;
                    assert(self.grid_len() == TILE_LEVELS as int);
                    assert(self.level_len(l as int) == cols_of(l as int) * rows_of(l as int));
                }
                let tile = &self.levels[l as usize][cell];
                out.push(Tile { named_star_ids: clone_ids(&tile.named_star_ids) });
                proof {
                    let cells_post = adjacent_cells(l as int, col as int, row as int, k + 1);
                    assert(cells_post == cells_pre.push((nc as int, nr as int)));
                }
            } else {
                proof {
                    let cells_post = adjacent_cells(l as int, col as int, row as int, k + 1);
                    assert(cells_post == cells_pre);
                }
            }
            k = k + 1;
        }
        out
    }
}

/// Tile membership is order-independent: a named star's identifier
/// stands in a cell's member list exactly because its own coordinates
/// fall in that cell, wherever the star stands in the input.
pub proof fn lemma_cell_membership(stars: Seq<Star>, level: int, cell: int, s: Star)
    requires
        stars.contains(s),
        is_named(s),
        cell_of(s.coord, level) == cell,
    ensures
        cell_members(stars, level, cell).contains(s.id),
{
    let pred = |x: Star| is_named(x) && cell_of(x.coord, level) == cell;
    let i = choose|i: int| 0 <= i < stars.len() && stars[i] == s;
    stars.lemma_filter_contains(pred, i);
    let f = stars.filter(pred);
    let w = choose|w: int| 0 <= w < f.len() && f[w] == s;
    assert(cell_members(stars, level, cell)[w] == s.id);
}

/// Conversely, every member of a cell is the identifier of some named
/// input star whose coordinates fall in that cell.
pub proof fn lemma_cell_membership_converse(stars: Seq<Star>, level: int, cell: int, k: int)
    requires
        0 <= k < cell_members(stars, level, cell).len(),
    ensures
        exists|s: Star|
            #[trigger] stars.contains(s) && is_named(s) && cell_of(s.coord, level) == cell
                && cell_members(stars, level, cell)[k] == s.id,
{
    let pred = |x: Star| is_named(x) && cell_of(x.coord, level) == cell;
    let f = stars.filter(pred);
    crate::catalog::lemma_filter_subset(stars, pred);
    stars.lemma_filter_pred(pred, k);
    assert(stars.contains(f[k]));
    assert(cell_members(stars, level, cell)[k] == f[k].id);
    assert(pred(f[k]));
    assert(is_named(f[k]) && cell_of(f[k].coord, level) == cell && cell_members(
        stars,
        level,
        cell,
    )[k] == f[k].id);
}

} // verus!
