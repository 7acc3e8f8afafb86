//! Quiz generation: multiple-choice questions about star names, with
//! wrong answers drawn preferentially from the target's spatial
//! neighborhood in the tile index, falling back to catalog-wide random
//! sampling.

use vstd::prelude::*;
use rand::rngs::SmallRng;
use crate::catalog::{
    clone_star, eligible_name, is_named, name_of, name_pool, pool_name_from, sample_names, Star,
    StarCatalog, StarId,
};
use crate::catalog::{clone_strings, contains_string, has_at_least_chars};
use crate::catalog::lemma_filter_take_step;
use crate::catalog::lemma_name_pool_props;
use crate::rng::rand_index;
use crate::tiles::{
    adjacent_cells, cell_of, col_of, cols_of, lemma_cell_in_grid, row_of, rows_of, TileSystem,
    ZoomLevel, TILE_LEVELS,
};

verus! {

/// How a question names its escape answer.
pub open spec fn none_label() -> Seq<char> {
    "none of above"@
}

/// Configuration for quiz generation.
#[derive(Clone, Copy, Debug, PartialEq, Eq, Structural)]
pub struct QuizConfig {
    /// Number of choices to present, correct answer included.
    pub num_choices: usize,
    /// Whether a question may make "none of above" the correct answer.
    pub include_none_option: bool,
    /// Probability of "none of above" being correct, in thousandths.
    pub none_probability: u32,
}

impl QuizConfig {
    /// The values a configuration must keep.
    pub open spec fn wf(self) -> bool {
        &&& 1 <= self.num_choices <= 1000
        &&& self.none_probability <= 1000
    }
}

impl Default for QuizConfig {
    /// Five choices, with a one-in-ten chance of a "none of above"
    /// question.
    fn default() -> (c: QuizConfig)
        ensures
            c.wf(),
            c.num_choices == 5,
            c.include_none_option,
            c.none_probability == 100,
    {
        QuizConfig { num_choices: 5, include_none_option: true, none_probability: 100 }
    }
}

/// A generated quiz question.
#[derive(Debug)]
pub struct QuizQuestion {
    /// The star being asked about.
    pub target_star: StarId,
    /// The correct answer.
    pub correct_answer: String,
    /// All answer choices, shuffled.
    pub choices: Vec<String>,
    /// Whether "none of above" is the correct answer here.
    pub is_none_question: bool,
}

/// Difficulty levels for the quiz, as magnitude ranges.
#[derive(Clone, Copy, Debug, PartialEq, Eq, Structural)]
pub enum Difficulty {
    /// Only very bright, famous stars.
    Easy,
    /// Bright stars.
    Medium,
    /// All named stars.
    Hard,
}

impl Difficulty {
    /// The half-open magnitude range of this difficulty, in
    /// centi-magnitudes.
    pub fn magnitude_range(&self) -> (r: (i64, i64))
        ensures
            self is Easy ==> r.0 == -200 && r.1 == 200,
            self is Medium ==> r.0 == -200 && r.1 == 350,
            self is Hard ==> r.0 == -200 && r.1 == 650,
    {
        match self {
            Difficulty::Easy => (-200, 200),
            Difficulty::Medium => (-200, 350),
            Difficulty::Hard => (-200, 650),
        }
    }

    /// The display name of this difficulty.
    pub fn name(&self) -> (r: &'static str)
        ensures
            self is Easy ==> r@ == "Easy"@,
            self is Medium ==> r@ == "Medium"@,
            self is Hard ==> r@ == "Hard"@,
    {
        match self {
            Difficulty::Easy => "Easy",
            Difficulty::Medium => "Medium",
            Difficulty::Hard => "Hard",
        }
    }
}

/// The first star of the list carrying an identifier, if any.
pub open spec fn cat_lookup(cat: Seq<Star>, id: u32) -> Option<Star>
    decreases cat.len(),
{
    if cat.len() == 0 {
        None
    } else if cat[0].id.0 == id {
        Some(cat[0])
    } else {
        cat_lookup(cat.drop_first(), id)
    }
}

/// What the lookup finds: the unique element with the identifier, where
/// identifiers are pairwise distinct.
pub proof fn lemma_cat_lookup_props(cat: Seq<Star>, id: u32)
    requires
        forall|i: int, j: int|
            0 <= i < j < cat.len() ==> (#[trigger] cat[i]).id.0 != (#[trigger] cat[j]).id.0,
    ensures
        cat_lookup(cat, id) is Some <==> exists|i: int|
            0 <= i < cat.len() && (#[trigger] cat[i]).id.0 == id,
        cat_lookup(cat, id) matches Some(s) ==> s.id.0 == id && cat.contains(s) && (forall|t: Star|
            cat.contains(t) && t.id.0 == id ==> t == s),
    decreases cat.len(),
{
    if cat.len() == 0 {
    } else if cat[0].id.0 == id {
        let s = cat[0];
        assert(cat.contains(s)) by {
            assert(cat[0] == s);
        }
        assert forall|t: Star| cat.contains(t) && t.id.0 == id implies t == s by {
            let i = choose|i: int| 0 <= i < cat.len() && cat[i] == t;
            if i != 0 {
                assert(cat[i].id.0 != cat[0].id.0);
            }
        }
    } else {
        let rest = cat.drop_first();
        assert(forall|i: int, j: int|
            0 <= i < j < rest.len() ==> (#[trigger] rest[i]).id.0 != (#[trigger] rest[j]).id.0)
            by {
            assert(forall|i: int| 0 <= i < rest.len() ==> rest[i] == cat[i + 1]);
        }
        lemma_cat_lookup_props(rest, id);
        match cat_lookup(cat, id) {
            Some(s) => {
                assert(rest.contains(s));
                let i = choose|i: int| 0 <= i < rest.len() && rest[i] == s;
                assert(cat[i + 1] == s);
                assert(cat.contains(s));
                assert forall|t: Star| cat.contains(t) && t.id.0 == id implies t == s by {
                    let w = choose|w: int| 0 <= w < cat.len() && cat[w] == t;
                    if w == 0 {
                    } else {
                        assert(rest[w - 1] == t);
                        assert(rest.contains(t));
                    }
                }
            },
            None => {
                if exists|i: int| 0 <= i < cat.len() && (#[trigger] cat[i]).id.0 == id {
                    let i = choose|i: int| 0 <= i < cat.len() && (#[trigger] cat[i]).id.0 == id;
                    assert(i != 0);
                    assert(rest[i - 1] == cat[i]);
                }
            },
        }
    }
}

/// The ordered, duplicate-free pool of eligible names reached by looking
/// identifiers up in the catalog, in first-appearance order; names
/// shorter than three characters are left out.
pub open spec fn names_from_ids(ids: Seq<StarId>, cat: Seq<Star>, excl: Seq<Seq<char>>) -> Seq<
    Seq<char>,
>
    decreases ids.len(),
{
    if ids.len() == 0 {
        Seq::empty()
    } else {
        let p = names_from_ids(ids.drop_last(), cat, excl);
        match cat_lookup(cat, ids.last().0) {
            Some(s) => {
                if eligible_name(s, 3, excl) && !p.contains(name_of(s)) {
                    p.push(name_of(s))
                } else {
                    p
                }
            },
            None => p,
        }
    }
}

/// One step of pooling a prefix of identifiers.
pub proof fn lemma_names_from_ids_take_step(
    ids: Seq<StarId>,
    cat: Seq<Star>,
    excl: Seq<Seq<char>>,
    j: int,
)
    requires
        0 <= j < ids.len(),
    ensures
        names_from_ids(ids.take(j + 1), cat, excl) == ({
            let p = names_from_ids(ids.take(j), cat, excl);
            match cat_lookup(cat, ids[j].0) {
                Some(s) => {
                    if eligible_name(s, 3, excl) && !p.contains(name_of(s)) {
                        p.push(name_of(s))
                    } else {
                        p
                    }
                },
                None => p,
            }
        }),
{
    assert(ids.take(j + 1).drop_last() =~= ids.take(j));
    assert(ids.take(j + 1).last() == ids[j]);
    assert(ids.take(j + 1).len() == j + 1);
}

/// A pooled prefix of identifiers yields a prefix of the pool.
pub proof fn lemma_names_from_ids_prefix(
    ids: Seq<StarId>,
    cat: Seq<Star>,
    excl: Seq<Seq<char>>,
    j: int,
)
    requires
        0 <= j <= ids.len(),
    ensures
        names_from_ids(ids.take(j), cat, excl).is_prefix_of(names_from_ids(ids, cat, excl)),
    decreases ids.len() - j,
{
    if j == ids.len() {
        assert(ids.take(j) =~= ids);
    } else {
        lemma_names_from_ids_take_step(ids, cat, excl, j);
        lemma_names_from_ids_prefix(ids, cat, excl, j + 1);
        let p0 = names_from_ids(ids.take(j), cat, excl);
        let p1 = names_from_ids(ids.take(j + 1), cat, excl);
        assert(p0.is_prefix_of(p1));
    }
}

/// What the identifier pool holds: eligible catalog names, each once,
/// all of them members of the catalog-wide pool.
pub proof fn lemma_names_from_ids_props(ids: Seq<StarId>, cat: Seq<Star>, excl: Seq<Seq<char>>)
    requires
        forall|i: int, j: int|
            0 <= i < j < cat.len() ==> (#[trigger] cat[i]).id.0 != (#[trigger] cat[j]).id.0,
    ensures
        names_from_ids(ids, cat, excl).no_duplicates(),
        forall|k: int|
            0 <= k < names_from_ids(ids, cat, excl).len() ==> pool_name_from(
                cat,
                3,
                excl,
                #[trigger] names_from_ids(ids, cat, excl)[k],
            ),
        forall|k: int|
            0 <= k < names_from_ids(ids, cat, excl).len() ==> name_pool(cat, 3, excl).contains(
                #[trigger] names_from_ids(ids, cat, excl)[k],
            ),
    decreases ids.len(),
{
    lemma_name_pool_props(cat, 3, excl);
    let pool = names_from_ids(ids, cat, excl);
    if ids.len() == 0 {
    } else {
        let pre = ids.drop_last();
        lemma_names_from_ids_props(pre, cat, excl);
        let p = names_from_ids(pre, cat, excl);
        lemma_cat_lookup_props(cat, ids.last().0);
        assert forall|k: int| 0 <= k < pool.len() implies pool_name_from(
            cat,
            3,
            excl,
            #[trigger] pool[k],
        ) by {
            if k < p.len() {
                assert(pool[k] == p[k]);
            } else {
                let s = cat_lookup(cat, ids.last().0).unwrap();
                let i = choose|i: int| 0 <= i < cat.len() && cat[i] == s;
                assert(eligible_name(cat[i], 3, excl) && pool[k] == name_of(cat[i]));
            }
        }
        assert forall|k: int| 0 <= k < pool.len() implies name_pool(cat, 3, excl).contains(
            #[trigger] pool[k],
        ) by {
            let i = choose|i: int|
                0 <= i < cat.len() && eligible_name(#[trigger] cat[i], 3, excl) && pool[k]
                    == name_of(cat[i]);
            assert(name_pool(cat, 3, excl).contains(name_of(cat[i])));
        }
    }
}

/// The identifiers of the tiles at a list of cells, concatenated in
/// order.
pub open spec fn ids_of_cells(ts: TileSystem, level: int, cells: Seq<(int, int)>) -> Seq<StarId>
    decreases cells.len(),
{
    if cells.len() == 0 {
        Seq::empty()
    } else {
        ids_of_cells(ts, level, cells.drop_last()) + ts.tile_ids(
            level,
            cells.last().1 * cols_of(level) + cells.last().0,
        )
    }
}

/// The candidate identifiers a tile-aware generator walks for a star:
/// its own tile at the level first, then the adjacent tiles; empty where
/// the star is not indexed or the level is off the grid.
pub open spec fn preferred_source_ids(ts: TileSystem, star_id: u32, level: int) -> Seq<StarId> {
    if exists|k: int|
        0 <= k < ts.star_entries().len() && (#[trigger] ts.star_entries()[k]).0.0 == star_id {
        let k = choose|k: int|
            0 <= k < ts.star_entries().len() && (#[trigger] ts.star_entries()[k]).0.0 == star_id;
        let coord = ts.star_entries()[k].1;
        if 0 <= level < TILE_LEVELS {
            let cell = cell_of(coord, level);
            let col = col_of(coord.ra as int, level);
            let row = row_of(coord.dec as int, level);
            ts.tile_ids(level, cell) + ids_of_cells(
                ts,
                level,
                adjacent_cells(level, col, row, 8),
            )
        } else {
            Seq::empty()
        }
    } else {
        Seq::empty()
    }
}

/// One step of concatenating the tiles at a cell list.
proof fn lemma_ids_of_cells_take_step(ts: TileSystem, level: int, cells: Seq<(int, int)>, m: int)
    requires
        0 <= m < cells.len(),
    ensures
        ids_of_cells(ts, level, cells.take(m + 1)) == ids_of_cells(ts, level, cells.take(m))
            + ts.tile_ids(level, cells[m].1 * cols_of(level) + cells[m].0),
{
    assert(cells.take(m + 1).drop_last() =~= cells.take(m));
    assert(cells.take(m + 1).last() == cells[m]);
    assert(cells.take(m + 1).len() == m + 1);
}

/// The exclusion a question's distractors respect: the target's own name
/// and the escape label.
pub open spec fn excl_name(s: Star) -> Seq<char> {
    if s.name is Some {
        name_of(s)
    } else {
        Seq::empty()
    }
}

/// The names a question about a star never offers as distractors.
pub open spec fn question_excl(s: Star) -> Seq<Seq<char>> {
    seq![excl_name(s), none_label()]
}

/// Permuting a list of names changes neither its length, its members,
/// nor whether it repeats one.
proof fn lemma_permutation_transfer(a: Seq<Seq<char>>, b: Seq<Seq<char>>)
    requires
        a.to_multiset() == b.to_multiset(),
    ensures
        a.len() == b.len(),
        forall|x: Seq<char>| a.contains(x) <==> b.contains(x),
        a.no_duplicates() <==> b.no_duplicates(),
{
    broadcast use vstd::seq_lib::group_to_multiset_ensures;

    a.to_multiset_ensures();
    b.to_multiset_ensures();
    assert forall|x: Seq<char>| a.contains(x) <==> b.contains(x) by {
        assert(a.contains(x) <==> a.to_multiset().count(x) > 0);
        assert(b.contains(x) <==> b.to_multiset().count(x) > 0);
    }
    if a.no_duplicates() {
        a.lemma_multiset_has_no_duplicates();
        b.lemma_multiset_has_no_duplicates_conv();
    }
    if b.no_duplicates() {
        b.lemma_multiset_has_no_duplicates();
        a.lemma_multiset_has_no_duplicates_conv();
    }
}

/// Shuffle a list of names in place: a uniform permutation, so the
/// result holds exactly the same names with the same multiplicities.
fn shuffle_strings(v: &mut Vec<String>, rng: &mut SmallRng)
    ensures
        final(v).deep_view().to_multiset() == old(v).deep_view().to_multiset(),
{
    broadcast use vstd::seq_lib::to_multiset_update;
    broadcast use vstd::multiset::group_multiset_axioms;

    let n = v.len();
    if n <= 1 {
        return ;
    }
    let mut i: usize = n;
    while i > 1
        invariant
            1 <= i <= n,
            n == v@.len(),
            v.deep_view().to_multiset() == old(v).deep_view().to_multiset(),
        decreases i,
    {
        let j = rand_index(rng, i);
        i = i - 1;
        let ghost dv = v.deep_view();
        let a = v[i].clone();
        let b = v[j].clone();
        v.set(i, b);
        proof {
            assert(v.deep_view() =~= dv.update(i as int, dv[j as int]));
        }
        let ghost dv2 = v.deep_view();
        v.set(j, a);
        proof {
            assert(v.deep_view() =~= dv2.update(j as int, dv[i as int]));
            assert(dv2 == dv.update(i as int, dv[j as int]));
            vstd::seq_lib::to_multiset_update(dv, i as int, dv[j as int]);
            vstd::seq_lib::to_multiset_update(dv2, j as int, dv[i as int]);
            assert(dv2[j as int] == dv[j as int]);
            dv.to_multiset_ensures();
            assert(dv.contains(dv[i as int]));
            assert(dv.to_multiset().count(dv[i as int]) > 0);
            assert(dv.contains(dv[j as int]));
            assert(dv.to_multiset().count(dv[j as int]) > 0);
            assert(v.deep_view().to_multiset() =~= dv.to_multiset());
        }
    }
}

/// Append a list of names to another.
fn append_strings(dst: &mut Vec<String>, src: &Vec<String>)
    ensures
        final(dst)@ == old(dst)@ + src@,
        final(dst).deep_view() == old(dst).deep_view() + src.deep_view(),
{
    let n = src.len();
    for m in 0..n
        invariant
            n == src@.len(),
            dst@ == old(dst)@ + src@.take(m as int),
    {
        dst.push(src[m].clone());
        proof {
            assert(dst@ =~= old(dst)@ + src@.take(m + 1 as int));
        }
    }
    proof {
        assert(src@.take(n as int) =~= src@);
        assert(final(dst).deep_view() =~= old(dst).deep_view() + src.deep_view());
    }
}

/// Quiz generator: draws questions from a catalog, optionally informed
/// by a spatial tile index and the current zoom bucket.
pub struct QuizGenerator<'a> {
    catalog: &'a StarCatalog,
    config: QuizConfig,
    tile_system: Option<&'a TileSystem>,
    current_zoom: ZoomLevel,
}

impl<'a> QuizGenerator<'a> {
    /// The stars the generator draws from.
    pub closed spec fn cat(self) -> Seq<Star> {
        self.catalog@
    }

    /// The generation settings.
    pub closed spec fn cfg(self) -> QuizConfig {
        self.config
    }

    /// Whether a tile index informs distractor selection.
    pub closed spec fn tile_aware(self) -> bool {
        self.tile_system is Some
    }

    /// The attached tile index.
    pub closed spec fn tiles(self) -> TileSystem {
        *self.tile_system.unwrap()
    }

    /// The zoom bucket used for tile lookups.
    pub closed spec fn zoom_level(self) -> int {
        self.current_zoom.0 as int
    }

    /// The minimum name length of an eligible distractor: tile-aware
    /// selection skips short catalog artifacts.
    pub open spec fn min_name_len(self) -> int {
        if self.tile_aware() {
            3
        } else {
            0
        }
    }

    /// What the generator relies on: a sound configuration, a catalog
    /// with distinct identifiers, and a well-formed tile index if any.
    pub open spec fn wf(self) -> bool {
        &&& self.cfg().wf()
        &&& forall|i: int, j: int|
            0 <= i < j < self.cat().len() ==> (#[trigger] self.cat()[i]).id.0 != (
            #[trigger] self.cat()[j]).id.0
        &&& self.tile_aware() ==> self.tiles().wf()
    }

    /// A generator without spatial awareness.
    pub fn new(catalog: &'a StarCatalog, config: QuizConfig) -> (g: QuizGenerator<'a>)
        requires
            catalog.wf(),
            config.wf(),
        ensures
            g.wf(),
            g.cat() == catalog@,
            g.cfg() == config,
            !g.tile_aware(),
    {
        QuizGenerator { catalog, config, tile_system: None, current_zoom: ZoomLevel(0) }
    }

    /// A generator that prefers distractors near the target on the sky.
    pub fn with_tiles(
        catalog: &'a StarCatalog,
        config: QuizConfig,
        tile_system: &'a TileSystem,
        zoom: ZoomLevel,
    ) -> (g: QuizGenerator<'a>)
        requires
            catalog.wf(),
            config.wf(),
            tile_system.wf(),
        ensures
            g.wf(),
            g.cat() == catalog@,
            g.cfg() == config,
            g.tile_aware(),
            g.tiles() == *tile_system,
            g.zoom_level() == zoom.0 as int,
    {
        QuizGenerator { catalog, config, tile_system: Some(tile_system), current_zoom: zoom }
    }

    /// Update the zoom bucket used for tile lookups.
    pub fn set_zoom(&mut self, zoom: ZoomLevel)
        ensures
            final(self).zoom_level() == zoom.0 as int,
            final(self).cat() == old(self).cat(),
            final(self).cfg() == old(self).cfg(),
            final(self).tile_aware() == old(self).tile_aware(),
            old(self).tile_aware() ==> final(self).tiles() == old(self).tiles(),
            final(self).wf() == old(self).wf(),
    {
        self.current_zoom = zoom;
    }

    /// Distractors for a target star: names from its own tile first,
    /// then from adjacent tiles, then uniformly random catalog names,
    /// always pairwise distinct, never the target's name nor the escape
    /// label, and as many as the count asks for whenever the catalog has
    /// enough eligible names.
    pub fn generate_tile_distractors(
        &self,
        correct_star: &Star,
        count: usize,
        rng: &mut SmallRng,
    ) -> (r: Vec<String>)
        requires
            self.wf(),
        ensures
            r.deep_view().no_duplicates(),
            r@.len() <= count,
            forall|k: int|
                0 <= k < r@.len() ==> name_pool(self.cat(), 3, question_excl(*correct_star))
                    .contains(#[trigger] r.deep_view()[k]),
            r@.len() == count || (forall|x: Seq<char>|
                name_pool(self.cat(), 3, question_excl(*correct_star)).contains(x)
                    ==> r.deep_view().contains(x)),
            self.tile_aware() ==> ({
                let tp = names_from_ids(
                    preferred_source_ids(
                        self.tiles(),
                        correct_star.id.0,
                        self.zoom_level(),
                    ),
                    self.cat(),
                    question_excl(*correct_star),
                );
                let t = if count <= tp.len() {
                    count as int
                } else {
                    tp.len() as int
                };
                r@.len() >= t && r.deep_view().take(t) == tp.take(t)
            }),
    {
        let ghost cat = self.cat();
        let ghost sexcl = question_excl(*correct_star);
        let mut excl: Vec<String> = Vec::new();
        let cname = match &correct_star.name {
            Some(n) => n.clone(),
            None => String::new(),
        };
        excl.push(cname);
        excl.push("none of above".to_owned());
        proof {
            assert(excl.deep_view() =~= sexcl);
        }
        // Walk the target's own tile and its neighbors, where indexed.
        let mut cand_ids: Vec<StarId> = Vec::new();
        let ghost src = if self.tile_aware() {
            preferred_source_ids(self.tiles(), correct_star.id.0, self.zoom_level())
        } else {
            Seq::<StarId>::empty()
        };
        if let Some(ts) = self.tile_system {
            match ts.get_tiles_for_star(correct_star.id) {
                Some(star_tiles) => {
                    let lz = self.current_zoom.0;
                    if lz < TILE_LEVELS {
                        let tid = star_tiles[lz as usize];
                        let ghost k0 = choose|k: int|
                            0 <= k < ts.star_entries().len() && (#[trigger] ts.star_entries()[k]).0.0
                                == correct_star.id.0;
                        let ghost coord = ts.star_entries()[k0].1;
                        proof {
                            let ke = choose|k: int|
                                0 <= k < ts.star_entries().len() && (
                                #[trigger] ts.star_entries()[k]).0.0 == correct_star.id.0
                                    && star_tiles@.len() == TILE_LEVELS as int && (forall|l: int|
                                    0 <= l < TILE_LEVELS as int ==> (#[trigger] star_tiles@[l]).zoom.0
                                        == l && star_tiles@[l].col == col_of(
                                        ts.star_entries()[k].1.ra as int,
                                        l,
                                    ) && star_tiles@[l].row == row_of(
                                        ts.star_entries()[k].1.dec as int,
                                        l,
                                    ));
                            if ke != k0 {
                                assert(ts.star_entries()[ke].0.0 != ts.star_entries()[k0].0.0);
                            }
                            assert(coord.wf());
                            lemma_cell_in_grid(coord, lz as int);
                        }
                        if let Some(tile) = ts.get_tile(&tid) {
                            let tn = tile.named_star_ids.len();
                            for m in 0..tn
                                invariant
                                    tn == tile.named_star_ids@.len(),
                                    cand_ids@ == tile.named_star_ids@.take(m as int),
                            {
                                cand_ids.push(tile.named_star_ids[m]);
                                proof {
                                    assert(cand_ids@ =~= tile.named_star_ids@.take(m + 1 as int));
                                }
                            }
                            proof {
                                assert(tile.named_star_ids@.take(tn as int)
                                    =~= tile.named_star_ids@);
                            }
                        }
                        let ghost base = cand_ids@;
                        let ghost cells = adjacent_cells(
                            lz as int,
                            tid.col as int,
                            tid.row as int,
                            8,
                        );
                        let adj = ts.get_adjacent_tiles(&tid);
                        let an = adj.len();
                        let mut m: usize = 0;
                        while m < an
                            invariant
                                m <= an,
                                an == cells.len(),
                                an == adj@.len(),
                                forall|w: int|
                                    0 <= w < cells.len() ==> (#[trigger] adj@[w]).named_star_ids@
                                        == ts.tile_ids(
                                        lz as int,
                                        (#[trigger] cells[w]).1 * cols_of(lz as int) + cells[w].0,
                                    ),
                                cand_ids@ == base + ids_of_cells(*ts, lz as int, cells.take(m as int)),
                            decreases an - m,
                        {
                            proof {
                                lemma_ids_of_cells_take_step(*ts, lz as int, cells, m as int);
                            }
                            let ghost before = cand_ids@;
                            let tn = adj[m].named_star_ids.len();
                            for w in 0..tn
                                invariant
                                    m < an,
                                    an == adj@.len(),
                                    tn == adj@[m as int].named_star_ids@.len(),
                                    cand_ids@ == before + adj@[m as int].named_star_ids@.take(
                                        w as int,
                                    ),
                            {
                                cand_ids.push(adj[m].named_star_ids[w]);
                                proof {
                                    assert(cand_ids@ =~= before + adj@[m as int].named_star_ids@
                                        .take(w + 1 as int));
                                }
                            }
                            proof {
                                assert(adj@[m as int].named_star_ids@.take(tn as int) =~= adj@[
                                m as int].named_star_ids@);
                            }
                            m = m + 1;
                        }
                        proof {
                            assert(cells.take(an as int) =~= cells);
                            assert(cand_ids@ =~= src);
                        }
                    } else {
                        proof {
                            assert(cand_ids@ =~= src);
                        }
                    }
                },
                None => {
                    proof {
                        assert(cand_ids@ =~= src);
                    }
                },
            }
        }
        proof {
            assert(cand_ids@ == src);
        }
        // Collect distinct eligible names from the spatial candidates.
        let mut out: Vec<String> = Vec::new();
        let nc = cand_ids.len();
        let mut j: usize = 0;
        while j < nc && out.len() < count
            invariant
                j <= nc,
                nc == cand_ids@.len(),
                excl.deep_view() == sexcl,
                cat == self.cat(),
                self.wf(),
                out.deep_view() == names_from_ids(cand_ids@.take(j as int), cat, sexcl),
                out@.len() <= count,
            decreases nc - j,
        {
            proof {
                lemma_names_from_ids_take_step(cand_ids@, cat, sexcl, j as int);
                lemma_cat_lookup_props(cat, cand_ids@[j as int].0);
            }
            let ghost before = out.deep_view();
            match self.catalog.get(cand_ids[j]) {
                Some(star) => {
                    if let Some(name) = &star.name {
                        if has_at_least_chars(name.as_str(), 3) && !contains_string(&excl, name)
                            && !contains_string(&out, name) {
                            out.push(name.clone());
                            proof {
                                assert(out.deep_view() =~= before.push(name@));
                            }
                        }
                    }
                },
                None => {},
            }
            j = j + 1;
        }
        let ghost tp = names_from_ids(cand_ids@, cat, sexcl);
        let ghost t = if count as int <= tp.len() {
            count as int
        } else {
            tp.len() as int
        };
        proof {
            lemma_names_from_ids_prefix(cand_ids@, cat, sexcl, j as int);
            if j == nc {
                assert(cand_ids@.take(j as int) =~= cand_ids@);
                assert(out.deep_view() == tp);
            } else {
                assert(out@.len() == count);
            }
            assert(out@.len() == t);
            assert(out.deep_view() == tp.take(t));
            lemma_names_from_ids_props(cand_ids@, cat, sexcl);
            lemma_name_pool_props(cat, 3, sexcl);
        }
        let ghost tile_part = out.deep_view();
        // Fill the remainder from the whole catalog, uniformly.
        if out.len() < count {
            let mut excl2 = clone_strings(&excl);
            append_strings(&mut excl2, &out);
            let ghost sexcl2 = excl2.deep_view();
            let pool2 = self.catalog.distractor_pool(3, &excl2);
            let need = count - out.len();
            proof {
                lemma_name_pool_props(cat, 3, sexcl2);
            }
            let fill = sample_names(pool2, need, rng);
            proof {
                let fv = fill.deep_view();
                let p2 = name_pool(cat, 3, sexcl2);
                // every filled name avoids the used ones and is eligible
                assert forall|k: int| 0 <= k < fv.len() implies !tile_part.contains(
                    #[trigger] fv[k],
                ) && name_pool(cat, 3, sexcl).contains(fv[k]) by {
                    assert(p2.contains(fv[k]));
                    let w = choose|w: int| 0 <= w < p2.len() && p2[w] == fv[k];
                    assert(pool_name_from(cat, 3, sexcl2, p2[w]));
                    let i = choose|i: int|
                        0 <= i < cat.len() && eligible_name(#[trigger] cat[i], 3, sexcl2) && fv[k]
                            == name_of(cat[i]);
                    assert(!sexcl2.contains(name_of(cat[i])));
                    assert forall|x: Seq<char>| tile_part.contains(x) implies sexcl2.contains(
                        x,
                    ) by {
                        let u = choose|u: int| 0 <= u < tile_part.len() && tile_part[u] == x;
                        assert(sexcl2[sexcl.len() + u] == x);
                    }
                    assert forall|x: Seq<char>| sexcl.contains(x) implies sexcl2.contains(x) by {
                        let u = choose|u: int| 0 <= u < sexcl.len() && sexcl[u] == x;
                        assert(sexcl2[u] == x);
                    }
                    assert(eligible_name(cat[i], 3, sexcl));
                    assert(name_pool(cat, 3, sexcl).contains(name_of(cat[i])));
                }
            }
            append_strings(&mut out, &fill);
            proof {
                let fv = fill.deep_view();
                let rv = out.deep_view();
                assert(rv == tile_part + fv);
                assert(rv.no_duplicates()) by {
                    assert forall|k1: int, k2: int| 0 <= k1 < k2 < rv.len() implies rv[k1] != rv[
                    k2] by {
                        if k1 < tile_part.len() && k2 >= tile_part.len() {
                            assert(rv[k2] == fv[k2 - tile_part.len()]);
                            assert(!tile_part.contains(fv[k2 - tile_part.len()]));
                            assert(tile_part[k1] == rv[k1]);
                            if rv[k1] == rv[k2] {
                                assert(tile_part.contains(fv[k2 - tile_part.len()]));
                            }
                        } else if k1 >= tile_part.len() {
                            assert(rv[k1] == fv[k1 - tile_part.len()]);
                            assert(rv[k2] == fv[k2 - tile_part.len()]);
                        } else {
                            assert(rv[k1] == tile_part[k1]);
                            assert(rv[k2] == tile_part[k2]);
                        }
                    }
                }
                assert(rv.take(t) =~= tp.take(t));
                if out@.len() < count {
                    // the fill ran the whole pool dry
                    assert(fv.len() < need);
                    assert forall|x: Seq<char>| name_pool(cat, 3, sexcl).contains(x) implies rv
                        .contains(x) by {
                        if tile_part.contains(x) {
                            let u = choose|u: int|
                                0 <= u < tile_part.len() && tile_part[u] == x;
                            assert(rv[u] == x);
                        } else {
                            let w = choose|w: int|
                                0 <= w < name_pool(cat, 3, sexcl).len() && name_pool(
                                    cat,
                                    3,
                                    sexcl,
                                )[w] == x;
                            assert(pool_name_from(cat, 3, sexcl, x));
                            let i = choose|i: int|
                                0 <= i < cat.len() && eligible_name(#[trigger] cat[i], 3, sexcl)
                                    && x == name_of(cat[i]);
                            assert(!sexcl2.contains(x)) by {
                                if sexcl2.contains(x) {
                                    let u = choose|u: int|
                                        0 <= u < sexcl2.len() && sexcl2[u] == x;
                                    if u < sexcl.len() {
                                        assert(sexcl[u] == x);
                                    } else {
                                        assert(tile_part[u - sexcl.len()] == x);
                                    }
                                }
                            }
                            assert(eligible_name(cat[i], 3, sexcl2));
                            assert(name_pool(cat, 3, sexcl2).contains(name_of(cat[i])));
                            assert(fv.contains(x));
                            let u = choose|u: int| 0 <= u < fv.len() && fv[u] == x;
                            assert(rv[tile_part.len() + u] == x);
                        }
                    }
                }
            }
        }
        out
    }
}

/// What every delivered question guarantees: it names its target, its
/// correct answer is the target's name (or the escape label on an
/// escape question), the choices are pairwise distinct, contain the
/// correct answer, and otherwise hold only eligible catalog names; they
/// number `num_choices` whenever the catalog has enough eligible names,
/// and otherwise exhaust them.
pub open spec fn question_wf(
    q: QuizQuestion,
    cat: Seq<Star>,
    cfg: QuizConfig,
    star: Star,
    min_len: int,
) -> bool {
    let pool = name_pool(cat, min_len, question_excl(star));
    &&& q.target_star == star.id
    &&& q.is_none_question ==> cfg.include_none_option && q.correct_answer@ == none_label()
    &&& !q.is_none_question ==> star.name is Some && q.correct_answer@ == name_of(star)
    &&& q.choices.deep_view().no_duplicates()
    &&& q.choices.deep_view().contains(q.correct_answer@)
    &&& q.choices@.len() <= cfg.num_choices
    &&& forall|k: int|
        0 <= k < q.choices@.len() ==> (#[trigger] q.choices.deep_view()[k]) == q.correct_answer@
            || pool.contains(q.choices.deep_view()[k])
    &&& (q.choices@.len() == cfg.num_choices || (forall|x: Seq<char>|
        pool.contains(x) ==> q.choices.deep_view().contains(x)))
}

impl<'a> QuizGenerator<'a> {
    /// Generate a question for a specific star; nothing where the star
    /// has no name. One weighted draw decides whether the escape label
    /// is the correct answer; the remaining choices are distractors, and
    /// the whole list is shuffled.
    pub fn generate_for_star(&self, star: &Star, rng: &mut SmallRng) -> (r: Option<QuizQuestion>)
        requires
            self.wf(),
        ensures
            r is Some <==> star.name is Some,
            r matches Some(q) ==> question_wf(
                q,
                self.cat(),
                self.cfg(),
                *star,
                self.min_name_len(),
            ),
    {
        let ghost cat = self.cat();
        let ghost sexcl = question_excl(*star);
        let ghost pool = name_pool(cat, self.min_name_len(), sexcl);
        let correct_name = match &star.name {
            Some(n) => n.clone(),
            None => {
                return None;
            },
        };
        let is_none_q = self.config.include_none_option && rand_index(rng, 1000)
            < self.config.none_probability as usize;
        let dcount = self.config.num_choices - 1;
        let distractors = if self.tile_system.is_some() {
            self.generate_tile_distractors(star, dcount, rng)
        } else {
            let mut excl: Vec<String> = Vec::new();
            excl.push(correct_name.clone());
            excl.push("none of above".to_owned());
            proof {
                assert(excl.deep_view() =~= sexcl);
            }
            let p = self.catalog.distractor_pool(0, &excl);
            proof {
                lemma_name_pool_props(cat, 0, sexcl);
            }
            sample_names(p, dcount, rng)
        };
        proof {
            lemma_name_pool_props(cat, self.min_name_len(), sexcl);
            let dv = distractors.deep_view();
            assert(sexcl[0] == excl_name(*star));
            assert(sexcl[1] == none_label());
            assert forall|k: int| 0 <= k < dv.len() implies (#[trigger] dv[k]) != name_of(*star)
                && dv[k] != none_label() by {
                assert(pool.contains(dv[k]));
                let w = choose|w: int| 0 <= w < pool.len() && pool[w] == dv[k];
                assert(pool_name_from(cat, self.min_name_len(), sexcl, pool[w]));
                let i = choose|i: int|
                    0 <= i < cat.len() && eligible_name(
                        #[trigger] cat[i],
                        self.min_name_len(),
                        sexcl,
                    ) && dv[k] == name_of(cat[i]);
                assert(!sexcl.contains(name_of(cat[i])));
                if dv[k] == name_of(*star) {
                    assert(sexcl.contains(dv[k]));
                }
                if dv[k] == none_label() {
                    assert(sexcl.contains(dv[k]));
                }
            }
        }
        let mut choices: Vec<String> = Vec::new();
        if is_none_q {
            append_strings(&mut choices, &distractors);
            choices.push("none of above".to_owned());
        } else {
            choices.push(correct_name.clone());
            append_strings(&mut choices, &distractors);
        }
        let ghost pre = choices.deep_view();
        proof {
            let dv = distractors.deep_view();
            if is_none_q {
                assert(pre =~= dv.push(none_label()));
                assert(pre.no_duplicates()) by {
                    assert forall|k1: int, k2: int| 0 <= k1 < k2 < pre.len() implies pre[k1]
                        != pre[k2] by {
                        if k2 == pre.len() - 1 {
                            assert(pre[k1] == dv[k1]);
                            assert(pre[k2] == none_label());
                        }
                    }
                }
                assert(pre[pre.len() - 1] == none_label());
                assert(pre.contains(none_label()));
            } else {
                assert(pre =~= seq![correct_name@].add(dv));
                assert(pre[0] == name_of(*star));
                assert(pre.contains(name_of(*star)));
                assert(pre.no_duplicates()) by {
                    assert forall|k1: int, k2: int| 0 <= k1 < k2 < pre.len() implies pre[k1]
                        != pre[k2] by {
                        if k1 == 0 {
                            assert(pre[k2] == dv[k2 - 1]);
                        } else {
                            assert(pre[k1] == dv[k1 - 1]);
                            assert(pre[k2] == dv[k2 - 1]);
                        }
                    }
                }
            }
        }
        shuffle_strings(&mut choices, rng);
        let actual = if is_none_q {
            "none of above".to_owned()
        } else {
            correct_name
        };
        let q = QuizQuestion {
            target_star: star.id,
            correct_answer: actual,
            choices,
            is_none_question: is_none_q,
        };
        proof {
            let post = q.choices.deep_view();
            let dv = distractors.deep_view();
            lemma_permutation_transfer(pre, post);
            assert(post.contains(q.correct_answer@));
            assert forall|k: int| 0 <= k < post.len() implies (#[trigger] post[k])
                == q.correct_answer@ || pool.contains(post[k]) by {
                assert(post.contains(post[k]));
                assert(pre.contains(post[k]));
                let w = choose|w: int| 0 <= w < pre.len() && pre[w] == post[k];
                if is_none_q {
                    if w < dv.len() {
                        assert(pre[w] == dv[w]);
                    } else {
                        assert(pre[w] == none_label());
                    }
                } else {
                    if w == 0 {
                        assert(pre[w] == q.correct_answer@);
                    } else {
                        assert(pre[w] == dv[w - 1]);
                    }
                }
            }
            if q.choices@.len() < self.cfg().num_choices {
                assert(dv.len() < self.cfg().num_choices - 1);
                assert forall|x: Seq<char>| pool.contains(x) implies post.contains(x) by {
                    assert(dv.contains(x));
                    let w = choose|w: int| 0 <= w < dv.len() && dv[w] == x;
                    if is_none_q {
                        assert(pre[w] == x);
                    } else {
                        assert(pre[w + 1] == x);
                    }
                    assert(pre.contains(x));
                }
            }
        }
        Some(q)
    }

    /// Generate a question about a uniformly chosen named star; nothing
    /// where the catalog has no named star.
    pub fn generate_random(&self, rng: &mut SmallRng) -> (r: Option<QuizQuestion>)
        requires
            self.wf(),
        ensures
            r is Some <==> exists|i: int|
                0 <= i < self.cat().len() && is_named(#[trigger] self.cat()[i]),
            r matches Some(q) ==> exists|i: int|
                0 <= i < self.cat().len() && is_named(#[trigger] self.cat()[i]) && question_wf(
                    q,
                    self.cat(),
                    self.cfg(),
                    self.cat()[i],
                    self.min_name_len(),
                ),
    {
        let picked = match self.catalog.random_named_star(rng) {
            Some(star) => clone_star(star),
            None => {
                return None;
            },
        };
        let r = self.generate_for_star(&picked, rng);
        proof {
            let i = choose|i: int| 0 <= i < self.cat().len() && self.cat()[i] == picked;
            match r {
                Some(ref q) => {
                    assert(is_named(self.cat()[i]) && question_wf(
                        *q,
                        self.cat(),
                        self.cfg(),
                        self.cat()[i],
                        self.min_name_len(),
                    ));
                },
                None => {},
            }
        }
        r
    }

    /// Generate a question about a uniformly chosen named star whose
    /// magnitude lies in `[min_mag, max_mag)`, in centi-magnitudes;
    /// nothing where no named star does.
    pub fn generate_for_magnitude_range(
        &self,
        min_mag: i64,
        max_mag: i64,
        rng: &mut SmallRng,
    ) -> (r: Option<QuizQuestion>)
        requires
            self.wf(),
        ensures
            r is Some <==> exists|i: int|
                0 <= i < self.cat().len() && is_named(#[trigger] self.cat()[i]) && min_mag
                    <= self.cat()[i].magnitude < max_mag,
            r matches Some(q) ==> exists|i: int|
                0 <= i < self.cat().len() && is_named(#[trigger] self.cat()[i]) && min_mag
                    <= self.cat()[i].magnitude < max_mag && question_wf(
                    q,
                    self.cat(),
                    self.cfg(),
                    self.cat()[i],
                    self.min_name_len(),
                ),
    {
        let ghost cat = self.cat();
        let named = self.catalog.named_stars();
        let mut candidates: Vec<Star> = Vec::new();
        let n = named.len();
        for i in 0..n
            invariant
                n == named@.len(),
                named@ == cat.filter(|s: Star| s.name is Some),
                candidates@ == named@.take(i as int).filter(
                    |s: Star| min_mag <= s.magnitude < max_mag,
                ),
        {
            proof {
                lemma_filter_take_step(named@, |s: Star| min_mag <= s.magnitude < max_mag, i as int);
            }
            if min_mag <= named[i].magnitude && named[i].magnitude < max_mag {
                candidates.push(clone_star(&named[i]));
            }
        }
        proof {
            assert(named@.take(n as int) =~= named@);
        }
        let ghost cv = candidates@;
        proof {
            crate::catalog::lemma_filter_subset(named@, |s: Star| min_mag <= s.magnitude < max_mag);
            crate::catalog::lemma_filter_subset(cat, |s: Star| s.name is Some);
            assert forall|k: int| 0 <= k < cv.len() implies (exists|i: int|
                0 <= i < cat.len() && (#[trigger] cat[i]) == (#[trigger] cv[k]) && is_named(
                    cat[i],
                ) && min_mag <= cat[i].magnitude < max_mag) by {
                assert(named@.contains(cv[k]));
                let w = choose|w: int| 0 <= w < named@.len() && named@[w] == cv[k];
                assert(cat.contains(named@[w]));
                let i = choose|i: int| 0 <= i < cat.len() && cat[i] == named@[w];
                cat.lemma_filter_pred(|s: Star| s.name is Some, w);
                named@.lemma_filter_pred(|s: Star| min_mag <= s.magnitude < max_mag, k);
                assert(cat[i] == cv[k]);
            }
        }
        if candidates.len() == 0 {
            proof {
                if exists|i: int|
                    0 <= i < cat.len() && is_named(#[trigger] cat[i]) && min_mag
                        <= cat[i].magnitude < max_mag {
                    let i = choose|i: int|
                        0 <= i < cat.len() && is_named(#[trigger] cat[i]) && min_mag
                            <= cat[i].magnitude < max_mag;
                    assert(cat.filter(|s: Star| s.name is Some).contains(cat[i])) by {
                        cat.lemma_filter_contains(|s: Star| s.name is Some, i);
                    }
                    let w = choose|w: int| 0 <= w < named@.len() && named@[w] == cat[i];
                    assert(named@.filter(|s: Star| min_mag <= s.magnitude < max_mag).contains(
                        named@[w],
                    )) by {
                        named@.lemma_filter_contains(
                            |s: Star| min_mag <= s.magnitude < max_mag,
                            w,
                        );
                    }
                }
            }
            return None;
        }
        let idx = rand_index(rng, candidates.len());
        let r = self.generate_for_star(&candidates[idx], rng);
        proof {
            let i = choose|i: int|
                0 <= i < cat.len() && (#[trigger] cat[i]) == (#[trigger] cv[idx as int])
                    && is_named(cat[i]) && min_mag <= cat[i].magnitude < max_mag;
            match r {
                Some(ref q) => {
                    assert(question_wf(*q, cat, self.cfg(), cat[i], self.min_name_len()));
                },
                None => {
                    assert(cv[idx as int].name is Some);
                },
            }
        }
        r
    }
}

} // verus!
