//! The star catalog: identified stars with optional names, celestial
//! coordinates and magnitudes, with lookup, filtering and random
//! sampling over them.
//!
//! Magnitudes are in centi-magnitudes (a value of 150 is magnitude 1.5);
//! smaller is brighter.

use vstd::prelude::*;
use vstd::std_specs::iter::IteratorSpec;
use rand::rngs::SmallRng;
use crate::angles::{DEC_MAX, DEC_MIN, RA_FULL};
use crate::coord::CelestialCoord;
use crate::rng::rand_index;

verus! {

/// A catalog-wide identifier of one star.
#[derive(Clone, Copy, Debug, PartialEq, Eq, Structural, Hash)]
pub struct StarId(pub u32);

/// One catalog entry.
#[derive(Debug)]
pub struct Star {
    pub id: StarId,
    /// The proper name, where the star has one.
    pub name: Option<String>,
    pub coord: CelestialCoord,
    /// Apparent magnitude in hundredths; smaller is brighter.
    pub magnitude: i64,
    /// The constellation the star belongs to, where recorded.
    pub constellation: Option<String>,
}

/// The star carries a proper name.
pub open spec fn is_named(s: Star) -> bool {
    s.name is Some
}

/// The characters of the star's name.
pub open spec fn name_of(s: Star) -> Seq<char> {
    s.name.unwrap()@
}

impl Star {
    /// Whether this star has a proper name.
    pub fn has_name(&self) -> (r: bool)
        ensures
            r == is_named(*self),
    {
        self.name.is_some()
    }
}

/// An exact copy of an optional string.
pub(crate) fn clone_opt_string(o: &Option<String>) -> (r: Option<String>)
    ensures
        r == *o,
{
    match o {
        Some(s) => Some(s.clone()),
        None => None,
    }
}

/// An exact copy of a star.
pub fn clone_star(s: &Star) -> (r: Star)
    ensures
        r == *s,
{
    Star {
        id: s.id,
        name: clone_opt_string(&s.name),
        coord: s.coord,
        magnitude: s.magnitude,
        constellation: clone_opt_string(&s.constellation),
    }
}

/// Brightness buckets used by the catalog statistics; each bucket is
/// cumulative, holding every star brighter than its limit.
#[derive(Clone, Copy, Debug, PartialEq, Eq, Structural)]
pub enum BrightnessCategory {
    Brilliant,
    Bright,
    Medium,
    Faint,
    VeryFaint,
}

impl BrightnessCategory {
    /// The magnitude below which a star falls in this bucket, in
    /// centi-magnitudes.
    pub open spec fn magnitude_limit_spec(self) -> int {
        match self {
            BrightnessCategory::Brilliant => 100,
            BrightnessCategory::Bright => 250,
            BrightnessCategory::Medium => 400,
            BrightnessCategory::Faint => 550,
            BrightnessCategory::VeryFaint => 700,
        }
    }

    /// The magnitude below which a star falls in this bucket, in
    /// centi-magnitudes.
    pub fn magnitude_limit(&self) -> (m: i64)
        ensures
            m == self.magnitude_limit_spec(),
    {
        match self {
            BrightnessCategory::Brilliant => 100,
            BrightnessCategory::Bright => 250,
            BrightnessCategory::Medium => 400,
            BrightnessCategory::Faint => 550,
            BrightnessCategory::VeryFaint => 700,
        }
    }
}

/// The right ascension lies in the wraparound-aware range `[lo, hi]`;
/// a range whose ends cross the seam covers both sides of it.
pub open spec fn ra_in_range(ra: int, lo: int, hi: int) -> bool {
    if lo <= hi {
        lo <= ra <= hi
    } else {
        ra >= lo || ra <= hi
    }
}

/// The star catalog. Its mathematical value is the sequence of its
/// stars, in insertion order; identifiers are unique.
pub struct StarCatalog {
    stars: Vec<Star>,
}

impl View for StarCatalog {
    type V = Seq<Star>;

    closed spec fn view(&self) -> Seq<Star> {
        self.stars@
    }
}

impl StarCatalog {
    /// Identifiers are pairwise distinct.
    pub open spec fn wf(self) -> bool {
        forall|i: int, j: int|
            0 <= i < j < self@.len() ==> (#[trigger] self@[i]).id.0 != (#[trigger] self@[j]).id.0
    }

    /// An empty catalog.
    pub fn new() -> (c: StarCatalog)
        ensures
            c@ == Seq::<Star>::empty(),
            c.wf(),
    {
        StarCatalog { stars: Vec::new() }
    }

    /// Append a star whose identifier is not yet present.
    pub fn add_star(&mut self, star: Star)
        requires
            old(self).wf(),
            forall|i: int| 0 <= i < old(self)@.len() ==> (#[trigger] old(self)@[i]).id.0 != star.id.0,
        ensures
            final(self)@ == old(self)@.push(star),
            final(self).wf(),
    {
        self.stars.push(star);
    }

    /// How many stars the catalog holds.
    pub fn count(&self) -> (n: usize)
        ensures
            n == self@.len(),
    {
        self.stars.len()
    }

    /// Look a star up by its identifier.
    pub fn get(&self, id: StarId) -> (r: Option<&Star>)
        ensures
            r is Some <==> exists|i: int| 0 <= i < self@.len() && (#[trigger] self@[i]).id.0 == id.0,
            r matches Some(s) ==> s.id.0 == id.0 && self@.contains(*s),
    {
        let n = self.stars.len();
        for i in 0..n
            invariant
                n == self@.len(),
                forall|j: int| 0 <= j < i ==> (#[trigger] self@[j]).id.0 != id.0,
        {
            if self.stars[i].id.0 == id.0 {
                return Some(&self.stars[i]);
            }
        }
        None
    }

    /// All stars that carry a proper name, in catalog order.
    pub fn named_stars(&self) -> (r: Vec<Star>)
        ensures
            r@ == self@.filter(|s: Star| s.name is Some),
    {
        let mut out: Vec<Star> = Vec::new();
        let n = self.stars.len();
        for i in 0..n
            invariant
                n == self@.len(),
                out@ == self@.take(i as int).filter(|s: Star| s.name is Some),
        {
            proof {
                lemma_filter_take_step(self@, |s: Star| s.name is Some, i as int);
            }
            if self.stars[i].name.is_some() {
                out.push(clone_star(&self.stars[i]));
            }
        }
        proof {
            assert(self@.take(n as int) =~= self@);
        }
        out
    }

    /// How many stars carry a proper name.
    pub fn named_count(&self) -> (n: usize)
        ensures
            n == self@.filter(|s: Star| s.name is Some).len(),
    {
        let named = self.named_stars();
        named.len()
    }

    /// The stars inside a wraparound-aware right-ascension range, a
    /// declination band, and at most as faint as the magnitude limit.
    pub fn stars_in_range(&self, ra_lo: i64, ra_hi: i64, dec_lo: i64, dec_hi: i64, mag_limit: i64)
        -> (r: Vec<Star>)
        ensures
            r@ == self@.filter(
                |s: Star|
                    ra_in_range(s.coord.ra as int, ra_lo as int, ra_hi as int) && dec_lo
                        <= s.coord.dec <= dec_hi && s.magnitude <= mag_limit,
            ),
    {
        let mut out: Vec<Star> = Vec::new();
        let n = self.stars.len();
        for i in 0..n
            invariant
                n == self@.len(),
                out@ == self@.take(i as int).filter(
                    |s: Star|
                        ra_in_range(s.coord.ra as int, ra_lo as int, ra_hi as int) && dec_lo
                            <= s.coord.dec <= dec_hi && s.magnitude <= mag_limit,
                ),
        {
            proof {
                lemma_filter_take_step(
                    self@,
                    |s: Star|
                        ra_in_range(s.coord.ra as int, ra_lo as int, ra_hi as int) && dec_lo
                            <= s.coord.dec <= dec_hi && s.magnitude <= mag_limit,
                    i as int,
                );
            }
            let s = &self.stars[i];
            let ra_ok = if ra_lo <= ra_hi {
                ra_lo <= s.coord.ra && s.coord.ra <= ra_hi
            } else {
                s.coord.ra >= ra_lo || s.coord.ra <= ra_hi
            };
            if ra_ok && dec_lo <= s.coord.dec && s.coord.dec <= dec_hi && s.magnitude
                <= mag_limit {
                out.push(clone_star(s));
            }
        }
        proof {
            assert(self@.take(n as int) =~= self@);
        }
        out
    }

    /// The stars strictly brighter than a magnitude, in centi-magnitudes.
    pub fn stars_brighter_than(&self, mag: i64) -> (r: Vec<Star>)
        ensures
            r@ == self@.filter(|s: Star| s.magnitude < mag),
    {
        let mut out: Vec<Star> = Vec::new();
        let n = self.stars.len();
        for i in 0..n
            invariant
                n == self@.len(),
                out@ == self@.take(i as int).filter(|s: Star| s.magnitude < mag),
        {
            proof {
                lemma_filter_take_step(self@, |s: Star| s.magnitude < mag, i as int);
            }
            if self.stars[i].magnitude < mag {
                out.push(clone_star(&self.stars[i]));
            }
        }
        proof {
            assert(self@.take(n as int) =~= self@);
        }
        out
    }

    /// The stars of one brightness bucket: those brighter than its limit.
    pub fn stars_in_category(&self, category: BrightnessCategory) -> (r: Vec<Star>)
        ensures
            r@ == self@.filter(|s: Star| s.magnitude < category.magnitude_limit_spec()),
    {
        let limit = category.magnitude_limit();
        let mut out: Vec<Star> = Vec::new();
        let n = self.stars.len();
        for i in 0..n
            invariant
                n == self@.len(),
                limit == category.magnitude_limit_spec(),
                out@ == self@.take(i as int).filter(
                    |s: Star| s.magnitude < category.magnitude_limit_spec(),
                ),
        {
            proof {
                lemma_filter_take_step(
                    self@,
                    |s: Star| s.magnitude < category.magnitude_limit_spec(),
                    i as int,
                );
            }
            if self.stars[i].magnitude < limit {
                out.push(clone_star(&self.stars[i]));
            }
        }
        proof {
            assert(self@.take(n as int) =~= self@);
        }
        out
    }

    /// A uniformly chosen named star, or nothing where the catalog has
    /// no named star at all.
    pub fn random_named_star(&self, rng: &mut SmallRng) -> (r: Option<&Star>)
        ensures
            r is Some <==> exists|i: int| 0 <= i < self@.len() && is_named(#[trigger] self@[i]),
            r matches Some(s) ==> is_named(*s) && self@.contains(*s),
    {
        let n = self.stars.len();
        let mut named_idx: Vec<usize> = Vec::new();
        for i in 0..n
            invariant
                n == self@.len(),
                forall|k: int| 0 <= k < named_idx@.len() ==> (#[trigger] named_idx@[k]) < i,
                forall|k: int|
                    0 <= k < named_idx@.len() ==> is_named(self@[#[trigger] named_idx@[k] as int]),
                (exists|j: int| 0 <= j < i && is_named(#[trigger] self@[j])) ==> named_idx@.len()
                    > 0,
        {
            if self.stars[i].name.is_some() {
                named_idx.push(i);
            }
        }
        if named_idx.len() == 0 {
            None
        } else {
            let k = rand_index(rng, named_idx.len());
            let idx = named_idx[k];
            Some(&self.stars[idx])
        }
    }
}

/// One step of filtering a prefix: filtering a prefix one longer either
/// appends the new element or appends nothing.
pub proof fn lemma_filter_take_step<A>(s: Seq<A>, pred: spec_fn(A) -> bool, i: int)
    requires
        0 <= i < s.len(),
    ensures
        s.take(i + 1).filter(pred) == if pred(s[i]) {
            s.take(i).filter(pred).push(s[i])
        } else {
            s.take(i).filter(pred)
        },
{
    reveal(Seq::filter);
    assert(s.take(i + 1).drop_last() =~= s.take(i));
    assert(s.take(i + 1).last() == s[i]);
}

/// A star's name is eligible for a distractor pool: present, at least
/// `min_len` characters long, and not among the excluded names.
pub open spec fn eligible_name(s: Star, min_len: int, excl: Seq<Seq<char>>) -> bool {
    &&& s.name is Some
    &&& name_of(s).len() >= min_len
    &&& !excl.contains(name_of(s))
}

/// The name is the eligible name of some star in the list.
pub open spec fn pool_name_from(
    stars: Seq<Star>,
    min_len: int,
    excl: Seq<Seq<char>>,
    x: Seq<char>,
) -> bool {
    exists|i: int|
        0 <= i < stars.len() && eligible_name(#[trigger] stars[i], min_len, excl) && x == name_of(
            stars[i],
        )
}

/// The ordered, duplicate-free pool of eligible names of a star list, in
/// first-appearance order.
pub open spec fn name_pool(stars: Seq<Star>, min_len: int, excl: Seq<Seq<char>>) -> Seq<Seq<char>>
    decreases stars.len(),
{
    if stars.len() == 0 {
        Seq::empty()
    } else {
        let p = name_pool(stars.drop_last(), min_len, excl);
        let s = stars.last();
        if eligible_name(s, min_len, excl) && !p.contains(name_of(s)) {
            p.push(name_of(s))
        } else {
            p
        }
    }
}

/// One step of pooling a prefix: pooling a prefix one longer either
/// appends the new star's name or appends nothing.
pub proof fn lemma_name_pool_take_step(
    stars: Seq<Star>,
    min_len: int,
    excl: Seq<Seq<char>>,
    i: int,
)
    requires
        0 <= i < stars.len(),
    ensures
        name_pool(stars.take(i + 1), min_len, excl) == ({
            let p = name_pool(stars.take(i), min_len, excl);
            if eligible_name(stars[i], min_len, excl) && !p.contains(name_of(stars[i])) {
                p.push(name_of(stars[i]))
            } else {
                p
            }
        }),
{
    assert(stars.take(i + 1).drop_last() =~= stars.take(i));
    assert(stars.take(i + 1).last() == stars[i]);
    assert(stars.take(i + 1).len() == i + 1);
}

/// What the pool holds: only eligible names of listed stars, each once,
/// and every eligible name among them.
pub proof fn lemma_name_pool_props(stars: Seq<Star>, min_len: int, excl: Seq<Seq<char>>)
    ensures
        name_pool(stars, min_len, excl).no_duplicates(),
        forall|k: int|
            0 <= k < name_pool(stars, min_len, excl).len() ==> pool_name_from(
                stars,
                min_len,
                excl,
                #[trigger] name_pool(stars, min_len, excl)[k],
            ),
        forall|i: int|
            0 <= i < stars.len() && eligible_name(#[trigger] stars[i], min_len, excl)
                ==> name_pool(stars, min_len, excl).contains(name_of(stars[i])),
    decreases stars.len(),
{
    let pool = name_pool(stars, min_len, excl);
    if stars.len() == 0 {
    } else {
        let pre = stars.drop_last();
        lemma_name_pool_props(pre, min_len, excl);
        let p = name_pool(pre, min_len, excl);
        let s = stars.last();
        assert forall|i: int|
            0 <= i < stars.len() && eligible_name(#[trigger] stars[i], min_len, excl) implies pool
            .contains(name_of(stars[i])) by {
            if i < stars.len() - 1 {
                assert(stars[i] == pre[i]);
                assert(p.contains(name_of(stars[i])));
                let w = choose|w: int| 0 <= w < p.len() && p[w] == name_of(stars[i]);
                assert(pool[w] == name_of(stars[i]));
            } else {
                if !p.contains(name_of(s)) {
                    assert(pool.last() == name_of(s));
                } else {
                    let w = choose|w: int| 0 <= w < p.len() && p[w] == name_of(s);
                    assert(pool[w] == name_of(s));
                }
            }
        }
        assert forall|k: int| 0 <= k < pool.len() implies pool_name_from(
            stars,
            min_len,
            excl,
            #[trigger] pool[k],
        ) by {
            if k < p.len() {
                assert(pool[k] == p[k]);
                assert(pool_name_from(pre, min_len, excl, p[k]));
                let i = choose|i: int|
                    0 <= i < pre.len() && eligible_name(#[trigger] pre[i], min_len, excl) && p[k]
                        == name_of(pre[i]);
                assert(stars[i] == pre[i]);
                assert(eligible_name(stars[i], min_len, excl) && pool[k] == name_of(stars[i]));
            } else {
                assert(eligible_name(s, min_len, excl) && pool[k] == name_of(s));
                assert(stars[stars.len() - 1] == s);
                assert(eligible_name(stars[stars.len() - 1], min_len, excl) && pool[k] == name_of(
                    stars[stars.len() - 1],
                ));
            }
        }
    }
}

/// The string has at least `k` characters.
pub(crate) fn has_at_least_chars(s: &str, k: usize) -> (r: bool)
    ensures
        r == (s@.len() >= k),
{
    broadcast use vstd::string::next_postcondition;
    broadcast use vstd::string::axiom_spec_iter;

    let mut it = s.chars();
    let mut cnt: usize = 0;
    while cnt < k
        invariant
            cnt <= k,
            it.obeys_prophetic_iter_laws(),
            it.remaining() =~= s@.skip(cnt as int),
            cnt <= s@.len(),
        decreases k - cnt,
    {
        match it.next() {
            Some(_) => {
                cnt = cnt + 1;
                proof {
                    assert(it.remaining() =~= s@.skip(cnt as int));
                }
            },
            None => {
                proof {
                    assert(s@.skip(cnt as int).len() == 0);
                    assert(s@.len() == cnt);
                }
                return false;
            },
        }
    }
    true
}

/// A name occurs in a list of names.
pub(crate) fn contains_string(v: &Vec<String>, s: &String) -> (r: bool)
    ensures
        r == v.deep_view().contains(s@),
{
    let n = v.len();
    for i in 0..n
        invariant
            n == v@.len(),
            forall|j: int| 0 <= j < i ==> v.deep_view()[j] != s@,
    {
        if v[i].eq(s) {
            proof {
                assert(v.deep_view()[i as int] == s@);
            }
            return true;
        }
    }
    proof {
        if v.deep_view().contains(s@) {
            let j = choose|j: int| 0 <= j < v.deep_view().len() && v.deep_view()[j] == s@;
            assert(v.deep_view()[j] != s@);
        }
    }
    false
}

/// An exact copy of a list of names.
pub(crate) fn clone_strings(v: &Vec<String>) -> (r: Vec<String>)
    ensures
        r@ == v@,
{
    let mut out: Vec<String> = Vec::new();
    let n = v.len();
    for i in 0..n
        invariant
            n == v@.len(),
            out@ == v@.take(i as int),
    {
        out.push(v[i].clone());
        proof {
            assert(out@ =~= v@.take(i + 1 as int));
        }
    }
    proof {
        assert(v@.take(n as int) =~= v@);
    }
    out
}

/// Collect the duplicate-free pool of eligible names of a star list.
pub(crate) fn build_name_pool(stars: &Vec<Star>, min_len: usize, excl: &Vec<String>) -> (r: Vec<
    String,
>)
    ensures
        r.deep_view() == name_pool(stars@, min_len as int, excl.deep_view()),
{
    let mut out: Vec<String> = Vec::new();
    let n = stars.len();
    for i in 0..n
        invariant
            n == stars@.len(),
            out.deep_view() == name_pool(stars@.take(i as int), min_len as int, excl.deep_view()),
    {
        proof {
            lemma_name_pool_take_step(stars@, min_len as int, excl.deep_view(), i as int);
        }
        let s = &stars[i];
        if let Some(name) = &s.name {
            if has_at_least_chars(name.as_str(), min_len) && !contains_string(excl, name)
                && !contains_string(&out, name) {
                let ghost before = out.deep_view();
                out.push(name.clone());
                proof {
                    assert(out.deep_view() =~= before.push(name@));
                }
            }
        }
    }
    proof {
        assert(stars@.take(n as int) =~= stars@);
    }
    out
}

/// Draw up to `count` names from a duplicate-free pool, without
/// replacement: the result is duplicate-free, drawn from the pool, of
/// the pool's own size where the pool is too small to fill the count,
/// and exhausts the pool in that case.
pub(crate) fn sample_names(pool: Vec<String>, count: usize, rng: &mut SmallRng) -> (r: Vec<String>)
    requires
        pool.deep_view().no_duplicates(),
    ensures
        r.deep_view().no_duplicates(),
        r@.len() == if count <= pool@.len() {
            count as int
        } else {
            pool@.len() as int
        },
        forall|k: int|
            0 <= k < r@.len() ==> pool.deep_view().contains(#[trigger] r.deep_view()[k]),
        r@.len() < count ==> (forall|x: Seq<char>|
            pool.deep_view().contains(x) ==> r.deep_view().contains(x)),
{
    let ghost pv = pool.deep_view();
    let mut avail = pool;
    let mut out: Vec<String> = Vec::new();
    while out.len() < count && avail.len() > 0
        invariant
            out@.len() + avail@.len() == pv.len(),
            out@.len() <= count,
            out.deep_view().no_duplicates(),
            avail.deep_view().no_duplicates(),
            forall|k: int| 0 <= k < out@.len() ==> pv.contains(#[trigger] out.deep_view()[k]),
            forall|k: int| 0 <= k < avail@.len() ==> pv.contains(#[trigger] avail.deep_view()[k]),
            forall|k: int, m: int|
                0 <= k < out@.len() && 0 <= m < avail@.len() ==> (#[trigger] out.deep_view()[k])
                    != (#[trigger] avail.deep_view()[m]),
            forall|x: Seq<char>|
                pv.contains(x) ==> out.deep_view().contains(x) || avail.deep_view().contains(x),
        decreases avail@.len(),
    {
        let ghost av = avail.deep_view();
        let ghost ov = out.deep_view();
        let j = rand_index(rng, avail.len());
        let picked = avail.remove(j);
        proof {
            assert(avail.deep_view() =~= av.remove(j as int));
            av.remove_ensures(j as int);
            assert(picked@ == av[j as int]);
        }
        let ghost av2 = avail.deep_view();
        out.push(picked);
        proof {
            assert(out.deep_view() =~= ov.push(av[j as int]));
            let nv = out.deep_view();
            assert(forall|k: int| 0 <= k < ov.len() ==> (#[trigger] ov[k]) != av[j as int]);
            assert forall|k: int, m: int|
                0 <= k < nv.len() && 0 <= m < av2.len() implies (#[trigger] nv[k]) != (
            #[trigger] av2[m]) by {
                assert(av2[m] == if m < j { av[m] } else { av[m + 1] });
                if k < ov.len() {
                } else {
                    assert(nv[k] == av[j as int]);
                }
            }
            assert(nv.no_duplicates());
            assert forall|x: Seq<char>| pv.contains(x) implies nv.contains(x) || av2.contains(
                x,
            ) by {
                if ov.contains(x) {
                    let w = choose|w: int| 0 <= w < ov.len() && ov[w] == x;
                    assert(nv[w] == x);
                } else if av.contains(x) {
                    let w = choose|w: int| 0 <= w < av.len() && av[w] == x;
                    if w == j {
                        assert(nv[nv.len() - 1] == x);
                    } else if w < j {
                        assert(av2[w] == x);
                    } else {
                        assert(av2[w - 1] == x);
                    }
                }
            }
            assert forall|k: int| 0 <= k < nv.len() implies pv.contains(#[trigger] nv[k]) by {
                if k < ov.len() {
                } else {
                    assert(nv[k] == av[j as int]);
                }
            }
        }
    }
    proof {
        if out@.len() < count {
            assert(avail@.len() == 0);
            assert forall|x: Seq<char>| pv.contains(x) implies out.deep_view().contains(x) by {
                assert(avail.deep_view().len() == 0);
            }
        }
    }
    out
}

impl StarCatalog {
    /// Up to `count` uniformly drawn distinct star names, never the
    /// excluded one: the choices come from the duplicate-free pool of
    /// all other names in the catalog, and where that pool is smaller
    /// than the count, all of it is returned.
    pub fn random_distractors(&self, exclude_name: &String, count: usize, rng: &mut SmallRng)
        -> (r: Vec<String>)
        ensures
            r.deep_view().no_duplicates(),
            r@.len() == ({
                let pool = name_pool(self@, 0, seq![exclude_name@]);
                if count <= pool.len() {
                    count as int
                } else {
                    pool.len() as int
                }
            }),
            forall|k: int|
                0 <= k < r@.len() ==> name_pool(self@, 0, seq![exclude_name@]).contains(
                    #[trigger] r.deep_view()[k],
                ),
            r@.len() < count ==> (forall|x: Seq<char>|
                name_pool(self@, 0, seq![exclude_name@]).contains(x) ==> r.deep_view().contains(
                    x,
                )),
    {
        let mut excl: Vec<String> = Vec::new();
        excl.push(exclude_name.clone());
        proof {
            assert(excl.deep_view() =~= seq![exclude_name@]);
        }
        let pool = build_name_pool(&self.stars, 0, &excl);
        proof {
            lemma_name_pool_props(self@, 0, seq![exclude_name@]);
        }
        sample_names(pool, count, rng)
    }
}

/// Every element of a filtered sequence comes from the original.
pub proof fn lemma_filter_subset<A>(s: Seq<A>, pred: spec_fn(A) -> bool)
    ensures
        forall|k: int|
            0 <= k < s.filter(pred).len() ==> s.contains(#[trigger] s.filter(pred)[k]),
    decreases s.len(),
{
    reveal(Seq::filter);
    if s.len() == 0 {
    } else {
        let pre = s.drop_last();
        lemma_filter_subset(pre, pred);
        let f = s.filter(pred);
        let fp = pre.filter(pred);
        assert forall|k: int| 0 <= k < f.len() implies s.contains(#[trigger] f[k]) by {
            if k < fp.len() {
                assert(f[k] == fp[k]);
                assert(pre.contains(fp[k]));
                let w = choose|w: int| 0 <= w < pre.len() && pre[w] == fp[k];
                assert(s[w] == fp[k]);
            } else {
                assert(f[k] == s.last());
                assert(s[s.len() - 1] == s.last());
            }
        }
    }
}

impl StarCatalog {
    /// The duplicate-free pool of eligible names over the whole catalog.
    pub(crate) fn distractor_pool(&self, min_len: usize, excl: &Vec<String>) -> (r: Vec<String>)
        ensures
            r.deep_view() == name_pool(self@, min_len as int, excl.deep_view()),
    {
        build_name_pool(&self.stars, min_len, excl)
    }
}

/// The star list is sorted strictly by identifier.
pub open spec fn ids_increasing(s: Seq<Star>) -> bool {
    forall|i: int, j: int|
        0 <= i < j < s.len() ==> (#[trigger] s[i]).id.0 < (#[trigger] s[j]).id.0
}

/// Append a named star with an identifier above every present one.
fn push_named(v: &mut Vec<Star>, id: u32, name: &str, ra: i64, dec: i64, mag: i64)
    requires
        ids_increasing(old(v)@),
        forall|i: int| 0 <= i < old(v)@.len() ==> (#[trigger] old(v)@[i]).id.0 < id,
        forall|i: int| 0 <= i < old(v)@.len() ==> (#[trigger] old(v)@[i]).coord.wf(),
        0 <= ra < RA_FULL,
        DEC_MIN <= dec <= DEC_MAX,
    ensures
        final(v)@.len() == old(v)@.len() + 1,
        ids_increasing(final(v)@),
        forall|i: int| 0 <= i < final(v)@.len() ==> (#[trigger] final(v)@[i]).id.0 <= id,
        forall|i: int| 0 <= i < final(v)@.len() ==> (#[trigger] final(v)@[i]).coord.wf(),
{
    v.push(
        Star {
            id: StarId(id),
            name: Some(name.to_owned()),
            coord: CelestialCoord { ra, dec },
            magnitude: mag,
            constellation: None,
        },
    );
}

/// Append an unnamed star with an identifier above every present one.
fn push_unnamed(v: &mut Vec<Star>, id: u32, ra: i64, dec: i64, mag: i64)
    requires
        ids_increasing(old(v)@),
        forall|i: int| 0 <= i < old(v)@.len() ==> (#[trigger] old(v)@[i]).id.0 < id,
        forall|i: int| 0 <= i < old(v)@.len() ==> (#[trigger] old(v)@[i]).coord.wf(),
        0 <= ra < RA_FULL,
        DEC_MIN <= dec <= DEC_MAX,
    ensures
        final(v)@.len() == old(v)@.len() + 1,
        ids_increasing(final(v)@),
        forall|i: int| 0 <= i < final(v)@.len() ==> (#[trigger] final(v)@[i]).id.0 <= id,
        forall|i: int| 0 <= i < final(v)@.len() ==> (#[trigger] final(v)@[i]).coord.wf(),
{
    v.push(
        Star {
            id: StarId(id),
            name: None,
            coord: CelestialCoord { ra, dec },
            magnitude: mag,
            constellation: None,
        },
    );
}

impl StarCatalog {
    /// A catalog over a star list whose identifiers are pairwise
    /// distinct.
    pub fn from_stars(stars: Vec<Star>) -> (c: StarCatalog)
        requires
            forall|i: int, j: int|
                0 <= i < j < stars@.len() ==> (#[trigger] stars@[i]).id.0 != (
                #[trigger] stars@[j]).id.0,
        ensures
            c@ == stars@,
            c.wf(),
    {
        StarCatalog { stars }
    }

    /// All stars, in catalog order.
    pub fn all_stars(&self) -> (r: Vec<Star>)
        ensures
            r@ == self@,
    {
        let mut out: Vec<Star> = Vec::new();
        let n = self.stars.len();
        for i in 0..n
            invariant
                n == self@.len(),
                out@ == self@.take(i as int),
        {
            out.push(clone_star(&self.stars[i]));
            proof {
                assert(out@ =~= self@.take(i + 1 as int));
            }
        }
        proof {
            assert(self@.take(n as int) =~= self@);
        }
        out
    }
}

/// A built-in catalog of the brightest stars of the sky under their
/// proper names, rounded to the library's fixed-point units, with a
/// handful of fainter anonymous stars so that deeper magnitude limits
/// reveal more.
pub fn generate_placeholder_catalog() -> (c: StarCatalog)
    ensures
        c.wf(),
        forall|i: int| 0 <= i < c@.len() ==> (#[trigger] c@[i]).coord.wf(),
        forall|i: int, j: int|
            0 <= i < j < c@.len() ==> (#[trigger] c@[i]).id.0 != (#[trigger] c@[j]).id.0,
        c@.len() == 60,
{
    let mut v: Vec<Star> = Vec::new();
    push_named(&mut v, 1, "Sirius", 6752, -16716, -146);
    push_named(&mut v, 2, "Canopus", 6399, -52696, -74);
    push_named(&mut v, 3, "Arcturus", 14261, 19182, -5);
    push_named(&mut v, 4, "Vega", 18616, 38784, 3);
    push_named(&mut v, 5, "Capella", 5278, 45998, 8);
    push_named(&mut v, 6, "Rigel", 5242, -8202, 13);
    push_named(&mut v, 7, "Procyon", 7655, 5225, 34);
    push_named(&mut v, 8, "Achernar", 1629, -57237, 46);
    push_named(&mut v, 9, "Betelgeuse", 5919, 7407, 50);
    push_named(&mut v, 10, "Hadar", 14064, -60373, 61);
    push_named(&mut v, 11, "Altair", 19846, 8868, 76);
    push_named(&mut v, 12, "Acrux", 12443, -63099, 77);
    push_named(&mut v, 13, "Aldebaran", 4599, 16509, 86);
    push_named(&mut v, 14, "Spica", 13420, -11161, 97);
    push_named(&mut v, 15, "Antares", 16490, -26432, 109);
    push_named(&mut v, 16, "Pollux", 7755, 28026, 114);
    push_named(&mut v, 17, "Fomalhaut", 22961, -29622, 116);
    push_named(&mut v, 18, "Deneb", 20690, 45280, 125);
    push_named(&mut v, 19, "Mimosa", 12795, -59689, 125);
    push_named(&mut v, 20, "Regulus", 10139, 11967, 135);
    push_named(&mut v, 21, "Adhara", 6977, -28972, 150);
    push_named(&mut v, 22, "Castor", 7577, 31888, 157);
    push_named(&mut v, 23, "Shaula", 17560, -37104, 162);
    push_named(&mut v, 24, "Bellatrix", 5419, 6350, 164);
    push_named(&mut v, 25, "Elnath", 5438, 28608, 165);
    push_named(&mut v, 26, "Miaplacidus", 9220, -69717, 169);
    push_named(&mut v, 27, "Alnilam", 5604, -1202, 169);
    push_named(&mut v, 28, "Alnair", 22137, -46961, 174);
    push_named(&mut v, 29, "Alioth", 12900, 55960, 177);
    push_named(&mut v, 30, "Mirfak", 3405, 49861, 179);
    push_named(&mut v, 31, "Dubhe", 11062, 61751, 179);
    push_named(&mut v, 32, "Wezen", 7140, -26393, 183);
    push_named(&mut v, 33, "Alkaid", 13792, 49313, 186);
    push_named(&mut v, 34, "Sargas", 17622, -42998, 187);
    push_named(&mut v, 35, "Menkalinan", 5992, 44948, 190);
    push_named(&mut v, 36, "Alhena", 6629, 16399, 193);
    push_named(&mut v, 37, "Peacock", 20427, -56735, 194);
    push_named(&mut v, 38, "Polaris", 2530, 89264, 198);
    push_named(&mut v, 39, "Mirzam", 6378, -17956, 198);
    push_named(&mut v, 40, "Alphard", 9460, -8659, 200);
    push_named(&mut v, 41, "Hamal", 2120, 23463, 200);
    push_named(&mut v, 42, "Diphda", 726, -17987, 204);
    push_named(&mut v, 43, "Mizar", 13399, 54925, 204);
    push_named(&mut v, 44, "Nunki", 18921, -26297, 206);
    push_named(&mut v, 45, "Menkent", 14111, -36370, 206);
    push_named(&mut v, 46, "Alpheratz", 139, 29091, 206);
    push_unnamed(&mut v, 47, 1200, 15000, 420);
    push_unnamed(&mut v, 48, 3400, -22000, 445);
    push_unnamed(&mut v, 49, 5600, 60000, 470);
    push_unnamed(&mut v, 50, 7800, -45000, 495);
    push_unnamed(&mut v, 51, 10000, 5000, 520);
    push_unnamed(&mut v, 52, 12200, 33000, 545);
    push_unnamed(&mut v, 53, 14400, -8000, 560);
    push_unnamed(&mut v, 54, 16600, 72000, 580);
    push_unnamed(&mut v, 55, 18800, -60000, 600);
    push_unnamed(&mut v, 56, 21000, 25000, 615);
    push_unnamed(&mut v, 57, 23200, -35000, 630);
    push_unnamed(&mut v, 58, 2500, 48000, 520);
    push_unnamed(&mut v, 59, 9300, -70000, 495);
    push_unnamed(&mut v, 60, 20100, 10000, 470);
    StarCatalog::from_stars(v)
}

} // verus!
