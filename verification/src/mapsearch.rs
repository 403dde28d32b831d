//! Map disambiguation: completing a partially typed, separator-delimited
//! map list. Official maps are completed per slot — every catalog map
//! matching each typed slot, combined across slots — while maps that are
//! merely installed on the service only complete the token being typed.

use vstd::prelude::*;

use crate::game::GameFormat;
use crate::maps::{catalog_for, catalog_names, GameMap, MapList, map_names};
use crate::strfmt::{join_seqs, join_strings};
use crate::text::{contains_seq, lower_seq};

verus! {

/// An autocomplete choice: the label shown and the value submitted.
#[derive(Clone, Debug, PartialEq, Eq)]
pub struct Choice {
    pub label: String,
    pub value: String,
}

/// The catalog maps whose lower-cased name contains the lower-cased
/// token, in catalog order.
pub open spec fn filter_catalog(cat: Seq<Seq<char>>, token: Seq<char>, k: int) -> Seq<Seq<char>>
    decreases cat.len() - k,
{
    if k < 0 || k >= cat.len() {
        Seq::empty()
    } else {
        (if contains_seq(lower_seq(cat[k]), lower_seq(token)) {
            seq![cat[k]]
        } else {
            Seq::empty()
        }) + filter_catalog(cat, token, k + 1)
    }
}

/// One combination extended by every option in turn.
pub open spec fn row_ext(a: Seq<Seq<char>>, opts: Seq<Seq<char>>, j: int) -> Seq<Seq<Seq<char>>>
    decreases opts.len() - j,
{
    if j < 0 || j >= opts.len() {
        Seq::empty()
    } else {
        seq![a.push(opts[j])] + row_ext(a, opts, j + 1)
    }
}

/// Every combination extended by every option: earlier slots vary
/// slowest.
pub open spec fn ext_prod(acc: Seq<Seq<Seq<char>>>, opts: Seq<Seq<char>>, i: int) -> Seq<
    Seq<Seq<char>>,
>
    decreases acc.len() - i,
{
    if i < 0 || i >= acc.len() {
        Seq::empty()
    } else {
        row_ext(acc[i], opts, 0) + ext_prod(acc, opts, i + 1)
    }
}

/// The cartesian product of the per-slot candidate sets for the first `k`
/// typed slots.
pub open spec fn prod_upto(cat: Seq<Seq<char>>, typed: Seq<Seq<char>>, k: int) -> Seq<
    Seq<Seq<char>>,
>
    decreases k,
{
    if k <= 0 {
        seq![Seq::<Seq<char>>::empty()]
    } else {
        ext_prod(prod_upto(cat, typed, k - 1), filter_catalog(cat, typed[k - 1], 0), 0)
    }
}

/// All officially-valid map tuples consistent with what was typed: each
/// typed slot independently filters the official catalog, and the
/// per-slot candidate sets combine in slot order. An empty typed list
/// yields no combinations.
pub open spec fn official_product(cat: Seq<Seq<char>>, typed: Seq<Seq<char>>) -> Seq<
    Seq<Seq<char>>,
> {
    if typed.len() == 0 {
        Seq::empty()
    } else {
        prod_upto(cat, typed, typed.len() as int)
    }
}

/// The completions offered from the service's map pool: the already-typed
/// slots pass through unfiltered, and the pool filters by the token being
/// typed.
pub open spec fn unofficial_completions(
    prefix: Seq<Seq<char>>,
    last: Seq<char>,
    pool: Seq<Seq<char>>,
    k: int,
) -> Seq<Seq<Seq<char>>>
    decreases pool.len() - k,
{
    if k < 0 || k >= pool.len() {
        Seq::empty()
    } else {
        (if contains_seq(lower_seq(pool[k]), lower_seq(last)) {
            seq![prefix.push(pool[k])]
        } else {
            Seq::empty()
        }) + unofficial_completions(prefix, last, pool, k + 1)
    }
}

/// The view of a list of combinations: each row's map names.
pub open spec fn rows_view(rows: Seq<Vec<GameMap>>) -> Seq<Seq<Seq<char>>> {
    rows.map_values(|v: Vec<GameMap>| map_names(v@))
}

/// The candidate map lists offered for a typed query, before the cap of
/// 25: singletons of the whole pool for an empty query; otherwise the
/// official combinations followed by the unofficial completions, each
/// further extended by every map when the query ends in a separator.
pub open spec fn candidate_lists(
    cat: Seq<Seq<char>>,
    pool: Seq<Seq<char>>,
    typed: Seq<Seq<char>>,
    trailing_sep: bool,
) -> Seq<Seq<Seq<char>>> {
    let all = cat + pool;
    if typed.len() == 0 {
        all.map_values(|n: Seq<char>| seq![n])
    } else {
        let base = official_product(cat, typed) + unofficial_completions(
            typed.drop_last(),
            typed.last(),
            pool,
            0,
        );
        if trailing_sep {
            ext_prod(base, all, 0)
        } else {
            base
        }
    }
}

/// The official catalog plus the maps merely installed on the booking
/// service, for one format.
#[derive(Clone, Debug)]
pub struct AllMaps {
    pub official: Vec<GameMap>,
    pub unofficial: Vec<GameMap>,
}

/// The service maps that are not in the catalog, in service order.
pub open spec fn filter_pool(pool: Seq<Seq<char>>, cat: Seq<Seq<char>>, k: int) -> Seq<Seq<char>>
    decreases pool.len() - k,
{
    if k < 0 || k >= pool.len() {
        Seq::empty()
    } else {
        (if cat.contains(pool[k]) {
            Seq::empty()
        } else {
            seq![pool[k]]
        }) + filter_pool(pool, cat, k + 1)
    }
}

fn clone_map(m: &GameMap) -> (r: GameMap)
    ensures
        r.0@ == m.0@,
{
    GameMap(m.0.clone())
}

fn clone_row(v: &Vec<GameMap>) -> (r: Vec<GameMap>)
    ensures
        map_names(r@) == map_names(v@),
        r@.len() == v@.len(),
        forall|k: int| 0 <= k < v@.len() ==> (#[trigger] r@[k]).0@ == v@[k].0@,
{
    let n: usize = v.len();
    let mut r: Vec<GameMap> = Vec::new();
    let mut i: usize = 0;
    while i < n
        invariant
            n == v@.len(),
            0 <= i <= n,
            r@.len() == i,
            forall|k: int| 0 <= k < i ==> (#[trigger] r@[k]).0@ == v@[k].0@,
        decreases n - i,
    {
        r.push(clone_map(&v[i]));
        i = i + 1;
    }
    proof {
        assert(map_names(r@) =~~= map_names(v@));
    }
    r
}

impl AllMaps {
    /// Builds the pool for a format: the official catalog, and the
    /// service's maps with the official ones removed.
    pub fn new(format: Option<GameFormat>, service_maps: &Vec<GameMap>) -> (r: AllMaps)
        ensures
            map_names(r.official@) == catalog_names(catalog_for(format)),
            map_names(r.unofficial@) == filter_pool(
                map_names(service_maps@),
                catalog_names(catalog_for(format)),
                0,
            ),
    {
        let cat = crate::maps::official_maps(format);
        let nc: usize = cat.len();
        let mut official: Vec<GameMap> = Vec::new();
        let mut i: usize = 0;
        while i < nc
            invariant
                nc == cat@.len(),
                0 <= i <= nc,
                nc == catalog_for(format).len(),
                forall|k: int|
                    0 <= k < nc ==> (#[trigger] cat@[k]).0.0@ == catalog_for(format)[k].0,
                official@.len() == i,
                forall|k: int|
                    0 <= k < i ==> (#[trigger] official@[k]).0@ == catalog_for(format)[k].0,
            decreases nc - i,
        {
            official.push(clone_map(&cat[i].0));
            i = i + 1;
        }
        proof {
            assert(map_names(official@) =~~= catalog_names(catalog_for(format)));
        }
        let ghost catv = map_names(official@);
        let np: usize = service_maps.len();
        let mut unofficial: Vec<GameMap> = Vec::new();
        let mut j: usize = 0;
        while j < np
            invariant
                np == service_maps@.len(),
                0 <= j <= np,
                catv == map_names(official@),
                official@.len() == catalog_for(format).len(),
                forall|k: int|
                    0 <= k < official@.len() ==> (#[trigger] official@[k]).0@ == catalog_for(
                        format,
                    )[k].0,
                map_names(unofficial@) + filter_pool(
                    map_names(service_maps@),
                    catv,
                    j as int,
                ) =~~= filter_pool(map_names(service_maps@), catv, 0),
            decreases np - j,
        {
            let mut in_cat = false;
            let mut k: usize = 0;
            let m: usize = official.len();
            while k < m
                invariant
                    m == official@.len(),
                    0 <= k <= m,
                    catv == map_names(official@),
                    np == service_maps@.len(),
                    j < np,
                    in_cat ==> catv.contains(map_names(service_maps@)[j as int]),
                    !in_cat ==> forall|x: int|
                        0 <= x < k ==> catv[x] != map_names(service_maps@)[j as int],
                decreases m - k,
            {
                if crate::text::str_eq(official[k].0.as_str(), service_maps[j].0.as_str()) {
                    in_cat = true;
                    proof {
                        assert(catv[k as int] == map_names(service_maps@)[j as int]);
                    }
                }
                k = k + 1;
            }
            let ghost pool = map_names(service_maps@);
            proof {
                if !in_cat {
                    if catv.contains(pool[j as int]) {
                        let w = choose|w: int| 0 <= w < catv.len() && catv[w] == pool[j as int];
                    }
                }
                assert(in_cat == catv.contains(pool[j as int]));
            }
            if !in_cat {
                unofficial.push(clone_map(&service_maps[j]));
            }
            proof {
                assert(map_names(unofficial@) + filter_pool(pool, catv, j + 1) =~~= filter_pool(
                    pool,
                    catv,
                    0,
                ));
            }
            j = j + 1;
        }
        proof {
            assert(filter_pool(map_names(service_maps@), catv, np as int)
                =~~= Seq::<Seq<char>>::empty());
            assert(map_names(unofficial@) =~~= filter_pool(map_names(service_maps@), catv, 0));
        }
        AllMaps { official, unofficial }
    }

    /// Every map of the pool: the catalog first, then the service's
    /// additions.
    pub fn iter(&self) -> (r: Vec<GameMap>)
        ensures
            map_names(r@) == map_names(self.official@) + map_names(self.unofficial@),
    {
        let mut r = clone_row(&self.official);
        let no: usize = self.official.len();
        proof {
            assert(r@.len() == no);
            assert forall|k: int| 0 <= k < no implies (#[trigger] r@[k]).0@
                == self.official@[k].0@ by {
                assert(map_names(r@)[k] == map_names(self.official@)[k]);
            }
        }
        let n: usize = self.unofficial.len();
        let mut i: usize = 0;
        while i < n
            invariant
                n == self.unofficial@.len(),
                no == self.official@.len(),
                0 <= i <= n,
                r@.len() == no + i,
                forall|k: int| 0 <= k < no ==> (#[trigger] r@[k]).0@ == self.official@[k].0@,
                forall|k: int|
                    no <= k < no + i ==> (#[trigger] r@[k]).0@ == self.unofficial@[k - no].0@,
            decreases n - i,
        {
            r.push(clone_map(&self.unofficial[i]));
            i = i + 1;
        }
        proof {
            assert(map_names(r@) =~~= map_names(self.official@) + map_names(self.unofficial@));
        }
        r
    }

    /// The catalog maps containing the token, case-insensitively.
    fn filter_official(&self, token: &GameMap) -> (r: Vec<GameMap>)
        ensures
            map_names(r@) == filter_catalog(map_names(self.official@), token.0@, 0),
    {
        let n: usize = self.official.len();
        let mut r: Vec<GameMap> = Vec::new();
        let tl = crate::text::to_lowercase(token.0.as_str());
        let mut i: usize = 0;
        while i < n
            invariant
                n == self.official@.len(),
                0 <= i <= n,
                tl@ == lower_seq(token.0@),
                map_names(r@) + filter_catalog(map_names(self.official@), token.0@, i as int)
                    =~~= filter_catalog(map_names(self.official@), token.0@, 0),
            decreases n - i,
        {
            let nl = crate::text::to_lowercase(self.official[i].0.as_str());
            if crate::text::contains(nl.as_str(), tl.as_str()) {
                r.push(clone_map(&self.official[i]));
            }
            i = i + 1;
        }
        proof {
            assert(filter_catalog(map_names(self.official@), token.0@, n as int)
                =~~= Seq::<Seq<char>>::empty());
            assert(map_names(r@) =~~= filter_catalog(map_names(self.official@), token.0@, 0));
        }
        r
    }

    /// All officially-valid combinations consistent with the typed slots:
    /// the cartesian product of the per-slot catalog candidates,
    /// preserving slot order.
    pub fn official_autocomplete_choices(&self, maps: &MapList) -> (r: Vec<Vec<GameMap>>)
        ensures
            rows_view(r@) == official_product(map_names(self.official@), map_names(maps.0@)),
    {
        let n: usize = maps.0.len();
        if n == 0 {
            let r: Vec<Vec<GameMap>> = Vec::new();
            proof {
                assert(rows_view(r@) =~~= official_product(
                    map_names(self.official@),
                    map_names(maps.0@),
                ));
            }
            return r;
        }
        let mut acc: Vec<Vec<GameMap>> = Vec::new();
        acc.push(Vec::new());
        proof {
            assert(rows_view(acc@) =~~= prod_upto(
                map_names(self.official@),
                map_names(maps.0@),
                0,
            ));
        }
        let mut s: usize = 0;
        while s < n
            invariant
                n == maps.0@.len(),
                0 <= s <= n,
                rows_view(acc@) =~~= prod_upto(
                    map_names(self.official@),
                    map_names(maps.0@),
                    s as int,
                ),
            decreases n - s,
        {
            let opts = self.filter_official(&maps.0[s]);
            acc = extend_rows(&acc, &opts);
            proof {
                assert(map_names(maps.0@)[s as int] == maps.0@[s as int].0@);
                assert(rows_view(acc@) =~~= prod_upto(
                    map_names(self.official@),
                    map_names(maps.0@),
                    s + 1,
                ));
            }
            s = s + 1;
        }
        acc
    }

    /// The completions built from the service's map pool: the typed slots
    /// pass through, the last (partial) token filters the pool.
    pub fn unofficial_autocomplete_choices(&self, maps: &MapList) -> (r: Vec<Vec<GameMap>>)
        requires
            maps.0@.len() > 0,
        ensures
            rows_view(r@) == unofficial_completions(
                map_names(maps.0@).drop_last(),
                map_names(maps.0@).last(),
                map_names(self.unofficial@),
                0,
            ),
    {
        let n: usize = maps.0.len();
        let mut prefix: Vec<GameMap> = Vec::new();
        let mut i: usize = 0;
        while i < n - 1
            invariant
                n == maps.0@.len(),
                n > 0,
                0 <= i <= n - 1,
                prefix@.len() == i,
                forall|k: int| 0 <= k < i ==> (#[trigger] prefix@[k]).0@ == maps.0@[k].0@,
            decreases n - 1 - i,
        {
            prefix.push(clone_map(&maps.0[i]));
            i = i + 1;
        }
        proof {
            assert(map_names(prefix@) =~~= map_names(maps.0@).drop_last());
        }
        let ghost pv = map_names(prefix@);
        let last = clone_map(&maps.0[n - 1]);
        proof {
            assert(last.0@ == map_names(maps.0@).last());
        }
        let ll = crate::text::to_lowercase(last.0.as_str());
        let np: usize = self.unofficial.len();
        let mut r: Vec<Vec<GameMap>> = Vec::new();
        let mut j: usize = 0;
        while j < np
            invariant
                np == self.unofficial@.len(),
                0 <= j <= np,
                pv == map_names(prefix@),
                prefix@.len() + 1 == maps.0@.len(),
                ll@ == lower_seq(last.0@),
                last.0@ == map_names(maps.0@).last(),
                pv == map_names(maps.0@).drop_last(),
                rows_view(r@) + unofficial_completions(
                    pv,
                    last.0@,
                    map_names(self.unofficial@),
                    j as int,
                ) =~~= unofficial_completions(
                    pv,
                    last.0@,
                    map_names(self.unofficial@),
                    0,
                ),
            decreases np - j,
        {
            let nl = crate::text::to_lowercase(self.unofficial[j].0.as_str());
            if crate::text::contains(nl.as_str(), ll.as_str()) {
                let mut row = clone_row(&prefix);
                row.push(clone_map(&self.unofficial[j]));
                proof {
                    assert(map_names(row@) =~~= pv.push(
                        map_names(self.unofficial@)[j as int],
                    ));
                }
                r.push(row);
            }
            j = j + 1;
        }
        proof {
            assert(unofficial_completions(pv, last.0@, map_names(self.unofficial@), np as int)
                =~~= Seq::<Seq<Seq<char>>>::empty());
            assert(rows_view(r@) =~~= unofficial_completions(
                pv,
                last.0@,
                map_names(self.unofficial@),
                0,
            ));
        }
        r
    }

    /// The autocomplete choices for a typed map list: every still-open
    /// slot is offered a completion, officially-valid tuples first, at
    /// most 25 in all.
    pub fn autocomplete_choices(&self, maps: &MapList, trailing_sep: bool) -> (r: Vec<Choice>)
        ensures
            ({
                let cands = candidate_lists(
                    map_names(self.official@),
                    map_names(self.unofficial@),
                    map_names(maps.0@),
                    trailing_sep,
                );
                &&& r@.len() == if cands.len() <= 25 {
                    cands.len() as int
                } else {
                    25
                }
                &&& forall|k: int|
                    0 <= k < r@.len() ==> (#[trigger] r@[k]).label@ == join_seqs(cands[k], ", "@)
                        && r@[k].value@ == join_seqs(cands[k], ","@)
            }),
    {
        let rows: Vec<Vec<GameMap>> = if maps.0.len() == 0 {
            let all = self.iter();
            let na: usize = all.len();
            let mut rows: Vec<Vec<GameMap>> = Vec::new();
            let mut i: usize = 0;
            while i < na
                invariant
                    na == all@.len(),
                    0 <= i <= na,
                    rows@.len() == i,
                    forall|k: int|
                        0 <= k < i ==> map_names((#[trigger] rows@[k])@) =~= seq![all@[k].0@],
                decreases na - i,
            {
                let mut row: Vec<GameMap> = Vec::new();
                row.push(clone_map(&all[i]));
                rows.push(row);
                i = i + 1;
            }
            proof {
                let cands = candidate_lists(
                    map_names(self.official@),
                    map_names(self.unofficial@),
                    map_names(maps.0@),
                    trailing_sep,
                );
                assert(rows_view(rows@) =~~= cands);
            }
            rows
        } else {
            let mut base = self.official_autocomplete_choices(maps);
            let unoff = self.unofficial_autocomplete_choices(maps);
            let nu: usize = unoff.len();
            let nb: usize = base.len();
            let ghost base0 = rows_view(base@);
            proof {
                assert(base0.len() == nb);
                assert forall|k: int| 0 <= k < nb implies map_names(
                    (#[trigger] base@[k])@,
                ) == base0[k] by {
                    assert(rows_view(base@)[k] == map_names(base@[k]@));
                }
            }
            let mut i: usize = 0;
            while i < nu
                invariant
                    nu == unoff@.len(),
                    nb == base0.len(),
                    0 <= i <= nu,
                    base@.len() == nb + i,
                    forall|k: int| 0 <= k < nb ==> map_names((#[trigger] base@[k])@) == base0[k],
                    forall|k: int|
                        nb <= k < nb + i ==> map_names((#[trigger] base@[k])@) == map_names(
                            unoff@[k - nb]@,
                        ),
                decreases nu - i,
            {
                base.push(clone_row(&unoff[i]));
                i = i + 1;
            }
            proof {
                assert(rows_view(base@) =~~= base0 + rows_view(unoff@));
            }
            if trailing_sep {
                let all = self.iter();
                let ext = extend_rows(&base, &all);
                proof {
                    let cands = candidate_lists(
                        map_names(self.official@),
                        map_names(self.unofficial@),
                        map_names(maps.0@),
                        trailing_sep,
                    );
                    assert(rows_view(ext@) =~~= cands);
                }
                ext
            } else {
                proof {
                    let cands = candidate_lists(
                        map_names(self.official@),
                        map_names(self.unofficial@),
                        map_names(maps.0@),
                        trailing_sep,
                    );
                    assert(rows_view(base@) =~~= cands);
                }
                base
            }
        };
        let ghost candv = rows_view(rows@);
        let cap: usize = if rows.len() > 25 {
            25
        } else {
            rows.len()
        };
        let mut r: Vec<Choice> = Vec::new();
        let mut k: usize = 0;
        while k < cap
            invariant
                cap <= rows@.len(),
                candv == rows_view(rows@),
                0 <= k <= cap,
                r@.len() == k,
                forall|x: int|
                    0 <= x < k ==> (#[trigger] r@[x]).label@ == join_seqs(candv[x], ", "@)
                        && r@[x].value@ == join_seqs(candv[x], ","@),
            decreases cap - k,
        {
            let c = choice_of(&rows[k]);
            proof {
                assert(map_names(rows@[k as int]@) == candv[k as int]);
            }
            r.push(c);
            k = k + 1;
        }
        r
    }
}

/// Extends every combination by every option, earlier combinations
/// first, options in pool order.
fn extend_rows(acc: &Vec<Vec<GameMap>>, opts: &Vec<GameMap>) -> (r: Vec<Vec<GameMap>>)
    ensures
        rows_view(r@) == ext_prod(rows_view(acc@), map_names(opts@), 0),
{
    let na: usize = acc.len();
    let no: usize = opts.len();
    let mut r: Vec<Vec<GameMap>> = Vec::new();
    let mut i: usize = 0;
    while i < na
        invariant
            na == acc@.len(),
            no == opts@.len(),
            0 <= i <= na,
            rows_view(r@) + ext_prod(rows_view(acc@), map_names(opts@), i as int) =~~= ext_prod(
                rows_view(acc@),
                map_names(opts@),
                0,
            ),
        decreases na - i,
    {
        let mut j: usize = 0;
        while j < no
            invariant
                na == acc@.len(),
                no == opts@.len(),
                0 <= i < na,
                0 <= j <= no,
                rows_view(r@) + row_ext(
                    map_names(acc@[i as int]@),
                    map_names(opts@),
                    j as int,
                ) + ext_prod(rows_view(acc@), map_names(opts@), i + 1) =~~= ext_prod(
                    rows_view(acc@),
                    map_names(opts@),
                    0,
                ),
            decreases no - j,
        {
            let mut row = clone_row(&acc[i]);
            row.push(clone_map(&opts[j]));
            proof {
                assert(map_names(row@) =~~= map_names(acc@[i as int]@).push(
                    map_names(opts@)[j as int],
                ));
            }
            r.push(row);
            j = j + 1;
        }
        i = i + 1;
    }
    proof {
        assert(ext_prod(rows_view(acc@), map_names(opts@), na as int)
            =~~= Seq::<Seq<Seq<char>>>::empty());
        assert(rows_view(r@) =~~= ext_prod(rows_view(acc@), map_names(opts@), 0));
    }
    r
}

/// Renders one combination as a choice: names comma-space-joined for the
/// label, comma-joined for the submitted value.
fn choice_of(row: &Vec<GameMap>) -> (r: Choice)
    ensures
        r.label@ == join_seqs(map_names(row@), ", "@),
        r.value@ == join_seqs(map_names(row@), ","@),
{
    let n: usize = row.len();
    let mut parts: Vec<String> = Vec::new();
    let mut i: usize = 0;
    while i < n
        invariant
            n == row@.len(),
            0 <= i <= n,
            parts@.len() == i,
            forall|k: int| 0 <= k < i ==> (#[trigger] parts@[k])@ == row@[k].0@,
        decreases n - i,
    {
        parts.push(row[i].0.clone());
        i = i + 1;
    }
    proof {
        assert(parts@.map_values(|p: String| p@) =~~= map_names(row@));
    }
    let label = join_strings(&parts, ", ");
    let value = join_strings(&parts, ",");
    Choice { label, value }
}

} // verus!
