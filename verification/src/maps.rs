//! The map catalog: map names, the official per-format catalogs, the
//! kind-and-format server configurations used when booking, and the
//! map-list grammar typed by users.

use vstd::prelude::*;

use crate::game::{GameFormat, GameKind};
use crate::strfmt::join_seqs;
use crate::text::{is_space, starts_with, str_eq};

verus! {

/// A map, by its file name (e.g. `cp_process_f12`).
#[derive(Clone, Debug, PartialEq, Eq)]
pub struct GameMap(pub String);

/// A named server configuration preset on the booking service.
#[derive(Clone, Debug, PartialEq, Eq)]
pub struct ServerConfig {
    pub name: String,
    pub id: u32,
}

impl ServerConfig {
    /// Builds a configuration from its service name and numeric id.
    pub fn new(name: &str, id: u32) -> (r: ServerConfig)
        ensures
            r.name@ == name@,
            r.id == id,
    {
        ServerConfig { name: name.to_owned(), id }
    }
}

/// The official sixes catalog, sorted by map name: `(name, title)` pairs.
pub open spec fn sixes_catalog() -> Seq<(Seq<char>, Seq<char>)> {
    seq![
        ("cp_granary_pro_rc8"@, "Granary"@),
        ("cp_gullywash_f9"@, "Gullywash"@),
        ("cp_metalworks_f5"@, "Metalworks"@),
        ("cp_process_f12"@, "Process"@),
        ("cp_snakewater_final1"@, "Snakewater"@),
        ("cp_sultry_b8a"@, "Sultry"@),
        ("cp_sunshine"@, "Sunshine"@),
        ("koth_bagel_rc10"@, "Bagel"@),
        ("koth_clearcut_b17"@, "Clearcut"@),
        ("koth_product_final"@, "Product"@),
    ]
}

/// The official highlander catalog, sorted by map name.
pub open spec fn hl_catalog() -> Seq<(Seq<char>, Seq<char>)> {
    seq![
        ("cp_steel_f12"@, "Steel"@),
        ("koth_ashville_final1"@, "Ashville"@),
        ("koth_lakeside_f5"@, "Lakeside"@),
        ("koth_product_final"@, "Product"@),
        ("pl_swiftwater_final1"@, "Swiftwater"@),
        ("pl_upward_f12"@, "Upward"@),
        ("pl_vigil_rc10"@, "Vigil"@),
    ]
}

/// Both official catalogs merged and de-duplicated, sorted by map name.
pub open spec fn all_catalog() -> Seq<(Seq<char>, Seq<char>)> {
    seq![
        ("cp_granary_pro_rc8"@, "Granary"@),
        ("cp_gullywash_f9"@, "Gullywash"@),
        ("cp_metalworks_f5"@, "Metalworks"@),
        ("cp_process_f12"@, "Process"@),
        ("cp_snakewater_final1"@, "Snakewater"@),
        ("cp_steel_f12"@, "Steel"@),
        ("cp_sultry_b8a"@, "Sultry"@),
        ("cp_sunshine"@, "Sunshine"@),
        ("koth_ashville_final1"@, "Ashville"@),
        ("koth_bagel_rc10"@, "Bagel"@),
        ("koth_clearcut_b17"@, "Clearcut"@),
        ("koth_lakeside_f5"@, "Lakeside"@),
        ("koth_product_final"@, "Product"@),
        ("pl_swiftwater_final1"@, "Swiftwater"@),
        ("pl_upward_f12"@, "Upward"@),
        ("pl_vigil_rc10"@, "Vigil"@),
    ]
}

/// The catalog that applies when a format is (or is not) known.
pub open spec fn catalog_for(format: Option<GameFormat>) -> Seq<(Seq<char>, Seq<char>)> {
    match format {
        Option::Some(GameFormat::Sixes) => sixes_catalog(),
        Option::Some(GameFormat::Highlander) => hl_catalog(),
        Option::None => all_catalog(),
    }
}

/// The names of a catalog's maps, in catalog order.
pub open spec fn catalog_names(cat: Seq<(Seq<char>, Seq<char>)>) -> Seq<Seq<char>> {
    cat.map_values(|e: (Seq<char>, Seq<char>)| e.0)
}

/// The title recorded for a name in a catalog, if any.
pub open spec fn catalog_lookup(cat: Seq<(Seq<char>, Seq<char>)>, name: Seq<char>) -> Option<
    Seq<char>,
>
    decreases cat.len(),
{
    if cat.len() == 0 {
        Option::None
    } else if cat[0].0 == name {
        Option::Some(cat[0].1)
    } else {
        catalog_lookup(cat.drop_first(), name)
    }
}

/// The booking-service configuration for a map under a game kind and
/// format, decided by the map-name prefix; `None` means the booking
/// proceeds without a preset.
pub open spec fn map_config_spec(name: Seq<char>, kind: GameKind, format: GameFormat) -> Option<
    (Seq<char>, u32),
> {
    let cp = "cp_"@.is_prefix_of(name);
    let koth = "koth_"@.is_prefix_of(name);
    let pl = "pl_"@.is_prefix_of(name);
    match (kind, format) {
        (GameKind::Scrim, GameFormat::Sixes) => if cp {
            Option::Some(("rgl_6s_5cp_scrim"@, 69u32))
        } else if koth {
            Option::Some(("rgl_6s_koth_scrim"@, 113u32))
        } else {
            Option::None
        },
        (GameKind::Scrim, GameFormat::Highlander) => if pl || cp {
            Option::Some(("rgl_HL_stopwatch"@, 55u32))
        } else if koth {
            Option::Some(("rgl_HL_koth_bo5"@, 54u32))
        } else {
            Option::None
        },
        (GameKind::Match, GameFormat::Sixes) => if cp {
            Option::Some(("rgl_6s_5cp_match_pro"@, 109u32))
        } else if koth {
            Option::Some(("rgl_6s_koth_pro"@, 110u32))
        } else {
            Option::None
        },
        (GameKind::Match, GameFormat::Highlander) => if pl || cp {
            Option::Some(("rgl_HL_stopwatch"@, 55u32))
        } else if koth {
            Option::Some(("rgl_HL_koth"@, 53u32))
        } else {
            Option::None
        },
    }
}

impl GameMap {
    /// Wraps a map name.
    pub fn new(s: &str) -> (r: GameMap)
        ensures
            r.0@ == s@,
    {
        GameMap(s.to_owned())
    }

    /// The map's name.
    pub fn as_str(&self) -> (r: &str)
        ensures
            r@ == self.0@,
    {
        self.0.as_str()
    }

    /// The display title of an official map, or the raw name wrapped in
    /// backquotes for anything else.
    pub fn short_map_name(&self) -> (r: String)
        ensures
            r@ == match catalog_lookup(all_catalog(), self.0@) {
                Option::Some(t) => t,
                Option::None => "`"@ + self.0@ + "`"@,
            },
    {
        let cat = official_maps(None);
        let n: usize = cat.len();
        proof {
            assert(all_catalog().skip(0) =~= all_catalog());
        }
        let mut i: usize = 0;
        while i < n
            invariant
                n == cat@.len(),
                0 <= i <= n,
                forall|k: int|
                    0 <= k < n ==> (#[trigger] cat@[k]).0.0@ == all_catalog()[k].0
                        && cat@[k].1@ == all_catalog()[k].1,
                n == all_catalog().len(),
                catalog_lookup(all_catalog(), self.0@) == catalog_lookup(
                    all_catalog().skip(i as int),
                    self.0@,
                ),
            decreases n - i,
        {
            proof {
                assert(all_catalog().skip(i as int).drop_first() =~= all_catalog().skip(i + 1));
                assert(all_catalog().skip(i as int)[0] == all_catalog()[i as int]);
            }
            if str_eq(self.0.as_str(), cat[i].0.0.as_str()) {
                return cat[i].1.to_owned();
            }
            i = i + 1;
        }
        proof {
            assert(all_catalog().skip(n as int) =~= Seq::<(Seq<char>, Seq<char>)>::empty());
        }
        let mut r = String::new();
        r.append("`");
        r.append(self.0.as_str());
        r.append("`");
        r
    }

    /// The booking-service configuration preset for this map under a game
    /// kind and format.
    pub fn config(&self, kind: GameKind, format: GameFormat) -> (r: Option<ServerConfig>)
        ensures
            r is Some <==> map_config_spec(self.0@, kind, format) is Some,
            r matches Some(c) ==> map_config_spec(self.0@, kind, format) matches Some(e)
                && c.name@ == e.0 && c.id == e.1,
    {
        let cp = starts_with(self.0.as_str(), "cp_");
        let koth = starts_with(self.0.as_str(), "koth_");
        let pl = starts_with(self.0.as_str(), "pl_");
        match (kind, format) {
            (GameKind::Scrim, GameFormat::Sixes) => {
                if cp {
                    Some(ServerConfig::new("rgl_6s_5cp_scrim", 69))
                } else if koth {
                    Some(ServerConfig::new("rgl_6s_koth_scrim", 113))
                } else {
                    None
                }
            },
            (GameKind::Scrim, GameFormat::Highlander) => {
                if pl || cp {
                    Some(ServerConfig::new("rgl_HL_stopwatch", 55))
                } else if koth {
                    Some(ServerConfig::new("rgl_HL_koth_bo5", 54))
                } else {
                    None
                }
            },
            (GameKind::Match, GameFormat::Sixes) => {
                if cp {
                    Some(ServerConfig::new("rgl_6s_5cp_match_pro", 109))
                } else if koth {
                    Some(ServerConfig::new("rgl_6s_koth_pro", 110))
                } else {
                    None
                }
            },
            (GameKind::Match, GameFormat::Highlander) => {
                if pl || cp {
                    Some(ServerConfig::new("rgl_HL_stopwatch", 55))
                } else if koth {
                    Some(ServerConfig::new("rgl_HL_koth", 53))
                } else {
                    None
                }
            },
        }
    }

    /// Whether this map is in the official catalog for a format (or in
    /// either catalog, when no format is known).
    pub fn is_official(&self, format: Option<GameFormat>) -> (r: bool)
        ensures
            r == catalog_names(catalog_for(format)).contains(self.0@),
    {
        let cat = official_maps(format);
        let n: usize = cat.len();
        let mut i: usize = 0;
        while i < n
            invariant
                n == cat@.len(),
                0 <= i <= n,
                n == catalog_for(format).len(),
                forall|k: int|
                    0 <= k < n ==> (#[trigger] cat@[k]).0.0@ == catalog_for(format)[k].0,
                forall|k: int| 0 <= k < i ==> catalog_for(format)[k].0 != self.0@,
            decreases n - i,
        {
            if str_eq(self.0.as_str(), cat[i].0.0.as_str()) {
                proof {
                    assert(catalog_names(catalog_for(format))[i as int] == self.0@);
                }
                return true;
            }
            i = i + 1;
        }
        proof {
            if catalog_names(catalog_for(format)).contains(self.0@) {
                let k = choose|k: int|
                    0 <= k < catalog_names(catalog_for(format)).len() && catalog_names(
                        catalog_for(format),
                    )[k] == self.0@;
                assert(catalog_for(format)[k].0 == self.0@);
            }
        }
        false
    }
}

/// The official `(map, title)` catalog for a format, in catalog order.
pub fn official_maps(format: Option<GameFormat>) -> (r: Vec<(GameMap, &'static str)>)
    ensures
        r@.len() == catalog_for(format).len(),
        forall|k: int|
            0 <= k < r@.len() ==> (#[trigger] r@[k]).0.0@ == catalog_for(format)[k].0 && r@[k].1@
                == catalog_for(format)[k].1,
{
    let mut r: Vec<(GameMap, &'static str)> = Vec::new();
    match format {
        Some(GameFormat::Sixes) => {
            r.push((GameMap::new("cp_granary_pro_rc8"), "Granary"));
            r.push((GameMap::new("cp_gullywash_f9"), "Gullywash"));
            r.push((GameMap::new("cp_metalworks_f5"), "Metalworks"));
            r.push((GameMap::new("cp_process_f12"), "Process"));
            r.push((GameMap::new("cp_snakewater_final1"), "Snakewater"));
            r.push((GameMap::new("cp_sultry_b8a"), "Sultry"));
            r.push((GameMap::new("cp_sunshine"), "Sunshine"));
            r.push((GameMap::new("koth_bagel_rc10"), "Bagel"));
            r.push((GameMap::new("koth_clearcut_b17"), "Clearcut"));
            r.push((GameMap::new("koth_product_final"), "Product"));
        },
        Some(GameFormat::Highlander) => {
            r.push((GameMap::new("cp_steel_f12"), "Steel"));
            r.push((GameMap::new("koth_ashville_final1"), "Ashville"));
            r.push((GameMap::new("koth_lakeside_f5"), "Lakeside"));
            r.push((GameMap::new("koth_product_final"), "Product"));
            r.push((GameMap::new("pl_swiftwater_final1"), "Swiftwater"));
            r.push((GameMap::new("pl_upward_f12"), "Upward"));
            r.push((GameMap::new("pl_vigil_rc10"), "Vigil"));
        },
        None => {
            r.push((GameMap::new("cp_granary_pro_rc8"), "Granary"));
            r.push((GameMap::new("cp_gullywash_f9"), "Gullywash"));
            r.push((GameMap::new("cp_metalworks_f5"), "Metalworks"));
            r.push((GameMap::new("cp_process_f12"), "Process"));
            r.push((GameMap::new("cp_snakewater_final1"), "Snakewater"));
            r.push((GameMap::new("cp_steel_f12"), "Steel"));
            r.push((GameMap::new("cp_sultry_b8a"), "Sultry"));
            r.push((GameMap::new("cp_sunshine"), "Sunshine"));
            r.push((GameMap::new("koth_ashville_final1"), "Ashville"));
            r.push((GameMap::new("koth_bagel_rc10"), "Bagel"));
            r.push((GameMap::new("koth_clearcut_b17"), "Clearcut"));
            r.push((GameMap::new("koth_lakeside_f5"), "Lakeside"));
            r.push((GameMap::new("koth_product_final"), "Product"));
            r.push((GameMap::new("pl_swiftwater_final1"), "Swiftwater"));
            r.push((GameMap::new("pl_upward_f12"), "Upward"));
            r.push((GameMap::new("pl_vigil_rc10"), "Vigil"));
        },
    }
    r
}

/// A separator in a typed map list: whitespace, comma or slash.
pub open spec fn is_map_sep(c: char) -> bool {
    is_space(c) || c == ',' || c == '/'
}

/// The index of the first separator at or after `i`.
pub open spec fn find_sep(s: Seq<char>, i: int) -> int
    decreases s.len() - i,
{
    if i < 0 || i >= s.len() {
        s.len() as int
    } else if is_map_sep(s[i]) {
        i
    } else {
        find_sep(s, i + 1)
    }
}

proof fn lemma_find_sep_ge(s: Seq<char>, i: int)
    requires
        0 <= i <= s.len(),
    ensures
        i <= find_sep(s, i) <= s.len(),
    decreases s.len() - i,
{
    if i < s.len() && !is_map_sep(s[i]) {
        lemma_find_sep_ge(s, i + 1);
    }
}

/// The map names in a typed list from position `i` on: maximal runs of
/// non-separator characters.
pub open spec fn split_maps_from(s: Seq<char>, i: int) -> Seq<Seq<char>>
    decreases s.len() - i,
    via split_maps_from_dec
{
    if i < 0 || i >= s.len() {
        Seq::empty()
    } else if is_map_sep(s[i]) {
        split_maps_from(s, i + 1)
    } else {
        let j = find_sep(s, i);
        seq![s.subrange(i, j)] + split_maps_from(s, j)
    }
}

#[via_fn]
proof fn split_maps_from_dec(s: Seq<char>, i: int) {
    if 0 <= i < s.len() && !is_map_sep(s[i]) {
        lemma_find_sep_ge(s, i + 1);
    }
}

/// The map names in a typed list.
pub open spec fn split_maps(s: Seq<char>) -> Seq<Seq<char>> {
    split_maps_from(s, 0)
}

/// An ordered list of maps to play.
#[derive(Clone, Debug, PartialEq, Eq)]
pub struct MapList(pub Vec<GameMap>);

/// The names a map list holds, in order.
pub open spec fn map_names(l: Seq<GameMap>) -> Seq<Seq<char>> {
    l.map_values(|m: GameMap| m.0@)
}

impl MapList {
    /// The empty map list (maps not chosen yet).
    pub fn empty() -> (r: MapList)
        ensures
            r.0@.len() == 0,
    {
        MapList(Vec::new())
    }

    /// Parses a typed map list: names separated by whitespace, commas or
    /// slashes, empty tokens dropped. Never fails.
    pub fn parse(s: &str) -> (r: MapList)
        ensures
            map_names(r.0@) == split_maps(s@),
    {
        let n: usize = s.unicode_len();
        let mut r: Vec<GameMap> = Vec::new();
        let mut i: usize = 0;
        while i < n
            invariant
                n == s@.len(),
                0 <= i <= n,
                map_names(r@) + split_maps_from(s@, i as int) =~= split_maps(s@),
            decreases n - i,
        {
            if exec_is_map_sep(s.get_char(i)) {
                i = i + 1;
            } else {
                // scan to the end of the token
                let start = i;
                let mut j: usize = i;
                while j < n && !exec_is_map_sep(s.get_char(j))
                    invariant
                        n == s@.len(),
                        start <= j <= n,
                        find_sep(s@, start as int) == find_sep(s@, j as int),
                    decreases n - j,
                {
                    j = j + 1;
                }
                let mut tok = String::new();
                let mut k: usize = start;
                while k < j
                    invariant
                        start <= k <= j <= n,
                        n == s@.len(),
                        tok@ == s@.subrange(start as int, k as int),
                    decreases j - k,
                {
                    crate::text::push_char(&mut tok, s.get_char(k));
                    proof {
                        assert(s@.subrange(start as int, k + 1) =~= s@.subrange(
                            start as int,
                            k as int,
                        ) + seq![s@[k as int]]);
                    }
                    k = k + 1;
                }
                let ghost old_names = map_names(r@);
                r.push(GameMap(tok));
                proof {
                    assert(map_names(r@) =~= old_names + seq![s@.subrange(start as int, j as int)]);
                    assert(split_maps_from(s@, start as int) == seq![s@.subrange(
                        start as int,
                        j as int,
                    )] + split_maps_from(s@, j as int));
                    assert(map_names(r@) + split_maps_from(s@, j as int) =~= split_maps(s@));
                }
                i = j;
            }
        }
        MapList(r)
    }

    /// How many maps are listed.
    pub fn len(&self) -> (r: usize)
        ensures
            r == self.0@.len(),
    {
        self.0.len()
    }

    /// The first map's configuration for a kind and format: the map and
    /// its preset id when the name is recognized, and neither otherwise —
    /// an absent or unrecognized first map is not an error, the booking
    /// simply proceeds without a preset (and without a map).
    pub fn server_config(&self, kind: GameKind, format: GameFormat) -> (r: (
        Option<GameMap>,
        Option<u32>,
    ))
        ensures
            self.0@.len() == 0 ==> r == (Option::<GameMap>::None, Option::<u32>::None),
            self.0@.len() > 0 ==> (match map_config_spec(self.0@[0].0@, kind, format) {
                Option::Some(e) => r.0 matches Some(m) && m.0@ == self.0@[0].0@ && r.1
                    == Option::Some(e.1),
                Option::None => r == (Option::<GameMap>::None, Option::<u32>::None),
            }),
    {
        if self.0.len() == 0 {
            (None, None)
        } else {
            let m = GameMap(self.0[0].0.clone());
            match m.config(kind, format) {
                Some(c) => (Some(m), Some(c.id)),
                None => (None, None),
            }
        }
    }

    /// Renders the list for display: `Maps not set` when empty, the
    /// backquoted full names when `full`, the short display titles
    /// otherwise, comma-joined.
    pub fn list(&self, full: bool) -> (r: String)
        ensures
            self.0@.len() == 0 ==> r@ == "Maps not set"@,
            self.0@.len() > 0 && full ==> r@ == join_seqs(
                map_names(self.0@).map_values(|n: Seq<char>| "`"@ + n + "`"@),
                ", "@,
            ),
            self.0@.len() > 0 && !full ==> r@ == join_seqs(
                map_names(self.0@).map_values(
                    |n: Seq<char>|
                        match catalog_lookup(all_catalog(), n) {
                            Option::Some(t) => t,
                            Option::None => "`"@ + n + "`"@,
                        },
                ),
                ", "@,
            ),
    {
        if self.0.len() == 0 {
            let mut r = String::new();
            r.append("Maps not set");
            return r;
        }
        let n: usize = self.0.len();
        let mut parts: Vec<String> = Vec::new();
        let mut i: usize = 0;
        if full {
            while i < n
                invariant
                    n == self.0@.len(),
                    0 <= i <= n,
                    parts@.len() == i,
                    forall|k: int|
                        0 <= k < i ==> (#[trigger] parts@[k])@ == "`"@ + self.0@[k].0@ + "`"@,
                decreases n - i,
            {
                let mut p = String::new();
                p.append("`");
                p.append(self.0[i].0.as_str());
                p.append("`");
                proof {
                    assert(p@ =~= "`"@ + self.0@[i as int].0@ + "`"@);
                }
                parts.push(p);
                i = i + 1;
            }
            let r = crate::strfmt::join_strings(&parts, ", ");
            proof {
                assert(parts@.map_values(|p: String| p@) =~~= map_names(self.0@).map_values(
                    |n: Seq<char>| "`"@ + n + "`"@,
                ));
            }
            r
        } else {
            while i < n
                invariant
                    n == self.0@.len(),
                    0 <= i <= n,
                    parts@.len() == i,
                    forall|k: int|
                        0 <= k < i ==> (#[trigger] parts@[k])@ == match catalog_lookup(
                            all_catalog(),
                            self.0@[k].0@,
                        ) {
                            Option::Some(t) => t,
                            Option::None => "`"@ + self.0@[k].0@ + "`"@,
                        },
                decreases n - i,
            {
                let p = self.0[i].short_map_name();
                parts.push(p);
                i = i + 1;
            }
            let r = crate::strfmt::join_strings(&parts, ", ");
            proof {
                assert(parts@.map_values(|p: String| p@) =~~= map_names(self.0@).map_values(
                    |n: Seq<char>|
                        match catalog_lookup(all_catalog(), n) {
                            Option::Some(t) => t,
                            Option::None => "`"@ + n + "`"@,
                        },
                ));
            }
            r
        }
    }
}

fn exec_is_map_sep(c: char) -> (r: bool)
    ensures
        r == is_map_sep(c),
{
    c == ',' || c == '/' || crate::text::exec_is_space(c)
}

} // verus!

verus! {

/// Whether a typed map query ends in a separator — the signal that the
/// user finished a slot and wants completions for the next one.
pub fn ends_with_separator(q: &str) -> (r: bool)
    ensures
        r == (q@.len() > 0 && is_map_sep(q@.last())),
{
    let n: usize = q.unicode_len();
    if n == 0 {
        return false;
    }
    exec_is_map_sep(q.get_char(n - 1))
}

} // verus!
