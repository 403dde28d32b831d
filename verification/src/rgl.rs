//! The league-data model: matches, teams, seasons and player profiles as
//! plain values, with the opponent-resolution rule and profile rendering.
//! Fetching these records is network work done outside the library; one
//! trusted wrapper extracts the Steam profile link from a league page.

use vstd::prelude::*;

use scraper::{Html, Selector};

use crate::error::BotError;
use crate::game::GameFormat;
use crate::ids::{dec_seq_value, is_dec_seq, DivisionId, RglMatchId, RglTeamId, SeasonId, SteamId};
use crate::maps::GameMap;
use crate::strfmt::dec_digits;

verus! {

/// One side of an official match.
#[derive(Clone, Debug, PartialEq, Eq)]
pub struct RglMatchTeam {
    pub team_name: String,
    pub team_id: RglTeamId,
}

/// One map of an official match.
#[derive(Clone, Debug, PartialEq, Eq)]
pub struct RglMatchMap {
    pub map_name: GameMap,
}

/// The two sides of an official match.
#[derive(Clone, Debug)]
pub struct RglMatchTeams(pub RglMatchTeam, pub RglMatchTeam);

/// An official match record from the league.
#[derive(Clone, Debug)]
pub struct RglMatch {
    pub match_id: RglMatchId,
    pub season_id: SeasonId,
    pub match_date: i64,
    pub match_name: String,
    pub teams: RglMatchTeams,
    pub maps: Vec<RglMatchMap>,
}

impl RglMatch {
    /// The opposing side of the match, given our own league team: the
    /// other entry of the pair. A match that does not list our team on
    /// exactly one side is `TeamNotInMatch`.
    pub fn opponent_team(&self, team_id: RglTeamId) -> (r: Result<&RglMatchTeam, BotError>)
        ensures
            r is Ok <==> (self.teams.0.team_id == team_id) != (self.teams.1.team_id == team_id),
            self.teams.0.team_id == team_id && self.teams.1.team_id != team_id ==> (r matches Ok(t)
                && *t == self.teams.1),
            self.teams.0.team_id != team_id && self.teams.1.team_id == team_id ==> (r matches Ok(t)
                && *t == self.teams.0),
            r is Err ==> r->Err_0 == BotError::TeamNotInMatch,
    {
        let first = self.teams.0.team_id.0 == team_id.0;
        let second = self.teams.1.team_id.0 == team_id.0;
        match (first, second) {
            (true, false) => Ok(&self.teams.1),
            (false, true) => Ok(&self.teams.0),
            _ => Err(BotError::TeamNotInMatch),
        }
    }

    /// The match's map names, as a playable list.
    pub fn map_list(&self) -> (r: crate::maps::MapList)
        ensures
            r.0@.len() == self.maps@.len(),
            forall|i: int| 0 <= i < r.0@.len() ==> (#[trigger] r.0@[i]).0@ == self.maps@[i].map_name.0@,
    {
        let n: usize = self.maps.len();
        let mut v: Vec<GameMap> = Vec::new();
        let mut i: usize = 0;
        while i < n
            invariant
                n == self.maps@.len(),
                0 <= i <= n,
                v@.len() == i,
                forall|k: int| 0 <= k < i ==> (#[trigger] v@[k]).0@ == self.maps@[k].map_name.0@,
            decreases n - i,
        {
            v.push(GameMap(self.maps[i].map_name.0.clone()));
            i = i + 1;
        }
        crate::maps::MapList(v)
    }
}

/// A league team record: all the scheduler needs is its current season.
#[derive(Clone, Copy, Debug, PartialEq, Eq, Structural)]
pub struct RglTeam {
    pub season_id: SeasonId,
}

/// A league season record: names the format the season is played in.
#[derive(Clone, Copy, Debug, PartialEq, Eq, Structural)]
pub struct RglSeason {
    pub format_name: GameFormat,
}

/// A player's roster entry in one format.
#[derive(Clone, Debug, PartialEq, Eq)]
pub struct RglProfileTeam {
    pub id: RglTeamId,
    pub name: String,
    pub division_id: DivisionId,
    pub division_name: String,
}

impl RglProfileTeam {
    /// The roster entry rendered for an embed field:
    /// `[team](team-url) - [division](division-url)`, with the league's
    /// `RGL-` prefix stripped from the division name.
    pub fn embed_field_body(&self) -> (r: String)
        ensures
            r@ == "["@ + self.name@ + "]("@ + "https://rgl.gg/Public/Team.aspx?t="@
                + crate::strfmt::int_digits(self.id.0 as int) + ") - ["@ + strip_rgl_prefix(
                self.division_name@,
            ) + "]("@ + "https://rgl.gg/Public/LeagueTable?g="@ + crate::strfmt::int_digits(
                self.division_id.0 as int,
            ) + ")"@,
    {
        proof {
            reveal_strlit("RGL-");
        }
        let mut r = String::new();
        r.append("[");
        r.append(self.name.as_str());
        r.append("](");
        let tu = self.id.url();
        r.append(tu.as_str());
        r.append(") - [");
        let stripped = if crate::text::starts_with(self.division_name.as_str(), "RGL-") {
            let n: usize = self.division_name.as_str().unicode_len();
            strip_front(self.division_name.as_str(), 4, n)
        } else {
            self.division_name.clone()
        };
        r.append(stripped.as_str());
        r.append("](");
        let du = self.division_id.url();
        r.append(du.as_str());
        r.append(")");
        r
    }
}

/// A division name with the league's `RGL-` prefix stripped, if present.
pub open spec fn strip_rgl_prefix(name: Seq<char>) -> Seq<char> {
    if "RGL-"@.is_prefix_of(name) {
        name.subrange(4, name.len() as int)
    } else {
        name
    }
}

fn strip_front(s: &str, from: usize, n: usize) -> (r: String)
    requires
        from <= n,
        n == s@.len(),
        s@.len() <= usize::MAX,
    ensures
        r@ == s@.subrange(from as int, n as int),
{
    let mut r = String::new();
    let mut i: usize = from;
    while i < n
        invariant
            from <= i <= n,
            n == s@.len(),
            r@ == s@.subrange(from as int, i as int),
        decreases n - i,
    {
        crate::text::push_char(&mut r, s.get_char(i));
        proof {
            assert(s@.subrange(from as int, i + 1) =~= s@.subrange(from as int, i as int)
                + seq![s@[i as int]]);
        }
        i = i + 1;
    }
    r
}

/// A player's current rosters.
#[derive(Clone, Debug, PartialEq, Eq)]
pub struct RglProfileTeams {
    pub sixes: Option<RglProfileTeam>,
    pub highlander: Option<RglProfileTeam>,
}

/// A league player profile.
#[derive(Clone, Debug, PartialEq, Eq)]
pub struct RglProfile {
    pub steam_id: SteamId,
    pub avatar: String,
    pub name: String,
    pub current_teams: RglProfileTeams,
}

impl RglProfile {
    /// The profile page URL, narrowed to one format's league when a
    /// format is given.
    pub fn url(&self, game_format: Option<GameFormat>) -> (r: String)
        ensures
            game_format is None ==> r@ == "https://rgl.gg/Public/PlayerProfile.aspx?p="@
                + dec_digits(self.steam_id.0 as nat),
            game_format matches Some(f) ==> r@ == "https://rgl.gg/Public/PlayerProfile.aspx?p="@
                + dec_digits(self.steam_id.0 as nat) + "&r="@ + dec_digits(
                crate::game::spec_rgl_format_id(f) as nat,
            ),
    {
        let base = self.steam_id.rgl_url();
        match game_format {
            None => base,
            Some(f) => {
                let mut r = base;
                r.append("&r=");
                let d = crate::strfmt::u64_string(f.rgl_id() as u64);
                r.append(d.as_str());
                proof {
                    match f {
                        GameFormat::Sixes => {},
                        GameFormat::Highlander => {},
                    }
                }
                r
            },
        }
    }
}

/// The Steam profile href found in a league player page, if any. Opaque:
/// known only through `steam_profile_href`.
pub uninterp spec fn steam_href_of(html: Seq<char>) -> Option<Seq<char>>;

/// Relies on scraper's `Html::parse_document` and `Selector::parse`: the
/// extracted href is a pure function of the page text — the href of the
/// page's Steam-profile anchor, when one is present.
#[verifier::external_body]
pub fn steam_profile_href(html: &str) -> (r: Option<String>)
    ensures
        r is Some <==> steam_href_of(html@) is Some,
        r matches Some(s) ==> Option::Some(s@) == steam_href_of(html@),
{
    let selector = Selector::parse(
        "a#ContentPlaceHolder1_ContentPlaceHolder1_ContentPlaceHolder1_hlSteamProfile",
    ).ok()?;
    let document = Html::parse_document(html);
    let element = document.select(&selector).next()?;
    element.value().attr("href").map(|s| s.to_owned())
}

/// Reads the Steam id out of a profile href: the decimal number after the
/// last slash; a href without a slash holds no id.
pub fn steam_id_from_href(href: &str) -> (r: Option<SteamId>)
    ensures
        crate::text::rfind_slash(href@) < 0 ==> r is None,
        crate::text::rfind_slash(href@) >= 0 ==> ({
            let tail = href@.subrange(crate::text::rfind_slash(href@) + 1, href@.len() as int);
            &&& (r is Some <==> is_dec_seq(tail) && dec_seq_value(tail) <= u64::MAX)
            &&& (r matches Some(id) ==> id.0 == dec_seq_value(tail))
        }),
{
    let n: usize = href.unicode_len();
    match crate::text::exec_rfind_slash(href) {
        None => None,
        Some(cut) => {
            proof {
                lemma_rfind_slash_bound(href@);
            }
            match parse_decimal_u64_range(href, cut + 1, n) {
                Some(v) => Some(SteamId(v)),
                None => None,
            }
        },
    }
}

proof fn lemma_rfind_slash_bound(s: Seq<char>)
    ensures
        crate::text::rfind_slash(s) < s.len(),
    decreases s.len(),
{
    if s.len() > 0 && s.last() != '/' {
        lemma_rfind_slash_bound(s.drop_last());
    }
}

fn parse_decimal_u64_range(s: &str, from: usize, to: usize) -> (r: Option<u64>)
    requires
        from <= to,
        to == s@.len(),
        s@.len() <= usize::MAX,
    ensures
        ({
            let tail = s@.subrange(from as int, to as int);
            &&& (r is Some <==> is_dec_seq(tail) && dec_seq_value(tail) <= u64::MAX)
            &&& (r matches Some(v) ==> v == dec_seq_value(tail))
        }),
{
    let ghost tail = s@.subrange(from as int, to as int);
    if from == to {
        return None;
    }
    let mut i: usize = from;
    while i < to
        invariant
            from <= i <= to,
            to == s@.len(),
            s@.len() <= usize::MAX,
            tail == s@.subrange(from as int, to as int),
            forall|j: int| 0 <= j < i - from ==> crate::text::is_digit(#[trigger] tail[j]),
        decreases to - i,
    {
        let c = s.get_char(i);
        if !('0' <= c && c <= '9') {
            proof {
                assert(tail[i - from] == s@[i as int]);
            }
            return None;
        }
        proof {
            assert(tail[i - from] == s@[i as int]);
        }
        i = i + 1;
    }
    let mut acc: u64 = 0;
    let mut k: usize = from;
    while k < to
        invariant
            from <= k <= to,
            to == s@.len(),
            s@.len() <= usize::MAX,
            tail == s@.subrange(from as int, to as int),
            from < to,
            forall|j: int| 0 <= j < tail.len() ==> crate::text::is_digit(#[trigger] tail[j]),
            acc == dec_seq_value(tail.subrange(0, k - from)),
        decreases to - k,
    {
        let c = s.get_char(k);
        proof {
            assert(tail[k - from] == s@[k as int]);
            assert(crate::text::is_digit(s@[k as int]));
            assert(tail.subrange(0, k - from + 1).drop_last() =~= tail.subrange(0, k - from));
        }
        let d: u64 = (c as u32) as u64 - 48;
        if acc > 1844674407370955161u64 || (acc == 1844674407370955161u64 && d > 5) {
            proof {
                assert(dec_seq_value(tail.subrange(0, k - from + 1)) == acc * 10 + d);
                crate::ids::lemma_dec_prefix_mono(tail, k - from + 1);
                assert(dec_seq_value(tail) > u64::MAX);
            }
            return None;
        }
        acc = acc * 10 + d;
        k = k + 1;
    }
    proof {
        assert(tail.subrange(0, to - from) =~= tail);
    }
    Some(acc)
}

} // verus!
