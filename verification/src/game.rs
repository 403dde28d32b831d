//! The central data model: a scheduled game's kind and format, its
//! server-assignment state, and the connect-info grammar.

use vstd::prelude::*;

use crate::error::BotError;
use crate::ids::{dec_seq_value, is_dec_seq, OpponentUserId, ReservationId, RglMatchId, TeamGuildId};
use crate::maps::MapList;
use crate::text::{is_space, trim_seq, trim};

verus! {

/// The competitive format a game is played in.
#[derive(Clone, Copy, Debug, PartialEq, Eq, Hash, Structural)]
pub enum GameFormat {
    Sixes,
    Highlander,
}

/// The league's numeric identifier for a format.
pub open spec fn spec_rgl_format_id(f: GameFormat) -> int {
    match f {
        GameFormat::Sixes => 40,
        GameFormat::Highlander => 24,
    }
}

impl GameFormat {
    /// The league's numeric identifier for the format.
    pub fn rgl_id(self) -> (r: u8)
        ensures
            r == spec_rgl_format_id(self),
    {
        match self {
            GameFormat::Sixes => 40,
            GameFormat::Highlander => 24,
        }
    }

    /// The format's display name.
    pub fn name(self) -> (r: &'static str)
        ensures
            self is Sixes ==> r@ == "Sixes"@,
            self is Highlander ==> r@ == "Highlander"@,
    {
        match self {
            GameFormat::Sixes => "Sixes",
            GameFormat::Highlander => "Highlander",
        }
    }
}

/// Which of the two kinds of game this is.
#[derive(Clone, Copy, Debug, PartialEq, Eq, Hash, Structural)]
pub enum GameKind {
    Scrim,
    Match,
}

impl GameKind {
    /// The password namespace prefix for reservations of this kind.
    pub fn prefix(self) -> (r: &'static str)
        ensures
            self is Scrim ==> r@ == "scrim"@,
            self is Match ==> r@ == "match"@,
    {
        match self {
            GameKind::Scrim => "scrim",
            GameKind::Match => "match",
        }
    }

    /// The kind's display name.
    pub fn name(self) -> (r: &'static str)
        ensures
            self is Scrim ==> r@ == "Scrim"@,
            self is Match ==> r@ == "Match"@,
    {
        match self {
            GameKind::Scrim => "Scrim",
            GameKind::Match => "Match",
        }
    }

    /// How long a game of this kind lasts, in seconds (scrim: 1 hour,
    /// official match: 2 hours).
    pub fn duration_secs(self) -> (r: i64)
        ensures
            r == spec_duration_secs(self),
    {
        match self {
            GameKind::Scrim => 3600,
            GameKind::Match => 7200,
        }
    }
}

/// The fixed play duration of a game kind, in seconds.
pub open spec fn spec_duration_secs(k: GameKind) -> int {
    match k {
        GameKind::Scrim => 3600,
        GameKind::Match => 7200,
    }
}

/// Address and password for joining a game server.
#[derive(Clone, Debug, PartialEq, Eq)]
pub struct ConnectInfo {
    pub ip_and_port: String,
    pub password: String,
}

/// The index of the first position at or after `i` whose character is not
/// whitespace (or the end of the string).
pub open spec fn skip_spaces(s: Seq<char>, i: int) -> int
    decreases s.len() - i,
{
    if 0 <= i < s.len() && is_space(s[i]) {
        skip_spaces(s, i + 1)
    } else {
        i
    }
}

/// The index of the first occurrence of `c` at or after `i` (or the length
/// of the string).
pub open spec fn find_char(s: Seq<char>, c: char, i: int) -> int
    decreases s.len() - i,
{
    if i < 0 || i >= s.len() {
        s.len() as int
    } else if s[i] == c {
        i
    } else {
        find_char(s, c, i + 1)
    }
}

/// The end of the string once trailing whitespace before `j` is dropped.
pub open spec fn rtrim_end(s: Seq<char>, j: int) -> int
    decreases j,
{
    if 0 < j <= s.len() && is_space(s[j - 1]) {
        rtrim_end(s, j - 1)
    } else {
        j
    }
}

/// A token with one surrounding pair of double quotes removed, if present.
pub open spec fn unquote(x: Seq<char>) -> Seq<char> {
    if x.len() >= 2 && x[0] == '"' && x.last() == '"' {
        x.subrange(1, x.len() - 1)
    } else {
        x
    }
}

/// The connect-info grammar: `connect <addr>; password <pw>`, surrounded
/// by arbitrary whitespace, either token optionally double-quoted. Yields
/// the address and password, or nothing when the line has a different
/// shape.
pub open spec fn parse_connect_spec(s: Seq<char>) -> Option<(Seq<char>, Seq<char>)> {
    let t = trim_seq(s);
    if !(t.len() >= 8 && t.subrange(0, 7) == "connect"@ && is_space(t[7])) {
        Option::None
    } else {
        let p = skip_spaces(t, 7);
        let j = find_char(t, ';', p);
        let e = rtrim_end(t, j);
        if j >= t.len() || e <= p {
            Option::None
        } else {
            let ip_raw = t.subrange(p, e);
            let q = skip_spaces(t, j + 1);
            if !(q + 8 < t.len() && t.subrange(q, q + 8) == "password"@ && is_space(t[q + 8])) {
                Option::None
            } else {
                let p2 = skip_spaces(t, q + 8);
                if p2 >= t.len() {
                    Option::None
                } else {
                    let pw_raw = t.subrange(p2, t.len() as int);
                    Option::Some((unquote(ip_raw), unquote(pw_raw)))
                }
            }
        }
    }
}

impl ConnectInfo {
    /// The canonical `connect` console command for this server.
    pub fn connect_command(&self) -> (r: String)
        ensures
            r@ == "connect "@ + self.ip_and_port@ + "; password \""@ + self.password@ + "\""@,
    {
        let mut r = String::new();
        r.append("connect ");
        r.append(self.ip_and_port.as_str());
        r.append("; password \"");
        r.append(self.password.as_str());
        r.append("\"");
        r
    }

    /// The connect command wrapped in a chat code block.
    pub fn code_block(&self) -> (r: String)
        ensures
            r@ == "```\n"@ + "connect "@ + self.ip_and_port@ + "; password \""@ + self.password@
                + "\""@ + "\n```"@,
    {
        let mut r = String::new();
        r.append("```\n");
        let c = self.connect_command();
        r.append(c.as_str());
        r.append("\n```");
        r
    }

    /// Parses a typed connect line; accepts exactly the connect-info
    /// grammar.
    pub fn parse(s: &str) -> (r: Result<ConnectInfo, BotError>)
        ensures
            r is Ok <==> parse_connect_spec(s@) is Some,
            r is Ok ==> Option::Some((r->Ok_0.ip_and_port@, r->Ok_0.password@))
                == parse_connect_spec(s@),
            r is Err ==> r->Err_0 == BotError::InvalidConnectInfo,
    {
        proof {
            reveal_strlit("connect");
            reveal_strlit("password");
        }
        let t = trim(s);
        let n: usize = t.as_str().unicode_len();
        if !(n >= 8) {
            return Err(BotError::InvalidConnectInfo);
        }
        if !exec_match_word(t.as_str(), 0, "connect") {
            return Err(BotError::InvalidConnectInfo);
        }
        if !exec_is_space_at(t.as_str(), 7) {
            return Err(BotError::InvalidConnectInfo);
        }
        let p = exec_skip_spaces(t.as_str(), 7);
        let j = exec_find_char(t.as_str(), ';', p);
        let ip_end = exec_rtrim_end(t.as_str(), j);
        if j >= n || ip_end <= p {
            return Err(BotError::InvalidConnectInfo);
        }
        let q = exec_skip_spaces(t.as_str(), j + 1);
        if !(n - q > 8) {
            return Err(BotError::InvalidConnectInfo);
        }
        if !exec_match_word(t.as_str(), q, "password") {
            return Err(BotError::InvalidConnectInfo);
        }
        if !exec_is_space_at(t.as_str(), q + 8) {
            return Err(BotError::InvalidConnectInfo);
        }
        let p2 = exec_skip_spaces(t.as_str(), q + 8);
        if p2 >= n {
            return Err(BotError::InvalidConnectInfo);
        }
        let ip = exec_unquote_sub(t.as_str(), p, ip_end);
        let pw = exec_unquote_sub(t.as_str(), p2, n);
        Ok(ConnectInfo { ip_and_port: ip, password: pw })
    }
}

/// Whether the word occurs at position `at` of `s`.
fn exec_match_word(s: &str, at: usize, word: &str) -> (r: bool)
    requires
        at + word@.len() <= s@.len(),
        s@.len() <= usize::MAX,
    ensures
        r == (s@.subrange(at as int, at + word@.len()) == word@),
{
    crate::text::matches_at(s, word, at)
}

fn exec_skip_spaces(s: &str, from: usize) -> (r: usize)
    requires
        from <= s@.len(),
        s@.len() <= usize::MAX,
    ensures
        r == skip_spaces(s@, from as int),
        from <= r <= s@.len(),
{
    let n: usize = s.unicode_len();
    let mut i: usize = from;
    while i < n && exec_is_space_at(s, i)
        invariant
            n == s@.len(),
            from <= i <= n,
            skip_spaces(s@, from as int) == skip_spaces(s@, i as int),
        decreases n - i,
    {
        i = i + 1;
    }
    i
}

fn exec_is_space_at(s: &str, at: usize) -> (r: bool)
    requires
        at < s@.len(),
    ensures
        r == is_space(s@[at as int]),
{
    crate::text::exec_is_space(s.get_char(at))
}

fn exec_find_char(s: &str, c: char, from: usize) -> (r: usize)
    requires
        from <= s@.len(),
        s@.len() <= usize::MAX,
    ensures
        r == find_char(s@, c, from as int),
        from <= r <= s@.len(),
{
    let n: usize = s.unicode_len();
    let mut i: usize = from;
    while i < n && s.get_char(i) != c
        invariant
            n == s@.len(),
            from <= i <= n,
            find_char(s@, c, from as int) == find_char(s@, c, i as int),
        decreases n - i,
    {
        i = i + 1;
    }
    i
}

fn exec_rtrim_end(s: &str, j: usize) -> (r: usize)
    requires
        j <= s@.len(),
        s@.len() <= usize::MAX,
    ensures
        r == rtrim_end(s@, j as int),
        r <= j,
{
    let mut i: usize = j;
    while i > 0 && exec_is_space_at(s, i - 1)
        invariant
            j <= s@.len(),
            0 <= i <= j,
            rtrim_end(s@, j as int) == rtrim_end(s@, i as int),
        decreases i,
    {
        i = i - 1;
    }
    i
}

/// Copies `s[from..to]` into an owned string with one surrounding quote
/// pair removed.
fn exec_unquote_sub(s: &str, from: usize, to: usize) -> (r: String)
    requires
        from < to <= s@.len(),
        s@.len() <= usize::MAX,
    ensures
        r@ == unquote(s@.subrange(from as int, to as int)),
{
    let ghost raw = s@.subrange(from as int, to as int);
    let quoted = to - from >= 2 && s.get_char(from) == '"' && s.get_char(to - 1) == '"';
    let (lo, hi): (usize, usize) = if quoted {
        (from + 1, to - 1)
    } else {
        (from, to)
    };
    proof {
        if quoted {
            assert(raw.subrange(1, raw.len() - 1) =~= s@.subrange(lo as int, hi as int));
        } else {
            assert(raw =~= s@.subrange(lo as int, hi as int));
        }
    }
    let mut r: String = String::new();
    let mut i: usize = lo;
    while i < hi
        invariant
            lo <= i <= hi <= s@.len(),
            s@.len() <= usize::MAX,
            r@ == s@.subrange(lo as int, i as int),
        decreases hi - i,
    {
        crate::text::push_char(&mut r, s.get_char(i));
        proof {
            assert(s@.subrange(lo as int, i + 1) =~= s@.subrange(lo as int, i as int)
                + seq![s@[i as int]]);
        }
        i = i + 1;
    }
    proof {
        assert(r@ =~= unquote(raw));
    }
    r
}

/// How a game's play venue is provided: booked through the external
/// service, joined on the other party's server, or not decided yet.
#[derive(Clone, Debug, PartialEq, Eq)]
pub enum GameServer {
    Hosted(ReservationId),
    Joined(ConnectInfo),
    Undecided,
}

impl GameServer {
    /// Whether a booked reservation backs this game.
    pub fn is_hosted(&self) -> (r: bool)
        ensures
            r == (self is Hosted),
    {
        match self {
            GameServer::Hosted(_) => true,
            _ => false,
        }
    }

    /// Whether the other party hosts and we merely join.
    pub fn is_joined(&self) -> (r: bool)
        ensures
            r == (self is Joined),
    {
        match self {
            GameServer::Joined(_) => true,
            _ => false,
        }
    }

    /// The backing reservation id; hosted games have one, everything else
    /// is `GameNotHosted`.
    pub fn reservation_id(&self) -> (r: Result<ReservationId, BotError>)
        ensures
            self is Hosted <==> r is Ok,
            self is Hosted ==> r == Ok::<ReservationId, BotError>(self->Hosted_0),
            !(self is Hosted) ==> r == Err::<ReservationId, BotError>(BotError::GameNotHosted),
    {
        match self {
            GameServer::Hosted(id) => Ok(*id),
            _ => Err(BotError::GameNotHosted),
        }
    }

    /// Decodes the optional free-text game-server command option: absent
    /// means undecided, a decimal number is a reservation id, a connect
    /// line is an external server, anything else is rejected.
    pub fn parse_option(value: Option<&str>) -> (r: Result<GameServer, BotError>)
        ensures
            value is None ==> r == Ok::<GameServer, BotError>(GameServer::Undecided),
            value is Some && is_dec_seq(value->Some_0@) && dec_seq_value(value->Some_0@)
                <= i32::MAX ==> (r matches Ok(g) && g matches GameServer::Hosted(id) && id.0
                == dec_seq_value(value->Some_0@)),
            value is Some && !(is_dec_seq(value->Some_0@) && dec_seq_value(value->Some_0@)
                <= i32::MAX) && parse_connect_spec(value->Some_0@) is Some ==> (r matches Ok(g)
                && g matches GameServer::Joined(ci) && Option::Some((
                ci.ip_and_port@,
                ci.password@,
            )) == parse_connect_spec(value->Some_0@)),
            value is Some && !(is_dec_seq(value->Some_0@) && dec_seq_value(value->Some_0@)
                <= i32::MAX) && parse_connect_spec(value->Some_0@) is None ==> r == Err::<
                GameServer,
                BotError,
            >(BotError::InvalidGameServer),
    {
        match value {
            None => Ok(GameServer::Undecided),
            Some(s) => {
                match ReservationId::parse(s) {
                    Ok(id) => Ok(GameServer::Hosted(id)),
                    Err(_) => {
                        match ConnectInfo::parse(s) {
                            Ok(ci) => Ok(GameServer::Joined(ci)),
                            Err(_) => Err(BotError::InvalidGameServer),
                        }
                    },
                }
            },
        }
    }
}

/// The chat code block shown for a game's connect info; an unassigned or
/// unfetched server shows a placeholder instead.
pub fn connect_block(conn: Option<&ConnectInfo>) -> (r: String)
    ensures
        conn is None ==> r@ == "```\nNo connect info\n```"@,
        conn matches Some(ci) ==> r@ == "```\n"@ + "connect "@ + ci.ip_and_port@
            + "; password \""@ + ci.password@ + "\""@ + "\n```"@,
{
    match conn {
        None => {
            let mut r = String::new();
            r.append("```\nNo connect info\n```");
            r
        },
        Some(ci) => ci.code_block(),
    }
}

} // verus!

use vstd::prelude::*;

verus! {

/// The details of an informal practice game.
#[derive(Clone, Debug, PartialEq, Eq)]
pub struct Scrim {
    pub opponent_user_id: OpponentUserId,
    pub game_format: GameFormat,
    pub maps: MapList,
}

/// The details of an official league match; format, opponent and maps are
/// derived from the league record, never stored.
#[derive(Clone, Debug, PartialEq, Eq)]
pub struct Match {
    pub rgl_match_id: RglMatchId,
}

/// A game's kind-specific details: exactly one of the two shapes.
#[derive(Clone, Debug, PartialEq, Eq)]
pub enum ScrimOrMatch {
    Scrim(Scrim),
    Match(Match),
}

impl ScrimOrMatch {
    /// Which kind of game these details describe.
    pub fn kind(&self) -> (r: GameKind)
        ensures
            r == spec_kind(self),
    {
        match self {
            ScrimOrMatch::Scrim(_) => GameKind::Scrim,
            ScrimOrMatch::Match(_) => GameKind::Match,
        }
    }
}

/// The kind of game a details value describes.
pub open spec fn spec_kind(d: &ScrimOrMatch) -> GameKind {
    match d {
        ScrimOrMatch::Scrim(_) => GameKind::Scrim,
        ScrimOrMatch::Match(_) => GameKind::Match,
    }
}

/// A stored game row, as the relational store hands it over: identity
/// columns plus the nullable columns both sum types are flattened into.
#[derive(Clone, Debug, PartialEq, Eq)]
pub struct GameRow {
    pub guild_id: TeamGuildId,
    pub timestamp: i64,
    pub reservation_id: Option<ReservationId>,
    pub connect_info: Option<ConnectInfo>,
    pub opponent_user_id: Option<OpponentUserId>,
    pub game_format: Option<GameFormat>,
    pub maps: Option<MapList>,
    pub rgl_match_id: Option<RglMatchId>,
}

/// A decoded game: identity, server assignment and details.
#[derive(Clone, Debug, PartialEq, Eq)]
pub struct Game {
    pub guild_id: TeamGuildId,
    pub timestamp: i64,
    pub server: GameServer,
    pub details: ScrimOrMatch,
}

/// Decodes the server-assignment columns: reservation id alone is hosted,
/// connect info alone is joined, neither is undecided, both is corrupt.
pub open spec fn decode_server(
    reservation_id: Option<ReservationId>,
    connect_info: Option<ConnectInfo>,
) -> Option<GameServer> {
    match (reservation_id, connect_info) {
        (Option::Some(id), Option::None) => Option::Some(GameServer::Hosted(id)),
        (Option::None, Option::Some(ci)) => Option::Some(GameServer::Joined(ci)),
        (Option::None, Option::None) => Option::Some(GameServer::Undecided),
        (Option::Some(_), Option::Some(_)) => Option::None,
    }
}

/// Decodes the details columns: the scrim triple alone, or the match id
/// alone; every other combination is corrupt.
pub open spec fn decode_details(
    opponent_user_id: Option<OpponentUserId>,
    game_format: Option<GameFormat>,
    maps: Option<MapList>,
    rgl_match_id: Option<RglMatchId>,
) -> Option<ScrimOrMatch> {
    match (opponent_user_id, game_format, maps, rgl_match_id) {
        (Option::Some(o), Option::Some(f), Option::Some(m), Option::None) => Option::Some(
            ScrimOrMatch::Scrim(Scrim { opponent_user_id: o, game_format: f, maps: m }),
        ),
        (Option::None, Option::None, Option::None, Option::Some(id)) => Option::Some(
            ScrimOrMatch::Match(Match { rgl_match_id: id }),
        ),
        _ => Option::None,
    }
}

/// Decodes a whole row into a game, or nothing when the row is corrupt.
pub open spec fn decode_row(row: GameRow) -> Option<Game> {
    match (
        decode_server(row.reservation_id, row.connect_info),
        decode_details(row.opponent_user_id, row.game_format, row.maps, row.rgl_match_id),
    ) {
        (Option::Some(server), Option::Some(details)) => Option::Some(
            Game { guild_id: row.guild_id, timestamp: row.timestamp, server, details },
        ),
        _ => Option::None,
    }
}

/// Encodes a game back into its row shape.
pub open spec fn encode_game(g: Game) -> GameRow {
    let (reservation_id, connect_info) = match g.server {
        GameServer::Hosted(id) => (Option::Some(id), Option::<ConnectInfo>::None),
        GameServer::Joined(ci) => (Option::None, Option::Some(ci)),
        GameServer::Undecided => (Option::None, Option::None),
    };
    let (opponent_user_id, game_format, maps, rgl_match_id) = match g.details {
        ScrimOrMatch::Scrim(s) => (
            Option::Some(s.opponent_user_id),
            Option::Some(s.game_format),
            Option::Some(s.maps),
            Option::<RglMatchId>::None,
        ),
        ScrimOrMatch::Match(m) => (
            Option::None,
            Option::None,
            Option::None,
            Option::Some(m.rgl_match_id),
        ),
    };
    GameRow {
        guild_id: g.guild_id,
        timestamp: g.timestamp,
        reservation_id,
        connect_info,
        opponent_user_id,
        game_format,
        maps,
        rgl_match_id,
    }
}

/// Decoding a row and re-encoding the result reproduces the row, and
/// encoding any game yields a row that decodes back to that game: the
/// nullable-column representation and the sum types carry exactly the
/// same information.
pub proof fn lemma_row_codec_round_trip(row: GameRow, g: Game)
    ensures
        decode_row(row) matches Some(d) ==> encode_game(d) == row,
        decode_row(encode_game(g)) == Some(g),
{
}

impl Game {
    /// Decodes a stored row; a row matching neither or both shapes of
    /// either sum type is a corrupt-state error.
    pub fn from_row(row: GameRow) -> (r: Result<Game, BotError>)
        ensures
            r is Ok <==> decode_row(row) is Some,
            r is Ok ==> Option::Some(r->Ok_0) == decode_row(row),
            r is Err ==> r->Err_0 == BotError::InvalidGameDetails,
    {
        let GameRow {
            guild_id,
            timestamp,
            reservation_id,
            connect_info,
            opponent_user_id,
            game_format,
            maps,
            rgl_match_id,
        } = row;
        let server = match (reservation_id, connect_info) {
            (Some(id), None) => GameServer::Hosted(id),
            (None, Some(ci)) => GameServer::Joined(ci),
            (None, None) => GameServer::Undecided,
            (Some(_), Some(_)) => {
                return Err(BotError::InvalidGameDetails);
            },
        };
        let details = match (opponent_user_id, game_format, maps, rgl_match_id) {
            (Some(o), Some(f), Some(m), None) => ScrimOrMatch::Scrim(
                Scrim { opponent_user_id: o, game_format: f, maps: m },
            ),
            (None, None, None, Some(id)) => ScrimOrMatch::Match(Match { rgl_match_id: id }),
            _ => {
                return Err(BotError::InvalidGameDetails);
            },
        };
        Ok(Game { guild_id, timestamp, server, details })
    }

    /// Encodes the game for storage.
    pub fn to_row(self) -> (r: GameRow)
        ensures
            r == encode_game(self),
    {
        let Game { guild_id, timestamp, server, details } = self;
        let (reservation_id, connect_info) = match server {
            GameServer::Hosted(id) => (Some(id), None),
            GameServer::Joined(ci) => (None, Some(ci)),
            GameServer::Undecided => (None, None),
        };
        let (opponent_user_id, game_format, maps, rgl_match_id) = match details {
            ScrimOrMatch::Scrim(s) => (
                Some(s.opponent_user_id),
                Some(s.game_format),
                Some(s.maps),
                None,
            ),
            ScrimOrMatch::Match(m) => (None, None, None, Some(m.rgl_match_id)),
        };
        GameRow {
            guild_id,
            timestamp,
            reservation_id,
            connect_info,
            opponent_user_id,
            game_format,
            maps,
            rgl_match_id,
        }
    }

    /// Which kind of game this is.
    pub fn kind(&self) -> (r: GameKind)
        ensures
            r == spec_kind(&self.details),
    {
        self.details.kind()
    }

    /// The booking window sent to the reservation service: a quarter hour
    /// before the start until a quarter hour after the game's fixed
    /// duration ends.
    pub fn start_end_times(&self) -> (r: (i64, i64))
        requires
            0 <= self.timestamp <= crate::timeet::max_calendar_ts(),
        ensures
            r.0 == spec_window_start(spec_kind(&self.details), self.timestamp as int),
            r.1 == spec_window_end(spec_kind(&self.details), self.timestamp as int),
    {
        let d = self.kind().duration_secs();
        (self.timestamp - 900, self.timestamp + d + 900)
    }
}

/// The start of the booking window for a game of a kind at a time.
pub open spec fn spec_window_start(k: GameKind, ts: int) -> int {
    ts - 900
}

/// The end of the booking window for a game of a kind at a time.
pub open spec fn spec_window_end(k: GameKind, ts: int) -> int {
    ts + spec_duration_secs(k) + 900
}

} // verus!
