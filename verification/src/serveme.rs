//! The booking-service side of the reservation lifecycle: the data the
//! service exchanges, the deterministic choice of a server, the namespaced
//! random credentials, and the create/edit request planning with the
//! grow-only window policy. The network calls themselves happen outside
//! the library; everything here is a pure function of its inputs.

use vstd::prelude::*;

use rand::distr::SampleString;

use crate::error::BotError;
use crate::game::{spec_duration_secs, spec_window_end, spec_window_start, ConnectInfo, GameFormat,
    GameKind};
use crate::ids::ReservationId;
use crate::maps::{map_config_spec, GameMap, MapList};
use crate::strfmt::dec_digits;
use crate::text::is_alphanumeric;

verus! {

/// The booking service's per-field validation errors, exactly as the
/// reservation envelope reports them: `(field, message)` pairs.
#[derive(Clone, Debug, PartialEq, Eq)]
pub struct ServemeError {
    pub fields: Vec<(String, String)>,
}

/// One field error rendered as `field: message`.
pub open spec fn field_error_seq(e: (String, String)) -> Seq<char> {
    e.0@ + ": "@ + e.1@
}

/// The user-facing rendering of the service's field errors.
pub open spec fn serveme_message_seq(fields: Seq<(String, String)>) -> Seq<char> {
    "na.serveme.tf error: "@ + crate::strfmt::join_seqs(
        fields.map_values(|e: (String, String)| field_error_seq(e)),
        ", "@,
    )
}

impl ServemeError {
    /// Renders the service's answer verbatim: every field with its
    /// message, comma-joined.
    pub fn message(&self) -> (r: String)
        ensures
            r@ == serveme_message_seq(self.fields@),
    {
        let n: usize = self.fields.len();
        let mut parts: Vec<String> = Vec::new();
        let mut i: usize = 0;
        while i < n
            invariant
                n == self.fields@.len(),
                0 <= i <= n,
                parts@.len() == i,
                forall|k: int|
                    0 <= k < i ==> (#[trigger] parts@[k])@ == field_error_seq(self.fields@[k]),
            decreases n - i,
        {
            let mut p = self.fields[i].0.clone();
            p.append(": ");
            p.append(self.fields[i].1.as_str());
            proof {
                assert(p@ =~= field_error_seq(self.fields@[i as int]));
            }
            parts.push(p);
            i = i + 1;
        }
        proof {
            assert(parts@.map_values(|p: String| p@) =~~= self.fields@.map_values(
                |e: (String, String)| field_error_seq(e),
            ));
        }
        let mut r = String::new();
        r.append("na.serveme.tf error: ");
        let joined = crate::strfmt::join_strings(&parts, ", ");
        r.append(joined.as_str());
        r
    }
}

/// A server offered by the booking service.
#[derive(Clone, Debug, PartialEq, Eq)]
pub struct Server {
    pub id: u32,
    pub ip: String,
    pub ip_and_port: String,
}

/// The booking service's answer to a find-servers query.
#[derive(Clone, Debug, PartialEq, Eq)]
pub struct FindServersResponse {
    pub servers: Vec<Server>,
}

/// The lifecycle state of a reservation, as the service reports it.
#[derive(Clone, Copy, Debug, PartialEq, Eq, Structural)]
pub enum ReservationStatus {
    WaitingToStart,
    Starting,
    ServerUpdating,
    Ready,
    SdrReady,
    Ending,
    Ended,
    Unknown,
}

impl ReservationStatus {
    /// Whether the server is joinable.
    pub fn is_ready(self) -> (r: bool)
        ensures
            r == (self is Ready || self is SdrReady),
    {
        match self {
            ReservationStatus::Ready | ReservationStatus::SdrReady => true,
            _ => false,
        }
    }

    /// Whether the reservation is over or ending: a terminal state.
    pub fn is_ended(self) -> (r: bool)
        ensures
            r == (self is Ending || self is Ended),
    {
        match self {
            ReservationStatus::Ending | ReservationStatus::Ended => true,
            _ => false,
        }
    }
}

/// A reservation as the service reports it.
#[derive(Clone, Debug, PartialEq, Eq)]
pub struct ReservationResponse {
    pub id: ReservationId,
    pub status: ReservationStatus,
    pub starts_at: i64,
    pub ends_at: i64,
    pub password: String,
    pub rcon: String,
    pub first_map: Option<GameMap>,
    pub tv_password: String,
    pub tv_port: u16,
    pub server_config_id: Option<u32>,
    pub server: Server,
}

impl ReservationResponse {
    /// The connect info players use.
    pub fn connect_info(&self) -> (r: ConnectInfo)
        ensures
            r.ip_and_port@ == self.server.ip_and_port@,
            r.password@ == self.password@,
    {
        ConnectInfo { ip_and_port: self.server.ip_and_port.clone(), password: self.password.clone() }
    }

    /// The connect info for the spectator relay.
    pub fn stv_connect_info(&self) -> (r: ConnectInfo)
        ensures
            r.ip_and_port@ == self.server.ip@ + ":"@ + dec_digits(self.tv_port as nat),
            r.password@ == self.tv_password@,
    {
        let mut addr = self.server.ip.clone();
        addr.append(":");
        let p = crate::strfmt::u64_string(self.tv_port as u64);
        addr.append(p.as_str());
        ConnectInfo { ip_and_port: addr, password: self.tv_password.clone() }
    }

    /// The remote-console line for operators.
    pub fn rcon_info(&self) -> (r: String)
        ensures
            r@ == "rcon_address "@ + self.server.ip_and_port@ + "; rcon_password \""@ + self.rcon@
                + "\""@,
    {
        let mut r = String::new();
        r.append("rcon_address ");
        r.append(self.server.ip_and_port.as_str());
        r.append("; rcon_password \"");
        r.append(self.rcon.as_str());
        r.append("\"");
        r
    }
}

/// A request to create a reservation.
#[derive(Clone, Debug, PartialEq, Eq)]
pub struct CreateReservationRequest {
    pub starts_at: i64,
    pub ends_at: i64,
    pub server_id: u32,
    pub password: String,
    pub rcon: String,
    pub first_map: Option<GameMap>,
    pub server_config_id: Option<u32>,
    pub enable_plugins: bool,
    pub enable_demos_tf: bool,
}

/// A request to edit a reservation; absent fields are left unchanged by
/// the service.
#[derive(Clone, Debug, PartialEq, Eq)]
pub struct EditReservationRequest {
    pub starts_at: Option<i64>,
    pub ends_at: Option<i64>,
    pub first_map: Option<GameMap>,
    pub server_config_id: Option<u32>,
}

impl EditReservationRequest {
    /// Whether the edit would change nothing; such an edit is skipped
    /// entirely, avoiding a pointless network call.
    pub fn is_empty(&self) -> (r: bool)
        ensures
            r == (self.starts_at is None && self.ends_at is None && self.first_map is None
                && self.server_config_id is None),
    {
        match (&self.starts_at, &self.ends_at, &self.first_map, &self.server_config_id) {
            (None, None, None, None) => true,
            _ => false,
        }
    }
}

/// Whether a server address is in one of the preferred regions.
pub open spec fn spec_preferred_server(addr: Seq<char>) -> bool {
    "chi"@.is_prefix_of(addr) || "ks"@.is_prefix_of(addr)
}

/// The index of the first preferred server in a list, if any.
pub open spec fn first_preferred(servers: Seq<Server>, i: int) -> Option<int>
    decreases servers.len() - i,
{
    if i < 0 || i >= servers.len() {
        Option::None
    } else if spec_preferred_server(servers[i].ip_and_port@) {
        Option::Some(i)
    } else {
        first_preferred(servers, i + 1)
    }
}

/// Picks the first offered server whose address begins with a preferred
/// region prefix; with no such server the booking fails.
pub fn choose_server(resp: &FindServersResponse) -> (r: Result<u32, BotError>)
    ensures
        r is Ok <==> first_preferred(resp.servers@, 0) is Some,
        r is Ok ==> (first_preferred(resp.servers@, 0) matches Some(i) && r->Ok_0
            == resp.servers@[i].id),
        r is Err ==> r->Err_0 == BotError::NoServemeServers,
{
    let n: usize = resp.servers.len();
    let mut i: usize = 0;
    while i < n
        invariant
            n == resp.servers@.len(),
            0 <= i <= n,
            first_preferred(resp.servers@, 0) == first_preferred(resp.servers@, i as int),
        decreases n - i,
    {
        let chi = crate::text::starts_with(resp.servers[i].ip_and_port.as_str(), "chi");
        let ks = crate::text::starts_with(resp.servers[i].ip_and_port.as_str(), "ks");
        if chi || ks {
            return Ok(resp.servers[i].id);
        }
        i = i + 1;
    }
    Err(BotError::NoServemeServers)
}

/// Relies on rand's `Alphanumeric` distribution: `sample_string` returns
/// exactly `len` ASCII alphanumeric characters, randomly drawn. The
/// global generator aborts the process if the system's entropy source is
/// unavailable at first use — an environmental failure, like running out
/// of memory, not a return.
#[verifier::external_body]
fn alphanumeric_string(len: usize) -> (r: String)
    ensures
        r@.len() == len,
        forall|i: int| 0 <= i < r@.len() ==> is_alphanumeric(#[trigger] r@[i]),
{
    rand::distr::Alphanumeric.sample_string(&mut rand::rng(), len)
}

/// The password prefix of a game kind, with the namespacing dot.
pub open spec fn spec_password_prefix(k: GameKind) -> Seq<char> {
    match k {
        GameKind::Scrim => "scrim."@,
        GameKind::Match => "match."@,
    }
}

/// A fresh join password, namespaced by the game kind so operators can
/// tell their reservations apart: `scrim.`/`match.` plus eight random
/// alphanumeric characters.
pub fn make_password(kind: GameKind) -> (r: String)
    ensures
        spec_password_prefix(kind).is_prefix_of(r@),
        r@.len() == spec_password_prefix(kind).len() + 8,
        forall|i: int|
            spec_password_prefix(kind).len() <= i < r@.len() ==> is_alphanumeric(#[trigger] r@[i]),
{
    let mut r = String::new();
    r.append(kind.prefix());
    r.append(".");
    let sfx = alphanumeric_string(8);
    r.append(sfx.as_str());
    proof {
        match kind {
            GameKind::Scrim => {
                reveal_strlit("scrim");
                reveal_strlit("scrim.");
                reveal_strlit(".");
                assert(spec_password_prefix(kind) =~= "scrim"@ + "."@);
            },
            GameKind::Match => {
                reveal_strlit("match");
                reveal_strlit("match.");
                reveal_strlit(".");
                assert(spec_password_prefix(kind) =~= "match"@ + "."@);
            },
        }
        assert(spec_password_prefix(kind).is_prefix_of(r@)) by {
            assert(r@.subrange(0, spec_password_prefix(kind).len() as int) =~= spec_password_prefix(
                kind,
            ));
        }
    }
    r
}

/// The remote-console password prefix of a game kind.
pub open spec fn spec_rcon_prefix(k: GameKind) -> Seq<char> {
    match k {
        GameKind::Scrim => "scrim.rcon."@,
        GameKind::Match => "match.rcon."@,
    }
}

/// A fresh remote-console password: `scrim.rcon.`/`match.rcon.` plus 32
/// random alphanumeric characters.
pub fn make_rcon_password(kind: GameKind) -> (r: String)
    ensures
        spec_rcon_prefix(kind).is_prefix_of(r@),
        r@.len() == spec_rcon_prefix(kind).len() + 32,
        forall|i: int|
            spec_rcon_prefix(kind).len() <= i < r@.len() ==> is_alphanumeric(#[trigger] r@[i]),
{
    let mut r = String::new();
    r.append(kind.prefix());
    r.append(".rcon.");
    let sfx = alphanumeric_string(32);
    r.append(sfx.as_str());
    proof {
        match kind {
            GameKind::Scrim => {
                reveal_strlit("scrim");
                reveal_strlit("scrim.rcon.");
                reveal_strlit(".rcon.");
                assert(spec_rcon_prefix(kind) =~= "scrim"@ + ".rcon."@);
            },
            GameKind::Match => {
                reveal_strlit("match");
                reveal_strlit("match.rcon.");
                reveal_strlit(".rcon.");
                assert(spec_rcon_prefix(kind) =~= "match"@ + ".rcon."@);
            },
        }
        assert(spec_rcon_prefix(kind).is_prefix_of(r@)) by {
            assert(r@.subrange(0, spec_rcon_prefix(kind).len() as int) =~= spec_rcon_prefix(kind));
        }
    }
    r
}

/// The first-map configuration a map list resolves to: the first map's
/// name with its preset id when the name is recognized for the kind and
/// format, and neither otherwise — an absent or unrecognized first map
/// sends no map and no preset at all.
pub open spec fn spec_first_map_config(maps: Seq<GameMap>, kind: GameKind, format: GameFormat) -> (
    Option<Seq<char>>,
    Option<u32>,
) {
    if maps.len() == 0 {
        (Option::None, Option::None)
    } else {
        match map_config_spec(maps[0].0@, kind, format) {
            Option::Some(e) => (Option::Some(maps[0].0@), Option::Some(e.1)),
            Option::None => (Option::None, Option::None),
        }
    }
}

/// Plans the creation of a reservation for a game: the booking window,
/// the first preferred server, namespaced random credentials, the first
/// map's preset, and plugins and demo recording switched on. Fails only
/// when no preferred server is offered.
pub fn plan_create_reservation(
    kind: GameKind,
    format: GameFormat,
    maps: &MapList,
    timestamp: i64,
    resp: &FindServersResponse,
) -> (r: Result<CreateReservationRequest, BotError>)
    requires
        0 <= timestamp <= crate::timeet::max_calendar_ts(),
    ensures
        r is Ok <==> first_preferred(resp.servers@, 0) is Some,
        r is Err ==> r->Err_0 == BotError::NoServemeServers,
        r matches Ok(req) ==> {
            &&& req.starts_at == spec_window_start(kind, timestamp as int)
            &&& req.ends_at == spec_window_end(kind, timestamp as int)
            &&& (first_preferred(resp.servers@, 0) matches Some(i) && req.server_id
                == resp.servers@[i].id)
            &&& (match spec_first_map_config(maps.0@, kind, format) {
                (Option::Some(name), cfg) => req.first_map matches Some(m) && m.0@ == name
                    && req.server_config_id == cfg,
                (Option::None, _) => req.first_map is None && req.server_config_id is None,
            })
            &&& spec_password_prefix(kind).is_prefix_of(req.password@)
            &&& req.password@.len() == spec_password_prefix(kind).len() + 8
            &&& (forall|i: int|
                spec_password_prefix(kind).len() <= i < req.password@.len() ==> is_alphanumeric(
                    #[trigger] req.password@[i],
                ))
            &&& spec_rcon_prefix(kind).is_prefix_of(req.rcon@)
            &&& req.rcon@.len() == spec_rcon_prefix(kind).len() + 32
            &&& (forall|i: int|
                spec_rcon_prefix(kind).len() <= i < req.rcon@.len() ==> is_alphanumeric(
                    #[trigger] req.rcon@[i],
                ))
            &&& req.enable_plugins == true
            &&& req.enable_demos_tf == true
        },
{
    let server_id = match choose_server(resp) {
        Ok(id) => id,
        Err(e) => {
            return Err(e);
        },
    };
    let (first_map, server_config_id) = maps.server_config(kind, format);
    let password = make_password(kind);
    let rcon = make_rcon_password(kind);
    let d = kind.duration_secs();
    Ok(
        CreateReservationRequest {
            starts_at: timestamp - 900,
            ends_at: timestamp + d + 900,
            server_id,
            password,
            rcon,
            first_map,
            server_config_id,
            enable_plugins: true,
            enable_demos_tf: true,
        },
    )
}

/// Plans an edit of an existing reservation when a game's schedule, maps
/// or format changed. The window only ever grows: a field is sent only
/// when it moves the start earlier or the end later; the map preset is
/// recomputed only when the new window starts at or before the
/// reservation's current start.
pub fn plan_edit_reservation(
    kind: GameKind,
    format: GameFormat,
    maps: &MapList,
    timestamp: i64,
    res_starts_at: i64,
    res_ends_at: i64,
) -> (r: EditReservationRequest)
    requires
        0 <= timestamp <= crate::timeet::max_calendar_ts(),
    ensures
        ({
            let ws = spec_window_start(kind, timestamp as int);
            let we = spec_window_end(kind, timestamp as int);
            &&& r.starts_at == if ws < res_starts_at {
                Option::Some(ws as i64)
            } else {
                Option::<i64>::None
            }
            &&& r.ends_at == if we > res_ends_at {
                Option::Some(we as i64)
            } else {
                Option::<i64>::None
            }
            &&& (if ws <= res_starts_at {
                match spec_first_map_config(maps.0@, kind, format) {
                    (Option::Some(name), cfg) => r.first_map matches Some(m) && m.0@ == name
                        && r.server_config_id == cfg,
                    (Option::None, _) => r.first_map is None && r.server_config_id is None,
                }
            } else {
                r.first_map is None && r.server_config_id is None
            })
        }),
{
    let d = kind.duration_secs();
    let ws: i64 = timestamp - 900;
    let we: i64 = timestamp + d + 900;
    let (first_map, server_config_id) = if ws <= res_starts_at {
        maps.server_config(kind, format)
    } else {
        (None, None)
    };
    let starts_at = if ws < res_starts_at {
        Some(ws)
    } else {
        None
    };
    let ends_at = if we > res_ends_at {
        Some(we)
    } else {
        None
    };
    EditReservationRequest { starts_at, ends_at, first_map, server_config_id }
}

/// Plans a mid-game map change: an edit that sets only the first map and,
/// when the map is recognized for the kind and format, the matching
/// configuration preset; the window is left alone.
pub fn plan_changelevel(map: GameMap, kind: GameKind, format: GameFormat) -> (r:
    EditReservationRequest)
    ensures
        r.starts_at is None,
        r.ends_at is None,
        r.first_map matches Some(m) && m.0@ == map.0@,
        (match map_config_spec(map.0@, kind, format) {
            Option::Some(e) => r.server_config_id == Option::Some(e.1),
            Option::None => r.server_config_id is None,
        }),
{
    let cfg = map.config(kind, format);
    let server_config_id = match cfg {
        Some(c) => Some(c.id),
        None => None,
    };
    EditReservationRequest { starts_at: None, ends_at: None, first_map: Some(map), server_config_id }
}

/// The stored window after an edit plan is applied: a sent field replaces
/// the stored one, an absent field leaves it unchanged.
pub open spec fn spec_window_after_edit(
    plan_starts: Option<i64>,
    plan_ends: Option<i64>,
    res_starts_at: int,
    res_ends_at: int,
) -> (int, int) {
    (
        match plan_starts {
            Option::Some(s) => s as int,
            Option::None => res_starts_at,
        },
        match plan_ends {
            Option::Some(e) => e as int,
            Option::None => res_ends_at,
        },
    )
}

/// Reservation-window growth is monotonic. Whatever a game is edited to,
/// the stored window's start never moves later and its end never moves
/// earlier; and when the new booking window lies strictly inside the
/// stored one, the edit plan is empty — nothing is sent, the window is
/// untouched and the map preset is omitted.
pub proof fn lemma_reservation_window_growth(
    kind: GameKind,
    format: GameFormat,
    maps: Seq<GameMap>,
    ws: int,
    we: int,
    plan_starts: Option<i64>,
    plan_ends: Option<i64>,
    plan_map: Option<GameMap>,
    plan_cfg: Option<u32>,
    res_starts_at: int,
    res_ends_at: int,
)
    requires
        plan_starts == if ws < res_starts_at {
            Option::Some(ws as i64)
        } else {
            Option::<i64>::None
        },
        plan_ends == if we > res_ends_at {
            Option::Some(we as i64)
        } else {
            Option::<i64>::None
        },
        !(ws <= res_starts_at) ==> plan_map is None && plan_cfg is None,
        i64::MIN <= ws <= i64::MAX,
        i64::MIN <= we <= i64::MAX,
    ensures
        spec_window_after_edit(plan_starts, plan_ends, res_starts_at, res_ends_at).0
            <= res_starts_at,
        spec_window_after_edit(plan_starts, plan_ends, res_starts_at, res_ends_at).1
            >= res_ends_at,
        ws > res_starts_at && we < res_ends_at ==> {
            &&& plan_starts is None
            &&& plan_ends is None
            &&& plan_map is None
            &&& plan_cfg is None
            &&& spec_window_after_edit(plan_starts, plan_ends, res_starts_at, res_ends_at) == (
                res_starts_at,
                res_ends_at,
            )
        },
{
}

} // verus!
