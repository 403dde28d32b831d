//! Identifier newtypes shared across the library: reservation ids, league
//! ids, chat-platform ids and the booking-service API key, together with
//! their canonical URL renderings and a verified decimal parser.

use vstd::prelude::*;

use crate::error::BotError;
use crate::strfmt::{dec_digits, int_digits, i32_string, i64_string, u64_string};
use crate::text::is_digit;

verus! {

/// The numeric value a digit character stands for.
pub open spec fn digit_val(c: char) -> int {
    c as u32 - 48
}

/// A non-empty, all-digit string.
pub open spec fn is_dec_seq(s: Seq<char>) -> bool {
    s.len() > 0 && forall|i: int| 0 <= i < s.len() ==> is_digit(#[trigger] s[i])
}

/// The number an all-digit string denotes.
pub open spec fn dec_seq_value(s: Seq<char>) -> int
    decreases s.len(),
{
    if s.len() == 0 {
        0
    } else {
        dec_seq_value(s.drop_last()) * 10 + digit_val(s.last())
    }
}

proof fn lemma_dec_value_nonneg(s: Seq<char>)
    requires
        forall|i: int| 0 <= i < s.len() ==> is_digit(#[trigger] s[i]),
    ensures
        dec_seq_value(s) >= 0,
    decreases s.len(),
{
    if s.len() > 0 {
        lemma_dec_value_nonneg(s.drop_last());
    }
}

pub(crate) proof fn lemma_dec_prefix_mono(s: Seq<char>, i: int)
    requires
        forall|j: int| 0 <= j < s.len() ==> is_digit(#[trigger] s[j]),
        0 <= i <= s.len(),
    ensures
        dec_seq_value(s.subrange(0, i)) <= dec_seq_value(s),
    decreases s.len() - i,
{
    if i == s.len() {
        assert(s.subrange(0, i) =~= s);
    } else {
        let a = s.subrange(0, i);
        let b = s.subrange(0, i + 1);
        assert(b.drop_last() =~= a);
        lemma_dec_value_nonneg(a);
        assert(dec_seq_value(b) == dec_seq_value(a) * 10 + digit_val(s[i]));
        lemma_dec_prefix_mono(s, i + 1);
    }
}

/// Parses a non-empty all-digit string into a number, rejecting anything
/// else and anything above `i32::MAX`.
pub fn parse_decimal_i32(s: &str) -> (r: Result<i32, BotError>)
    ensures
        r is Ok <==> is_dec_seq(s@) && dec_seq_value(s@) <= i32::MAX,
        r is Ok ==> r->Ok_0 == dec_seq_value(s@) && r->Ok_0 >= 0,
        r is Err ==> r->Err_0 == BotError::InvalidReservationId,
{
    let n: usize = s.unicode_len();
    if n == 0 {
        return Err(BotError::InvalidReservationId);
    }
    let mut i: usize = 0;
    while i < n
        invariant
            n == s@.len(),
            0 <= i <= n,
            forall|j: int| 0 <= j < i ==> is_digit(#[trigger] s@[j]),
        decreases n - i,
    {
        let c = s.get_char(i);
        if !('0' <= c && c <= '9') {
            return Err(BotError::InvalidReservationId);
        }
        i = i + 1;
    }
    let mut acc: i64 = 0;
    let mut k: usize = 0;
    while k < n
        invariant
            n == s@.len(),
            n > 0,
            forall|j: int| 0 <= j < n ==> is_digit(#[trigger] s@[j]),
            0 <= k <= n,
            0 <= acc <= i32::MAX,
            acc == dec_seq_value(s@.subrange(0, k as int)),
        decreases n - k,
    {
        let c = s.get_char(k);
        let d: i64 = (c as u32) as i64 - 48;
        proof {
            assert(s@.subrange(0, k + 1).drop_last() =~= s@.subrange(0, k as int));
        }
        let next: i64 = acc * 10 + d;
        if next > 2147483647i64 {
            proof {
                lemma_dec_prefix_mono(s@, k + 1);
            }
            return Err(BotError::InvalidReservationId);
        }
        acc = next;
        k = k + 1;
    }
    proof {
        assert(s@.subrange(0, n as int) =~= s@);
    }
    Ok(acc as i32)
}

/// A reservation on the external booking service.
#[derive(Clone, Copy, Debug, PartialEq, Eq, PartialOrd, Ord, Hash, Structural)]
pub struct ReservationId(pub i32);

impl ReservationId {
    /// The reservation's page on the booking service.
    pub fn url(self) -> (r: String)
        ensures
            r@ == "https://na.serveme.tf/reservations/"@ + int_digits(self.0 as int),
    {
        let mut r = String::new();
        r.append("https://na.serveme.tf/reservations/");
        let d = i32_string(self.0);
        r.append(d.as_str());
        r
    }

    /// The reservation id's decimal rendering.
    pub fn to_dec_string(self) -> (r: String)
        ensures
            r@ == int_digits(self.0 as int),
    {
        i32_string(self.0)
    }

    /// Parses a reservation id typed by a user: a plain decimal number.
    pub fn parse(s: &str) -> (r: Result<ReservationId, BotError>)
        ensures
            r is Ok <==> is_dec_seq(s@) && dec_seq_value(s@) <= i32::MAX,
            r is Ok ==> r->Ok_0.0 == dec_seq_value(s@),
            r is Err ==> r->Err_0 == BotError::InvalidReservationId,
    {
        match parse_decimal_i32(s) {
            Ok(v) => Ok(ReservationId(v)),
            Err(e) => Err(e),
        }
    }
}

/// A team registered with the league.
#[derive(Clone, Copy, Debug, PartialEq, Eq, Hash, Structural)]
pub struct RglTeamId(pub i32);

impl RglTeamId {
    /// The team's league page.
    pub fn url(self) -> (r: String)
        ensures
            r@ == "https://rgl.gg/Public/Team.aspx?t="@ + int_digits(self.0 as int),
    {
        let mut r = String::new();
        r.append("https://rgl.gg/Public/Team.aspx?t=");
        let d = i32_string(self.0);
        r.append(d.as_str());
        r
    }
}

/// A league season.
#[derive(Clone, Copy, Debug, PartialEq, Eq, Hash, Structural)]
pub struct SeasonId(pub i32);

impl SeasonId {
    /// The season's league-table page.
    pub fn url(self) -> (r: String)
        ensures
            r@ == "https://rgl.gg/Public/LeagueTable?s="@ + int_digits(self.0 as int),
    {
        let mut r = String::new();
        r.append("https://rgl.gg/Public/LeagueTable?s=");
        let d = i32_string(self.0);
        r.append(d.as_str());
        r
    }
}

/// A league division.
#[derive(Clone, Copy, Debug, PartialEq, Eq, Hash, Structural)]
pub struct DivisionId(pub i32);

impl DivisionId {
    /// The division's league-table page.
    pub fn url(self) -> (r: String)
        ensures
            r@ == "https://rgl.gg/Public/LeagueTable?g="@ + int_digits(self.0 as int),
    {
        let mut r = String::new();
        r.append("https://rgl.gg/Public/LeagueTable?g=");
        let d = i32_string(self.0);
        r.append(d.as_str());
        r
    }
}

/// An official league match.
#[derive(Clone, Copy, Debug, PartialEq, Eq, Hash, Structural)]
pub struct RglMatchId(pub i32);

impl RglMatchId {
    /// The match's league page.
    pub fn url(self) -> (r: String)
        ensures
            r@ == "https://rgl.gg/Public/Match?m="@ + int_digits(self.0 as int),
    {
        let mut r = String::new();
        r.append("https://rgl.gg/Public/Match?m=");
        let d = i32_string(self.0);
        r.append(d.as_str());
        r
    }
}

/// A Steam account.
#[derive(Clone, Copy, Debug, PartialEq, Eq, Hash, Structural)]
pub struct SteamId(pub u64);

impl SteamId {
    /// The player's league profile page.
    pub fn rgl_url(self) -> (r: String)
        ensures
            r@ == "https://rgl.gg/Public/PlayerProfile.aspx?p="@ + dec_digits(self.0 as nat),
    {
        let mut r = String::new();
        r.append("https://rgl.gg/Public/PlayerProfile.aspx?p=");
        let d = u64_string(self.0);
        r.append(d.as_str());
        r
    }

    /// The player's Steam community page.
    pub fn steam_url(self) -> (r: String)
        ensures
            r@ == "https://steamcommunity.com/profiles/"@ + dec_digits(self.0 as nat),
    {
        let mut r = String::new();
        r.append("https://steamcommunity.com/profiles/");
        let d = u64_string(self.0);
        r.append(d.as_str());
        r
    }

    /// The player's match-log archive.
    pub fn logstf_url(self) -> (r: String)
        ensures
            r@ == "https://logs.tf/profile/"@ + dec_digits(self.0 as nat),
    {
        let mut r = String::new();
        r.append("https://logs.tf/profile/");
        let d = u64_string(self.0);
        r.append(d.as_str());
        r
    }

    /// The player's demo archive.
    pub fn demostf_url(self) -> (r: String)
        ensures
            r@ == "https://demos.tf/profiles/"@ + dec_digits(self.0 as nat),
    {
        let mut r = String::new();
        r.append("https://demos.tf/profiles/");
        let d = u64_string(self.0);
        r.append(d.as_str());
        r
    }

    /// The player's statistics-trends page.
    pub fn trendstf_url(self) -> (r: String)
        ensures
            r@ == "https://trends.tf/player/"@ + dec_digits(self.0 as nat),
    {
        let mut r = String::new();
        r.append("https://trends.tf/player/");
        let d = u64_string(self.0);
        r.append(d.as_str());
        r
    }

    /// The player's aggregate-profile page.
    pub fn moretf_url(self) -> (r: String)
        ensures
            r@ == "https://more.tf/profile/"@ + dec_digits(self.0 as nat),
    {
        let mut r = String::new();
        r.append("https://more.tf/profile/");
        let d = u64_string(self.0);
        r.append(d.as_str());
        r
    }
}

/// A team's chat-server (guild) identifier.
#[derive(Clone, Copy, Debug, PartialEq, Eq, Hash, Structural)]
pub struct TeamGuildId(pub i64);

/// The channel the rendered schedule is published to.
#[derive(Clone, Copy, Debug, PartialEq, Eq, Hash, Structural)]
pub struct ScheduleChannelId(pub i64);

/// The last published schedule message.
#[derive(Clone, Copy, Debug, PartialEq, Eq, Hash, Structural)]
pub struct ScheduleMessageId(pub i64);

/// The chat-platform user contacted on the opposing team.
#[derive(Clone, Copy, Debug, PartialEq, Eq, Hash, Structural)]
pub struct OpponentUserId(pub i64);

/// A per-team bearer token for the booking service.
#[derive(Clone, Debug, PartialEq, Eq)]
pub struct ServemeApiKey(pub String);

impl ServemeApiKey {
    /// The `Authorization` header value the booking service expects.
    pub fn auth_header(&self) -> (r: String)
        ensures
            r@ == "Token token="@ + self.0@,
    {
        let mut r = String::new();
        r.append("Token token=");
        r.append(self.0.as_str());
        r
    }
}

} // verus!
