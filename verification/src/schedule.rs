//! One team's stored schedule, as the relational store's natural key sees
//! it: games strictly ordered by start timestamp, so no two games of a
//! team can share a slot. The slot guard, inserts, deletes and the
//! selection queries are all verified against this model.

use vstd::prelude::*;

use crate::error::BotError;
use crate::game::{spec_kind, Game, GameKind, GameServer};
use crate::ids::ReservationId;
use crate::timeet::{day_et, exec_day_et, ts_in_range};

verus! {

/// Whether some game in the list starts at the given timestamp.
pub open spec fn contains_ts(s: Seq<Game>, ts: int) -> bool {
    exists|i: int| 0 <= i < s.len() && #[trigger] s[i].timestamp == ts
}

/// Whether a game passes an optional kind filter.
pub open spec fn kind_matches(g: Game, k: Option<GameKind>) -> bool {
    match k {
        Option::None => true,
        Option::Some(kk) => spec_kind(&g.details) == kk,
    }
}

/// Whether two server assignments name the same venue.
pub open spec fn same_server(a: GameServer, b: GameServer) -> bool {
    match (a, b) {
        (GameServer::Hosted(x), GameServer::Hosted(y)) => x == y,
        (GameServer::Joined(x), GameServer::Joined(y)) => x.ip_and_port@ == y.ip_and_port@
            && x.password@ == y.password@,
        (GameServer::Undecided, GameServer::Undecided) => true,
        _ => false,
    }
}

/// Whether a game is backed by one of the given live-and-ready
/// reservations.
pub open spec fn is_active(g: Game, ready: Seq<ReservationId>) -> bool {
    match g.server {
        GameServer::Hosted(id) => ready.contains(id),
        _ => false,
    }
}

/// Absolute time distance.
pub open spec fn dist(ts: int, now: int) -> int {
    if ts >= now {
        ts - now
    } else {
        now - ts
    }
}

/// The active-game ordering: closest to now first; on an exact distance
/// tie the earlier (past) game comes first.
pub open spec fn closer_eq(a: int, b: int, now: int) -> bool {
    dist(a, now) < dist(b, now) || (dist(a, now) == dist(b, now) && a <= b)
}

/// One team's games, strictly ordered by timestamp: the model of the
/// store's uniqueness constraint on (team, start time).
#[derive(Clone, Debug)]
pub struct GameList {
    games: Vec<Game>,
}

impl View for GameList {
    type V = Seq<Game>;

    closed spec fn view(&self) -> Seq<Game> {
        self.games@
    }
}

impl GameList {
    /// The list's invariant: strictly increasing timestamps (hence no two
    /// games share a slot), all within the supported calendar range.
    pub open spec fn wf(&self) -> bool {
        &&& forall|i: int, j: int|
            0 <= i < j < self@.len() ==> self@[i].timestamp < self@[j].timestamp
        &&& forall|i: int|
            0 <= i < self@.len() ==> ts_in_range((#[trigger] self@[i]).timestamp as int)
    }

    /// An empty schedule.
    pub fn new() -> (r: GameList)
        ensures
            r@ == Seq::<Game>::empty(),
            r.wf(),
    {
        GameList { games: Vec::new() }
    }

    /// How many games are scheduled.
    pub fn len(&self) -> (r: usize)
        ensures
            r == self@.len(),
    {
        self.games.len()
    }

    /// The game at a position.
    pub fn get(&self, i: usize) -> (r: &Game)
        requires
            i < self@.len(),
        ensures
            *r == self@[i as int],
    {
        &self.games[i]
    }

    /// The sole concurrency guard against double-booking: succeeds exactly
    /// when no game of the team starts at that timestamp; evaluated
    /// against the same state the subsequent insert sees.
    pub fn ensure_time_open(&self, ts: i64) -> (r: Result<(), BotError>)
        ensures
            r is Ok <==> !contains_ts(self@, ts as int),
            r is Err ==> r->Err_0 == BotError::TimeSlotTaken,
    {
        let n: usize = self.games.len();
        let mut i: usize = 0;
        while i < n
            invariant
                n == self@.len(),
                0 <= i <= n,
                forall|j: int| 0 <= j < i ==> #[trigger] self@[j].timestamp != ts,
            decreases n - i,
        {
            if self.games[i].timestamp == ts {
                return Err(BotError::TimeSlotTaken);
            }
            i = i + 1;
        }
        Ok(())
    }

    /// Inserts a game, keeping the order; an occupied slot is refused, as
    /// the store's uniqueness constraint would refuse it.
    pub fn insert(&mut self, g: Game) -> (r: Result<(), BotError>)
        requires
            old(self).wf(),
            ts_in_range(g.timestamp as int),
        ensures
            final(self).wf(),
            r is Ok <==> !contains_ts(old(self)@, g.timestamp as int),
            r is Ok ==> exists|i: int|
                0 <= i <= old(self)@.len() && final(self)@ == old(self)@.insert(i, g),
            r is Err ==> final(self)@ == old(self)@ && r->Err_0 == BotError::TimeSlotTaken,
    {
        let n: usize = self.games.len();
        let mut i: usize = 0;
        while i < n && self.games[i].timestamp < g.timestamp
            invariant
                n == self@.len(),
                0 <= i <= n,
                forall|j: int| 0 <= j < i ==> #[trigger] self@[j].timestamp < g.timestamp,
            decreases n - i,
        {
            i = i + 1;
        }
        if i < n && self.games[i].timestamp == g.timestamp {
            return Err(BotError::TimeSlotTaken);
        }
        proof {
            assert(forall|j: int|
                i <= j < self@.len() ==> g.timestamp < #[trigger] self@[j].timestamp) by {
                assert forall|j: int|
                    i <= j < self@.len() implies g.timestamp < #[trigger] self@[j].timestamp by {
                    if j == i {
                        assert(self@[j].timestamp != g.timestamp);
                        assert(!(self@[j].timestamp < g.timestamp));
                    } else {
                        assert(self@[i as int].timestamp < self@[j].timestamp);
                        assert(!(self@[i as int].timestamp < g.timestamp));
                        assert(self@[i as int].timestamp != g.timestamp);
                    }
                }
            }
            assert(!contains_ts(self@, g.timestamp as int)) by {
                if contains_ts(self@, g.timestamp as int) {
                    let w = choose|w: int|
                        0 <= w < self@.len() && #[trigger] self@[w].timestamp == g.timestamp;
                    if w < i {
                        assert(self@[w].timestamp < g.timestamp);
                    } else {
                        assert(g.timestamp < self@[w].timestamp);
                    }
                }
            }
        }
        let ghost pre = self@;
        let ghost pos = i as int;
        self.games.insert(i, g);
        proof {
            pre.insert_ensures(pos, g);
            assert(self@ == pre.insert(pos, g));
        }
        Ok(())
    }

    /// Deletes the game at a timestamp and hands it back; its reservation,
    /// if any, is left untouched — tearing a reservation down is a
    /// separate, explicit step.
    pub fn delete(&mut self, ts: i64) -> (r: Result<Game, BotError>)
        requires
            old(self).wf(),
        ensures
            final(self).wf(),
            r is Ok <==> contains_ts(old(self)@, ts as int),
            r matches Ok(g) ==> exists|i: int|
                0 <= i < old(self)@.len() && g == old(self)@[i] && g.timestamp == ts
                    && final(self)@ == old(self)@.remove(i),
            r is Err ==> final(self)@ == old(self)@ && r->Err_0 == BotError::GameNotFound,
    {
        let n: usize = self.games.len();
        let mut i: usize = 0;
        while i < n
            invariant
                self@ == old(self)@,
                old(self).wf(),
                n == self@.len(),
                0 <= i <= n,
                forall|j: int| 0 <= j < i ==> #[trigger] self@[j].timestamp != ts,
            decreases n - i,
        {
            if self.games[i].timestamp == ts {
                let ghost pre = self@;
                let ghost pos = i as int;
                let g = self.games.remove(i);
                proof {
                    assert(self@ == pre.remove(pos));
                    assert(contains_ts(pre, ts as int)) by {
                        assert(pre[pos].timestamp == ts);
                    }
                    assert forall|a: int, b: int|
                        0 <= a < b < self@.len() implies self@[a].timestamp
                        < self@[b].timestamp by {
                        if b < pos {
                            assert(self@[a] == pre[a] && self@[b] == pre[b]);
                        } else if a < pos {
                            assert(self@[a] == pre[a] && self@[b] == pre[b + 1]);
                        } else {
                            assert(self@[a] == pre[a + 1] && self@[b] == pre[b + 1]);
                        }
                    }
                    assert forall|a: int|
                        0 <= a < self@.len() implies ts_in_range(
                        (#[trigger] self@[a]).timestamp as int,
                    ) by {
                        if a < pos {
                            assert(self@[a] == pre[a]);
                        } else {
                            assert(self@[a] == pre[a + 1]);
                        }
                    }
                }
                return Ok(g);
            }
            i = i + 1;
        }
        Err(BotError::GameNotFound)
    }

    /// Looks a game up by its timestamp, under an optional kind filter;
    /// a missing or differently-shaped game is `GameNotFound`.
    pub fn get_game(&self, ts: i64, k: Option<GameKind>) -> (r: Result<&Game, BotError>)
        ensures
            r is Ok <==> exists|i: int|
                0 <= i < self@.len() && #[trigger] self@[i].timestamp == ts && kind_matches(
                    self@[i],
                    k,
                ),
            r matches Ok(g) ==> exists|i: int|
                0 <= i < self@.len() && *g == self@[i] && g.timestamp == ts && kind_matches(*g, k),
            r is Err ==> r->Err_0 == BotError::GameNotFound,
    {
        let n: usize = self.games.len();
        let mut i: usize = 0;
        while i < n
            invariant
                n == self@.len(),
                0 <= i <= n,
                forall|j: int|
                    0 <= j < i ==> !(#[trigger] self@[j].timestamp == ts && kind_matches(
                        self@[j],
                        k,
                    )),
            decreases n - i,
        {
            if self.games[i].timestamp == ts {
                let matches_kind = match k {
                    None => true,
                    Some(kk) => self.games[i].kind() == kk,
                };
                if matches_kind {
                    return Ok(&self.games[i]);
                }
            }
            i = i + 1;
        }
        Err(BotError::GameNotFound)
    }

    /// The positions of the games after a cutoff that pass the kind
    /// filter, in chronological order: the team's upcoming games.
    pub fn upcoming(&self, cutoff: i64, k: Option<GameKind>) -> (r: Vec<usize>)
        ensures
            forall|a: int, b: int| 0 <= a < b < r@.len() ==> r@[a] < r@[b],
            forall|a: int|
                0 <= a < r@.len() ==> r@[a] < self@.len() && self@[r@[a] as int].timestamp > cutoff
                    && kind_matches(self@[r@[a] as int], k),
            forall|i: int|
                0 <= i < self@.len() && #[trigger] self@[i].timestamp > cutoff && kind_matches(
                    self@[i],
                    k,
                ) ==> r@.contains(i as usize),
    {
        let n: usize = self.games.len();
        let mut r: Vec<usize> = Vec::new();
        let mut i: usize = 0;
        while i < n
            invariant
                n == self@.len(),
                0 <= i <= n,
                forall|a: int, b: int| 0 <= a < b < r@.len() ==> r@[a] < r@[b],
                forall|a: int|
                    0 <= a < r@.len() ==> r@[a] < i && self@[r@[a] as int].timestamp > cutoff
                        && kind_matches(self@[r@[a] as int], k),
                forall|j: int|
                    0 <= j < i && #[trigger] self@[j].timestamp > cutoff && kind_matches(
                        self@[j],
                        k,
                    ) ==> r@.contains(j as usize),
            decreases n - i,
        {
            let take = if self.games[i].timestamp > cutoff {
                match k {
                    None => true,
                    Some(kk) => self.games[i].kind() == kk,
                }
            } else {
                false
            };
            let ghost pre = r@;
            if take {
                r.push(i);
            }
            proof {
                if take {
                    assert(r@ == pre.push(i as usize));
                    assert(r@[r@.len() - 1] == i as usize);
                    assert(forall|j: int|
                        0 <= j < i && #[trigger] self@[j].timestamp > cutoff && kind_matches(
                            self@[j],
                            k,
                        ) ==> r@.contains(j as usize)) by {
                        assert forall|j: int|
                            0 <= j < i && #[trigger] self@[j].timestamp > cutoff && kind_matches(
                                self@[j],
                                k,
                            ) implies r@.contains(j as usize) by {
                            let w = choose|w: int| 0 <= w < pre.len() && pre[w] == j as usize;
                            assert(r@[w] == j as usize);
                        }
                    }
                    assert(r@.contains(i as usize)) by {
                        assert(r@[r@.len() - 1] == i as usize);
                    }
                }
            }
            i = i + 1;
        }
        r
    }

    /// The positions of the games backed by a live, ready reservation,
    /// ordered by distance from now — the game being played first; on an
    /// exact tie the past game wins.
    pub fn select_closest_active(&self, ready: &Vec<ReservationId>, now: i64) -> (r: Vec<usize>)
        requires
            self.wf(),
            0 <= now <= crate::timeet::max_calendar_ts(),
        ensures
            forall|a: int|
                0 <= a < r@.len() ==> r@[a] < self@.len() && is_active(
                    self@[r@[a] as int],
                    ready@,
                ),
            forall|i: int|
                0 <= i < self@.len() && is_active(#[trigger] self@[i], ready@) ==> r@.contains(
                    i as usize,
                ),
            forall|a: int, b: int| 0 <= a < b < r@.len() ==> r@[a] != r@[b],
            forall|a: int, b: int|
                0 <= a < b < r@.len() ==> closer_eq(
                    self@[r@[a] as int].timestamp as int,
                    self@[r@[b] as int].timestamp as int,
                    now as int,
                ),
    {
        let n: usize = self.games.len();
        let mut r: Vec<usize> = Vec::new();
        let mut i: usize = 0;
        while i < n
            invariant
                self.wf(),
                0 <= now <= crate::timeet::max_calendar_ts(),
                n == self@.len(),
                0 <= i <= n,
                forall|a: int|
                    0 <= a < r@.len() ==> r@[a] < i && is_active(self@[r@[a] as int], ready@),
                forall|j: int|
                    0 <= j < i && is_active(#[trigger] self@[j], ready@) ==> r@.contains(
                        j as usize,
                    ),
                forall|a: int, b: int| 0 <= a < b < r@.len() ==> r@[a] != r@[b],
                forall|a: int, b: int|
                    0 <= a < b < r@.len() ==> closer_eq(
                        self@[r@[a] as int].timestamp as int,
                        self@[r@[b] as int].timestamp as int,
                        now as int,
                    ),
            decreases n - i,
        {
            let active = match &self.games[i].server {
                GameServer::Hosted(id) => contains_reservation(ready, *id),
                _ => false,
            };
            if active {
                // find the sorted position for this game's timestamp
                let m: usize = r.len();
                let mut p: usize = 0;
                while p < m && closer_by(self.games[r[p]].timestamp, self.games[i].timestamp, now)
                    invariant
                        self.wf(),
                        0 <= now <= crate::timeet::max_calendar_ts(),
                        m == r@.len(),
                        0 <= p <= m,
                        n == self@.len(),
                        i < n,
                        forall|a: int| 0 <= a < r@.len() ==> r@[a] < i,
                        forall|a: int|
                            0 <= a < p ==> closer_eq(
                                self@[r@[a] as int].timestamp as int,
                                self@[i as int].timestamp as int,
                                now as int,
                            ),
                    decreases m - p,
                {
                    p = p + 1;
                }
                let ghost pre = r@;
                let ghost pos = p as int;
                r.insert(p, i);
                proof {
                    pre.insert_ensures(pos, i as usize);
                    assert(forall|j: int|
                        0 <= j < i && is_active(#[trigger] self@[j], ready@) ==> r@.contains(
                            j as usize,
                        )) by {
                        assert forall|j: int|
                            0 <= j < i && is_active(#[trigger] self@[j], ready@) implies r@
                            .contains(j as usize) by {
                            let w = choose|w: int| 0 <= w < pre.len() && pre[w] == j as usize;
                            if w < pos {
                                assert(r@[w] == j as usize);
                            } else {
                                assert(r@[w + 1] == j as usize);
                            }
                        }
                    }
                    assert(r@.contains(i as usize)) by {
                        assert(r@[pos] == i as usize);
                    }
                    assert forall|a: int, b: int| 0 <= a < b < r@.len() implies closer_eq(
                        self@[r@[a] as int].timestamp as int,
                        self@[r@[b] as int].timestamp as int,
                        now as int,
                    ) by {
                        let ts_new = self@[i as int].timestamp as int;
                        if a < pos && b == pos {
                        } else if a == pos && b > pos {
                            // the scan stopped at pos because that entry is
                            // not closer, so the new game precedes it
                            if pos < pre.len() {
                                let ts_p = self@[pre[pos] as int].timestamp as int;
                                assert(!(dist(ts_p, now as int) < dist(ts_new, now as int) || (
                                dist(ts_p, now as int) == dist(ts_new, now as int) && ts_p
                                    < ts_new)));
                                assert(r@[b] == pre[b - 1]);
                                if b - 1 > pos {
                                    assert(closer_eq(
                                        ts_p,
                                        self@[pre[b - 1] as int].timestamp as int,
                                        now as int,
                                    ));
                                }
                            }
                        } else if a < pos && b > pos {
                            assert(r@[a] == pre[a]);
                            assert(r@[b] == pre[b - 1]);
                            if a < b - 1 {
                            } else {
                                assert(a == pos - 1 && b == pos + 1);
                                assert(closer_eq(
                                    self@[pre[a] as int].timestamp as int,
                                    ts_new,
                                    now as int,
                                ));
                                let ts_p = self@[pre[pos] as int].timestamp as int;
                                assert(!(dist(ts_p, now as int) < dist(ts_new, now as int) || (
                                dist(ts_p, now as int) == dist(ts_new, now as int) && ts_p
                                    < ts_new)));
                            }
                        } else if a > pos && b > pos {
                            assert(r@[a] == pre[a - 1]);
                            assert(r@[b] == pre[b - 1]);
                        } else if a < pos && b < pos {
                            assert(r@[a] == pre[a]);
                            assert(r@[b] == pre[b]);
                        }
                    }
                }
            }
            i = i + 1;
        }
        r
    }

    /// For each selected game, whether its rendered schedule entry should
    /// carry the connect block: only the last game of a contiguous
    /// same-day run on the same server gets one, so back-to-back games on
    /// one server do not repeat it.
    pub fn connect_flags(&self, idxs: &Vec<usize>) -> (r: Vec<bool>)
        requires
            self.wf(),
            forall|a: int| 0 <= a < idxs@.len() ==> idxs@[a] < self@.len(),
        ensures
            r@.len() == idxs@.len(),
            forall|a: int|
                0 <= a < r@.len() ==> r@[a] == !(a + 1 < idxs@.len() && day_et(
                    self@[idxs@[a + 1] as int].timestamp as int,
                ) == day_et(self@[idxs@[a] as int].timestamp as int) && same_server(
                    self@[idxs@[a] as int].server,
                    self@[idxs@[a + 1] as int].server,
                )),
    {
        let n: usize = idxs.len();
        let mut r: Vec<bool> = Vec::new();
        let mut a: usize = 0;
        while a < n
            invariant
                n == idxs@.len(),
                forall|x: int| 0 <= x < idxs@.len() ==> idxs@[x] < self@.len(),
                self.wf(),
                0 <= a <= n,
                r@.len() == a,
                forall|x: int|
                    0 <= x < a ==> r@[x] == !(x + 1 < idxs@.len() && day_et(
                        self@[idxs@[x + 1] as int].timestamp as int,
                    ) == day_et(self@[idxs@[x] as int].timestamp as int) && same_server(
                        self@[idxs@[x] as int].server,
                        self@[idxs@[x + 1] as int].server,
                    )),
            decreases n - a,
        {
            let flag: bool = if a + 1 < n {
                let d0 = exec_day_et(self.games[idxs[a]].timestamp);
                let d1 = exec_day_et(self.games[idxs[a + 1]].timestamp);
                if d0 == d1 {
                    !eq_server(&self.games[idxs[a]].server, &self.games[idxs[a + 1]].server)
                } else {
                    true
                }
            } else {
                true
            };
            r.push(flag);
            a = a + 1;
        }
        r
    }
}

/// Whether a reservation id occurs in a list.
fn contains_reservation(ready: &Vec<ReservationId>, id: ReservationId) -> (r: bool)
    ensures
        r == ready@.contains(id),
{
    let n: usize = ready.len();
    let mut i: usize = 0;
    while i < n
        invariant
            n == ready@.len(),
            0 <= i <= n,
            forall|j: int| 0 <= j < i ==> ready@[j] != id,
        decreases n - i,
    {
        if ready[i] == id {
            assert(ready@[i as int] == id);
            return true;
        }
        i = i + 1;
    }
    false
}

/// Whether `a` strictly precedes `b` in the active-game order.
fn closer_by(a: i64, b: i64, now: i64) -> (r: bool)
    requires
        0 <= a <= crate::timeet::max_calendar_ts(),
        0 <= b <= crate::timeet::max_calendar_ts(),
        0 <= now <= crate::timeet::max_calendar_ts(),
    ensures
        r == (!closer_eq(b as int, a as int, now as int) || (dist(a as int, now as int) == dist(
            b as int,
            now as int,
        ) && a < b)),
        r ==> closer_eq(a as int, b as int, now as int),
        !r ==> closer_eq(b as int, a as int, now as int),
{
    let da: i64 = if a >= now {
        a - now
    } else {
        now - a
    };
    let db: i64 = if b >= now {
        b - now
    } else {
        now - b
    };
    da < db || (da == db && a < b)
}

/// Whether two server assignments name the same venue.
fn eq_server(a: &GameServer, b: &GameServer) -> (r: bool)
    ensures
        r == same_server(*a, *b),
{
    match (a, b) {
        (GameServer::Hosted(x), GameServer::Hosted(y)) => x == y,
        (GameServer::Joined(x), GameServer::Joined(y)) => {
            crate::text::string_eq(&x.ip_and_port, &y.ip_and_port) && crate::text::string_eq(
                &x.password,
                &y.password,
            )
        },
        (GameServer::Undecided, GameServer::Undecided) => true,
        _ => false,
    }
}

/// Two concurrent attempts to book the same slot serialize at the store:
/// whichever insert commits first fills the slot, and the other caller's
/// slot check against the new state then reports the slot taken — so
/// exactly one of the two succeeds.
pub proof fn lemma_double_booking_serializes(pre: Seq<Game>, post: Seq<Game>, g: Game, i: int)
    requires
        0 <= i <= pre.len(),
        post == pre.insert(i, g),
    ensures
        contains_ts(post, g.timestamp as int),
{
    pre.insert_ensures(i, g);
    assert(post[i] == g);
}

} // verus!
