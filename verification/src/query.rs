//! The disambiguation engine's query grammar and alias tables: a free-text
//! query splits into an optional day token and an optional time token, and
//! a candidate day or time matches when the token is a prefix of one of
//! its aliases.

use vstd::prelude::*;

use crate::game::skip_spaces;
use crate::strfmt::dec_digits;
use crate::text::{is_digit, is_lower_alpha, is_space, lower_seq, trim_seq};
use crate::timeet::{day_et, hour_et, hour12, minute_et, weekday_of_day};

verus! {

/// The index of the first position at or after `i` that is not a lower-case
/// letter.
pub open spec fn scan_alpha(s: Seq<char>, i: int) -> int
    decreases s.len() - i,
{
    if 0 <= i < s.len() && is_lower_alpha(s[i]) {
        scan_alpha(s, i + 1)
    } else {
        i
    }
}

/// The index of the first position at or after `i` that is not a lower-case
/// letter or digit.
pub open spec fn scan_alnum_lower(s: Seq<char>, i: int) -> int
    decreases s.len() - i,
{
    if 0 <= i < s.len() && (is_lower_alpha(s[i]) || is_digit(s[i])) {
        scan_alnum_lower(s, i + 1)
    } else {
        i
    }
}

/// The query grammar: an optional leading run of letters (the day token),
/// optional whitespace, and an optional trailing digit-led alphanumeric
/// run (the time token). A query of any other shape yields two empty
/// tokens and so matches everything. The input is the lower-cased,
/// trimmed query.
pub open spec fn split_query_spec(t: Seq<char>) -> (Seq<char>, Seq<char>) {
    let d_end = scan_alpha(t, 0);
    let day = t.subrange(0, d_end);
    let p = skip_spaces(t, d_end);
    if p >= t.len() {
        (day, Seq::empty())
    } else if is_digit(t[p]) {
        let t_end = scan_alnum_lower(t, p + 1);
        if t_end >= t.len() {
            (day, t.subrange(p, t.len() as int))
        } else {
            (Seq::empty(), Seq::empty())
        }
    } else {
        (Seq::empty(), Seq::empty())
    }
}

/// Lower-cases and trims a raw query and splits it by the query grammar;
/// returns the normalized query and the two tokens.
pub fn split_datetime_query(q: &str) -> (r: (String, String, String))
    ensures
        r.0@ == lower_seq(trim_seq(q@)),
        (r.1@, r.2@) == split_query_spec(lower_seq(trim_seq(q@))),
{
    let lowered = crate::text::to_lowercase(q);
    let t = crate::text::trim(lowered.as_str());
    let ghost tv = t@;
    proof {
        lemma_lower_trim_commute(q@);
    }
    let n: usize = t.as_str().unicode_len();
    let d_end = exec_scan_alpha(t.as_str(), 0);
    let day = copy_range(t.as_str(), 0, d_end);
    let p = exec_skip_spaces_local(t.as_str(), d_end);
    if p >= n {
        return (t, day, String::new());
    }
    let c = t.as_str().get_char(p);
    if '0' <= c && c <= '9' {
        let t_end = exec_scan_alnum_lower(t.as_str(), p + 1);
        if t_end >= n {
            let time = copy_range(t.as_str(), p, n);
            return (t, day, time);
        }
        return (t, String::new(), String::new());
    }
    (t, String::new(), String::new())
}

proof fn lemma_lower_trim_commute(s: Seq<char>)
    ensures
        trim_seq(lower_seq(s)) == lower_seq(trim_seq(s)),
    decreases s.len(),
{
    let l = lower_seq(s);
    if s.len() == 0 {
        assert(l =~= Seq::empty());
        assert(lower_seq(trim_seq(s)) =~= Seq::empty());
    } else {
        assert(l.len() == s.len());
        assert(l[0] == crate::text::lower_char(s[0]));
        assert(l.last() == crate::text::lower_char(s.last()));
        assert(is_space(crate::text::lower_char(s[0])) == is_space(s[0]));
        assert(is_space(crate::text::lower_char(s.last())) == is_space(s.last()));
        if is_space(s[0]) {
            assert(l.drop_first() =~= lower_seq(s.drop_first()));
            lemma_lower_trim_commute(s.drop_first());
        } else if is_space(s.last()) {
            assert(l.drop_last() =~= lower_seq(s.drop_last()));
            lemma_lower_trim_commute(s.drop_last());
        } else {
            assert(trim_seq(l) == l);
        }
    }
}

fn exec_scan_alpha(s: &str, from: usize) -> (r: usize)
    requires
        from <= s@.len(),
        s@.len() <= usize::MAX,
    ensures
        r == scan_alpha(s@, from as int),
        from <= r <= s@.len(),
{
    let n: usize = s.unicode_len();
    let mut i: usize = from;
    while i < n
        invariant
            n == s@.len(),
            from <= i <= n,
            scan_alpha(s@, from as int) == scan_alpha(s@, i as int),
        decreases n - i,
    {
        let c = s.get_char(i);
        if !('a' <= c && c <= 'z') {
            return i;
        }
        i = i + 1;
    }
    i
}

fn exec_scan_alnum_lower(s: &str, from: usize) -> (r: usize)
    requires
        from <= s@.len(),
        s@.len() <= usize::MAX,
    ensures
        r == scan_alnum_lower(s@, from as int),
        from <= r <= s@.len(),
{
    let n: usize = s.unicode_len();
    let mut i: usize = from;
    while i < n
        invariant
            n == s@.len(),
            from <= i <= n,
            scan_alnum_lower(s@, from as int) == scan_alnum_lower(s@, i as int),
        decreases n - i,
    {
        let c = s.get_char(i);
        if !(('a' <= c && c <= 'z') || ('0' <= c && c <= '9')) {
            return i;
        }
        i = i + 1;
    }
    i
}

fn exec_skip_spaces_local(s: &str, from: usize) -> (r: usize)
    requires
        from <= s@.len(),
        s@.len() <= usize::MAX,
    ensures
        r == skip_spaces(s@, from as int),
        from <= r <= s@.len(),
{
    let n: usize = s.unicode_len();
    let mut i: usize = from;
    while i < n
        invariant
            n == s@.len(),
            from <= i <= n,
            skip_spaces(s@, from as int) == skip_spaces(s@, i as int),
        decreases n - i,
    {
        if !crate::text::exec_is_space(s.get_char(i)) {
            return i;
        }
        i = i + 1;
    }
    i
}

fn copy_range(s: &str, from: usize, to: usize) -> (r: String)
    requires
        from <= to <= s@.len(),
        s@.len() <= usize::MAX,
    ensures
        r@ == s@.subrange(from as int, to as int),
{
    let mut r: String = String::new();
    let mut i: usize = from;
    while i < to
        invariant
            from <= i <= to <= s@.len(),
            s@.len() <= usize::MAX,
            r@ == s@.subrange(from as int, i as int),
        decreases to - i,
    {
        crate::text::push_char(&mut r, s.get_char(i));
        proof {
            assert(s@.subrange(from as int, i + 1) =~= s@.subrange(from as int, i as int)
                + seq![s@[i as int]]);
        }
        i = i + 1;
    }
    r
}

/// The lower-case name of a weekday (0 = Sunday .. 6 = Saturday).
pub open spec fn weekday_lower_name(w: int) -> Seq<char> {
    if w == 0 {
        "sunday"@
    } else if w == 1 {
        "monday"@
    } else if w == 2 {
        "tuesday"@
    } else if w == 3 {
        "wednesday"@
    } else if w == 4 {
        "thursday"@
    } else if w == 5 {
        "friday"@
    } else {
        "saturday"@
    }
}

/// The aliases of a calendar day relative to today: its weekday name,
/// plus `today`/`tdy` for the current date and `tomorrow`/`tmrw` for the
/// next one.
pub open spec fn day_alias_list(day: int, today: int) -> Seq<Seq<char>> {
    let w = weekday_lower_name(weekday_of_day(day));
    if day == today {
        seq![w, "today"@, "tdy"@]
    } else if day == today + 1 {
        seq![w, "tomorrow"@, "tmrw"@]
    } else {
        seq![w]
    }
}

/// Whether a day token matches a day: it is a prefix of one of the day's
/// aliases.
pub open spec fn day_token_matches(day: int, today: int, q: Seq<char>) -> bool {
    exists|i: int|
        0 <= i < day_alias_list(day, today).len() && q.is_prefix_of(
            #[trigger] day_alias_list(day, today)[i],
        )
}

fn exec_weekday_lower_name(w: i64) -> (r: &'static str)
    requires
        0 <= w < 7,
    ensures
        r@ == weekday_lower_name(w as int),
{
    if w == 0 {
        "sunday"
    } else if w == 1 {
        "monday"
    } else if w == 2 {
        "tuesday"
    } else if w == 3 {
        "wednesday"
    } else if w == 4 {
        "thursday"
    } else if w == 5 {
        "friday"
    } else {
        "saturday"
    }
}

/// The textual aliases a user may type for a calendar day.
pub fn day_aliases(day: i64, today: i64) -> (r: Vec<String>)
    requires
        0 <= day < 4611686018427387904,
    ensures
        r@.len() == day_alias_list(day as int, today as int).len(),
        forall|i: int|
            0 <= i < r@.len() ==> (#[trigger] r@[i])@ == day_alias_list(day as int, today as int)[i],
{
    let w = crate::timeet::exec_weekday_of_day(day);
    let name = exec_weekday_lower_name(w);
    let mut r: Vec<String> = Vec::new();
    r.push(name.to_owned());
    if day == today {
        r.push("today".to_owned());
        r.push("tdy".to_owned());
    } else if today < i64::MAX && day == today + 1 {
        r.push("tomorrow".to_owned());
        r.push("tmrw".to_owned());
    }
    r
}

/// Whether the day token matches the day, by prefix against its aliases.
pub fn day_matches(day: i64, today: i64, q: &str) -> (r: bool)
    requires
        0 <= day < 4611686018427387904,
    ensures
        r == day_token_matches(day as int, today as int, q@),
{
    let aliases = day_aliases(day, today);
    let n: usize = aliases.len();
    let mut i: usize = 0;
    while i < n
        invariant
            n == aliases@.len(),
            0 <= i <= n,
            n == day_alias_list(day as int, today as int).len(),
            forall|k: int|
                0 <= k < n ==> (#[trigger] aliases@[k])@ == day_alias_list(
                    day as int,
                    today as int,
                )[k],
            forall|k: int|
                0 <= k < i ==> !q@.is_prefix_of(
                    #[trigger] day_alias_list(day as int, today as int)[k],
                ),
        decreases n - i,
    {
        if crate::text::starts_with(aliases[i].as_str(), q) {
            return true;
        }
        i = i + 1;
    }
    false
}

/// The suffix spellings of the meridiem: with and without a leading
/// space, `am`/`pm` and `a.m.`/`p.m.`.
pub open spec fn meridiem_suffixes(pm: bool) -> Seq<Seq<char>> {
    if pm {
        seq![" pm"@, "pm"@, " p.m."@, "p.m."@]
    } else {
        seq![" am"@, "am"@, " a.m."@, "a.m."@]
    }
}

/// The aliases a user may type for a wall-clock time: the 12-hour
/// renderings with and without a colon (and, on the full hour, the bare
/// hour), with each meridiem spelling. Times not on a half-hour boundary
/// have no aliases and never match.
pub open spec fn time_alias_list(h: int, mi: int) -> Seq<Seq<char>> {
    let hd = dec_digits(hour12(h) as nat);
    let pm = h >= 12;
    if mi == 0 {
        (meridiem_suffixes(pm).map_values(|sfx: Seq<char>| hd + ":00"@ + sfx) + meridiem_suffixes(
            pm,
        ).map_values(|sfx: Seq<char>| hd + "00"@ + sfx)) + meridiem_suffixes(pm).map_values(
            |sfx: Seq<char>| hd + sfx,
        )
    } else if mi == 30 {
        meridiem_suffixes(pm).map_values(|sfx: Seq<char>| hd + ":30"@ + sfx) + meridiem_suffixes(
            pm,
        ).map_values(|sfx: Seq<char>| hd + "30"@ + sfx)
    } else {
        Seq::empty()
    }
}

/// Whether a time token matches a wall-clock time: it is a prefix of one
/// of the time's aliases.
pub open spec fn time_token_matches(h: int, mi: int, q: Seq<char>) -> bool {
    exists|i: int|
        0 <= i < time_alias_list(h, mi).len() && q.is_prefix_of(#[trigger] time_alias_list(h, mi)[i])
}

fn push_with_suffixes(out: &mut Vec<String>, base: &str, mid: &str, pm: bool)
    ensures
        final(out)@.len() == old(out)@.len() + 4,
        forall|k: int| 0 <= k < old(out)@.len() ==> final(out)@[k] == old(out)@[k],
        forall|k: int|
            old(out)@.len() <= k < final(out)@.len() ==> (#[trigger] final(out)@[k])@ == base@
                + mid@ + meridiem_suffixes(pm)[k - old(out)@.len()],
{
    let mut a = String::new();
    a.append(base);
    a.append(mid);
    let b = a.clone();
    let c = a.clone();
    let d = a.clone();
    let mut s0 = a;
    let mut s1 = b;
    let mut s2 = c;
    let mut s3 = d;
    if pm {
        s0.append(" pm");
        s1.append("pm");
        s2.append(" p.m.");
        s3.append("p.m.");
    } else {
        s0.append(" am");
        s1.append("am");
        s2.append(" a.m.");
        s3.append("a.m.");
    }
    out.push(s0);
    out.push(s1);
    out.push(s2);
    out.push(s3);
}

/// The textual aliases a user may type for a wall-clock time.
pub fn time_aliases(h: u8, mi: u8) -> (r: Vec<String>)
    requires
        h < 24,
        mi < 60,
    ensures
        r@.len() == time_alias_list(h as int, mi as int).len(),
        forall|i: int|
            0 <= i < r@.len() ==> (#[trigger] r@[i])@ == time_alias_list(h as int, mi as int)[i],
{
    let pm = h >= 12;
    let h12: u8 = if h == 0 {
        12
    } else if h > 12 {
        h - 12
    } else {
        h
    };
    let hd = crate::strfmt::u64_string(h12 as u64);
    let mut r: Vec<String> = Vec::new();
    if mi == 0 {
        push_with_suffixes(&mut r, hd.as_str(), ":00", pm);
        push_with_suffixes(&mut r, hd.as_str(), "00", pm);
        push_with_suffixes(&mut r, hd.as_str(), "", pm);
        proof {
            let hdv = dec_digits(hour12(h as int) as nat);
            let lst = time_alias_list(h as int, mi as int);
            assert(lst.len() == 12);
            assert forall|i: int| 0 <= i < 12 implies (#[trigger] r@[i])@ == lst[i] by {
                assert(meridiem_suffixes(pm).len() == 4);
                if i < 4 {
                    assert(r@[i]@ =~= hdv + ":00"@ + meridiem_suffixes(pm)[i]);
                    assert(lst[i] == hdv + ":00"@ + meridiem_suffixes(pm)[i]);
                } else if i < 8 {
                    assert(r@[i]@ =~= hdv + "00"@ + meridiem_suffixes(pm)[i - 4]);
                    assert(lst[i] == hdv + "00"@ + meridiem_suffixes(pm)[i - 4]);
                } else {
                    reveal_strlit("");
                    assert(r@[i]@ =~= hdv + ""@ + meridiem_suffixes(pm)[i - 8]);
                    assert(lst[i] == hdv + meridiem_suffixes(pm)[i - 8]);
                    assert(hdv + ""@ + meridiem_suffixes(pm)[i - 8] =~= hdv + meridiem_suffixes(
                        pm,
                    )[i - 8]);
                }
            }
        }
    } else if mi == 30 {
        push_with_suffixes(&mut r, hd.as_str(), ":30", pm);
        push_with_suffixes(&mut r, hd.as_str(), "30", pm);
        proof {
            let hdv = dec_digits(hour12(h as int) as nat);
            let lst = time_alias_list(h as int, mi as int);
            assert(lst.len() == 8);
            assert forall|i: int| 0 <= i < 8 implies (#[trigger] r@[i])@ == lst[i] by {
                assert(meridiem_suffixes(pm).len() == 4);
                if i < 4 {
                    assert(r@[i]@ =~= hdv + ":30"@ + meridiem_suffixes(pm)[i]);
                    assert(lst[i] == hdv + ":30"@ + meridiem_suffixes(pm)[i]);
                } else {
                    assert(r@[i]@ =~= hdv + "30"@ + meridiem_suffixes(pm)[i - 4]);
                    assert(lst[i] == hdv + "30"@ + meridiem_suffixes(pm)[i - 4]);
                }
            }
        }
    }
    r
}

/// Whether the time token matches the wall-clock time, by prefix against
/// its aliases.
pub fn time_matches(h: u8, mi: u8, q: &str) -> (r: bool)
    requires
        h < 24,
        mi < 60,
    ensures
        r == time_token_matches(h as int, mi as int, q@),
{
    let aliases = time_aliases(h, mi);
    let n: usize = aliases.len();
    let mut i: usize = 0;
    while i < n
        invariant
            n == aliases@.len(),
            0 <= i <= n,
            h < 24,
            mi < 60,
            n == time_alias_list(h as int, mi as int).len(),
            forall|k: int|
                0 <= k < n ==> (#[trigger] aliases@[k])@ == time_alias_list(h as int, mi as int)[k],
            forall|k: int|
                0 <= k < i ==> !q@.is_prefix_of(#[trigger] time_alias_list(h as int, mi as int)[k]),
        decreases n - i,
    {
        if crate::text::starts_with(aliases[i].as_str(), q) {
            return true;
        }
        i = i + 1;
    }
    false
}

/// Whether a game at a timestamp matches both tokens of a query, in
/// Eastern time relative to today.
pub open spec fn game_time_matches(ts: int, today: int, dq: Seq<char>, tq: Seq<char>) -> bool {
    day_token_matches(day_et(ts), today, dq) && time_token_matches(hour_et(ts), minute_et(ts), tq)
}

/// Whether a game at a timestamp matches both the day and time tokens.
pub fn timestamp_matches(ts: i64, today: i64, dq: &str, tq: &str) -> (r: bool)
    requires
        crate::timeet::ts_in_range(ts as int),
    ensures
        r == game_time_matches(ts as int, today as int, dq@, tq@),
{
    let day = crate::timeet::exec_day_et(ts);
    let (h, mi) = crate::timeet::exec_hour_minute_et(ts);
    day_matches(day, today, dq) && time_matches(h, mi, tq)
}

} // verus!

use vstd::prelude::*;

verus! {

/// The 48 half-hour wall-clock slots of a day, in clock order.
pub open spec fn grid_choices() -> Seq<(u8, u8)> {
    Seq::new(48, |k: int| ((k / 2) as u8, if k % 2 == 0 { 0u8 } else { 30u8 }))
}

/// The evening slots suggested while several days are still possible.
pub open spec fn default_choices() -> Seq<(u8, u8)> {
    seq![(20u8, 30u8), (21u8, 30u8), (22u8, 30u8)]
}

/// The next eight days (today included) whose aliases the day token
/// matches, in calendar order.
pub open spec fn matching_days_from(today: int, dq: Seq<char>, i: int) -> Seq<i64>
    decreases 8 - i,
{
    if i < 0 || i >= 8 {
        Seq::empty()
    } else {
        (if day_token_matches(today + i, today, dq) {
            seq![(today + i) as i64]
        } else {
            Seq::empty()
        }) + matching_days_from(today, dq, i + 1)
    }
}

/// The suggested timestamps, walking the candidate days in order and the
/// slots of each day in clock order: a slot is offered when the time
/// token matches it (where one is applied at all), no game occupies it,
/// and it is not in the past beyond a half-hour grace.
pub open spec fn suggest_rec(
    days: Seq<i64>,
    choices: Seq<(u8, u8)>,
    di: int,
    ci: int,
    tq: Seq<char>,
    ft: bool,
    taken: Seq<i64>,
    min_ts: int,
) -> Seq<i64>
    decreases days.len() - di, choices.len() - ci,
{
    if di < 0 || ci < 0 || di >= days.len() {
        Seq::empty()
    } else if ci >= choices.len() {
        suggest_rec(days, choices, di + 1, 0, tq, ft, taken, min_ts)
    } else {
        let h = choices[ci].0 as int;
        let mi = choices[ci].1 as int;
        let ts = crate::timeet::spec_new_et(days[di] as int, h, mi);
        let keep = (!ft || time_token_matches(h, mi, tq)) && !taken.contains(ts as i64) && ts
            >= min_ts;
        (if keep {
            seq![ts as i64]
        } else {
            Seq::empty()
        }) + suggest_rec(days, choices, di, ci + 1, tq, ft, taken, min_ts)
    }
}

/// The candidate slots for scheduling a game, given the split query: the
/// day token narrows the next eight days; with one day left every
/// matching half-hour slot is offered, with several days left either the
/// default evening slots (no time token) or the matching slots of each
/// day; taken and long-past slots are dropped, and at most 25 suggestions
/// come back.
pub fn suggest_times(today: i64, dq: &str, tq: &str, taken: &Vec<i64>, now: i64) -> (r: Vec<i64>)
    requires
        1 <= today <= 2931900,
        18000 <= now <= crate::timeet::max_calendar_ts(),
    ensures
        ({
            let days = matching_days_from(today as int, dq@, 0);
            let min_ts = now - 1800;
            let full = if days.len() == 1 {
                suggest_rec(days, grid_choices(), 0, 0, tq@, true, taken@, min_ts as int)
            } else if tq@.len() == 0 {
                suggest_rec(days, default_choices(), 0, 0, tq@, false, taken@, min_ts as int)
            } else {
                suggest_rec(days, grid_choices(), 0, 0, tq@, true, taken@, min_ts as int)
            };
            r@ == if full.len() <= 25 {
                full
            } else {
                full.take(25)
            }
        }),
{
    let mut days: Vec<i64> = Vec::new();
    let mut i: usize = 0;
    while i < 8
        invariant
            1 <= today <= 2931900,
            0 <= i <= 8,
            days@ + matching_days_from(today as int, dq@, i as int) =~= matching_days_from(
                today as int,
                dq@,
                0,
            ),
            forall|k: int| 0 <= k < days@.len() ==> today <= #[trigger] days@[k] <= today + 7,
        decreases 8 - i,
    {
        let d: i64 = today + (i as i64);
        if day_matches(d, today, dq) {
            days.push(d);
        }
        i = i + 1;
    }
    let single = days.len() == 1;
    let use_grid = single || tq.unicode_len() > 0;
    let mut choices: Vec<(u8, u8)> = Vec::new();
    if use_grid {
        let mut k: usize = 0;
        while k < 48
            invariant
                0 <= k <= 48,
                choices@.len() == k,
                forall|j: int| 0 <= j < k ==> choices@[j] == grid_choices()[j],
            decreases 48 - k,
        {
            let h: u8 = (k / 2) as u8;
            let mi: u8 = if k % 2 == 0 {
                0
            } else {
                30
            };
            choices.push((h, mi));
            k = k + 1;
        }
        proof {
            assert(choices@ =~= grid_choices());
        }
    } else {
        choices.push((20, 30));
        choices.push((21, 30));
        choices.push((22, 30));
        proof {
            assert(choices@ =~= default_choices());
        }
    }
    let ft = use_grid;
    let min_ts: i64 = now - 1800;
    let ghost dv = days@;
    let ghost cv = choices@;
    let nd: usize = days.len();
    let nc: usize = choices.len();
    let mut r: Vec<i64> = Vec::new();
    let mut di: usize = 0;
    while di < nd
        invariant
            dv == days@,
            cv == choices@,
            nd == days@.len(),
            nc == choices@.len(),
            0 <= di <= nd,
            forall|k: int| 0 <= k < days@.len() ==> 1 <= #[trigger] days@[k] <= 2931907,
            forall|j: int| 0 <= j < nc ==> (#[trigger] choices@[j]).0 < 24 && choices@[j].1 < 60,
            r@ + suggest_rec(dv, cv, di as int, 0, tq@, ft, taken@, min_ts as int) =~= suggest_rec(
                dv,
                cv,
                0,
                0,
                tq@,
                ft,
                taken@,
                min_ts as int,
            ),
        decreases nd - di,
    {
        let mut ci: usize = 0;
        while ci < nc
            invariant
                dv == days@,
                cv == choices@,
                nd == days@.len(),
                nc == choices@.len(),
                0 <= di < nd,
                0 <= ci <= nc,
                forall|k: int| 0 <= k < days@.len() ==> 1 <= #[trigger] days@[k] <= 2931907,
                forall|j: int|
                    0 <= j < nc ==> (#[trigger] choices@[j]).0 < 24 && choices@[j].1 < 60,
                r@ + suggest_rec(dv, cv, di as int, ci as int, tq@, ft, taken@, min_ts as int)
                    =~= suggest_rec(dv, cv, 0, 0, tq@, ft, taken@, min_ts as int),
            decreases nc - ci,
        {
            let (h, mi) = choices[ci];
            let ts = crate::timeet::exec_new_et(days[di], h, mi);
            let ok_time = if ft {
                time_matches(h, mi, tq)
            } else {
                true
            };
            let keep = ok_time && !contains_i64(taken, ts) && ts >= min_ts;
            if keep {
                r.push(ts);
            }
            proof {
                assert(suggest_rec(dv, cv, di as int, ci as int, tq@, ft, taken@, min_ts as int)
                    == (if keep {
                    seq![ts]
                } else {
                    Seq::<i64>::empty()
                }) + suggest_rec(dv, cv, di as int, ci + 1, tq@, ft, taken@, min_ts as int));
            }
            ci = ci + 1;
        }
        proof {
            assert(suggest_rec(dv, cv, di as int, nc as int, tq@, ft, taken@, min_ts as int)
                == suggest_rec(dv, cv, di + 1, 0, tq@, ft, taken@, min_ts as int));
        }
        di = di + 1;
    }
    proof {
        assert(suggest_rec(dv, cv, nd as int, 0, tq@, ft, taken@, min_ts as int)
            =~= Seq::<i64>::empty());
        assert(r@ =~= suggest_rec(dv, cv, 0, 0, tq@, ft, taken@, min_ts as int));
    }
    if r.len() > 25 {
        r.truncate(25);
    }
    r
}

/// Whether a timestamp occurs in a list.
fn contains_i64(v: &Vec<i64>, x: i64) -> (r: bool)
    ensures
        r == v@.contains(x),
{
    let n: usize = v.len();
    let mut i: usize = 0;
    while i < n
        invariant
            n == v@.len(),
            0 <= i <= n,
            forall|j: int| 0 <= j < i ==> v@[j] != x,
        decreases n - i,
    {
        if v[i] == x {
            assert(v@[i as int] == x);
            return true;
        }
        i = i + 1;
    }
    false
}

} // verus!

verus! {

/// The positions (within a pre-selected index list) of the games whose
/// day and time both match the query tokens, in the given order.
pub open spec fn matching_games_from(
    s: Seq<crate::game::Game>,
    idxs: Seq<usize>,
    k: int,
    today: int,
    dq: Seq<char>,
    tq: Seq<char>,
) -> Seq<usize>
    decreases idxs.len() - k,
{
    if k < 0 || k >= idxs.len() {
        Seq::empty()
    } else {
        (if game_time_matches(s[idxs[k] as int].timestamp as int, today, dq, tq) {
            seq![idxs[k]]
        } else {
            Seq::empty()
        }) + matching_games_from(s, idxs, k + 1, today, dq, tq)
    }
}

/// Filters a selection of games down to those matching both query tokens,
/// keeping their order and at most 25 of them.
pub fn filter_games(
    games: &crate::schedule::GameList,
    idxs: &Vec<usize>,
    today: i64,
    dq: &str,
    tq: &str,
) -> (r: Vec<usize>)
    requires
        games.wf(),
        forall|a: int| 0 <= a < idxs@.len() ==> idxs@[a] < games@.len(),
    ensures
        ({
            let full = matching_games_from(games@, idxs@, 0, today as int, dq@, tq@);
            r@ == if full.len() <= 25 {
                full
            } else {
                full.take(25)
            }
        }),
{
    let n: usize = idxs.len();
    let mut r: Vec<usize> = Vec::new();
    let mut k: usize = 0;
    while k < n
        invariant
            games.wf(),
            n == idxs@.len(),
            forall|a: int| 0 <= a < idxs@.len() ==> idxs@[a] < games@.len(),
            0 <= k <= n,
            r@ + matching_games_from(games@, idxs@, k as int, today as int, dq@, tq@)
                =~= matching_games_from(games@, idxs@, 0, today as int, dq@, tq@),
        decreases n - k,
    {
        let i = idxs[k];
        let g = games.get(i);
        if timestamp_matches(g.timestamp, today, dq, tq) {
            r.push(i);
        }
        k = k + 1;
    }
    proof {
        assert(matching_games_from(games@, idxs@, n as int, today as int, dq@, tq@)
            =~= Seq::<usize>::empty());
        assert(r@ =~= matching_games_from(games@, idxs@, 0, today as int, dq@, tq@));
    }
    if r.len() > 25 {
        r.truncate(25);
    }
    r
}

/// The timestamps of the games hosted on a reservation, in schedule
/// order.
pub open spec fn game_times_for(
    s: Seq<crate::game::Game>,
    id: crate::ids::ReservationId,
    k: int,
) -> Seq<i64>
    decreases s.len() - k,
{
    if k < 0 || k >= s.len() {
        Seq::empty()
    } else {
        (if s[k].server == crate::game::GameServer::Hosted(id) {
            seq![s[k].timestamp]
        } else {
            Seq::empty()
        }) + game_times_for(s, id, k + 1)
    }
}

/// Whether a game is hosted on the given reservation.
pub open spec fn hosted_on(g: crate::game::Game, id: crate::ids::ReservationId) -> bool {
    g.server == crate::game::GameServer::Hosted(id)
}

/// The distinct reservations that back at least one game and are in the
/// allowed set, in ascending id order.
pub fn hosted_reservations(
    games: &crate::schedule::GameList,
    allowed: &Vec<crate::ids::ReservationId>,
) -> (r: Vec<crate::ids::ReservationId>)
    ensures
        forall|a: int, b: int| 0 <= a < b < r@.len() ==> r@[a].0 < r@[b].0,
        forall|a: int|
            0 <= a < r@.len() ==> allowed@.contains(#[trigger] r@[a]) && game_times_for(
                games@,
                r@[a],
                0,
            ).len() > 0,
        forall|id: crate::ids::ReservationId|
            allowed@.contains(id) && #[trigger] game_times_for(games@, id, 0).len() > 0
                ==> r@.contains(id),
{
    let n: usize = games.len();
    let mut r: Vec<crate::ids::ReservationId> = Vec::new();
    let mut k: usize = 0;
    while k < n
        invariant
            n == games@.len(),
            0 <= k <= n,
            forall|a: int, b: int| 0 <= a < b < r@.len() ==> r@[a].0 < r@[b].0,
            forall|a: int|
                0 <= a < r@.len() ==> allowed@.contains(#[trigger] r@[a]) && game_times_for(
                    games@,
                    r@[a],
                    0,
                ).len() > 0,
            forall|id: crate::ids::ReservationId, j: int|
                0 <= j < k && allowed@.contains(id) && #[trigger] hosted_on(games@[j], id)
                    ==> r@.contains(id),
        decreases n - k,
    {
        let g = games.get(k);
        match &g.server {
            crate::game::GameServer::Hosted(idr) => {
                let id = *idr;
                proof {
                    assert(games@[k as int].server == crate::game::GameServer::Hosted(id));
                }
                if contains_id(allowed, id) && !contains_id(&r, id) {
                    // sorted insert by numeric id
                    let m: usize = r.len();
                    let mut p: usize = 0;
                    while p < m && r[p].0 < id.0
                        invariant
                            m == r@.len(),
                            0 <= p <= m,
                            forall|a: int| 0 <= a < p ==> r@[a].0 < id.0,
                        decreases m - p,
                    {
                        p = p + 1;
                    }
                    let ghost pre = r@;
                    let ghost pos = p as int;
                    proof {
                        pre.insert_ensures(pos, id);
                    }
                    r.insert(p, id);
                    proof {
                        assert(game_times_for(games@, id, 0).len() > 0) by {
                            lemma_game_times_nonempty(games@, id, k as int);
                        }
                        assert forall|a: int, b: int| 0 <= a < b < r@.len() implies r@[a].0
                            < r@[b].0 by {
                            if b < pos {
                            } else if a < pos && b == pos {
                            } else if a == pos {
                                assert(r@[b] == pre[b - 1]);
                                assert(!(pre[pos].0 < id.0));
                                assert(!pre.contains(id));
                                assert(pre[pos] != id) by {
                                    assert(pre[pos] == pre[pos]);
                                    if pre[pos] == id {
                                        assert(pre.contains(id));
                                    }
                                }
                                assert(id.0 < pre[pos].0);
                                if b - 1 > pos {
                                    assert(pre[pos].0 < pre[b - 1].0);
                                }
                            } else if a < pos && b > pos {
                                assert(r@[a] == pre[a]);
                                assert(r@[b] == pre[b - 1]);
                            } else {
                                assert(r@[a] == pre[a - 1]);
                                assert(r@[b] == pre[b - 1]);
                            }
                        }
                        assert forall|a: int| 0 <= a < r@.len() implies allowed@.contains(
                            #[trigger] r@[a],
                        ) && game_times_for(games@, r@[a], 0).len() > 0 by {
                            if a < pos {
                                assert(r@[a] == pre[a]);
                            } else if a == pos {
                                assert(r@[a] == id);
                            } else {
                                assert(r@[a] == pre[a - 1]);
                            }
                        }
                        assert forall|id2: crate::ids::ReservationId, j: int|
                            0 <= j < k + 1 && allowed@.contains(id2) && #[trigger] hosted_on(
                            games@[j],
                            id2,
                        ) implies r@.contains(id2) by {
                            if j == k {
                                assert(id2 == id);
                                assert(r@[pos] == id);
                            } else {
                                assert(pre.contains(id2));
                                let w = choose|w: int| 0 <= w < pre.len() && pre[w] == id2;
                                if w < pos {
                                    assert(r@[w] == id2);
                                } else {
                                    assert(r@[w + 1] == id2);
                                }
                            }
                        }
                    }
                } else {
                    proof {
                        assert forall|id2: crate::ids::ReservationId, j: int|
                            0 <= j < k + 1 && allowed@.contains(id2) && #[trigger] hosted_on(
                            games@[j],
                            id2,
                        ) implies r@.contains(id2) by {
                            if j == k {
                                assert(id2 == id);
                            }
                        }
                    }
                }
            },
            _ => {
                proof {
                    assert forall|id2: crate::ids::ReservationId, j: int|
                        0 <= j < k + 1 && allowed@.contains(id2) && #[trigger] hosted_on(
                        games@[j],
                        id2,
                    ) implies r@.contains(id2) by {
                        if j == k {
                            assert(games@[k as int].server == crate::game::GameServer::Hosted(
                                id2,
                            ));
                            assert(false);
                        }
                    }
                }
            },
        }
        k = k + 1;
    }
    proof {
        assert forall|id: crate::ids::ReservationId|
            allowed@.contains(id) && #[trigger] game_times_for(games@, id, 0).len()
                > 0 implies r@.contains(id) by {
            lemma_game_times_witness(games@, id, 0);
            let j = choose|j: int|
                0 <= j < games@.len() && #[trigger] games@[j].server
                    == crate::game::GameServer::Hosted(id);
            assert(hosted_on(games@[j], id));
        }
    }
    r
}

proof fn lemma_game_times_nonempty(s: Seq<crate::game::Game>, id: crate::ids::ReservationId, j: int)
    requires
        0 <= j < s.len(),
        s[j].server == crate::game::GameServer::Hosted(id),
    ensures
        game_times_for(s, id, 0).len() > 0,
{
    lemma_game_times_prefix(s, id, 0, j);
}

proof fn lemma_game_times_prefix(
    s: Seq<crate::game::Game>,
    id: crate::ids::ReservationId,
    k: int,
    j: int,
)
    requires
        0 <= k <= j < s.len(),
        s[j].server == crate::game::GameServer::Hosted(id),
    ensures
        game_times_for(s, id, k).len() > 0,
    decreases j - k,
{
    if k < j {
        lemma_game_times_prefix(s, id, k + 1, j);
    }
}

proof fn lemma_game_times_witness(s: Seq<crate::game::Game>, id: crate::ids::ReservationId, k: int)
    requires
        0 <= k <= s.len(),
        game_times_for(s, id, k).len() > 0,
    ensures
        exists|j: int|
            k <= j < s.len() && #[trigger] s[j].server == crate::game::GameServer::Hosted(id),
    decreases s.len() - k,
{
    if k < s.len() {
        if s[k].server == crate::game::GameServer::Hosted(id) {
        } else {
            lemma_game_times_witness(s, id, k + 1);
        }
    }
}

fn contains_id(v: &Vec<crate::ids::ReservationId>, x: crate::ids::ReservationId) -> (r: bool)
    ensures
        r == v@.contains(x),
{
    let n: usize = v.len();
    let mut i: usize = 0;
    while i < n
        invariant
            n == v@.len(),
            0 <= i <= n,
            forall|j: int| 0 <= j < i ==> v@[j] != x,
        decreases n - i,
    {
        if v[i] == x {
            assert(v@[i as int] == x);
            return true;
        }
        i = i + 1;
    }
    false
}

/// The timestamps of the games a reservation backs, in schedule order.
pub fn times_for_reservation(
    games: &crate::schedule::GameList,
    id: crate::ids::ReservationId,
) -> (r: Vec<i64>)
    ensures
        r@ == game_times_for(games@, id, 0),
{
    let n: usize = games.len();
    let mut r: Vec<i64> = Vec::new();
    let mut k: usize = 0;
    while k < n
        invariant
            n == games@.len(),
            0 <= k <= n,
            r@ + game_times_for(games@, id, k as int) =~= game_times_for(games@, id, 0),
        decreases n - k,
    {
        let g = games.get(k);
        let hosted_here = match &g.server {
            crate::game::GameServer::Hosted(h) => h.0 == id.0,
            _ => false,
        };
        proof {
            if hosted_here {
                assert(games@[k as int].server == crate::game::GameServer::Hosted(id));
            }
        }
        if hosted_here {
            r.push(g.timestamp);
        }
        k = k + 1;
    }
    proof {
        assert(game_times_for(games@, id, n as int) =~= Seq::<i64>::empty());
        assert(r@ =~= game_times_for(games@, id, 0));
    }
    r
}

/// Whether a reservation group answers the query: some member's day and
/// some member's time match their tokens, or the reservation id's decimal
/// rendering begins with the raw query.
pub open spec fn group_matches(
    id: crate::ids::ReservationId,
    times: Seq<i64>,
    today: int,
    q: Seq<char>,
    dq: Seq<char>,
    tq: Seq<char>,
) -> bool {
    let date_hit = exists|i: int|
        0 <= i < times.len() && day_token_matches(day_et(#[trigger] times[i] as int), today, dq);
    let time_hit = exists|i: int|
        0 <= i < times.len() && time_token_matches(
            hour_et(#[trigger] times[i] as int),
            minute_et(times[i] as int),
            tq,
        );
    (date_hit && time_hit) || q.is_prefix_of(crate::strfmt::int_digits(id.0 as int))
}

/// Decides whether one reservation group answers the query.
pub fn reservation_group_matches(
    id: crate::ids::ReservationId,
    times: &Vec<i64>,
    today: i64,
    q: &str,
    dq: &str,
    tq: &str,
) -> (r: bool)
    requires
        forall|i: int| 0 <= i < times@.len() ==> crate::timeet::ts_in_range(times@[i] as int),
    ensures
        r == group_matches(id, times@, today as int, q@, dq@, tq@),
{
    let n: usize = times.len();
    let mut date_hit = false;
    let mut time_hit = false;
    let mut i: usize = 0;
    while i < n
        invariant
            n == times@.len(),
            0 <= i <= n,
            forall|j: int| 0 <= j < times@.len() ==> crate::timeet::ts_in_range(times@[j] as int),
            date_hit == exists|j: int|
                0 <= j < i && day_token_matches(
                    day_et(#[trigger] times@[j] as int),
                    today as int,
                    dq@,
                ),
            time_hit == exists|j: int|
                0 <= j < i && time_token_matches(
                    hour_et(#[trigger] times@[j] as int),
                    minute_et(times@[j] as int),
                    tq@,
                ),
        decreases n - i,
    {
        let ts = times[i];
        let day = crate::timeet::exec_day_et(ts);
        let (h, mi) = crate::timeet::exec_hour_minute_et(ts);
        if day_matches(day, today, dq) {
            date_hit = true;
            proof {
                assert(day_token_matches(day_et(times@[i as int] as int), today as int, dq@));
            }
        }
        if time_matches(h, mi, tq) {
            time_hit = true;
            proof {
                assert(time_token_matches(
                    hour_et(times@[i as int] as int),
                    minute_et(times@[i as int] as int),
                    tq@,
                ));
            }
        }
        i = i + 1;
    }
    if date_hit && time_hit {
        return true;
    }
    let ds = crate::strfmt::i32_string(id.0);
    crate::text::starts_with(ds.as_str(), q)
}

} // verus!

verus! {

proof fn lemma_prefix_refl(q: Seq<char>)
    ensures
        q.is_prefix_of(q),
{
    assert(q.subrange(0, q.len() as int) =~= q);
}

proof fn lemma_not_prefix(q: Seq<char>, a: Seq<char>, i: int)
    requires
        q.len() > a.len() || (0 <= i < q.len() && i < a.len() && q[i] != a[i]),
    ensures
        !q.is_prefix_of(a),
{
    if q.is_prefix_of(a) {
        assert(a.subrange(0, q.len() as int) == q);
        if q.len() <= a.len() {
            assert(a.subrange(0, q.len() as int)[i] == a[i]);
        }
    }
}

/// Day-alias matching law: a date's weekday name always matches it;
/// `today` and `tdy` match exactly the current date, `tomorrow` and
/// `tmrw` exactly the following date; on any other date only the weekday
/// name matches among these.
pub proof fn lemma_day_alias_matching(day: int, today: int)
    ensures
        day_token_matches(day, today, weekday_lower_name(weekday_of_day(day))),
        day_token_matches(day, today, "today"@) <==> day == today,
        day_token_matches(day, today, "tdy"@) <==> day == today,
        day_token_matches(day, today, "tomorrow"@) <==> day == today + 1,
        day_token_matches(day, today, "tmrw"@) <==> day == today + 1,
{
    reveal_strlit("sunday");
    reveal_strlit("monday");
    reveal_strlit("tuesday");
    reveal_strlit("wednesday");
    reveal_strlit("thursday");
    reveal_strlit("friday");
    reveal_strlit("saturday");
    reveal_strlit("today");
    reveal_strlit("tdy");
    reveal_strlit("tomorrow");
    reveal_strlit("tmrw");
    let w = weekday_of_day(day);
    let wn = weekday_lower_name(w);
    let lst = day_alias_list(day, today);
    assert(0 <= w < 7);
    // the weekday name is its own prefix, and it heads the alias list
    lemma_prefix_refl(wn);
    assert(lst[0] == wn);
    assert(day_token_matches(day, today, wn));
    // the special tokens are their own prefixes
    lemma_prefix_refl("today"@);
    lemma_prefix_refl("tdy"@);
    lemma_prefix_refl("tomorrow"@);
    lemma_prefix_refl("tmrw"@);
    if day == today {
        assert(lst[1] == "today"@);
        assert(day_token_matches(day, today, "today"@));
        assert(lst[2] == "tdy"@);
        assert(day_token_matches(day, today, "tdy"@));
    }
    if day == today + 1 {
        assert(lst[1] == "tomorrow"@);
        assert(day_token_matches(day, today, "tomorrow"@));
        assert(lst[2] == "tmrw"@);
        assert(day_token_matches(day, today, "tmrw"@));
    }
    // none of the special tokens is a prefix of a weekday name
    if w == 0 {
        lemma_not_prefix("today"@, wn, 0);
        lemma_not_prefix("tdy"@, wn, 0);
        lemma_not_prefix("tomorrow"@, wn, 0);
        lemma_not_prefix("tmrw"@, wn, 0);
    } else if w == 1 {
        lemma_not_prefix("today"@, wn, 0);
        lemma_not_prefix("tdy"@, wn, 0);
        lemma_not_prefix("tomorrow"@, wn, 0);
        lemma_not_prefix("tmrw"@, wn, 0);
    } else if w == 2 {
        lemma_not_prefix("today"@, wn, 1);
        lemma_not_prefix("tdy"@, wn, 1);
        lemma_not_prefix("tomorrow"@, wn, 1);
        lemma_not_prefix("tmrw"@, wn, 1);
    } else if w == 3 {
        lemma_not_prefix("today"@, wn, 0);
        lemma_not_prefix("tdy"@, wn, 0);
        lemma_not_prefix("tomorrow"@, wn, 0);
        lemma_not_prefix("tmrw"@, wn, 0);
    } else if w == 4 {
        lemma_not_prefix("today"@, wn, 1);
        lemma_not_prefix("tdy"@, wn, 1);
        lemma_not_prefix("tomorrow"@, wn, 1);
        lemma_not_prefix("tmrw"@, wn, 1);
    } else if w == 5 {
        lemma_not_prefix("today"@, wn, 0);
        lemma_not_prefix("tdy"@, wn, 0);
        lemma_not_prefix("tomorrow"@, wn, 0);
        lemma_not_prefix("tmrw"@, wn, 0);
    } else {
        lemma_not_prefix("today"@, wn, 0);
        lemma_not_prefix("tdy"@, wn, 0);
        lemma_not_prefix("tomorrow"@, wn, 0);
        lemma_not_prefix("tmrw"@, wn, 0);
    }
    // nor do the today-tokens match the tomorrow-aliases, or conversely
    lemma_not_prefix("today"@, "tomorrow"@, 2);
    lemma_not_prefix("today"@, "tmrw"@, 1);
    lemma_not_prefix("tdy"@, "tomorrow"@, 1);
    lemma_not_prefix("tdy"@, "tmrw"@, 1);
    lemma_not_prefix("tomorrow"@, "today"@, 2);
    lemma_not_prefix("tomorrow"@, "tdy"@, 1);
    lemma_not_prefix("tmrw"@, "today"@, 1);
    lemma_not_prefix("tmrw"@, "tdy"@, 1);
    if day != today {
        assert(!day_token_matches(day, today, "today"@)) by {
            if day_token_matches(day, today, "today"@) {
                let i = choose|i: int|
                    0 <= i < lst.len() && "today"@.is_prefix_of(#[trigger] lst[i]);
            }
        }
        assert(!day_token_matches(day, today, "tdy"@)) by {
            if day_token_matches(day, today, "tdy"@) {
                let i = choose|i: int| 0 <= i < lst.len() && "tdy"@.is_prefix_of(#[trigger] lst[i]);
            }
        }
    }
    if day != today + 1 {
        assert(!day_token_matches(day, today, "tomorrow"@)) by {
            if day_token_matches(day, today, "tomorrow"@) {
                let i = choose|i: int|
                    0 <= i < lst.len() && "tomorrow"@.is_prefix_of(#[trigger] lst[i]);
            }
        }
        assert(!day_token_matches(day, today, "tmrw"@)) by {
            if day_token_matches(day, today, "tmrw"@) {
                let i = choose|i: int|
                    0 <= i < lst.len() && "tmrw"@.is_prefix_of(#[trigger] lst[i]);
            }
        }
    }
}

} // verus!

verus! {

/// Renders one reservation group as an autocomplete label: the id,
/// followed in parentheses by the comma-joined relative renderings of
/// its games.
pub fn reservation_choice_label(
    id: crate::ids::ReservationId,
    times: &Vec<i64>,
    now: i64,
) -> (r: String)
    requires
        forall|i: int| 0 <= i < times@.len() ==> crate::timeet::ts_in_range(times@[i] as int),
        18000 <= now,
    ensures
        exists|labels: Seq<Seq<char>>|
            {
                &&& labels.len() == times@.len()
                &&& (forall|k: int|
                    0 <= k < labels.len() ==> crate::timeet::relative_string_ok(
                        times@[k] as int,
                        now as int,
                        #[trigger] labels[k],
                    ))
                &&& r@ == crate::strfmt::int_digits(id.0 as int) + " ("@
                    + crate::strfmt::join_seqs(labels, ", "@) + ")"@
            },
{
    let n: usize = times.len();
    let mut parts: Vec<String> = Vec::new();
    let mut i: usize = 0;
    while i < n
        invariant
            n == times@.len(),
            forall|j: int| 0 <= j < times@.len() ==> crate::timeet::ts_in_range(times@[j] as int),
            18000 <= now,
            0 <= i <= n,
            parts@.len() == i,
            forall|k: int|
                0 <= k < i ==> crate::timeet::relative_string_ok(
                    times@[k] as int,
                    now as int,
                    (#[trigger] parts@[k])@,
                ),
        decreases n - i,
    {
        parts.push(crate::timeet::string_et_relative(times[i], now));
        i = i + 1;
    }
    let mut r = crate::strfmt::i32_string(id.0);
    r.append(" (");
    let joined = crate::strfmt::join_strings(&parts, ", ");
    r.append(joined.as_str());
    r.append(")");
    proof {
        let labels = parts@.map_values(|p: String| p@);
        assert(labels.len() == times@.len());
        assert(forall|k: int|
            0 <= k < labels.len() ==> crate::timeet::relative_string_ok(
                times@[k] as int,
                now as int,
                #[trigger] labels[k],
            ));
        assert(r@ =~= crate::strfmt::int_digits(id.0 as int) + " ("@ + crate::strfmt::join_seqs(
            labels,
            ", "@,
        ) + ")"@);
    }
    r
}

} // verus!

verus! {

proof fn lemma_game_times_in_range(s: Seq<crate::game::Game>, id: crate::ids::ReservationId, k: int)
    requires
        forall|j: int| 0 <= j < s.len() ==> crate::timeet::ts_in_range((#[trigger] s[j]).timestamp as int),
        0 <= k <= s.len(),
    ensures
        forall|x: int|
            0 <= x < game_times_for(s, id, k).len() ==> crate::timeet::ts_in_range(
                #[trigger] game_times_for(s, id, k)[x] as int,
            ),
    decreases s.len() - k,
{
    if k < s.len() {
        lemma_game_times_in_range(s, id, k + 1);
        let rest = game_times_for(s, id, k + 1);
        assert forall|x: int|
            0 <= x < game_times_for(s, id, k).len() implies crate::timeet::ts_in_range(
            #[trigger] game_times_for(s, id, k)[x] as int,
        ) by {
            if s[k].server == crate::game::GameServer::Hosted(id) {
                if x == 0 {
                    assert(game_times_for(s, id, k)[0] == s[k].timestamp);
                } else {
                    assert(game_times_for(s, id, k)[x] == rest[x - 1]);
                }
            } else {
                assert(game_times_for(s, id, k)[x] == rest[x]);
            }
        }
    }
}

/// Whether a string is a well-formed label for a reservation group: the
/// id's decimal rendering, then the comma-joined relative renderings of
/// the games the reservation backs, in parentheses.
pub open spec fn reservation_label_ok(
    games: Seq<crate::game::Game>,
    id: crate::ids::ReservationId,
    s: Seq<char>,
    now: int,
) -> bool {
    exists|labels: Seq<Seq<char>>|
        {
            &&& labels.len() == game_times_for(games, id, 0).len()
            &&& (forall|x: int|
                0 <= x < labels.len() ==> crate::timeet::relative_string_ok(
                    game_times_for(games, id, 0)[x] as int,
                    now,
                    #[trigger] labels[x],
                ))
            &&& s == crate::strfmt::int_digits(id.0 as int) + " ("@ + crate::strfmt::join_seqs(
                labels,
                ", "@,
            ) + ")"@
        }
}

/// One reservation-group autocomplete choice: the backing reservation
/// and its rendered label.
pub struct ReservationChoice {
    pub id: crate::ids::ReservationId,
    pub label: String,
}

/// The reservation autocomplete, composed end to end: the distinct
/// allowed reservations backing games, in ascending id order, narrowed
/// to the groups that answer the query, rendered and capped at 25.
#[verifier::rlimit(60)]
pub fn autocomplete_reservations(
    games: &crate::schedule::GameList,
    allowed: &Vec<crate::ids::ReservationId>,
    today: i64,
    now: i64,
    q: &str,
    dq: &str,
    tq: &str,
) -> (r: Vec<ReservationChoice>)
    requires
        games.wf(),
        18000 <= now,
    ensures
        r@.len() <= 25,
        forall|a: int|
            0 <= a < r@.len() ==> {
                &&& allowed@.contains((#[trigger] r@[a]).id)
                &&& game_times_for(games@, r@[a].id, 0).len() > 0
                &&& group_matches(
                    r@[a].id,
                    game_times_for(games@, r@[a].id, 0),
                    today as int,
                    q@,
                    dq@,
                    tq@,
                )
            },
        forall|a: int, b: int| 0 <= a < b < r@.len() ==> r@[a].id.0 < r@[b].id.0,
        forall|a: int|
            0 <= a < r@.len() ==> reservation_label_ok(
                games@,
                (#[trigger] r@[a]).id,
                r@[a].label@,
                now as int,
            ),
        r@.len() < 25 ==> forall|id: crate::ids::ReservationId|
            allowed@.contains(id) && #[trigger] game_times_for(games@, id, 0).len() > 0
                && group_matches(id, game_times_for(games@, id, 0), today as int, q@, dq@, tq@)
                ==> exists|a: int| 0 <= a < r@.len() && r@[a].id == id,
{
    let ids = hosted_reservations(games, allowed);
    let m: usize = ids.len();
    let mut r: Vec<ReservationChoice> = Vec::new();
    let mut k: usize = 0;
    while k < m
        invariant
            games.wf(),
            18000 <= now,
            m == ids@.len(),
            0 <= k <= m,
            forall|a: int, b: int| 0 <= a < b < ids@.len() ==> ids@[a].0 < ids@[b].0,
            forall|a: int|
                0 <= a < ids@.len() ==> allowed@.contains(#[trigger] ids@[a]) && game_times_for(
                    games@,
                    ids@[a],
                    0,
                ).len() > 0,
            forall|id: crate::ids::ReservationId|
                allowed@.contains(id) && #[trigger] game_times_for(games@, id, 0).len() > 0
                    ==> ids@.contains(id),
            r@.len() <= 25,
            forall|a: int|
                0 <= a < r@.len() ==> {
                    &&& allowed@.contains((#[trigger] r@[a]).id)
                    &&& game_times_for(games@, r@[a].id, 0).len() > 0
                    &&& group_matches(
                        r@[a].id,
                        game_times_for(games@, r@[a].id, 0),
                        today as int,
                        q@,
                        dq@,
                        tq@,
                    )
                    &&& exists|j: int| 0 <= j < k && ids@[j] == r@[a].id
                },
            forall|a: int, b: int| 0 <= a < b < r@.len() ==> r@[a].id.0 < r@[b].id.0,
            forall|a: int|
                0 <= a < r@.len() ==> reservation_label_ok(
                    games@,
                    (#[trigger] r@[a]).id,
                    r@[a].label@,
                    now as int,
                ),
            r@.len() < 25 ==> forall|j: int|
                0 <= j < k && group_matches(
                    #[trigger] ids@[j],
                    game_times_for(games@, ids@[j], 0),
                    today as int,
                    q@,
                    dq@,
                    tq@,
                ) ==> exists|a: int| 0 <= a < r@.len() && r@[a].id == ids@[j],
        decreases m - k,
    {
        if r.len() >= 25 {
            return r;
        }
        let id = ids[k];
        let times = times_for_reservation(games, id);
        proof {
            lemma_game_times_in_range(games@, id, 0);
        }
        let ghost pre = r@;
        let matched = reservation_group_matches(id, &times, today, q, dq, tq);
        if matched {
            let label = reservation_choice_label(id, &times, now);
            proof {
                assert(times@ == game_times_for(games@, id, 0));
                assert(reservation_label_ok(games@, id, label@, now as int));
            }
            r.push(ReservationChoice { id, label });
            proof {
                assert(r@[pre.len() as int].id == ids@[k as int]);
                assert forall|a: int, b: int| 0 <= a < b < r@.len() implies r@[a].id.0
                    < r@[b].id.0 by {
                    if b == pre.len() {
                        let j = choose|j: int| 0 <= j < k && ids@[j] == pre[a].id;
                        assert(ids@[j].0 < ids@[k as int].0);
                    }
                }
                if r@.len() < 25 {
                    assert forall|j: int|
                        0 <= j < k + 1 && group_matches(
                            #[trigger] ids@[j],
                            game_times_for(games@, ids@[j], 0),
                            today as int,
                            q@,
                            dq@,
                            tq@,
                        ) implies exists|a: int| 0 <= a < r@.len() && r@[a].id == ids@[j] by {
                        if j == k {
                            assert(r@[pre.len() as int].id == ids@[j]);
                        } else {
                            let a = choose|a: int|
                                0 <= a < pre.len() && pre[a].id == ids@[j];
                            assert(r@[a].id == ids@[j]);
                        }
                    }
                }
            }
        } else {
            proof {
                if r@.len() < 25 {
                    assert forall|j: int|
                        0 <= j < k + 1 && group_matches(
                            #[trigger] ids@[j],
                            game_times_for(games@, ids@[j], 0),
                            today as int,
                            q@,
                            dq@,
                            tq@,
                        ) implies exists|a: int| 0 <= a < r@.len() && r@[a].id == ids@[j] by {
                        if j == k {
                            assert(times@ == game_times_for(games@, ids@[k as int], 0));
                            assert(false);
                        } else {
                            let a = choose|a: int|
                                0 <= a < pre.len() && pre[a].id == ids@[j];
                            assert(r@[a].id == ids@[j]);
                        }
                    }
                }
            }
        }
        k = k + 1;
    }
    proof {
        if r@.len() < 25 {
            assert forall|id: crate::ids::ReservationId|
                allowed@.contains(id) && #[trigger] game_times_for(games@, id, 0).len() > 0
                    && group_matches(
                    id,
                    game_times_for(games@, id, 0),
                    today as int,
                    q@,
                    dq@,
                    tq@,
                ) implies exists|a: int| 0 <= a < r@.len() && r@[a].id == id by {
                assert(ids@.contains(id));
                let j = choose|j: int| 0 <= j < ids@.len() && ids@[j] == id;
                assert(group_matches(
                    ids@[j],
                    game_times_for(games@, ids@[j], 0),
                    today as int,
                    q@,
                    dq@,
                    tq@,
                ));
            }
        }
    }
    r
}

} // verus!
