use scrimbot::game::{ConnectInfo, Game, GameFormat, GameServer, Scrim, ScrimOrMatch};
use scrimbot::ids::{OpponentUserId, ReservationId, TeamGuildId};
use scrimbot::maps::{GameMap, MapList};
use scrimbot::query::autocomplete_reservations;
use scrimbot::schedule::GameList;
use scrimbot::mapsearch::AllMaps;
use scrimbot::query::{day_aliases, day_matches, reservation_group_matches, split_datetime_query,
    suggest_times, time_aliases, time_matches};
use scrimbot::timeet::{exec_date_et, exec_day_et, exec_new_et, string_et, time_string};

// The query grammar: optional day letters, whitespace, optional
// digit-led time token; anything else matches everything.
#[test]
fn query_splitting() {
    let (q, d, t) = split_datetime_query("  Sat 930 ");
    assert_eq!(q, "sat 930");
    assert_eq!(d, "sat");
    assert_eq!(t, "930");

    let (_, d, t) = split_datetime_query("today");
    assert_eq!(d, "today");
    assert_eq!(t, "");

    let (_, d, t) = split_datetime_query("930pm");
    assert_eq!(d, "");
    assert_eq!(t, "930pm");

    // a shape outside the grammar yields empty tokens
    let (_, d, t) = split_datetime_query("what is this 9:30");
    assert_eq!(d, "");
    assert_eq!(t, "");

    // any whitespace separates the tokens, not just the ASCII blanks
    let (_, d, t) = split_datetime_query("sat\u{A0}930");
    assert_eq!(d, "sat");
    assert_eq!(t, "930");
    let (q2, _, _) = split_datetime_query("\u{2009}sat 930\u{3000}");
    assert_eq!(q2, "sat 930");
}

// Day aliases: weekday name always; today/tdy only for the current
// date, tomorrow/tmrw only for the next one.
#[test]
fn day_alias_matching() {
    let today = 19676; // a Wednesday (1970-01-01 + 19676 days)
    let names = |v: Vec<String>| v;
    assert_eq!(names(day_aliases(today, today)), vec!["wednesday", "today", "tdy"]);
    assert_eq!(names(day_aliases(today + 1, today)), vec!["thursday", "tomorrow", "tmrw"]);
    assert_eq!(names(day_aliases(today + 3, today)), vec!["saturday"]);

    assert!(day_matches(today, today, "wed"));
    assert!(day_matches(today, today, "today"));
    assert!(day_matches(today, today, "tdy"));
    assert!(!day_matches(today, today, "tomorrow"));
    assert!(day_matches(today + 1, today, "tmrw"));
    assert!(day_matches(today + 1, today, "thu"));
    assert!(!day_matches(today + 3, today, "today"));
    assert!(day_matches(today + 3, today, "sat"));
    // the empty token matches every day
    assert!(day_matches(today + 5, today, ""));
}

// Time aliases: 9:30 PM matches "930", "9:30pm", "9:30 p.m." and "9",
// but not "10".
#[test]
fn time_alias_matching() {
    assert!(time_matches(21, 30, "930"));
    assert!(time_matches(21, 30, "9:30pm"));
    assert!(time_matches(21, 30, "9:30 p.m."));
    assert!(time_matches(21, 30, "9"));
    assert!(!time_matches(21, 30, "10"));
    // a full hour also offers the bare-hour aliases
    assert!(time_matches(21, 0, "9pm"));
    assert!(time_matches(9, 30, "930 am"));
    assert!(!time_matches(9, 30, "930 pm"));
    // times off the half-hour grid have no aliases at all
    assert!(!time_matches(21, 17, ""));
    assert_eq!(time_aliases(21, 30).len(), 8);
    assert_eq!(time_aliases(21, 0).len(), 12);
    assert_eq!(
        time_aliases(21, 30)[0..4].to_vec(),
        vec![
            "9:30 pm".to_string(),
            "9:30pm".to_string(),
            "9:30 p.m.".to_string(),
            "9:30p.m.".to_string()
        ]
    );
}

// Eastern-time rendering, through the bundled time-zone database: a
// November moment falls under EST, a July one under EDT.
#[test]
fn eastern_time_rendering() {
    // 2023-11-14 22:13:20 UTC == 5:13 PM EST, a Tuesday
    assert_eq!(string_et(1_700_000_000), "Tuesday, November 14 at 5:13 PM");
    // 2024-07-03 09:46:40 UTC == 5:46 AM EDT, a Wednesday
    assert_eq!(string_et(1_720_000_000), "Wednesday, July 3 at 5:46 AM");

    let d = exec_date_et(1_700_000_000);
    assert_eq!((d.year, d.month, d.day), (2023, 11, 14));

    assert_eq!(time_string(0, 5), "12:05 AM");
    assert_eq!(time_string(12, 0), "12:00 PM");
}

// Suggested slots: a day token narrowing to one day offers its matching
// half-hour slots; several days offer the default evening slots.
#[test]
fn time_slot_suggestions() {
    // midnight ET at the start of a known Tuesday
    let now = exec_new_et(19676, 0, 0) - 86400; // the Tuesday before that Wednesday
    let today = exec_day_et(now);
    let taken: Vec<i64> = Vec::new();

    // "wed 930" narrows to one day and the 9:30 slots
    let picks = suggest_times(today, "wed", "930", &taken, now);
    assert_eq!(picks, vec![exec_new_et(today + 1, 9, 30), exec_new_et(today + 1, 21, 30)]);

    // an empty query leaves several days: the three default evening
    // slots per day, date-major, eight days
    let defaults = suggest_times(today, "", "", &taken, now);
    assert_eq!(defaults.len(), 24);
    assert_eq!(defaults[0], exec_new_et(today, 20, 30));
    assert_eq!(defaults[1], exec_new_et(today, 21, 30));
    assert_eq!(defaults[2], exec_new_et(today, 22, 30));
    assert_eq!(defaults[3], exec_new_et(today + 1, 20, 30));

    // a taken slot is not offered again
    let taken = vec![exec_new_et(today, 21, 30)];
    let rest = suggest_times(today, "", "", &taken, now);
    assert_eq!(rest.len(), 23);
    assert!(!rest.contains(&taken[0]));
}

// Map lists split on commas, slashes and any whitespace.
#[test]
fn map_list_splitting() {
    let maps = MapList::parse("cp_sunshine\u{000C}koth_product_final");
    assert_eq!(maps.len(), 2);
    let maps = MapList::parse("cp_sunshine\u{00A0}koth_product_final,");
    assert_eq!(maps.len(), 2);
}

// The composed reservation autocomplete: groups in ascending id order,
// filtered by the query, labelled and capped.
#[test]
fn reservation_autocomplete_composed() {
    let now = exec_new_et(19676, 12, 0); // a Wednesday noon, Eastern
    let today = exec_day_et(now);
    let mut list = GameList::new();
    let mk = |ts: i64, server: GameServer| Game {
        guild_id: TeamGuildId(7),
        timestamp: ts,
        server,
        details: ScrimOrMatch::Scrim(Scrim {
            opponent_user_id: OpponentUserId(42),
            game_format: GameFormat::Sixes,
            maps: MapList::empty(),
        }),
    };
    // two games tonight on reservation 900, one tomorrow on 350
    list.insert(mk(exec_new_et(today, 20, 30), GameServer::Hosted(ReservationId(900)))).unwrap();
    list.insert(mk(exec_new_et(today, 21, 30), GameServer::Hosted(ReservationId(900)))).unwrap();
    list.insert(mk(exec_new_et(today + 1, 20, 30), GameServer::Hosted(ReservationId(350))))
        .unwrap();
    let allowed = vec![ReservationId(900), ReservationId(350)];

    // an empty query matches every group; ascending id order
    let all = autocomplete_reservations(&list, &allowed, today, now, "", "", "");
    assert_eq!(all.len(), 2);
    assert_eq!(all[0].id, ReservationId(350));
    assert_eq!(all[1].id, ReservationId(900));
    assert_eq!(all[0].label, "350 (Tomorrow at 8:30 PM)");
    assert_eq!(all[1].label, "900 (Today at 8:30 PM, Today at 9:30 PM)");

    // a numeric query narrows by id prefix
    let by_id = autocomplete_reservations(&list, &allowed, today, now, "90", "", "90");
    assert_eq!(by_id.len(), 1);
    assert_eq!(by_id[0].id, ReservationId(900));

    // a day/time query narrows by the members' schedule
    let by_day = autocomplete_reservations(&list, &allowed, today, now, "zzz", "tmrw", "830");
    assert_eq!(by_day.len(), 1);
    assert_eq!(by_day[0].id, ReservationId(350));

    // a reservation outside the allowed set never shows
    let none = autocomplete_reservations(&list, &vec![], today, now, "", "", "");
    assert_eq!(none.len(), 0);
}

// Reservation groups match on any member's day and time, or on a decimal
// prefix of the reservation id.
#[test]
fn reservation_group_matching() {
    let id = ReservationId(7312);
    let times = vec![1_700_000_000]; // Tuesday 5:13 PM ET — off-grid time
    let today = exec_day_et(1_700_000_000);
    // 5:13 PM has no aliases, so only the id prefix can match
    assert!(reservation_group_matches(id, &times, today, "73", "", ""));
    assert!(!reservation_group_matches(id, &times, today, "74", "", ""));
    // the empty query is a prefix of every id
    assert!(reservation_group_matches(id, &times, today, "", "", ""));

    let times_on_grid = vec![exec_new_et(today, 21, 30)];
    assert!(reservation_group_matches(id, &times_on_grid, today, "99", "tue", "930"));
    assert!(!reservation_group_matches(id, &times_on_grid, today, "99", "wed", "930"));
}

// Map disambiguation: a typed prefix with one open slot offers only the
// matching official map; a trailing separator offers every extension of
// the chosen combination.
#[test]
fn map_disambiguation() {
    let pool = AllMaps::new(Some(GameFormat::Sixes), &vec![GameMap::new("cp_villa_b19")]);

    // one open slot, substring filter
    let one = pool.autocomplete_choices(&MapList::parse("gully"), false);
    assert_eq!(one.len(), 1);
    assert_eq!(one[0].label, "cp_gullywash_f9");
    assert_eq!(one[0].value, "cp_gullywash_f9");

    // a chosen slot with a trailing separator: every pair extending it,
    // official maps first in catalog order, then the service extras
    let pairs = pool.autocomplete_choices(&MapList::parse("cp_gullywash_f9,"), true);
    assert_eq!(pairs.len(), 11);
    assert_eq!(pairs[0].label, "cp_gullywash_f9, cp_granary_pro_rc8");
    assert_eq!(pairs[0].value, "cp_gullywash_f9,cp_granary_pro_rc8");
    assert_eq!(pairs[1].value, "cp_gullywash_f9,cp_gullywash_f9");
    assert_eq!(pairs[10].value, "cp_gullywash_f9,cp_villa_b19");

    // two typed slots filter per position: the cartesian product of the
    // per-slot candidates
    let two = pool.autocomplete_choices(&MapList::parse("product bagel"), false);
    assert_eq!(two.len(), 1);
    assert_eq!(two[0].value, "koth_product_final,koth_bagel_rc10");

    // an empty query offers each map as a singleton
    let all = pool.autocomplete_choices(&MapList::empty(), false);
    assert_eq!(all.len(), 11);
    assert_eq!(all[0].label, "cp_granary_pro_rc8");
    assert_eq!(all[10].label, "cp_villa_b19");

    // unofficial completions only filter the token being typed
    let unofficial = pool.autocomplete_choices(&MapList::parse("product villa"), false);
    assert_eq!(unofficial.len(), 1);
    assert_eq!(unofficial[0].value, "product,cp_villa_b19");
}

// The connect-info grammar and the game-server option decoding.
#[test]
fn connect_info_and_server_option() {
    let ci = ConnectInfo::parse("connect play.example.net:27015; password \"hunter2\"").unwrap();
    assert_eq!(ci.ip_and_port, "play.example.net:27015");
    assert_eq!(ci.password, "hunter2");
    assert_eq!(
        ci.connect_command(),
        "connect play.example.net:27015; password \"hunter2\""
    );
    assert_eq!(
        ci.code_block(),
        "```\nconnect play.example.net:27015; password \"hunter2\"\n```"
    );
    assert_eq!(scrimbot::game::connect_block(Some(&ci)), ci.code_block());
    assert_eq!(scrimbot::game::connect_block(None), "```\nNo connect info\n```");

    let bare = ConnectInfo::parse("  connect 1.2.3.4:5;password pw  ").unwrap();
    assert_eq!(bare.ip_and_port, "1.2.3.4:5");
    assert_eq!(bare.password, "pw");

    assert!(ConnectInfo::parse("join 1.2.3.4").is_err());
    assert!(ConnectInfo::parse("connect ; password pw").is_err());

    assert_eq!(GameServer::parse_option(None), Ok(GameServer::Undecided));
    assert!(matches!(
        GameServer::parse_option(Some("1234")),
        Ok(GameServer::Hosted(ReservationId(1234)))
    ));
    assert!(matches!(
        GameServer::parse_option(Some("connect a.b:1; password x")),
        Ok(GameServer::Joined(_))
    ));
    assert!(GameServer::parse_option(Some("nonsense")).is_err());
}
