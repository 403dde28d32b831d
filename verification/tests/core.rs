use scrimbot::error::BotError;
use scrimbot::game::{ConnectInfo, Game, GameFormat, GameKind, GameRow, GameServer, Match, Scrim,
    ScrimOrMatch};
use scrimbot::guild::{publish_next, publish_start, PublishEvent, PublishStep, TeamGuild};
use scrimbot::ids::{OpponentUserId, ReservationId, RglMatchId, ScheduleChannelId,
    ScheduleMessageId, ServemeApiKey, TeamGuildId};
use scrimbot::maps::MapList;
use scrimbot::schedule::GameList;
use scrimbot::serveme::{plan_create_reservation, plan_edit_reservation, FindServersResponse,
    Server};

fn scrim_game(guild: i64, ts: i64, server: GameServer) -> Game {
    Game {
        guild_id: TeamGuildId(guild),
        timestamp: ts,
        server,
        details: ScrimOrMatch::Scrim(Scrim {
            opponent_user_id: OpponentUserId(42),
            game_format: GameFormat::Sixes,
            maps: MapList::parse("cp_process_f12"),
        }),
    }
}

// A stored row with exactly one shape per sum type decodes, and decoding
// then re-encoding round-trips.
#[test]
fn row_decode_encode_round_trip() {
    let row = GameRow {
        guild_id: TeamGuildId(7),
        timestamp: 1_700_000_000,
        reservation_id: Some(ReservationId(123)),
        connect_info: None,
        opponent_user_id: Some(OpponentUserId(42)),
        game_format: Some(GameFormat::Sixes),
        maps: Some(MapList::parse("cp_process_f12,koth_bagel_rc10")),
        rgl_match_id: None,
    };
    let game = Game::from_row(row.clone()).expect("row should decode");
    assert!(matches!(game.server, GameServer::Hosted(ReservationId(123))));
    assert!(matches!(game.details, ScrimOrMatch::Scrim(_)));
    assert_eq!(game.clone().to_row(), row);

    let match_row = GameRow {
        guild_id: TeamGuildId(7),
        timestamp: 1_700_003_600,
        reservation_id: None,
        connect_info: None,
        opponent_user_id: None,
        game_format: None,
        maps: None,
        rgl_match_id: Some(RglMatchId(555)),
    };
    let match_game = Game::from_row(match_row.clone()).expect("match row should decode");
    assert!(matches!(match_game.details, ScrimOrMatch::Match(Match { rgl_match_id: RglMatchId(555) })));
    assert_eq!(match_game.to_row(), match_row);
}

// A row with both server shapes, or a mixed details shape, is corrupt.
#[test]
fn corrupt_rows_are_rejected() {
    let both_servers = GameRow {
        guild_id: TeamGuildId(7),
        timestamp: 1,
        reservation_id: Some(ReservationId(1)),
        connect_info: Some(ConnectInfo {
            ip_and_port: "1.2.3.4:27015".to_string(),
            password: "pw".to_string(),
        }),
        opponent_user_id: Some(OpponentUserId(1)),
        game_format: Some(GameFormat::Sixes),
        maps: Some(MapList::empty()),
        rgl_match_id: None,
    };
    assert_eq!(Game::from_row(both_servers), Err(BotError::InvalidGameDetails));

    let mixed_details = GameRow {
        guild_id: TeamGuildId(7),
        timestamp: 1,
        reservation_id: None,
        connect_info: None,
        opponent_user_id: Some(OpponentUserId(1)),
        game_format: None,
        maps: None,
        rgl_match_id: Some(RglMatchId(9)),
    };
    assert_eq!(Game::from_row(mixed_details), Err(BotError::InvalidGameDetails));
}

// ensure_time_open and the insert serialize: of two attempts at the same
// slot, exactly one succeeds and the other reports the slot taken.
#[test]
fn double_booking_one_success_one_slot_taken() {
    let mut list = GameList::new();
    let ts = 1_700_000_000;
    // both callers see the slot free
    assert!(list.ensure_time_open(ts).is_ok());
    assert!(list.ensure_time_open(ts).is_ok());
    // the first insert commits
    assert!(list.insert(scrim_game(7, ts, GameServer::Undecided)).is_ok());
    // the second caller now fails, whether it re-checks or just inserts
    assert_eq!(list.ensure_time_open(ts), Err(BotError::TimeSlotTaken));
    assert_eq!(
        list.insert(scrim_game(7, ts, GameServer::Undecided)),
        Err(BotError::TimeSlotTaken)
    );
    assert_eq!(list.len(), 1);
}

// The booking window grows monotonically under edits and a window
// strictly inside the current one produces an empty (skipped) edit.
#[test]
fn reservation_window_growth() {
    let maps = MapList::parse("cp_process_f12");
    let ts = 1_700_000_000;
    // reservation currently covers exactly the scrim window of ts
    let rs = ts - 900;
    let re = ts + 3600 + 900;

    // moving the game later extends only the end
    let later = plan_edit_reservation(GameKind::Scrim, GameFormat::Sixes, &maps, ts + 1800, rs, re);
    assert_eq!(later.starts_at, None);
    assert_eq!(later.ends_at, Some(ts + 1800 + 3600 + 900));
    assert_eq!(later.first_map, None);
    assert_eq!(later.server_config_id, None);

    // moving it earlier extends only the start, and recomputes the map
    let earlier =
        plan_edit_reservation(GameKind::Scrim, GameFormat::Sixes, &maps, ts - 1800, rs, re);
    assert_eq!(earlier.starts_at, Some(ts - 1800 - 900));
    assert_eq!(earlier.ends_at, None);
    assert_eq!(
        earlier.first_map.as_ref().map(|m| m.as_str().to_string()),
        Some("cp_process_f12".to_string())
    );
    assert_eq!(earlier.server_config_id, Some(69));

    // a window strictly inside the stored one: nothing to send at all
    let wide_rs = ts - 7200;
    let wide_re = ts + 86400;
    let inside =
        plan_edit_reservation(GameKind::Scrim, GameFormat::Sixes, &maps, ts, wide_rs, wide_re);
    assert!(inside.is_empty());
}

// Booking a scrim for a free slot: a new reservation request is planned,
// the game is stored hosted on the new id, and the schedule publish
// sends exactly one message the first time.
#[test]
fn host_scrim_free_slot_scenario() {
    let mut list = GameList::new();
    let ts = 1_700_000_000;
    list.ensure_time_open(ts).expect("slot is free");

    let servers = FindServersResponse {
        servers: vec![
            Server {
                id: 9,
                ip: "ny.example.net".to_string(),
                ip_and_port: "ny.example.net:27015".to_string(),
            },
            Server {
                id: 42,
                ip: "chi.example.net".to_string(),
                ip_and_port: "chi.example.net:27015".to_string(),
            },
        ],
    };
    let maps = MapList::parse("koth_bagel_rc10");
    let req = plan_create_reservation(GameKind::Scrim, GameFormat::Sixes, &maps, ts, &servers)
        .expect("a preferred server is offered");
    assert_eq!(req.server_id, 42);
    assert_eq!(req.starts_at, ts - 900);
    assert_eq!(req.ends_at, ts + 3600 + 900);
    assert!(req.password.starts_with("scrim."));
    assert_eq!(req.password.len(), "scrim.".len() + 8);
    assert!(req.rcon.starts_with("scrim.rcon."));
    assert_eq!(req.rcon.len(), "scrim.rcon.".len() + 32);
    assert!(req.enable_plugins);
    assert!(req.enable_demos_tf);
    assert_eq!(req.first_map.as_ref().map(|m| m.as_str()), Some("koth_bagel_rc10"));
    assert_eq!(req.server_config_id, Some(113));

    // the service answers with a fresh reservation id
    let new_id = ReservationId(777);
    let game = scrim_game(7, ts, GameServer::Hosted(new_id));
    list.insert(game).expect("insert commits");
    assert_eq!(list.len(), 1);
    assert!(matches!(list.get(0).server, GameServer::Hosted(ReservationId(777))));

    // first publish: no message yet, so exactly one send
    let mut guild = TeamGuild::new(TeamGuildId(7));
    guild.schedule_channel_id = Some(ScheduleChannelId(100));
    guild.serveme_api_key = Some(ServemeApiKey("k1ex4mple".to_string()));
    let step = publish_start(&guild).expect("channel configured");
    assert_eq!(step, PublishStep::SendNew(ScheduleChannelId(100)));
    let next = publish_next(&mut guild, step, PublishEvent::SendOk(ScheduleMessageId(555)))
        .expect("send succeeded");
    assert_eq!(next, None);
    assert_eq!(guild.schedule_message_id, Some(ScheduleMessageId(555)));
}

// Republishing edits the existing message; only when the platform says
// the message is gone is it re-sent.
#[test]
fn republish_edits_existing_message() {
    let mut guild = TeamGuild::new(TeamGuildId(7));
    guild.schedule_channel_id = Some(ScheduleChannelId(100));
    guild.schedule_message_id = Some(ScheduleMessageId(555));

    let step = publish_start(&guild).expect("channel configured");
    assert_eq!(
        step,
        PublishStep::EditExisting(ScheduleChannelId(100), ScheduleMessageId(555))
    );
    // edit went through: done, no second message
    assert_eq!(publish_next(&mut guild, step, PublishEvent::EditOk), Ok(None));
    assert_eq!(guild.schedule_message_id, Some(ScheduleMessageId(555)));

    // message deleted meanwhile: the one swallowed error, re-send once
    let resend = publish_next(&mut guild, step, PublishEvent::MessageMissing)
        .expect("missing message is swallowed");
    assert_eq!(resend, Some(PublishStep::SendNew(ScheduleChannelId(100))));
    let done = publish_next(
        &mut guild,
        resend.unwrap(),
        PublishEvent::SendOk(ScheduleMessageId(556)),
    )
    .expect("send succeeded");
    assert_eq!(done, None);
    assert_eq!(guild.schedule_message_id, Some(ScheduleMessageId(556)));

    // any other failure propagates
    assert_eq!(
        publish_next(&mut guild, step, PublishEvent::Failed),
        Err(BotError::External)
    );
}

// Cancelling a hosted game deletes its row and hands the game back; the
// reservation reference survives in the returned value and nothing tears
// the reservation down implicitly.
#[test]
fn cancel_hosted_game_keeps_reservation() {
    let mut list = GameList::new();
    let ts = 1_700_000_000;
    list.insert(scrim_game(7, ts, GameServer::Hosted(ReservationId(777))))
        .expect("insert commits");

    let removed = list.delete(ts).expect("game exists");
    assert_eq!(list.len(), 0);
    // the reservation assignment is intact; deleting it is a separate,
    // explicit decision by the caller
    assert!(matches!(removed.server, GameServer::Hosted(ReservationId(777))));

    assert_eq!(list.delete(ts), Err(BotError::GameNotFound));
}

// A game is looked up by its exact timestamp, under the kind filter.
#[test]
fn get_game_respects_kind_filter() {
    let mut list = GameList::new();
    let ts = 1_700_000_000;
    list.insert(scrim_game(7, ts, GameServer::Undecided)).unwrap();

    assert!(list.get_game(ts, None).is_ok());
    assert!(list.get_game(ts, Some(GameKind::Scrim)).is_ok());
    assert_eq!(
        list.get_game(ts, Some(GameKind::Match)).err(),
        Some(BotError::GameNotFound)
    );
    assert_eq!(list.get_game(ts + 1, None).err(), Some(BotError::GameNotFound));
}

// Upcoming selection: after the cutoff, in order, filtered by kind.
#[test]
fn upcoming_selection() {
    let mut list = GameList::new();
    let base = 1_700_000_000;
    list.insert(scrim_game(7, base, GameServer::Undecided)).unwrap();
    list.insert(Game {
        guild_id: TeamGuildId(7),
        timestamp: base + 3600,
        server: GameServer::Undecided,
        details: ScrimOrMatch::Match(Match { rgl_match_id: RglMatchId(5) }),
    })
    .unwrap();
    list.insert(scrim_game(7, base + 7200, GameServer::Undecided)).unwrap();

    let all = list.upcoming(base - 1, None);
    assert_eq!(all, vec![0, 1, 2]);
    let scrims = list.upcoming(base - 1, Some(GameKind::Scrim));
    assert_eq!(scrims, vec![0, 2]);
    let later = list.upcoming(base, None);
    assert_eq!(later, vec![1, 2]);
}

// Active games order by distance from now, the past game winning ties.
#[test]
fn closest_active_ordering() {
    let mut list = GameList::new();
    let now = 1_700_000_000;
    list.insert(scrim_game(7, now - 7200, GameServer::Hosted(ReservationId(1)))).unwrap();
    list.insert(scrim_game(7, now - 50, GameServer::Hosted(ReservationId(2)))).unwrap();
    list.insert(scrim_game(7, now + 50, GameServer::Hosted(ReservationId(3)))).unwrap();
    list.insert(scrim_game(7, now + 100, GameServer::Hosted(ReservationId(4)))).unwrap();
    list.insert(scrim_game(7, now + 200, GameServer::Undecided)).unwrap();

    let ready = vec![ReservationId(2), ReservationId(3), ReservationId(4)];
    let picked = list.select_closest_active(&ready, now);
    // game 0 is not ready, game 4 is not hosted; among the rest the two at
    // distance 50 tie and the past one comes first
    let times: Vec<i64> = picked.iter().map(|&i| list.get(i).timestamp).collect();
    assert_eq!(times, vec![now - 50, now + 50, now + 100]);
}

// Connect info is attached only to the last game of a same-day run on
// one server.
#[test]
fn connect_flags_once_per_run() {
    let mut list = GameList::new();
    let base = 1_700_000_000; // 5:13 PM ET; the evening stays on one date
    let s1 = GameServer::Hosted(ReservationId(5));
    let s2 = GameServer::Hosted(ReservationId(6));
    list.insert(scrim_game(7, base, s1.clone())).unwrap();
    list.insert(scrim_game(7, base + 3600, s1.clone())).unwrap();
    list.insert(scrim_game(7, base + 7200, s2.clone())).unwrap();

    let idxs = list.upcoming(base - 1, None);
    let flags = list.connect_flags(&idxs);
    assert_eq!(flags, vec![false, true, true]);
}
