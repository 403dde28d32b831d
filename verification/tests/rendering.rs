use scrimbot::error::BotError;
use scrimbot::game::{GameFormat, GameKind};
use scrimbot::ids::{DivisionId, ReservationId, RglMatchId, RglTeamId, SeasonId, ServemeApiKey,
    SteamId};
use scrimbot::maps::{GameMap, MapList};
use scrimbot::rgl::{steam_id_from_href, steam_profile_href, RglMatch, RglMatchMap, RglMatchTeam,
    RglMatchTeams, RglProfile, RglProfileTeam, RglProfileTeams};
use scrimbot::serveme::{ReservationResponse, ReservationStatus, ServemeError, Server};

#[test]
fn id_urls() {
    assert_eq!(ReservationId(123).url(), "https://na.serveme.tf/reservations/123");
    assert_eq!(RglTeamId(42).url(), "https://rgl.gg/Public/Team.aspx?t=42");
    assert_eq!(SeasonId(7).url(), "https://rgl.gg/Public/LeagueTable?s=7");
    assert_eq!(DivisionId(8).url(), "https://rgl.gg/Public/LeagueTable?g=8");
    assert_eq!(RglMatchId(999).url(), "https://rgl.gg/Public/Match?m=999");
    let steam = SteamId(76561198000000000);
    assert_eq!(
        steam.rgl_url(),
        "https://rgl.gg/Public/PlayerProfile.aspx?p=76561198000000000"
    );
    assert_eq!(
        steam.steam_url(),
        "https://steamcommunity.com/profiles/76561198000000000"
    );
    assert_eq!(steam.logstf_url(), "https://logs.tf/profile/76561198000000000");
    assert_eq!(steam.demostf_url(), "https://demos.tf/profiles/76561198000000000");
    assert_eq!(steam.trendstf_url(), "https://trends.tf/player/76561198000000000");
    assert_eq!(steam.moretf_url(), "https://more.tf/profile/76561198000000000");
}

#[test]
fn auth_header_and_reservation_strings() {
    let key = ServemeApiKey("k1ex4mple".to_string());
    assert_eq!(key.auth_header(), "Token token=k1ex4mple");

    let res = ReservationResponse {
        id: ReservationId(5),
        status: ReservationStatus::Ready,
        starts_at: 0,
        ends_at: 3600,
        password: "scrim.abc".to_string(),
        rcon: "scrim.rcon.xyz".to_string(),
        first_map: None,
        tv_password: "tv".to_string(),
        tv_port: 27020,
        server_config_id: None,
        server: Server {
            id: 1,
            ip: "chi.example.net".to_string(),
            ip_and_port: "chi.example.net:27015".to_string(),
        },
    };
    assert!(res.status.is_ready());
    assert!(!res.status.is_ended());
    assert!(ReservationStatus::Ending.is_ended());
    assert!(ReservationStatus::SdrReady.is_ready());
    let ci = res.connect_info();
    assert_eq!(ci.ip_and_port, "chi.example.net:27015");
    assert_eq!(ci.password, "scrim.abc");
    let stv = res.stv_connect_info();
    assert_eq!(stv.ip_and_port, "chi.example.net:27020");
    assert_eq!(stv.password, "tv");
    assert_eq!(
        res.rcon_info(),
        "rcon_address chi.example.net:27015; rcon_password \"scrim.rcon.xyz\""
    );
}

#[test]
fn map_lists_and_names() {
    let maps = MapList::parse("cp_process_f12, koth_bagel_rc10/weird_map");
    assert_eq!(maps.len(), 3);
    assert_eq!(maps.list(true), "`cp_process_f12`, `koth_bagel_rc10`, `weird_map`");
    assert_eq!(maps.list(false), "Process, Bagel, `weird_map`");
    assert_eq!(MapList::empty().list(true), "Maps not set");

    assert_eq!(GameMap::new("cp_process_f12").short_map_name(), "Process");
    assert_eq!(GameMap::new("cp_mystery").short_map_name(), "`cp_mystery`");
    assert!(GameMap::new("koth_product_final").is_official(Some(GameFormat::Sixes)));
    assert!(GameMap::new("koth_product_final").is_official(Some(GameFormat::Highlander)));
    assert!(!GameMap::new("pl_upward_f12").is_official(Some(GameFormat::Sixes)));
    assert!(GameMap::new("pl_upward_f12").is_official(None));

    let cfg = GameMap::new("cp_process_f12")
        .config(GameKind::Scrim, GameFormat::Sixes)
        .unwrap();
    assert_eq!((cfg.name.as_str(), cfg.id), ("rgl_6s_5cp_scrim", 69));
    let cfg = GameMap::new("koth_product_final")
        .config(GameKind::Match, GameFormat::Highlander)
        .unwrap();
    assert_eq!((cfg.name.as_str(), cfg.id), ("rgl_HL_koth", 53));
    assert!(GameMap::new("ctf_2fort").config(GameKind::Scrim, GameFormat::Sixes).is_none());

    let (first, id) = maps.server_config(GameKind::Match, GameFormat::Sixes);
    assert_eq!(first.map(|m| m.as_str().to_string()), Some("cp_process_f12".to_string()));
    assert_eq!(id, Some(109));
    let (none_map, none_id) = MapList::empty().server_config(GameKind::Scrim, GameFormat::Sixes);
    assert!(none_map.is_none() && none_id.is_none());

    // an unrecognized first map sends neither the map nor a preset,
    // even when later maps would be recognized
    let odd = MapList::parse("ctf_2fort koth_bagel_rc10");
    let (no_map, no_id) = odd.server_config(GameKind::Scrim, GameFormat::Sixes);
    assert!(no_map.is_none() && no_id.is_none());
}

#[test]
fn league_records() {
    let m = RglMatch {
        match_id: RglMatchId(100),
        season_id: SeasonId(3),
        match_date: 1_700_000_000,
        match_name: "Week 3".to_string(),
        teams: RglMatchTeams(
            RglMatchTeam { team_name: "Us".to_string(), team_id: RglTeamId(1) },
            RglMatchTeam { team_name: "Them".to_string(), team_id: RglTeamId(2) },
        ),
        maps: vec![
            RglMatchMap { map_name: GameMap::new("koth_product_final") },
            RglMatchMap { map_name: GameMap::new("koth_ashville_final1") },
        ],
    };
    assert_eq!(m.opponent_team(RglTeamId(1)).unwrap().team_name, "Them");
    assert_eq!(m.opponent_team(RglTeamId(2)).unwrap().team_name, "Us");
    assert_eq!(m.opponent_team(RglTeamId(3)), Err(BotError::TeamNotInMatch));
    assert_eq!(m.map_list().list(false), "Product, Ashville");

    let entry = RglProfileTeam {
        id: RglTeamId(42),
        name: "Us".to_string(),
        division_id: DivisionId(9),
        division_name: "RGL-Main".to_string(),
    };
    assert_eq!(
        entry.embed_field_body(),
        "[Us](https://rgl.gg/Public/Team.aspx?t=42) - [Main](https://rgl.gg/Public/LeagueTable?g=9)"
    );

    let profile = RglProfile {
        steam_id: SteamId(765),
        avatar: "https://example.net/a.png".to_string(),
        name: "player".to_string(),
        current_teams: RglProfileTeams { sixes: Some(entry), highlander: None },
    };
    assert_eq!(profile.url(None), "https://rgl.gg/Public/PlayerProfile.aspx?p=765");
    assert_eq!(
        profile.url(Some(GameFormat::Sixes)),
        "https://rgl.gg/Public/PlayerProfile.aspx?p=765&r=40"
    );
    assert_eq!(
        profile.url(Some(GameFormat::Highlander)),
        "https://rgl.gg/Public/PlayerProfile.aspx?p=765&r=24"
    );
    assert_eq!(GameFormat::Sixes.rgl_id(), 40);
    assert_eq!(GameFormat::Highlander.rgl_id(), 24);
}

#[test]
fn steam_profile_extraction() {
    let html = "<html><body>\
        <a id=\"ContentPlaceHolder1_ContentPlaceHolder1_ContentPlaceHolder1_hlSteamProfile\" \
        href=\"https://steamcommunity.com/profiles/76561198074400000\">Steam</a>\
        </body></html>";
    let href = steam_profile_href(html).expect("anchor is present");
    assert_eq!(href, "https://steamcommunity.com/profiles/76561198074400000");
    let id = steam_id_from_href(&href).expect("href ends in a steam id");
    assert_eq!(id.0, 76561198074400000);

    assert!(steam_profile_href("<html><body>no anchor</body></html>").is_none());
    assert!(steam_id_from_href("https://example.net/profiles/not-a-number").is_none());
    assert!(steam_id_from_href("no-slash-here").is_none());
}

#[test]
fn reservation_id_parsing() {
    assert_eq!(ReservationId::parse("1234").unwrap(), ReservationId(1234));
    assert_eq!(ReservationId::parse(""), Err(BotError::InvalidReservationId));
    assert_eq!(ReservationId::parse("12a4"), Err(BotError::InvalidReservationId));
    assert_eq!(ReservationId::parse("-5"), Err(BotError::InvalidReservationId));
    assert_eq!(
        ReservationId::parse("99999999999999"),
        Err(BotError::InvalidReservationId)
    );
    assert_eq!(ReservationId(321).to_dec_string(), "321");
}

#[test]
fn serveme_error_messages() {
    let e = ServemeError {
        fields: vec![
            ("starts_at".to_string(), "is too early".to_string()),
            ("server_id".to_string(), "is taken".to_string()),
        ],
    };
    assert_eq!(
        e.message(),
        "na.serveme.tf error: starts_at: is too early, server_id: is taken"
    );
    assert_eq!(
        BotError::Serveme(e).message(),
        "na.serveme.tf error: starts_at: is too early, server_id: is taken"
    );
    let empty = ServemeError { fields: Vec::new() };
    assert_eq!(empty.message(), "na.serveme.tf error: ");
}

#[test]
fn error_messages() {
    assert_eq!(BotError::TimeSlotTaken.message(), "Time slot already taken.");
    assert_eq!(BotError::GameNotHosted.message(), "Game not hosted.");
    assert_eq!(BotError::NoServemeServers.message(), "No na.serveme.tf servers found.");
    assert_eq!(GameKind::Scrim.name(), "Scrim");
    assert_eq!(GameKind::Match.prefix(), "match");
    assert_eq!(GameFormat::Highlander.name(), "Highlander");
    assert_eq!(GameKind::Scrim.duration_secs(), 3600);
    assert_eq!(GameKind::Match.duration_secs(), 7200);
}
