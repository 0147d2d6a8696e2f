use lol_assistant::application::ChampSelectSessionSource;
use lol_assistant::domain::{LeagueClientPhase, LeagueGameAssetKind, RankedQueue};
use lol_assistant::gameflow::{
    map_gameflow_session, LcuGameflowChampionSelection, LcuGameflowGameData,
    LcuGameflowParticipant, LcuGameflowSession,
};
use lol_assistant::paths::{
    champion_icon_path, clean_game_asset_text, game_asset_image_path, game_asset_name, completed_match_path, fallback_game_asset_image_path,
    game_asset_metadata_path, is_league_client_process, is_safe_lcu_path_id, live_player_path,
    normalize_lcu_asset_path, percent_encode_path_value, profile_icon_path, puuid_matches_path,
};
use lol_assistant::status::{
    image_asset_from_response, map_live_overlay_item, map_ranked_queues, read_error_from_request, section_error_message,
    status_from_request_error, validate_lcu_status, GameClientItem, LcuRankedQueue, LcuRankedStats,
    LcuRequestError,
};
use lol_assistant::application::LeagueClientReadError;
use lol_assistant::json::JsonValue;
use lol_assistant::websocket::{
    basic_auth_header, parse_lcu_websocket_event_text, uri_from_lcu_subscription,
    LcuSubscription, LcuWebSocketError,
};

const TEST_LOCKFILE_VALUE: &str = "not-a-real-test-value";

#[test]
fn lcu_subscription_formats_json_api_events() {
    assert_eq!(
        LcuSubscription::JsonApiEvent("/lol-gameflow/v1/gameflow-phase").event_name(),
        "OnJsonApiEvent_lol-gameflow_v1_gameflow-phase"
    );
    assert_eq!(
        LcuSubscription::JsonApiEvent("/lol-champ-select/v1/session").event_name(),
        "OnJsonApiEvent_lol-champ-select_v1_session"
    );
}

#[test]
fn parses_lcu_websocket_json_api_event() {
    let event = parse_lcu_websocket_event_text(
        r#"[8,"OnJsonApiEvent_lol-gameflow_v1_gameflow-phase",{"data":"ChampSelect","eventType":"Update","uri":"/lol-gameflow/v1/gameflow-phase"}]"#,
    )
    .expect("event parses");

    assert_eq!(event.uri, "/lol-gameflow/v1/gameflow-phase");
    assert_eq!(event.event_type, "Update");
    assert_eq!(event.data.as_str(), Some("ChampSelect"));
}

#[test]
fn parses_lcu_websocket_event_uri_from_subscription() {
    let event = parse_lcu_websocket_event_text(
        r#"[8,"OnJsonApiEvent_lol-champ-select_v1_session",{"data":{"myTeam":[],"theirTeam":[]},"eventType":"Update"}]"#,
    )
    .expect("event parses");

    assert_eq!(event.uri, "/lol-champ-select/v1/session");
    assert_eq!(event.event_type, "Update");
    assert!(event.data.get("myTeam").is_some());
}

#[test]
fn ignores_invalid_lcu_websocket_events() {
    assert!(parse_lcu_websocket_event_text("not-json").is_none());
    assert!(parse_lcu_websocket_event_text(r#"{"opcode":8}"#).is_none());
    assert!(parse_lcu_websocket_event_text(
        r#"[5,"OnJsonApiEvent_lol-gameflow_v1_gameflow-phase",{"data":"ChampSelect","eventType":"Update","uri":"/lol-gameflow/v1/gameflow-phase"}]"#
    )
    .is_none());
    assert!(
        parse_lcu_websocket_event_text(
            r#"[8,"OnJsonApiEvent",{"data":"ChampSelect","eventType":"Update"}]"#
        )
        .is_none()
    );
}

#[test]
fn lcu_websocket_error_debug_does_not_expose_auth_details() {
    let message = LcuWebSocketError::Authentication.debug_text();

    assert!(!message.contains("Authorization"));
    assert!(!message.contains(TEST_LOCKFILE_VALUE));
}

#[test]
fn subscription_names_map_back_to_resource_paths() {
    assert_eq!(
        uri_from_lcu_subscription("OnJsonApiEvent_lol-champ-select_v1_session").as_deref(),
        Some("/lol-champ-select/v1/session")
    );
    assert_eq!(uri_from_lcu_subscription("Other_event"), None);
    assert_eq!(
        LcuSubscription::JsonApiEvent("/lol-gameflow/v1/session").subscribe_message(),
        "[5,\"OnJsonApiEvent_lol-gameflow_v1_session\"]"
    );
}

#[test]
fn basic_auth_header_encodes_riot_credentials() {
    assert_eq!(basic_auth_header("pass"), "Basic cmlvdDpwYXNz");
}

#[test]
fn request_errors_map_to_specific_safe_statuses() {
    let unauthorized = status_from_request_error(LcuRequestError::Unauthorized);
    let not_logged_in = status_from_request_error(LcuRequestError::NotLoggedIn);
    let patching = status_from_request_error(LcuRequestError::Patching);

    assert_eq!(unauthorized.phase, LeagueClientPhase::Unauthorized);
    assert_eq!(not_logged_in.phase, LeagueClientPhase::NotLoggedIn);
    assert_eq!(patching.phase, LeagueClientPhase::Patching);
    assert!(unauthorized.message.unwrap().contains("authentication"));
    assert!(!format!("{not_logged_in:?}").contains(TEST_LOCKFILE_VALUE));
}

#[test]
fn request_errors_become_read_errors() {
    assert_eq!(
        read_error_from_request(LcuRequestError::Unauthorized),
        LeagueClientReadError::ClientAccess("League Client rejected local authentication".to_string())
    );
    assert_eq!(
        read_error_from_request(LcuRequestError::Unexpected),
        LeagueClientReadError::ClientUnavailable(
            "League Client returned an unexpected response".to_string()
        )
    );
    assert_eq!(
        section_error_message("Ranked data", LcuRequestError::NotLoggedIn),
        "Ranked data is unavailable before login"
    );
}

#[test]
fn http_status_codes_map_to_request_errors() {
    assert_eq!(validate_lcu_status(200), Ok(()));
    assert_eq!(validate_lcu_status(204), Ok(()));
    assert_eq!(validate_lcu_status(401), Err(LcuRequestError::Unauthorized));
    assert_eq!(validate_lcu_status(403), Err(LcuRequestError::Unauthorized));
    assert_eq!(validate_lcu_status(404), Err(LcuRequestError::NotLoggedIn));
    assert_eq!(validate_lcu_status(503), Err(LcuRequestError::Patching));
    assert_eq!(validate_lcu_status(500), Err(LcuRequestError::Unavailable));
}

#[test]
fn gameflow_session_maps_direct_player_identities() {
    let session = map_gameflow_session(LcuGameflowSession {
        game_data: Some(LcuGameflowGameData {
            team_one: vec![LcuGameflowParticipant {
                summoner_id: Some(10),
                puuid: Some("puuid-10".to_string()),
                summoner_name: Some("Ally".to_string()),
                display_name: None,
                game_name: Some("Ally".to_string()),
                tag_line: Some("NA1".to_string()),
                champion_id: Some(103),
                selected_champion_id: None,
            }],
            team_two: vec![LcuGameflowParticipant {
                summoner_id: Some(20),
                puuid: Some("puuid-20".to_string()),
                summoner_name: Some("Enemy".to_string()),
                display_name: None,
                game_name: Some("Enemy".to_string()),
                tag_line: Some("NA1".to_string()),
                champion_id: None,
                selected_champion_id: Some(222),
            }],
            player_champion_selections: Vec::new(),
        }),
    })
    .expect("gameflow session maps");

    assert_eq!(session.source, ChampSelectSessionSource::GameflowSession);
    assert_eq!(session.players.len(), 2);
    assert_eq!(session.players[0].puuid.as_deref(), Some("puuid-10"));
    assert_eq!(session.players[0].display_name, "Ally#NA1");
    assert_eq!(session.players[0].champion_id, Some(103));
    assert_eq!(session.players[1].puuid.as_deref(), Some("puuid-20"));
    assert_eq!(session.players[1].champion_id, Some(222));
}

#[test]
fn gameflow_session_falls_back_to_selections() {
    let session = map_gameflow_session(LcuGameflowSession {
        game_data: Some(LcuGameflowGameData {
            team_one: Vec::new(),
            team_two: Vec::new(),
            player_champion_selections: vec![
                LcuGameflowChampionSelection {
                    summoner_id: Some(5),
                    puuid: None,
                    champion_id: None,
                    selected_champion_id: Some(7),
                    team_id: Some(200),
                },
                LcuGameflowChampionSelection {
                    summoner_id: None,
                    puuid: Some(" p2 ".to_string()),
                    champion_id: Some(0),
                    selected_champion_id: None,
                    team_id: None,
                },
            ],
        }),
    })
    .expect("selections give players");
    assert_eq!(session.players.len(), 2);
    assert_eq!(session.players[0].display_name, "Summoner 5");
    assert_eq!(session.enemy_ids, vec![5]);
    assert_eq!(session.champion_selections, vec![(5, 7)]);
    assert_eq!(session.players[1].display_name, "Player 2");
    assert_eq!(session.players[1].puuid.as_deref(), Some("p2"));
    assert_eq!(session.players[1].champion_id, None);
    assert_eq!(session.ally_names, vec!["Player 2"]);
    assert!(map_gameflow_session(LcuGameflowSession { game_data: None }).is_none());
}

#[test]
fn gameflow_champion_comes_from_a_matching_selection() {
    let session = map_gameflow_session(LcuGameflowSession {
        game_data: Some(LcuGameflowGameData {
            team_one: vec![LcuGameflowParticipant {
                summoner_id: Some(10),
                puuid: None,
                summoner_name: None,
                display_name: None,
                game_name: None,
                tag_line: None,
                champion_id: None,
                selected_champion_id: None,
            }],
            team_two: Vec::new(),
            player_champion_selections: vec![LcuGameflowChampionSelection {
                summoner_id: Some(10),
                puuid: None,
                champion_id: Some(99),
                selected_champion_id: None,
                team_id: Some(100),
            }],
        }),
    })
    .unwrap();
    assert_eq!(session.players[0].display_name, "Summoner 10");
    assert_eq!(session.players[0].champion_id, Some(99));
    assert_eq!(session.champion_selections_by_name, vec![("summoner 10".to_string(), 99)]);
}

#[test]
fn image_asset_paths_are_fixed_local_game_data_paths() {
    assert_eq!(profile_icon_path(29), "/lol-game-data/assets/v1/profile-icons/29.jpg");
    assert_eq!(champion_icon_path(103), "/lol-game-data/assets/v1/champion-icons/103.png");
}

#[test]
fn game_asset_metadata_paths_are_fixed_local_game_data_paths() {
    assert_eq!(
        game_asset_metadata_path(LeagueGameAssetKind::Item),
        "/lol-game-data/assets/v1/items.json"
    );
    assert_eq!(
        game_asset_metadata_path(LeagueGameAssetKind::Rune),
        "/lol-game-data/assets/v1/perks.json"
    );
    assert_eq!(
        game_asset_metadata_path(LeagueGameAssetKind::Spell),
        "/lol-game-data/assets/v1/summoner-spells.json"
    );
}

#[test]
fn completed_match_path_uses_post_match_detail_endpoint() {
    assert_eq!(completed_match_path(698521151), "/lol-match-history/v1/games/698521151");
}

#[test]
fn other_paths() {
    assert_eq!(
        puuid_matches_path("abc", 6),
        "/lol-match-history/v1/products/lol/abc/matches?begIndex=0&endIndex=6"
    );
    assert_eq!(
        fallback_game_asset_image_path(LeagueGameAssetKind::Item, 3031).as_deref(),
        Some("/lol-game-data/assets/v1/items/3031.png")
    );
    assert_eq!(fallback_game_asset_image_path(LeagueGameAssetKind::Rune, 8000), None);
    assert_eq!(
        live_player_path("playeritems", "Faker#KR1"),
        "/liveclientdata/playeritems?summonerName=Faker%23KR1"
    );
}

#[test]
fn asset_paths_are_normalised_and_checked() {
    assert_eq!(
        normalize_lcu_asset_path(" ASSETS/Items/Icons 2D/1001.png ").as_deref(),
        Some("/lol-game-data/assets/ASSETS/Items/Icons%202D/1001.png")
    );
    assert_eq!(
        normalize_lcu_asset_path("lol-game-data/assets/v1/x.png").as_deref(),
        Some("/lol-game-data/assets/v1/x.png")
    );
    assert_eq!(
        normalize_lcu_asset_path("\\lol-game-data\\assets\\v1\\y.png").as_deref(),
        Some("/lol-game-data/assets/v1/y.png")
    );
    assert_eq!(normalize_lcu_asset_path("http://evil/x.png"), None);
    assert_eq!(normalize_lcu_asset_path("assets/../x.png"), None);
    assert_eq!(normalize_lcu_asset_path("other/x.png"), None);
    assert_eq!(normalize_lcu_asset_path("  "), None);
}

#[test]
fn asset_text_is_cleaned() {
    assert_eq!(
        clean_game_asset_text("<mainText>Deal&nbsp;<b>50</b>  damage &amp; heal</mainText>".to_string()),
        "Deal 50 damage & heal"
    );
    assert_eq!(clean_game_asset_text("&lt;none&gt;".to_string()), "<none>");
}

#[test]
fn path_ids_and_encoding() {
    assert!(is_safe_lcu_path_id("abc-123_X"));
    assert!(!is_safe_lcu_path_id(""));
    assert!(!is_safe_lcu_path_id("a/b"));
    assert_eq!(percent_encode_path_value("a b/é~"), "a%20b%2F%C3%A9~");
    assert!(is_league_client_process("leagueclientux.EXE"));
    assert!(!is_league_client_process("League.exe"));
}

#[test]
fn maps_ranked_solo_and_flex_queues() {
    let queues = map_ranked_queues(LcuRankedStats {
        queues: vec![
            LcuRankedQueue {
                queue_type: Some("RANKED_SOLO_5x5".to_string()),
                tier: Some("GOLD".to_string()),
                division: Some("II".to_string()),
                league_points: Some(72),
                wins: Some(20),
                losses: Some(10),
            },
            LcuRankedQueue {
                queue_type: Some("RANKED_FLEX_SR".to_string()),
                tier: None,
                division: None,
                league_points: None,
                wins: Some(0),
                losses: Some(0),
            },
        ],
    });

    assert_eq!(queues.len(), 2);
    assert_eq!(queues[0].queue, RankedQueue::SoloDuo);
    assert!(queues[0].is_ranked);
    assert_eq!(queues[1].queue, RankedQueue::Flex);
    assert!(!queues[1].is_ranked);
}

#[test]
fn ranked_queues_without_type_are_dropped() {
    let queues = map_ranked_queues(LcuRankedStats {
        queues: vec![
            LcuRankedQueue {
                queue_type: None,
                tier: Some("GOLD".to_string()),
                division: None,
                league_points: None,
                wins: None,
                losses: None,
            },
            LcuRankedQueue {
                queue_type: Some("CHERRY".to_string()),
                tier: Some(" UNRANKED ".to_string()),
                division: Some(" ".to_string()),
                league_points: None,
                wins: None,
                losses: None,
            },
        ],
    });
    assert_eq!(queues.len(), 1);
    assert_eq!(queues[0].queue, RankedQueue::Other);
    assert_eq!(queues[0].tier.as_deref(), Some("UNRANKED"));
    assert_eq!(queues[0].division, None);
    assert!(!queues[0].is_ranked);
    assert_eq!(queues[0].wins, 0);
}

#[test]
fn live_overlay_items_are_clamped() {
    let item = map_live_overlay_item(GameClientItem {
        item_id: Some(3031),
        display_name: None,
        price: Some(-5),
        count: Some(0),
        slot: Some(2),
    })
    .unwrap();
    assert_eq!(item.display_name, "Item 3031");
    assert_eq!(item.price, 0);
    assert_eq!(item.count, 1);
    assert!(map_live_overlay_item(GameClientItem {
        item_id: Some(0),
        display_name: None,
        price: None,
        count: None,
        slot: None,
    })
    .is_none());
}

#[test]
fn game_asset_name_prefers_metadata() {
    assert_eq!(game_asset_name(LeagueGameAssetKind::Item, 1055, Some(" Doran's Blade ")), "Doran's Blade");
    assert_eq!(game_asset_name(LeagueGameAssetKind::Spell, 4, Some("  ")), "Spell 4");
    assert_eq!(game_asset_name(LeagueGameAssetKind::Rune, 8010, None), "Rune 8010");
}

#[test]
fn game_asset_image_path_falls_back_by_kind() {
    assert_eq!(
        game_asset_image_path(LeagueGameAssetKind::Item, 1055, None).as_deref(),
        Some("/lol-game-data/assets/v1/items/1055.png")
    );
    assert_eq!(game_asset_image_path(LeagueGameAssetKind::Rune, 8010, None), None);
    assert_eq!(
        game_asset_image_path(LeagueGameAssetKind::Spell, 4, Some("")).as_deref(),
        Some("/lol-game-data/assets/v1/summoner-spells/4.png")
    );
}

#[test]
fn subscription_name_leads_back_to_its_path() {
    for path in ["/lol-gameflow/v1/gameflow-phase", "/lol-champ-select/v1/session", "/"] {
        let name = LcuSubscription::JsonApiEvent(path).event_name();
        assert_eq!(uri_from_lcu_subscription(name.as_str()).as_deref(), Some(path));
    }
}

#[test]
fn image_asset_keeps_an_image_content_type() {
    let asset = image_asset_from_response(Some("image/jpeg"), "image/png", vec![1, 2, 3]).unwrap();
    assert_eq!(asset.mime_type, "image/jpeg");
    assert_eq!(asset.bytes, vec![1, 2, 3]);
}

#[test]
fn image_asset_falls_back_for_other_content_types() {
    let asset = image_asset_from_response(Some("text/html"), "image/png", vec![7]).unwrap();
    assert_eq!(asset.mime_type, "image/png");
    let asset = image_asset_from_response(None, "image/jpeg", vec![7]).unwrap();
    assert_eq!(asset.mime_type, "image/jpeg");
}

#[test]
fn image_asset_with_empty_body_is_unexpected() {
    assert_eq!(
        image_asset_from_response(Some("image/png"), "image/png", Vec::new()),
        Err(LcuRequestError::Unexpected)
    );
}

#[test]
fn websocket_event_defaults_type_and_data() {
    let event = parse_lcu_websocket_event_text(r#"[8,"OnJsonApiEvent_lol-lobby_v2_lobby",{"uri":"/lol-lobby/v2/lobby"}]"#)
        .expect("event parses");
    assert_eq!(event.uri, "/lol-lobby/v2/lobby");
    assert_eq!(event.event_type, "");
    assert!(matches!(event.data, JsonValue::Null));
}

#[test]
fn websocket_event_needs_an_object_payload_and_integer_opcode() {
    assert!(parse_lcu_websocket_event_text(r#"[8,"OnJsonApiEvent_a",[1,2]]"#).is_none());
    assert!(parse_lcu_websocket_event_text(r#"["8","OnJsonApiEvent_a",{"uri":"/a"}]"#).is_none());
    assert!(parse_lcu_websocket_event_text(r#"[8.0,"OnJsonApiEvent_a",{"uri":"/a"}]"#).is_none());
    assert!(parse_lcu_websocket_event_text(r#"[8,"OnJsonApiEvent_a"]"#).is_none());
}

#[test]
fn websocket_event_non_string_uri_falls_back_to_subscription() {
    let event = parse_lcu_websocket_event_text(r#"[8,"OnJsonApiEvent_lol-chat_v1_me",{"uri":7,"data":{"n":3}}]"#)
        .expect("event parses");
    assert_eq!(event.uri, "/lol-chat/v1/me");
    assert_eq!(event.data.get("n").and_then(|n| n.as_i64()), Some(3));
}

#[test]
fn websocket_event_data_keeps_strings_integers_and_members() {
    let event = parse_lcu_websocket_event_text(
        r#"[8,"OnJsonApiEvent_a",{"uri":"/a","data":{"a":"x","b":-12,"c":1.5,"d":[true,null]}}]"#,
    )
    .expect("event parses");
    let data = &event.data;
    assert_eq!(data.get("a").and_then(|v| v.as_str()), Some("x"));
    assert_eq!(data.get("b").and_then(|v| v.as_i64()), Some(-12));
    assert_eq!(data.get("c").and_then(|v| v.as_i64()), None);
    assert!(data.get("e").is_none());
    assert_eq!(data.as_object().map(|m| m.len()), Some(4));
    assert!(parse_lcu_websocket_event_text("[8,").is_none());
}

#[test]
fn socket_event_numbers_keep_fractions_and_large_integers() {
    let event = parse_lcu_websocket_event_text(
        r#"[8,"OnJsonApiEvent_lol-gameflow_v1_session",{"data":{"ratio":1.5,"big":18446744073709551615,"small":-7},"eventType":"Update","uri":"/lol-gameflow/v1/session"}]"#,
    )
    .expect("event parses");

    match event.data.get("ratio") {
        Some(JsonValue::Number(None, text)) => assert_eq!(text, "1.5"),
        other => panic!("unexpected ratio {other:?}"),
    }
    match event.data.get("big") {
        Some(JsonValue::Number(None, text)) => assert_eq!(text, "18446744073709551615"),
        other => panic!("unexpected big {other:?}"),
    }
    match event.data.get("small") {
        Some(JsonValue::Number(Some(-7), text)) => assert_eq!(text, "-7"),
        other => panic!("unexpected small {other:?}"),
    }
}
