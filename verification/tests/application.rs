use lol_assistant::application::{
    application_error_from, champ_select_preferences, choose_lock_in_rune_page, diagnose_recent_stats,
    health_report, normalize_activity_limit, normalize_league_asset_id, normalize_match_limit,
    normalize_optional_string, normalize_player_name, normalize_player_note, normalize_player_tags,
    player_note_view, storage_failure, summoner_name_lookup_keys, validate_activity_note,
    validate_game_and_participant_ids, validate_local_activity_entry, negative_stable_id,
    ActivityNoteInput, ApplicationError, LeagueClientReadError, RecentStatsDiagnosis,
    StoredPlayerNote, DEFAULT_ACTIVITY_LIMIT, DEFAULT_MATCH_LIMIT,
};
use lol_assistant::domain::{
    ActivityKind, ChampSelectRecentStatsStatus, ChampionRuneConfig, DatabaseStatus,
    LocalActivityEntry, RunePage, RuneRecommendation, ServiceStatus,
};

#[test]
fn league_client_error_codes_are_stable() {
    let unavailable = ApplicationError::from(LeagueClientReadError::ClientUnavailable(
        "League Client is not running".to_string(),
    ));
    let access = ApplicationError::from(LeagueClientReadError::ClientAccess(
        "League Client rejected local authentication".to_string(),
    ));
    let integration = ApplicationError::from(LeagueClientReadError::Integration(
        "League Client returned an unexpected response".to_string(),
    ));

    assert_eq!(unavailable.code(), "clientUnavailable");
    assert_eq!(access.code(), "clientAccess");
    assert_eq!(integration.code(), "integration");
}

#[test]
fn error_conversion_keeps_the_message() {
    let error = application_error_from(LeagueClientReadError::ClientAccess("denied".to_string()));
    assert_eq!(error, ApplicationError::ClientAccess("denied".to_string()));
    assert_eq!(error.message(), "denied");
    assert_eq!(ApplicationError::Validation("x".to_string()).code(), "validation");
    assert_eq!(ApplicationError::Storage("x".to_string()).code(), "storage");
}

#[test]
fn storage_failure_names_the_operation() {
    let error = storage_failure("load settings", "disk full".to_string());
    assert_eq!(error, ApplicationError::Storage("load settings failed: disk full".to_string()));
}

#[test]
fn health_is_degraded_without_database() {
    let ok = health_report(DatabaseStatus::Healthy, Some(13));
    assert_eq!(ok.status, ServiceStatus::Healthy);
    assert_eq!(ok.schema_version, Some(13));
    let degraded = health_report(DatabaseStatus::Unavailable, None);
    assert_eq!(degraded.status, ServiceStatus::Degraded);
    assert_eq!(degraded.database_status, DatabaseStatus::Unavailable);
}

#[test]
fn limits_are_range_checked() {
    assert_eq!(normalize_activity_limit(DEFAULT_ACTIVITY_LIMIT), Ok(100));
    assert_eq!(normalize_activity_limit(50), Ok(50));
    assert_eq!(
        normalize_activity_limit(999),
        Err(ApplicationError::Validation("Activity limit must be between 1 and 500".to_string()))
    );
    assert!(normalize_activity_limit(0).is_err());
    assert_eq!(normalize_match_limit(DEFAULT_MATCH_LIMIT), Ok(6));
    assert!(matches!(normalize_match_limit(0), Err(ApplicationError::Validation(_))));
    assert_eq!(normalize_league_asset_id(103, "Champion"), Ok(103));
    assert_eq!(
        normalize_league_asset_id(0, "Profile icon"),
        Err(ApplicationError::Validation("Profile icon must be between 1 and 1000000".to_string()))
    );
}

#[test]
fn game_and_participant_ids_must_be_positive() {
    assert_eq!(validate_game_and_participant_ids(1, 2), Ok(()));
    assert_eq!(
        validate_game_and_participant_ids(0, 2),
        Err(ApplicationError::Validation("Game id must be greater than 0".to_string()))
    );
    assert_eq!(
        validate_game_and_participant_ids(1, 0),
        Err(ApplicationError::Validation("Participant id must be greater than 0".to_string()))
    );
}

#[test]
fn player_note_validation_trims_and_deduplicates() {
    let note = normalize_player_note(Some("  Watch roams  ".to_string())).expect("note is valid");
    let tags = normalize_player_tags(vec![
        " mid ".to_string(),
        "mid".to_string(),
        "shotcaller".to_string(),
    ])
    .expect("tags are valid");

    assert_eq!(note.as_deref(), Some("Watch roams"));
    assert_eq!(tags, vec!["mid", "shotcaller"]);
}

#[test]
fn player_note_limits() {
    assert_eq!(normalize_player_note(Some("   ".to_string())), Ok(None));
    assert!(normalize_player_note(Some("x".repeat(501))).is_err());
    assert!(normalize_player_note(Some("x".repeat(500))).is_ok());
    assert_eq!(
        normalize_player_tags(vec!["y".repeat(25)]),
        Err(ApplicationError::Validation("Player tags must be 24 characters or fewer".to_string()))
    );
    let many: Vec<String> = (0..9).map(|i| format!("tag{i}")).collect();
    assert_eq!(
        normalize_player_tags(many),
        Err(ApplicationError::Validation("Player tags must include 8 entries or fewer".to_string()))
    );
    let repeated: Vec<String> = (0..20).map(|_| "same".to_string()).collect();
    assert_eq!(normalize_player_tags(repeated), Ok(vec!["same".to_string()]));
}

#[test]
fn activity_note_is_validated_and_trimmed() {
    let entry = validate_activity_note(ActivityNoteInput {
        title: "  Scrim notes  ".to_string(),
        body: Some("  Ward river at 3:00  ".to_string()),
    })
    .expect("note validates");

    assert_eq!(entry.kind, ActivityKind::Note);
    assert_eq!(entry.title, "Scrim notes");
    assert_eq!(entry.body.as_deref(), Some("Ward river at 3:00"));
}

#[test]
fn activity_note_errors() {
    assert_eq!(
        validate_activity_note(ActivityNoteInput { title: "  ".to_string(), body: None }),
        Err(ApplicationError::Validation("Activity note title is required".to_string()))
    );
    assert!(validate_activity_note(ActivityNoteInput { title: "t".repeat(121), body: None }).is_err());
    let blank_body = validate_activity_note(ActivityNoteInput {
        title: "t".to_string(),
        body: Some("   ".to_string()),
    })
    .unwrap();
    assert_eq!(blank_body.body, None);
}

#[test]
fn imported_entries_need_a_creation_time() {
    let entry = LocalActivityEntry {
        kind: ActivityKind::Note,
        title: "t".to_string(),
        body: None,
        created_at: " ".to_string(),
    };
    assert_eq!(
        validate_local_activity_entry(&entry),
        Err(ApplicationError::Validation("Imported activity createdAt is required".to_string()))
    );
}

#[test]
fn optional_strings_are_trimmed() {
    assert_eq!(normalize_optional_string(Some("  url ".to_string())), Some("url".to_string()));
    assert_eq!(normalize_optional_string(Some("  ".to_string())), None);
    assert_eq!(normalize_optional_string(None), None);
}

#[test]
fn player_names_and_lookup_keys() {
    assert_eq!(normalize_player_name("  Faker#KR1 "), "faker#kr1");
    assert_eq!(summoner_name_lookup_keys("Faker#KR1"), vec!["faker#kr1", "faker"]);
    assert_eq!(summoner_name_lookup_keys("Faker"), vec!["faker"]);
    assert_eq!(summoner_name_lookup_keys("#KR1"), vec!["#kr1"]);
    assert!(summoner_name_lookup_keys("  ").is_empty());
}

#[test]
fn stable_ids_are_negative_and_repeatable() {
    let a = negative_stable_id("Player One");
    assert!(a < 0);
    assert!(a >= -0x4000_0000_0000);
    assert_eq!(a, negative_stable_id("Player One"));
}

#[test]
fn player_note_view_without_note_is_empty() {
    let view = player_note_view(10, 2, None);
    assert_eq!(view.game_id, 10);
    assert!(view.note.is_none());
    assert!(view.tags.is_empty());
    let stored = StoredPlayerNote {
        player_puuid: "p".to_string(),
        last_display_name: "P".to_string(),
        note: Some("n".to_string()),
        tags: vec!["t".to_string()],
        updated_at: "1".to_string(),
    };
    let view = player_note_view(10, 2, Some(stored));
    assert_eq!(view.note.as_deref(), Some("n"));
    assert_eq!(view.updated_at.as_deref(), Some("1"));
}

#[test]
fn recent_stats_diagnosis() {
    assert_eq!(diagnose_recent_stats(0, "p", None), RecentStatsDiagnosis::NotRequested);
    assert_eq!(diagnose_recent_stats(5, " ", Some(Ok(3))), RecentStatsDiagnosis::MissingIdentity);
    assert_eq!(diagnose_recent_stats(5, "p", Some(Ok(3))), RecentStatsDiagnosis::Loaded(3));
    assert_eq!(diagnose_recent_stats(5, "p", Some(Ok(0))), RecentStatsDiagnosis::LoadedEmpty);
    assert_eq!(diagnose_recent_stats(5, "p", None), RecentStatsDiagnosis::NoResult);
    let failed = diagnose_recent_stats(
        5,
        "p",
        Some(Err(LeagueClientReadError::Integration("boom".to_string()))),
    );
    assert_eq!(failed.public_status(), ChampSelectRecentStatsStatus::Unavailable);
    assert_eq!(failed.log_phrase(), "LCU_ERROR — match-history request failed: boom");
    assert!(failed.should_log_to_stderr());
    assert_eq!(RecentStatsDiagnosis::Loaded(7).log_phrase(), "OK matches=7");
    assert!(!RecentStatsDiagnosis::Loaded(7).should_log_to_stderr());
}

fn page(primary: i64) -> RunePage {
    RunePage { primary_style_id: primary, sub_style_id: 8100, selected_perk_ids: vec![1, 2, 3] }
}

#[test]
fn saved_rune_page_wins_on_lock_in() {
    let saved = ChampionRuneConfig { champion_id: 1, page: page(8000), saved_at: "t".to_string() };
    let recs = vec![RuneRecommendation { position: "top".to_string(), pick_count: 9, page: page(8200) }];
    assert_eq!(choose_lock_in_rune_page(Some(saved), recs.clone()), Some(page(8000)));
    assert_eq!(choose_lock_in_rune_page(None, recs), Some(page(8200)));
    assert_eq!(choose_lock_in_rune_page(None, Vec::new()), None);
}

#[test]
fn champ_select_automation_calls_reader_when_settings_are_enabled() {
    assert_eq!(champ_select_preferences(true, Some(103), true, Some(55)), Some((Some(103), Some(55))));
}

#[test]
fn champ_select_automation_no_ops_when_both_disabled() {
    assert_eq!(champ_select_preferences(false, Some(103), false, Some(55)), None);
    assert_eq!(champ_select_preferences(true, None, false, Some(55)), None);
}

#[test]
fn normalizing_a_name_twice_changes_nothing() {
    for name in ["  Faker#KR1 ", "HIDE ON BUSH", "\u{3000}Zeus\t", "", "   ", "mIxEd Ünïcode"] {
        let once = normalize_player_name(name);
        assert_eq!(normalize_player_name(once.as_str()), once);
    }
}
