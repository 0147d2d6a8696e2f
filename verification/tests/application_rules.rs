use lol_assistant::application::{
    diagnose_recent_stats, normalize_league_asset_id, normalize_match_limit, player_note_summary_from,
    ApplicationError, ChampSelectSessionData, ChampSelectSessionSource,
    RecentStatsDiagnosis, SummonerBatchEntry,
};
use lol_assistant::champion::{
    ability_rank_cap, burn_values_or, champion_ability_texts, truncate_to_rank,
};
use lol_assistant::domain::ChampSelectTeam;
use lol_assistant::lockfile::LockfileCredentials;
use lol_assistant::overlay::{live_overlay_active_team, live_overlay_gold, GameClientPlayer};
use lol_assistant::roster::{champ_select_roster, roster_puuids};
use lol_assistant::status::{
    map_live_overlay_item, map_live_overlay_summoner_spells, GameClientItem, GameClientSpell,
    GameClientSummonerSpells,
};

fn live_client_session(ally_names: Vec<&str>) -> ChampSelectSessionData {
    ChampSelectSessionData {
        ally_ids: Vec::new(),
        enemy_ids: Vec::new(),
        champion_selections: Vec::new(),
        ally_names: ally_names.into_iter().map(str::to_string).collect(),
        enemy_names: Vec::new(),
        champion_selections_by_name: Vec::new(),
        source: ChampSelectSessionSource::LiveClient,
        players: Vec::new(),
    }
}

#[test]
fn champ_select_snapshot_matches_bare_names_to_riot_id_display_names() {
    let session = live_client_session(vec!["Player One"]);
    let by_name = vec![SummonerBatchEntry {
        summoner_id: 10,
        puuid: "puuid-10".to_string(),
        display_name: "Player One#NA1".to_string(),
        summoner_level: None,
    }];
    let roster = champ_select_roster(&session, &Vec::new(), &by_name);
    assert_eq!(roster.len(), 1);
    assert_eq!(roster[0].display_name, "Player One#NA1");
    assert_eq!(roster[0].team, ChampSelectTeam::Ally);
    assert_eq!(roster_puuids(&roster), vec!["puuid-10".to_string()]);
    assert!(matches!(
        diagnose_recent_stats(6, roster[0].puuid.as_str(), Some(Ok(3))),
        RecentStatsDiagnosis::Loaded(3)
    ));
}

#[test]
fn champ_select_snapshot_marks_missing_identity() {
    let session = live_client_session(vec!["Unknown Player"]);
    let roster = champ_select_roster(&session, &Vec::new(), &Vec::new());
    assert_eq!(roster.len(), 1);
    assert_eq!(roster[0].puuid, "");
    assert!(roster_puuids(&roster).is_empty());
    assert!(matches!(
        diagnose_recent_stats(6, roster[0].puuid.as_str(), None),
        RecentStatsDiagnosis::MissingIdentity
    ));
}

#[test]
fn player_note_summary_does_not_require_puuid() {
    let summary = player_note_summary_from(None);
    assert!(!summary.has_note);
    assert!(summary.note.is_none());
    assert!(summary.tags.is_empty());
}

#[test]
fn league_self_snapshot_rejects_invalid_match_limit() {
    assert!(matches!(normalize_match_limit(0), Err(ApplicationError::Validation(_))));
    assert_eq!(normalize_match_limit(6), Ok(6));
}

#[test]
fn league_profile_icon_validates_id_before_reader_call() {
    assert!(matches!(normalize_league_asset_id(0, "Profile icon id"), Err(ApplicationError::Validation(_))));
}

#[test]
fn league_game_asset_validates_id_before_reader_call() {
    assert!(matches!(
        normalize_league_asset_id(0, "League game asset id"),
        Err(ApplicationError::Validation(_))
    ));
}

#[test]
fn debug_redacts_password() {
    let credentials = LockfileCredentials { port: 1, password: "test".to_string(), pid: 1 };
    let message = credentials.debug_text();
    assert!(!message.contains("test"));
}

#[test]
fn tencent_primary_path_maps_garen_q_correctly() {
    let texts = champion_ability_texts(
        "Q",
        Some("Decisive Strike".to_string()),
        None,
        Some("<passive>Garen Q clears debuffs</passive>".to_string()),
        Some("每【8/7/6/5/4】秒冷却"),
    );
    let cooldown_values = burn_values_or(Some("8/7/6/5/4"), Vec::new());
    assert_eq!(cooldown_values, vec!["8", "7", "6", "5", "4"]);
    assert!(texts.description.contains("【8/7/6/5/4】"));
    assert_eq!(texts.summary_description, "Garen Q clears debuffs");
}

#[test]
fn lcu_fallback_truncates_cooldown_to_hardcoded_rank_cap() {
    let coefficients = vec![8.0, 7.0, 6.0, 5.0, 4.0, 99.0];
    let truncated = truncate_to_rank(coefficients, Some(ability_rank_cap("Q")));
    assert_eq!(truncated, vec![8.0, 7.0, 6.0, 5.0, 4.0]);
    assert_eq!(burn_values_or(None, vec!["8".to_string()]), vec!["8".to_string()]);
}

fn item(id: i64, name: &str, price: i64) -> GameClientItem {
    GameClientItem {
        item_id: Some(id),
        display_name: Some(name.to_string()),
        price: Some(price),
        count: Some(1),
        slot: Some(0),
    }
}

#[test]
fn live_overlay_maps_visible_item_values_scores_spells_and_events() {
    let players = vec![
        GameClientPlayer {
            summoner_name: Some("Ally One".to_string()),
            team: "ORDER".to_string(),
            riot_id: Some("Ally One#NA1".to_string()),
            items: vec![item(1055, "Doran's Blade", 450)],
        },
        GameClientPlayer {
            summoner_name: Some("Enemy One".to_string()),
            team: "CHAOS".to_string(),
            riot_id: None,
            items: vec![item(1054, "Doran's Shield", 450)],
        },
    ];
    let team = live_overlay_active_team(&players, Some("Ally One"));
    assert_eq!(team.as_deref(), Some("ORDER"));
    let gold = live_overlay_gold(&players, team.as_deref()).expect("gold fits");
    assert_eq!(gold.item_value_diff, 0);
    let mapped = map_live_overlay_item(item(1055, "Doran's Blade", 450)).expect("item is visible");
    assert_eq!(mapped.price, 450);
    let spells = map_live_overlay_summoner_spells(GameClientSummonerSpells {
        summoner_spell_one: Some(GameClientSpell { id: Some(4), display_name: Some("Flash".to_string()) }),
        summoner_spell_two: Some(GameClientSpell { id: Some(14), display_name: Some("Ignite".to_string()) }),
    });
    assert_eq!(spells.len(), 2);
}
