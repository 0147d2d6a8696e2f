use lol_assistant::application::ChampSelectSessionSource;
use lol_assistant::overlay::{
    live_overlay_active_team, live_overlay_gold, map_live_client_session, saturating_mul, GameClientPlayer,
};
use lol_assistant::status::GameClientItem;

fn player(riot_id: Option<&str>, summoner_name: Option<&str>) -> GameClientPlayer {
    GameClientPlayer {
        summoner_name: summoner_name.map(str::to_string),
        team: "ORDER".into(),
        riot_id: riot_id.map(str::to_string),
        items: vec![],
    }
}

fn item(id: i64, price: i64, count: Option<i64>) -> GameClientItem {
    GameClientItem {
        item_id: Some(id),
        display_name: Some(format!("Item {id}")),
        price: Some(price),
        count,
        slot: None,
    }
}

fn team_player(name: &str, team: &str, items: Vec<GameClientItem>) -> GameClientPlayer {
    GameClientPlayer {
        summoner_name: Some(name.to_string()),
        team: team.to_string(),
        riot_id: None,
        items,
    }
}

#[test]
fn display_name_prefers_riot_id() {
    let p = player(Some("Faker#KR1"), Some("OldSummoner"));
    assert_eq!(p.display_name().as_deref(), Some("Faker#KR1"));
}

#[test]
fn display_name_falls_back_to_summoner_name() {
    let p = player(None, Some("OldSummoner"));
    assert_eq!(p.display_name().as_deref(), Some("OldSummoner"));
}

#[test]
fn display_name_returns_none_when_all_empty() {
    let p = player(None, None);
    assert_eq!(p.display_name(), None);
}

#[test]
fn display_name_ignores_empty_strings() {
    let p = player(Some(""), Some(""));
    assert_eq!(p.display_name(), None);
}

#[test]
fn display_name_riot_id_empty_falls_back() {
    let p = player(Some(""), Some("RealName"));
    assert_eq!(p.display_name().as_deref(), Some("RealName"));
}

#[test]
fn active_team_matches_names_without_case_or_padding() {
    let players = vec![
        team_player("Enemy", "CHAOS", vec![]),
        team_player("Me", "ORDER", vec![]),
    ];
    assert_eq!(live_overlay_active_team(&players, Some("  me ")).as_deref(), Some("ORDER"));
}

#[test]
fn active_team_falls_back_to_first_player() {
    let players = vec![
        team_player("Enemy", "CHAOS", vec![]),
        team_player("Me", "ORDER", vec![]),
    ];
    assert_eq!(live_overlay_active_team(&players, Some("Nobody")).as_deref(), Some("CHAOS"));
    assert_eq!(live_overlay_active_team(&players, None).as_deref(), Some("CHAOS"));
    assert_eq!(live_overlay_active_team(&Vec::new(), Some("Me")), None);
}

#[test]
fn gold_sums_visible_items_per_team() {
    let players = vec![
        team_player("Me", "ORDER", vec![item(1055, 450, None), item(2003, 50, Some(2))]),
        team_player("Ally", "ORDER", vec![item(3047, 1100, Some(1))]),
        team_player("Enemy", "CHAOS", vec![item(1001, 300, None), item(0, 5000, None)]),
        GameClientPlayer {
            summoner_name: None,
            team: "CHAOS".into(),
            riot_id: Some("   ".into()),
            items: vec![item(3031, 3400, None)],
        },
    ];
    let gold = live_overlay_gold(&players, Some("ORDER")).expect("gold fits");
    assert_eq!(gold.ally_item_value, 450 + 100 + 1100);
    assert_eq!(gold.enemy_item_value, 300);
    assert_eq!(gold.item_value_diff, 1650 - 300);
}

#[test]
fn gold_without_active_team_counts_everyone_as_enemy() {
    let players = vec![team_player("Me", "ORDER", vec![item(1055, 450, None)])];
    let gold = live_overlay_gold(&players, None).expect("gold fits");
    assert_eq!((gold.ally_item_value, gold.enemy_item_value, gold.item_value_diff), (0, 450, -450));
}

#[test]
fn gold_reports_totals_that_leave_i64() {
    let players = vec![
        team_player("A", "ORDER", vec![item(1, i64::MAX, None)]),
        team_player("B", "ORDER", vec![item(2, 1, None)]),
    ];
    assert!(live_overlay_gold(&players, Some("ORDER")).is_none());
    let huge = vec![team_player("A", "ORDER", vec![item(1, i64::MAX, Some(2))])];
    let gold = live_overlay_gold(&huge, Some("ORDER")).expect("saturated item fits");
    assert_eq!(gold.ally_item_value, i64::MAX);
}

#[test]
fn saturating_mul_clamps_both_ways() {
    assert_eq!(saturating_mul(6, 7), 42);
    assert_eq!(saturating_mul(i64::MAX, 2), i64::MAX);
    assert_eq!(saturating_mul(i64::MIN, 2), i64::MIN);
    assert_eq!(saturating_mul(i64::MIN, -1), i64::MAX);
    assert_eq!(saturating_mul(-3, 4), -12);
}

#[test]
fn live_client_session_splits_shown_players_by_team() {
    let players = vec![
        team_player("Enemy One", "CHAOS", vec![]),
        GameClientPlayer {
            summoner_name: Some("Me".into()),
            team: "ORDER".into(),
            riot_id: Some("Me#EUW".into()),
            items: vec![],
        },
        team_player("  ", "ORDER", vec![]),
        team_player("Buddy", "ORDER", vec![]),
    ];
    let session = map_live_client_session(&players, Some(" me"));
    assert_eq!(session.source, ChampSelectSessionSource::LiveClient);
    assert_eq!(session.ally_names, vec!["Me#EUW".to_string(), "Buddy".to_string()]);
    assert_eq!(session.enemy_names, vec!["Enemy One".to_string()]);
    assert!(session.ally_ids.is_empty() && session.champion_selections.is_empty());
}

#[test]
fn live_client_session_defaults_to_first_team_then_order() {
    let players = vec![team_player("Enemy One", "CHAOS", vec![]), team_player("Me", "ORDER", vec![])];
    let session = map_live_client_session(&players, None);
    assert_eq!(session.ally_names, vec!["Enemy One".to_string()]);
    assert_eq!(session.enemy_names, vec!["Me".to_string()]);
    let empty = map_live_client_session(&Vec::new(), Some("Me"));
    assert!(empty.ally_names.is_empty() && empty.enemy_names.is_empty());
}
