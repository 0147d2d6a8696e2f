use lol_assistant::application::ChampSelectSessionSource;
use lol_assistant::gameflow::{find_champ_select_action, map_champ_select_session, LcuChampSelectAction};
use lol_assistant::paths::champ_select_action_path;
use lol_assistant::lcu::LcuChampSelectMember;
use lol_assistant::roster::{post_match_team_ids, post_match_team_members, post_match_team_totals};
use lol_assistant::domain::PostMatchTeamTotals;

fn member(
    summoner_id: Option<i64>,
    champion_id: Option<i64>,
    game_name: Option<&str>,
    tag_line: Option<&str>,
) -> LcuChampSelectMember {
    LcuChampSelectMember {
        summoner_id,
        champion_id,
        puuid: None,
        summoner_name: None,
        display_name: None,
        game_name: game_name.map(str::to_string),
        tag_line: tag_line.map(str::to_string),
    }
}

#[test]
fn champ_select_session_maps_both_teams() {
    let my_team = vec![
        member(Some(11), Some(86), Some("Hide on bush"), Some("KR1")),
        member(Some(0), Some(103), Some("NoId"), Some("EUW")),
        member(Some(12), Some(0), None, None),
    ];
    let their_team = vec![member(Some(21), Some(222), Some("Enemy"), Some("NA1")), member(None, None, None, None)];
    let session = map_champ_select_session(&my_team, &their_team);

    assert_eq!(session.source, ChampSelectSessionSource::ChampSelect);
    assert_eq!(session.ally_ids, vec![11, 12]);
    assert_eq!(session.enemy_ids, vec![21]);
    assert_eq!(session.champion_selections, vec![(11, 86), (0, 103), (21, 222)]);
    assert_eq!(session.ally_names, vec!["Hide on bush#KR1".to_string(), "NoId#EUW".to_string()]);
    assert_eq!(session.enemy_names, vec!["Enemy#NA1".to_string()]);
    assert_eq!(
        session.champion_selections_by_name,
        vec![
            ("hide on bush#kr1".to_string(), 86),
            ("noid#euw".to_string(), 103),
            ("enemy#na1".to_string(), 222),
        ]
    );
    assert!(session.players.is_empty());
}

#[test]
fn champ_select_session_of_empty_teams_is_empty() {
    let session = map_champ_select_session(&Vec::new(), &Vec::new());
    assert!(session.ally_ids.is_empty() && session.enemy_ids.is_empty());
    assert!(session.champion_selections.is_empty() && session.champion_selections_by_name.is_empty());
}

#[test]
fn post_match_team_ids_are_sorted_and_distinct() {
    assert_eq!(post_match_team_ids(&vec![200, 100, 200, 100, 100]), vec![100, 200]);
    assert!(post_match_team_ids(&Vec::new()).is_empty());
}

fn action(id: Option<i64>, cell: i64, kind: &str, completed: Option<bool>, ally: Option<bool>) -> LcuChampSelectAction {
    LcuChampSelectAction {
        id,
        actor_cell_id: Some(cell),
        champion_id: None,
        completed,
        is_ally_action: ally,
        action_type: Some(kind.to_string()),
    }
}

#[test]
fn champ_select_action_is_the_first_open_one_of_the_local_cell() {
    let actions = vec![
        vec![action(Some(1), 2, "ban", None, Some(true)), action(Some(2), 3, "ban", Some(true), None)],
        vec![
            action(Some(3), 3, "BAN", Some(false), Some(false)),
            action(Some(4), 3, "Ban", None, None),
            action(Some(5), 3, "pick", None, Some(true)),
        ],
    ];
    assert_eq!(find_champ_select_action(&actions, 3, "ban"), Some(4));
    assert_eq!(find_champ_select_action(&actions, 3, "pick"), Some(5));
    assert_eq!(find_champ_select_action(&actions, 9, "pick"), None);
    let no_id = vec![vec![action(None, 3, "pick", None, None), action(Some(7), 3, "pick", None, None)]];
    assert_eq!(find_champ_select_action(&no_id, 3, "pick"), None);
    assert_eq!(champ_select_action_path(4), "/lol-champ-select/v1/session/actions/4");
}

fn counts(kills: i64, deaths: i64, assists: i64, gold: i64, damage: i64, vision: i64) -> PostMatchTeamTotals {
    PostMatchTeamTotals { kills, deaths, assists, gold_earned: gold, damage_to_champions: damage, vision_score: vision }
}

#[test]
fn post_match_teams_list_their_participants_in_order() {
    let teams = vec![100, 200, 100, 200, 100];
    assert_eq!(post_match_team_members(&teams, 100), vec![0, 2, 4]);
    assert_eq!(post_match_team_members(&teams, 200), vec![1, 3]);
    assert!(post_match_team_members(&teams, 300).is_empty());
}

#[test]
fn post_match_team_totals_add_each_count() {
    let lines = vec![counts(5, 2, 7, 12000, 25000, 30), counts(1, 6, 9, 8000, 11000, 55)];
    assert_eq!(post_match_team_totals(&lines), counts(6, 8, 16, 20000, 36000, 85));
    assert_eq!(post_match_team_totals(&Vec::new()), counts(0, 0, 0, 0, 0, 0));
}
