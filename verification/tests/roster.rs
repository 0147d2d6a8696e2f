use lol_assistant::application::{
    ChampSelectSessionData, ChampSelectSessionPlayer, ChampSelectSessionSource, SummonerBatchEntry,
};
use lol_assistant::domain::ChampSelectTeam;
use lol_assistant::roster::{
    champ_select_roster, roster_lookup_names, roster_mastery_requests, roster_puuids,
    roster_summoner_ids,
};

fn empty_session() -> ChampSelectSessionData {
    ChampSelectSessionData {
        ally_ids: Vec::new(),
        enemy_ids: Vec::new(),
        champion_selections: Vec::new(),
        ally_names: Vec::new(),
        enemy_names: Vec::new(),
        champion_selections_by_name: Vec::new(),
        source: ChampSelectSessionSource::ChampSelect,
        players: Vec::new(),
    }
}

fn player(id: Option<i64>, puuid: Option<&str>, name: &str, team: ChampSelectTeam) -> ChampSelectSessionPlayer {
    ChampSelectSessionPlayer {
        summoner_id: id,
        puuid: puuid.map(str::to_string),
        display_name: name.to_string(),
        champion_id: None,
        team,
    }
}

fn entry(id: i64, puuid: &str, name: &str, level: Option<i64>) -> SummonerBatchEntry {
    SummonerBatchEntry {
        summoner_id: id,
        puuid: puuid.to_string(),
        display_name: name.to_string(),
        summoner_level: level,
    }
}

#[test]
fn roster_ids_are_sorted_and_distinct() {
    let mut session = empty_session();
    session.ally_ids = vec![30, 10, 30];
    session.enemy_ids = vec![20, 10];
    assert_eq!(roster_summoner_ids(&session), vec![10, 20, 30]);
}

#[test]
fn roster_lookup_names_skip_blank_names() {
    let mut session = empty_session();
    session.ally_names = vec!["A".to_string(), " ".to_string()];
    session.enemy_names = vec!["B".to_string()];
    assert_eq!(roster_lookup_names(&session), vec!["A", "B"]);
}

#[test]
fn roster_merges_duplicate_players() {
    let mut session = empty_session();
    session.players = vec![
        player(Some(1), Some("p1"), "One", ChampSelectTeam::Ally),
        player(Some(1), Some("p1b"), "One again", ChampSelectTeam::Ally),
        player(None, Some("p1"), "Other", ChampSelectTeam::Enemy),
        player(Some(2), None, "one", ChampSelectTeam::Enemy),
    ];
    session.ally_ids = vec![1];
    let roster = champ_select_roster(&session, &Vec::new(), &Vec::new());
    assert_eq!(roster.len(), 1);
    assert_eq!(roster[0].summoner_id, 1);
    assert_eq!(roster[0].puuid, "p1");
}

#[test]
fn roster_adds_players_known_only_by_id() {
    let mut session = empty_session();
    session.ally_ids = vec![5];
    session.enemy_ids = vec![6];
    session.champion_selections = vec![(6, 99)];
    let by_id = vec![entry(5, "p5", "Five#NA1", Some(30))];
    let roster = champ_select_roster(&session, &by_id, &Vec::new());
    assert_eq!(roster.len(), 2);
    assert_eq!(roster[0].display_name, "Five#NA1");
    assert_eq!(roster[0].puuid, "p5");
    assert_eq!(roster[0].team, ChampSelectTeam::Ally);
    assert_eq!(roster[0].summoner_level, Some(30));
    assert_eq!(roster[1].display_name, "Summoner 6");
    assert_eq!(roster[1].team, ChampSelectTeam::Enemy);
    assert_eq!(roster[1].champion_id, Some(99));
    assert_eq!(roster[1].puuid, "");
}

#[test]
fn roster_matches_bare_names_to_riot_id_display_names() {
    let mut session = empty_session();
    session.enemy_names = vec!["Faker".to_string()];
    session.champion_selections_by_name = vec![("faker".to_string(), 7)];
    let by_name = vec![entry(77, "pf", "Faker#KR1", Some(500))];
    let roster = champ_select_roster(&session, &Vec::new(), &by_name);
    assert_eq!(roster.len(), 1);
    assert_eq!(roster[0].summoner_id, 77);
    assert_eq!(roster[0].display_name, "Faker#KR1");
    assert_eq!(roster[0].puuid, "pf");
    assert_eq!(roster[0].champion_id, Some(7));
    assert_eq!(roster[0].team, ChampSelectTeam::Enemy);
}

#[test]
fn roster_marks_missing_identity_with_a_negative_id() {
    let mut session = empty_session();
    session.players = vec![player(None, None, "Hidden", ChampSelectTeam::Enemy)];
    let roster = champ_select_roster(&session, &Vec::new(), &Vec::new());
    assert_eq!(roster.len(), 1);
    assert!(roster[0].summoner_id < 0);
    assert_eq!(roster[0].puuid, "");
    assert!(roster_puuids(&roster).is_empty());
}

#[test]
fn roster_fills_missing_puuid_from_name_lookup() {
    let mut session = empty_session();
    session.players = vec![player(Some(9), None, "Nine#EUW", ChampSelectTeam::Enemy)];
    let by_name = vec![entry(9, "p9", "Nine#EUW", Some(12))];
    let roster = champ_select_roster(&session, &Vec::new(), &by_name);
    assert_eq!(roster[0].puuid, "p9");
    assert_eq!(roster[0].summoner_level, Some(12));
}

#[test]
fn roster_names_for_blank_players() {
    let mut session = empty_session();
    session.players = vec![
        player(Some(4), None, " ", ChampSelectTeam::Ally),
        player(None, None, "", ChampSelectTeam::Ally),
    ];
    let roster = champ_select_roster(&session, &Vec::new(), &Vec::new());
    assert_eq!(roster[0].display_name, "Summoner 4");
    assert_eq!(roster[1].display_name, "Player 2");
}

#[test]
fn roster_request_lists() {
    let mut session = empty_session();
    let mut a = player(Some(1), Some("pb"), "A", ChampSelectTeam::Ally);
    a.champion_id = Some(10);
    let b = player(Some(2), Some("pa"), "B", ChampSelectTeam::Enemy);
    session.players = vec![a, b];
    let roster = champ_select_roster(&session, &Vec::new(), &Vec::new());
    assert_eq!(roster_puuids(&roster), vec!["pa", "pb"]);
    assert_eq!(roster_mastery_requests(&roster), vec![("pb".to_string(), 10)]);
}

#[test]
fn each_side_id_is_one_roster_player() {
    let mut session = empty_session();
    session.ally_ids = vec![11, 12, 11];
    session.enemy_ids = vec![13, 12];
    session.players = vec![player(Some(11), Some("p11"), "Eleven", ChampSelectTeam::Ally)];
    session.ally_names = vec!["Eleven".to_string(), "Someone".to_string()];
    let by_id = vec![entry(12, "p12", "Twelve", Some(30))];
    let by_name = vec![entry(11, "p11", "Eleven", Some(40))];
    let roster = champ_select_roster(&session, &by_id, &by_name);
    for id in [11, 12, 13] {
        assert_eq!(roster.iter().filter(|s| s.summoner_id == id).count(), 1, "id {id}");
    }
}
