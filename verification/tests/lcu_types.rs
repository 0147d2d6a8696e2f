use lol_assistant::lcu::{
    match_result_from_stats, participant_champion_name, player_display_name, puuid_participant_id,
    queue_name, summoner_participant_id, LcuChampSelectMember, LcuParticipantIdentity,
    LcuParticipantStats, LcuPlayer, LcuSummoner,
};
use lol_assistant::domain::MatchResult;

fn member_with_game_tag(game_name: &str, tag_line: &str) -> LcuChampSelectMember {
    LcuChampSelectMember {
        summoner_id: None,
        champion_id: None,
        puuid: None,
        summoner_name: Some("Old Summoner Name".into()),
        display_name: Some("Riot Display".into()),
        game_name: Some(game_name.into()),
        tag_line: Some(tag_line.into()),
    }
}

#[test]
fn member_display_name_prefers_riot_id() {
    let member = member_with_game_tag("Faker", "KR1");
    assert_eq!(member.display_name().as_deref(), Some("Faker#KR1"));
}

#[test]
fn member_display_name_game_only_no_tag() {
    let mut member = member_with_game_tag("HideOnBush", "KR1");
    member.tag_line = None;
    assert_eq!(member.display_name().as_deref(), Some("HideOnBush"));
}

#[test]
fn member_display_name_falls_back_to_display_name() {
    let mut member = member_with_game_tag("", "");
    member.summoner_name = None;
    assert_eq!(member.display_name().as_deref(), Some("Riot Display"));
}

#[test]
fn member_display_name_falls_back_to_summoner_name() {
    let mut member = member_with_game_tag("", "");
    member.display_name = None;
    assert_eq!(member.display_name().as_deref(), Some("Old Summoner Name"));
}

#[test]
fn member_display_name_all_empty_returns_none() {
    let member = LcuChampSelectMember {
        summoner_id: None,
        champion_id: None,
        puuid: None,
        summoner_name: None,
        display_name: None,
        game_name: None,
        tag_line: None,
    };
    assert_eq!(member.display_name(), None);
}

fn summoner(display_name: Option<&str>, game_name: Option<&str>, tag_line: Option<&str>) -> LcuSummoner {
    LcuSummoner {
        display_name: display_name.map(str::to_string),
        game_name: game_name.map(str::to_string),
        tag_line: tag_line.map(str::to_string),
        summoner_level: Some(100),
        profile_icon_id: Some(42),
        account_id: Some(1),
        summoner_id: Some(2),
        puuid: Some("puuid-abc".into()),
    }
}

#[test]
fn summoner_display_name_uses_display_name_first() {
    let s = summoner(Some("MyDisplay"), Some("Game"), Some("TAG"));
    assert_eq!(s.display_name(), "MyDisplay");
}

#[test]
fn summoner_display_name_falls_back_to_riot_id() {
    let s = summoner(None, Some("Faker"), Some("KR1"));
    assert_eq!(s.display_name(), "Faker#KR1");
}

#[test]
fn summoner_display_name_game_only() {
    let s = summoner(None, Some("HideOnBush"), None);
    assert_eq!(s.display_name(), "HideOnBush");
}

#[test]
fn summoner_display_name_ultimate_fallback() {
    let s = summoner(None, None, None);
    assert_eq!(s.display_name(), "Current summoner");
}

#[test]
fn summoner_display_name_empty_strings_are_ignored() {
    let s = summoner(Some(""), Some("  "), Some("\t"));
    assert_eq!(s.display_name(), "Current summoner");
}

#[test]
fn summoner_profile_uses_display_name() {
    let s = summoner(Some("Test"), None, None);
    let profile = s.profile(None, Vec::new());
    assert_eq!(profile.display_name, "Test");
    assert_eq!(profile.summoner_level, 100);
    assert_eq!(profile.profile_icon_id, Some(42));
}

#[test]
fn summoner_profile_default_level_zero() {
    let mut s = summoner(None, None, None);
    s.summoner_level = None;
    let profile = s.profile(None, Vec::new());
    assert_eq!(profile.summoner_level, 0);
}

fn player(
    summoner_id: Option<i64>,
    account_id: Option<i64>,
    current_account_id: Option<i64>,
    puuid: Option<&str>,
) -> LcuPlayer {
    LcuPlayer {
        summoner_name: None,
        game_name: None,
        tag_line: None,
        summoner_id,
        account_id,
        current_account_id,
        profile_icon: None,
        profile_icon_id: None,
        puuid: puuid.map(str::to_string),
    }
}

#[test]
fn summoner_matches_by_summoner_id() {
    let s = summoner(Some("A"), None, None);
    assert!(s.matches_player(&player(Some(2), None, None, None)));
}

#[test]
fn summoner_matches_by_account_id() {
    let s = summoner(Some("A"), None, None);
    assert!(s.matches_player(&player(None, Some(1), None, None)));
}

#[test]
fn summoner_matches_by_current_account_id() {
    let s = summoner(Some("A"), None, None);
    assert!(s.matches_player(&player(None, None, Some(1), None)));
}

#[test]
fn summoner_matches_by_puuid() {
    let s = summoner(Some("A"), None, None);
    assert!(s.matches_player(&player(None, None, None, Some("puuid-abc"))));
}

#[test]
fn summoner_does_not_match_unrelated_player() {
    let s = summoner(Some("A"), None, None);
    assert!(!s.matches_player(&player(Some(999), Some(999), Some(999), Some("different"))));
}

#[test]
fn summoner_does_not_match_when_none() {
    let mut s = summoner(Some("A"), None, None);
    s.summoner_id = None;
    s.account_id = None;
    s.puuid = None;
    assert!(!s.matches_player(&player(Some(2), None, None, None)));
}

fn stats_with_items(items: &[i64]) -> LcuParticipantStats {
    LcuParticipantStats {
        item0: items.first().copied(),
        item1: items.get(1).copied(),
        item2: items.get(2).copied(),
        item3: items.get(3).copied(),
        item4: items.get(4).copied(),
        item5: items.get(5).copied(),
        item6: items.get(6).copied(),
        ..Default::default()
    }
}

#[test]
fn items_filters_out_zero_and_none() {
    let stats = stats_with_items(&[3031, 0, 3006, 0, 0, 0, 0]);
    assert_eq!(stats.items(), vec![3031, 3006]);
}

#[test]
fn items_returns_empty_when_all_zero() {
    let stats = stats_with_items(&[0, 0, 0, 0, 0, 0, 0]);
    assert_eq!(stats.items(), Vec::<i64>::new());
}

#[test]
fn items_all_nonzero() {
    let stats = stats_with_items(&[1, 2, 3, 4, 5, 6, 7]);
    assert_eq!(stats.items(), vec![1, 2, 3, 4, 5, 6, 7]);
}

fn stats_with_runes(runes: &[i64]) -> LcuParticipantStats {
    LcuParticipantStats {
        perk0: runes.first().copied(),
        perk1: runes.get(1).copied(),
        perk2: runes.get(2).copied(),
        perk3: runes.get(3).copied(),
        perk4: runes.get(4).copied(),
        perk5: runes.get(5).copied(),
        ..Default::default()
    }
}

#[test]
fn runes_filters_out_zero_and_none() {
    let stats = stats_with_runes(&[8008, 0, 9101, 0, 0, 8299]);
    assert_eq!(stats.runes(), vec![8008, 9101, 8299]);
}

#[test]
fn runes_returns_empty_when_all_zero() {
    let stats = stats_with_runes(&[0, 0, 0, 0, 0, 0]);
    assert_eq!(stats.runes(), Vec::<i64>::new());
}

#[test]
fn items_skip_negative_and_missing_slots() {
    let stats = stats_with_items(&[-5, 3031]);
    assert_eq!(stats.items(), vec![3031]);
}

#[test]
fn match_result_and_queue_names() {
    let mut stats = LcuParticipantStats::default();
    assert_eq!(match_result_from_stats(&stats), MatchResult::Unknown);
    stats.win = Some(true);
    assert_eq!(match_result_from_stats(&stats), MatchResult::Win);
    stats.win = Some(false);
    assert_eq!(match_result_from_stats(&stats), MatchResult::Loss);
    assert_eq!(queue_name(420), Some("Ranked Solo/Duo"));
    assert_eq!(queue_name(1700), Some("Arena"));
    assert_eq!(queue_name(1), None);
}

#[test]
fn player_display_name_prefers_riot_id_then_summoner_name() {
    let mut p = player(None, None, None, None);
    p.game_name = Some(" Faker ".to_string());
    p.tag_line = Some("KR1".to_string());
    assert_eq!(player_display_name(&p).as_deref(), Some("Faker#KR1"));
    p.game_name = None;
    p.summoner_name = Some("Old".to_string());
    assert_eq!(player_display_name(&p).as_deref(), Some("Old"));
}

#[test]
fn participant_champion_name_prefers_own_name_then_catalogue() {
    let mut names = std::collections::HashMap::new();
    names.insert(86, "Garen".to_string());
    assert_eq!(participant_champion_name(&Some(" Ahri ".to_string()), Some(86), &names), "Ahri");
    assert_eq!(participant_champion_name(&Some("  ".to_string()), Some(86), &names), "Garen");
    assert_eq!(participant_champion_name(&None, Some(103), &names), "Champion 103");
    assert_eq!(participant_champion_name(&None, None, &names), "Unknown champion");
}

fn identity(participant_id: Option<i64>, summoner_id: Option<i64>, puuid: Option<&str>) -> LcuParticipantIdentity {
    LcuParticipantIdentity {
        participant_id,
        player: Some(LcuPlayer {
            summoner_name: None,
            game_name: None,
            tag_line: None,
            summoner_id,
            account_id: None,
            current_account_id: None,
            profile_icon: None,
            profile_icon_id: None,
            puuid: puuid.map(str::to_string),
        }),
    }
}

#[test]
fn participant_id_is_found_by_summoner_or_puuid() {
    let identities = vec![
        identity(Some(1), Some(10), Some("a")),
        identity(None, Some(20), Some("b")),
        identity(Some(3), Some(20), Some("b")),
        LcuParticipantIdentity { participant_id: Some(4), player: None },
    ];
    let summoner = LcuSummoner {
        display_name: None,
        game_name: None,
        tag_line: None,
        summoner_level: None,
        profile_icon_id: None,
        account_id: None,
        summoner_id: Some(20),
        puuid: None,
    };
    assert_eq!(summoner_participant_id(&identities, &summoner), Some(3));
    assert_eq!(puuid_participant_id(&identities, "a"), Some(1));
    assert_eq!(puuid_participant_id(&identities, "b"), Some(3));
    assert_eq!(puuid_participant_id(&identities, "c"), None);
}
