use lol_assistant::domain::{AdvisorPowerSpike, AdvisorTagTone, ChampSelectTeam, MatchResult, RankedChampionLane};
use lol_assistant::performance::{
    advisor_record_index, lane_opponent, matchup_advice, power_spike_tag, recent_form_tags, summarize_champion_records,
    summarize_top_champions, MatchOutcome, MatchupNote, PlayedChampion, RecentOutcome,
    PERFORMANCE_MATCH_COUNT,
};

fn outcome(champion_id: Option<i64>, result: MatchResult) -> MatchOutcome {
    MatchOutcome { champion_id, result }
}

fn played(champion_id: Option<i64>, name: &str) -> PlayedChampion {
    PlayedChampion { champion_id, champion_name: name.to_string() }
}

fn recent(name: &str, result: MatchResult) -> RecentOutcome {
    RecentOutcome { champion_name: name.to_string(), result }
}

#[test]
fn champion_records_group_in_first_seen_order() {
    let matches = vec![
        outcome(Some(86), MatchResult::Win),
        outcome(Some(103), MatchResult::Loss),
        outcome(None, MatchResult::Win),
        outcome(Some(86), MatchResult::Loss),
        outcome(Some(86), MatchResult::Unknown),
        outcome(Some(103), MatchResult::Loss),
    ];
    let records = summarize_champion_records(&matches);
    assert_eq!(records.len(), 2);
    assert_eq!(records[0].champion_id, 86);
    assert_eq!((records[0].wins, records[0].losses, records[0].games), (1, 1, 3));
    assert_eq!(records[1].champion_id, 103);
    assert_eq!((records[1].wins, records[1].losses, records[1].games), (0, 2, 2));
}

#[test]
fn champion_records_are_empty_without_ids() {
    let matches = vec![outcome(None, MatchResult::Win), outcome(None, MatchResult::Loss)];
    assert!(summarize_champion_records(&matches).is_empty());
    assert!(summarize_champion_records(&Vec::new()).is_empty());
}

#[test]
fn top_champions_rank_by_games_then_first_seen() {
    let matches = vec![
        played(Some(1), "Ahri"),
        played(Some(2), "Garen"),
        played(Some(2), "Garen"),
        played(Some(3), "Jinx"),
        played(Some(4), "Thresh"),
        played(Some(3), "Jinx"),
    ];
    let top = summarize_top_champions(&matches);
    assert_eq!(top.len(), 3);
    assert_eq!((top[0].champion_name.as_str(), top[0].games), ("Garen", 2));
    assert_eq!((top[1].champion_name.as_str(), top[1].games), ("Jinx", 2));
    assert_eq!((top[2].champion_name.as_str(), top[2].games), ("Ahri", 1));
}

#[test]
fn top_champions_look_at_the_recent_window_only() {
    let mut matches: Vec<PlayedChampion> =
        (0..PERFORMANCE_MATCH_COUNT).map(|i| played(Some(i as i64 + 1), "Solo")).collect();
    matches.push(played(Some(99), "Late"));
    matches.push(played(Some(99), "Late"));
    let top = summarize_top_champions(&matches);
    assert_eq!(top.len(), 3);
    assert!(top.iter().all(|t| t.champion_name == "Solo" && t.games == 1));
    assert_eq!(top[0].champion_id, Some(1));
    assert_eq!(top[2].champion_id, Some(3));
}

#[test]
fn top_champions_separate_same_name_with_other_id() {
    let matches = vec![played(Some(1), "Ahri"), played(None, "Ahri"), played(Some(1), "Ahri")];
    let top = summarize_top_champions(&matches);
    assert_eq!(top.len(), 2);
    assert_eq!((top[0].champion_id, top[0].games), (Some(1), 2));
    assert_eq!((top[1].champion_id, top[1].games), (None, 1));
}

#[test]
fn form_tags_detect_one_trick_and_loss_streak() {
    let matches: Vec<RecentOutcome> = (0..4).map(|_| recent("Garen", MatchResult::Loss)).collect();
    let tags = recent_form_tags(&matches);
    assert_eq!(tags.len(), 2);
    assert_eq!(tags[0].label, "One-trick");
    assert_eq!(tags[0].tone, AdvisorTagTone::Good);
    assert_eq!(tags[1].label, "4 loss streak");
    assert_eq!(tags[1].tone, AdvisorTagTone::Warn);
}

#[test]
fn form_tags_compare_names_without_case() {
    let matches = vec![
        recent("garen", MatchResult::Win),
        recent("GAREN", MatchResult::Loss),
        recent("Garen", MatchResult::Win),
    ];
    let tags = recent_form_tags(&matches);
    assert_eq!(tags.len(), 1);
    assert_eq!(tags[0].label, "One-trick");
}

#[test]
fn form_tags_need_three_leading_losses() {
    let matches = vec![
        recent("Ahri", MatchResult::Loss),
        recent("Jinx", MatchResult::Loss),
        recent("Garen", MatchResult::Win),
        recent("Lux", MatchResult::Loss),
    ];
    assert!(recent_form_tags(&matches).is_empty());
    let streak: Vec<RecentOutcome> =
        (0..8).map(|i| recent(["Ahri", "Jinx", "Lux"][i % 3], MatchResult::Loss)).collect();
    let tags = recent_form_tags(&streak);
    assert_eq!(tags.len(), 1);
    assert_eq!(tags[0].label, format!("{PERFORMANCE_MATCH_COUNT} loss streak"));
}

#[test]
fn power_spike_tag_names_the_first_spike() {
    let spikes = vec![
        AdvisorPowerSpike {
            timing: "6".to_string(),
            label: "Ultimate".to_string(),
            description: "R".to_string(),
        },
        AdvisorPowerSpike {
            timing: "1 item".to_string(),
            label: "Core".to_string(),
            description: "Item".to_string(),
        },
    ];
    let tag = power_spike_tag(&spikes).expect("spike tag");
    assert_eq!(tag.label, "Spike 6");
    assert_eq!(tag.tone, AdvisorTagTone::Info);
    assert!(power_spike_tag(&Vec::new()).is_none());
}

fn note(id: i64, name: &str, text: &str) -> MatchupNote {
    MatchupNote { champion_id: id, champion_name: name.to_string(), note: text.to_string() }
}

#[test]
fn matchup_advice_prefers_favourable_notes() {
    let strong = vec![note(122, "Darius", "Short trades win."), note(266, "Aatrox", "Dodge Q.")];
    let weak = vec![note(122, "Darius", "Respect the pull."), note(164, "Camille", "Kite.")];
    assert_eq!(
        matchup_advice(&strong, &weak, Some(122)).as_deref(),
        Some("Favorable into Darius: Short trades win.")
    );
    assert_eq!(
        matchup_advice(&strong, &weak, Some(164)).as_deref(),
        Some("Difficult into Camille: Kite.")
    );
    assert_eq!(matchup_advice(&strong, &weak, Some(1)), None);
    assert_eq!(matchup_advice(&strong, &weak, None), None);
}

#[test]
fn advisor_record_lookup_takes_the_last_record_of_a_champion() {
    let ids = vec![86, 103, 86, 222];
    assert_eq!(advisor_record_index(&ids, Some(86)), Some(2));
    assert_eq!(advisor_record_index(&ids, Some(222)), Some(3));
    assert_eq!(advisor_record_index(&ids, Some(1)), None);
    assert_eq!(advisor_record_index(&ids, None), None);
}

#[test]
fn lane_opponent_is_the_first_enemy_in_the_same_lane() {
    let sides = vec![
        (ChampSelectTeam::Ally, Some(RankedChampionLane::Top)),
        (ChampSelectTeam::Ally, Some(RankedChampionLane::Middle)),
        (ChampSelectTeam::Enemy, Some(RankedChampionLane::Middle)),
        (ChampSelectTeam::Enemy, Some(RankedChampionLane::Top)),
        (ChampSelectTeam::Enemy, Some(RankedChampionLane::Top)),
        (ChampSelectTeam::Enemy, None),
    ];
    assert_eq!(lane_opponent(&sides, 0), Some(3));
    assert_eq!(lane_opponent(&sides, 3), Some(0));
    assert_eq!(lane_opponent(&sides, 1), Some(2));
    assert_eq!(lane_opponent(&sides, 5), None);
    let alone = vec![(ChampSelectTeam::Ally, Some(RankedChampionLane::Bottom))];
    assert_eq!(lane_opponent(&alone, 0), None);
}
