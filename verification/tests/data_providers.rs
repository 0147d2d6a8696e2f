use lol_assistant::domain::RankedChampionLane;
use lol_assistant::performance::MatchupNote;
use lol_assistant::remote::{
    days_to_ymd, lolps_champion_name, lolps_lane_str, remote_data_url, tencent_rate_fields, lolps_tier_label, optional_non_empty, ranked_lane_from_remote,
    tencent_lane_str, tencent_tier_label, timestamp_text, validate_advisor_named_refs,
    validate_advisor_content, validate_matchups, validate_power_spikes, validate_string_list, version_search_next,
    AdvisorContent, lolps_response_check, validate_advisor_identity, lolps_version_has_data,
    version_search_start, version_search_step, yesterday_date_from, LOLPS_MAX_VERSION,
};
use lol_assistant::application::{ChampionHint, RankedChampionDataError};
use lol_assistant::domain::{AdvisorNamedRef, AdvisorPowerSpike};

#[test]
fn optional_non_empty_none_is_none() {
    assert_eq!(optional_non_empty(None), None);
}

#[test]
fn optional_non_empty_empty_string_is_none() {
    assert_eq!(optional_non_empty(Some("".to_string())), None);
}

#[test]
fn optional_non_empty_whitespace_only_is_none() {
    assert_eq!(optional_non_empty(Some("   ".to_string())), None);
    assert_eq!(optional_non_empty(Some("\n\t".to_string())), None);
}

#[test]
fn optional_non_empty_keeps_value() {
    assert_eq!(
        optional_non_empty(Some("hello".to_string())),
        Some("hello".to_string())
    );
}

#[test]
fn optional_non_empty_trims_whitespace() {
    assert_eq!(
        optional_non_empty(Some("  world  ".to_string())),
        Some("world".to_string())
    );
}

#[test]
fn optional_non_empty_whitespace_around_text() {
    assert_eq!(
        optional_non_empty(Some("\t  hello\n".to_string())),
        Some("hello".to_string())
    );
}

#[test]
fn ranked_lane_parses_top() {
    assert_eq!(ranked_lane_from_remote("top"), Some(RankedChampionLane::Top));
}

#[test]
fn ranked_lane_parses_jungle_and_jug() {
    assert_eq!(ranked_lane_from_remote("jungle"), Some(RankedChampionLane::Jungle));
    assert_eq!(ranked_lane_from_remote("jug"), Some(RankedChampionLane::Jungle));
}

#[test]
fn ranked_lane_parses_middle_and_mid() {
    assert_eq!(ranked_lane_from_remote("middle"), Some(RankedChampionLane::Middle));
    assert_eq!(ranked_lane_from_remote("mid"), Some(RankedChampionLane::Middle));
}

#[test]
fn ranked_lane_parses_bottom_bot_and_adc() {
    assert_eq!(ranked_lane_from_remote("bottom"), Some(RankedChampionLane::Bottom));
    assert_eq!(ranked_lane_from_remote("bot"), Some(RankedChampionLane::Bottom));
    assert_eq!(ranked_lane_from_remote("adc"), Some(RankedChampionLane::Bottom));
}

#[test]
fn ranked_lane_parses_support_and_sup() {
    assert_eq!(ranked_lane_from_remote("support"), Some(RankedChampionLane::Support));
    assert_eq!(ranked_lane_from_remote("sup"), Some(RankedChampionLane::Support));
}

#[test]
fn ranked_lane_is_case_insensitive() {
    assert_eq!(ranked_lane_from_remote("TOP"), Some(RankedChampionLane::Top));
    assert_eq!(ranked_lane_from_remote("JuNgLe"), Some(RankedChampionLane::Jungle));
    assert_eq!(ranked_lane_from_remote("MiD"), Some(RankedChampionLane::Middle));
}

#[test]
fn ranked_lane_trims_whitespace() {
    assert_eq!(ranked_lane_from_remote("  top  "), Some(RankedChampionLane::Top));
    assert_eq!(ranked_lane_from_remote("\tmid\n"), Some(RankedChampionLane::Middle));
}

#[test]
fn ranked_lane_rejects_unknown() {
    assert_eq!(ranked_lane_from_remote("aram"), None);
    assert_eq!(ranked_lane_from_remote("carry"), None);
}

#[test]
fn ranked_lane_rejects_empty() {
    assert_eq!(ranked_lane_from_remote(""), None);
    assert_eq!(ranked_lane_from_remote("   "), None);
}

#[test]
fn provider_lane_and_tier_names() {
    assert_eq!(tencent_lane_str(RankedChampionLane::Middle), "mid");
    assert_eq!(tencent_tier_label(0), "CHALLENGER");
    assert_eq!(tencent_tier_label(20), "MASTER+");
    assert_eq!(tencent_tier_label(200), "BRONZE+");
    assert_eq!(lolps_lane_str(RankedChampionLane::Support), "4");
    assert_eq!(lolps_tier_label(13), "Diamond+");
    assert_eq!(lolps_tier_label(2), "Emerald+");
}

#[test]
fn days_to_ymd_known_dates() {
    assert_eq!(days_to_ymd(0), (1970, 1, 1));
    assert_eq!(days_to_ymd(59), (1970, 3, 1));
    assert_eq!(days_to_ymd(11016), (2000, 2, 29));
    assert_eq!(days_to_ymd(19723), (2024, 1, 1));
}

#[test]
fn yesterday_date_formats_the_previous_day() {
    assert_eq!(yesterday_date_from(19723 * 86400 + 5), "20231231");
    assert_eq!(yesterday_date_from(10), "19700101");
}

#[test]
fn timestamp_text_is_decimal_seconds() {
    assert_eq!(timestamp_text(Some(1700000000)), "1700000000");
    assert_eq!(timestamp_text(None), "0");
}

#[test]
fn advisor_named_refs_must_be_present_and_valid() {
    let empty: Vec<AdvisorNamedRef> = Vec::new();
    assert_eq!(
        validate_advisor_named_refs(&empty, "items"),
        Err(RankedChampionDataError::InvalidData("Advisor items must not be empty".to_string()))
    );
    let bad = vec![AdvisorNamedRef { id: Some(0), name: "Boots".to_string() }];
    assert_eq!(
        validate_advisor_named_refs(&bad, "items"),
        Err(RankedChampionDataError::InvalidData("Advisor items contains an invalid entry".to_string()))
    );
    let good = vec![AdvisorNamedRef { id: None, name: "Boots".to_string() }];
    assert_eq!(validate_advisor_named_refs(&good, "items"), Ok(()));
}

#[test]
fn advisor_string_lists_and_power_spikes_must_be_non_blank() {
    assert!(validate_string_list(&["Q".to_string(), " ".to_string()], "skills").is_err());
    assert!(validate_string_list(&[], "skills").is_err());
    assert_eq!(validate_string_list(&["Q".to_string()], "skills"), Ok(()));
    let spike = AdvisorPowerSpike {
        timing: "6".to_string(),
        label: "Ult".to_string(),
        description: " ".to_string(),
    };
    assert_eq!(
        validate_power_spikes(&[spike]),
        Err(RankedChampionDataError::InvalidData(
            "Advisor powerSpikes must contain non-empty values".to_string()
        ))
    );
}

#[test]
fn matchups_need_positive_ids_names_and_notes() {
    let good = MatchupNote { champion_id: 122, champion_name: "Darius".into(), note: "Trade short.".into() };
    assert!(validate_matchups(&[good.clone()], "strongAgainst").is_ok());
    assert!(validate_matchups(&[], "strongAgainst").is_ok());
    let blank_note = MatchupNote { note: "  ".into(), ..good.clone() };
    assert_eq!(
        validate_matchups(&[good.clone(), blank_note], "weakAgainst"),
        Err(RankedChampionDataError::InvalidData("Advisor weakAgainst contains an invalid matchup".into()))
    );
    let bad_id = MatchupNote { champion_id: 0, ..good };
    assert!(validate_matchups(&[bad_id], "weakAgainst").is_err());
}

fn run_version_search(newest_with_data: u32) -> (Option<u32>, Vec<u32>) {
    let mut search = version_search_start();
    let mut probes = Vec::new();
    while let Some(version) = version_search_next(&search) {
        probes.push(version);
        search = version_search_step(search, version <= newest_with_data);
    }
    (search.best, probes)
}

#[test]
fn version_search_finds_newest_version_with_data() {
    let (best, probes) = run_version_search(137);
    assert_eq!(best, Some(137));
    assert_eq!(probes[0], 250);
    assert!(probes.len() <= 9);
}

#[test]
fn version_search_without_data_finds_none() {
    let (best, _) = run_version_search(0);
    assert_eq!(best, None);
}

#[test]
fn version_search_with_all_versions_finds_the_last() {
    let (best, _) = run_version_search(LOLPS_MAX_VERSION);
    assert_eq!(best, Some(500));
}

#[test]
fn version_search_first_version_only() {
    let (best, _) = run_version_search(1);
    assert_eq!(best, Some(1));
}

#[test]
fn remote_data_url_prefers_the_request_address() {
    let url = remote_data_url(
        Some("https://example.com/ranked.json".to_string()),
        Some("https://default.example.com/ranked.json".to_string()),
        "Ranked champion data",
    );
    assert_eq!(url, Ok("https://example.com/ranked.json".to_string()));
    let url = remote_data_url(None, Some("https://default.example.com/a.json".to_string()), "Advisor data");
    assert_eq!(url, Ok("https://default.example.com/a.json".to_string()));
}

#[test]
fn remote_data_url_is_required() {
    assert_eq!(
        remote_data_url(None, None, "Ranked champion data"),
        Err(RankedChampionDataError::InvalidData("Ranked champion data URL is required".to_string()))
    );
}

#[test]
fn remote_data_url_must_use_https() {
    assert_eq!(
        remote_data_url(Some("http://example.com/a.json".to_string()), None, "Advisor data"),
        Err(RankedChampionDataError::InvalidData("Advisor data URL must use HTTPS".to_string()))
    );
    assert_eq!(
        remote_data_url(None, Some("ftp://example.com".to_string()), "Ranked champion data"),
        Err(RankedChampionDataError::InvalidData("Ranked champion data URL must use HTTPS".to_string()))
    );
}

#[test]
fn tencent_rate_fields_are_the_fourth_to_sixth() {
    assert_eq!(
        tencent_rate_fields("86_top_x_0.5123_0.0812_0.0301_12_34_rest_more"),
        Some(("0.5123".to_string(), "0.0812".to_string(), "0.0301".to_string()))
    );
    assert_eq!(
        tencent_rate_fields("1_2_3_0.5_0.1_0.2"),
        Some(("0.5".to_string(), "0.1".to_string(), "0.2".to_string()))
    );
    assert_eq!(tencent_rate_fields("1_2_3_0.5_0.1"), None);
    assert_eq!(tencent_rate_fields(""), None);
}

fn hint(id: i64, name: &str) -> ChampionHint {
    ChampionHint { id, name: name.to_string() }
}

#[test]
fn lolps_champion_name_prefers_the_english_name() {
    let hints = vec![hint(86, "Garen")];
    assert_eq!(lolps_champion_name(Some("Garen (KR)".to_string()), 86, &hints), "Garen (KR)");
}

#[test]
fn lolps_champion_name_falls_back_to_the_last_hint() {
    let hints = vec![hint(86, "Garen"), hint(103, "Ahri"), hint(86, "Garen, the Might of Demacia")];
    assert_eq!(lolps_champion_name(None, 86, &hints), "Garen, the Might of Demacia");
    assert_eq!(lolps_champion_name(Some(String::new()), 103, &hints), "Ahri");
}

#[test]
fn lolps_champion_name_without_hint_uses_the_id() {
    assert_eq!(lolps_champion_name(None, 777, &Vec::new()), "Champion 777");
    assert_eq!(lolps_champion_name(Some(String::new()), -3, &vec![hint(1, "Annie")]), "Champion -3");
}

fn named(id: i64, name: &str) -> AdvisorNamedRef {
    AdvisorNamedRef { id: Some(id), name: name.to_string() }
}

fn complete_advisor_content() -> AdvisorContent {
    AdvisorContent {
        summoner_spells: vec![named(4, "Flash"), named(14, "Ignite")],
        item_starter: vec![named(1056, "Doran's Ring")],
        item_core: vec![named(6655, "Luden's Companion")],
        item_boots: vec![named(3020, "Sorcerer's Shoes")],
        item_late: vec![named(3089, "Rabadon's Deathcap")],
        item_situational: vec![named(3157, "Zhonya's Hourglass")],
        skill_max_order: vec!["Q".to_string(), "W".to_string(), "E".to_string()],
        skill_early_order: vec!["Q".to_string(), "E".to_string(), "W".to_string()],
        primary_style: "Domination".to_string(),
        secondary_style: "Sorcery".to_string(),
        primary_runes: vec![named(8112, "Electrocute")],
        secondary_runes: vec![named(8226, "Manaflow Band")],
        stat_shards: vec!["Adaptive Force".to_string()],
        strong_against: vec![MatchupNote { champion_id: 1, champion_name: "Annie".to_string(), note: "Outrange her".to_string() }],
        weak_against: vec![],
        power_spikes: vec![AdvisorPowerSpike {
            timing: "Level 6".to_string(),
            label: "Ultimate".to_string(),
            description: "All-in threat".to_string(),
        }],
        lane_advice: "  Push and roam  ".to_string(),
        teamfight_advice: " Pick from fog ".to_string(),
    }
}

#[test]
fn advisor_content_gives_trimmed_advice() {
    let result = validate_advisor_content(&complete_advisor_content());
    assert_eq!(result, Ok(("Push and roam".to_string(), "Pick from fog".to_string())));
}

#[test]
fn advisor_content_reports_empty_summoner_spells_first() {
    let mut content = complete_advisor_content();
    content.summoner_spells = vec![];
    content.lane_advice = "   ".to_string();
    assert_eq!(
        validate_advisor_content(&content),
        Err(RankedChampionDataError::InvalidData("Advisor summonerSpells must not be empty".to_string()))
    );
}

#[test]
fn advisor_content_requires_rune_styles() {
    let mut content = complete_advisor_content();
    content.secondary_style = " ".to_string();
    assert_eq!(
        validate_advisor_content(&content),
        Err(RankedChampionDataError::InvalidData("Advisor rune styles are required".to_string()))
    );
}

#[test]
fn advisor_content_requires_lane_advice() {
    let mut content = complete_advisor_content();
    content.lane_advice = "\t".to_string();
    assert_eq!(
        validate_advisor_content(&content),
        Err(RankedChampionDataError::InvalidData("Advisor laneAdvice is required".to_string()))
    );
}

#[test]
fn advisor_content_requires_teamfight_advice() {
    let mut content = complete_advisor_content();
    content.teamfight_advice = String::new();
    assert_eq!(
        validate_advisor_content(&content),
        Err(RankedChampionDataError::InvalidData("Advisor teamfightAdvice is required".to_string()))
    );
}

#[test]
fn advisor_content_reports_invalid_matchup() {
    let mut content = complete_advisor_content();
    content.weak_against = vec![MatchupNote { champion_id: 0, champion_name: "Zed".to_string(), note: "Dodge".to_string() }];
    assert_eq!(
        validate_advisor_content(&content),
        Err(RankedChampionDataError::InvalidData("Advisor weakAgainst contains an invalid matchup".to_string()))
    );
}

#[test]
fn lolps_response_is_checked_before_its_entries_are_read() {
    match lolps_response_check("not json") {
        Err(RankedChampionDataError::InvalidData(m)) => {
            assert!(m.starts_with("lol.ps response JSON is invalid: "));
            assert!(m.len() > "lol.ps response JSON is invalid: ".len());
        }
        other => panic!("unexpected {other:?}"),
    }
    assert_eq!(
        lolps_response_check(r#"{"data":{"x":1}}"#),
        Err(RankedChampionDataError::InvalidData("lol.ps response missing 'data' array".to_string()))
    );
    assert_eq!(
        lolps_response_check(r#"{"data":[]}"#),
        Err(RankedChampionDataError::Unavailable("lol.ps returned no data for the selected lane/tier".to_string()))
    );
    assert_eq!(lolps_response_check(r#"{"data":[{"championId":1}]}"#), Ok(()));
}

#[test]
fn lolps_version_probe_needs_a_non_empty_data_array() {
    assert!(lolps_version_has_data(r#"{"data":[1]}"#));
    assert!(!lolps_version_has_data(r#"{"data":[]}"#));
    assert!(!lolps_version_has_data(r#"{"other":[1]}"#));
    assert!(!lolps_version_has_data("<html>"));
}

#[test]
fn advisor_identity_is_checked_in_order() {
    let invalid = |m: &str| Err(RankedChampionDataError::InvalidData(m.to_string()));
    assert_eq!(validate_advisor_identity(0, -1, "", "?"), invalid("Advisor champion id must be positive"));
    assert_eq!(validate_advisor_identity(1, -1, "", "?"), invalid("Advisor champion games must not be negative"));
    assert_eq!(validate_advisor_identity(1, 0, "  ", "?"), invalid("Advisor champion name is required"));
    assert_eq!(validate_advisor_identity(1, 0, "Annie", "river"), invalid("Advisor lane is invalid: river"));
    assert_eq!(
        validate_advisor_identity(1, 10, "  Annie ", " MID "),
        Ok(("Annie".to_string(), RankedChampionLane::Middle))
    );
}
