use lol_assistant::champion::{
    ability_rank_cap, burn_values_or, champion_ability_texts, champion_name_map, map_champion_catalog,
    sort_champion_catalog, LcuChampionSummary,
};
use lol_assistant::domain::LeagueChampionSummary;

fn summary(id: i64, name: &str) -> LcuChampionSummary {
    LcuChampionSummary {
        id,
        name: name.to_string(),
        alias: None,
    }
}

#[test]
fn catalog_maps_valid_champions() {
    let input = vec![summary(103, "Ahri"), summary(1, "Annie")];
    let result = map_champion_catalog(input);
    assert_eq!(result.len(), 2);
    assert_eq!(result[0].champion_id, 103);
    assert_eq!(result[0].champion_name, "Ahri");
}

#[test]
fn catalog_filters_non_positive_id() {
    let input = vec![summary(0, "Zero"), summary(-1, "Negative"), summary(1, "Annie")];
    let result = map_champion_catalog(input);
    assert_eq!(result.len(), 1);
    assert_eq!(result[0].champion_id, 1);
}

#[test]
fn catalog_filters_empty_name() {
    let input = vec![summary(1, ""), summary(2, "  "), summary(3, "Ahri")];
    let result = map_champion_catalog(input);
    assert_eq!(result.len(), 1);
    assert_eq!(result[0].champion_name, "Ahri");
}

#[test]
fn catalog_trims_name_whitespace() {
    let input = vec![summary(103, "  Ahri  ")];
    let result = map_champion_catalog(input);
    assert_eq!(result[0].champion_name, "Ahri");
}

#[test]
fn catalog_empty_input() {
    let result = map_champion_catalog(vec![]);
    assert!(result.is_empty());
}

#[test]
fn name_map_builds_from_valid_champions() {
    let input = vec![summary(103, "Ahri"), summary(1, "Annie")];
    let map = champion_name_map(input);
    assert_eq!(map.len(), 2);
    assert_eq!(map.get(&103), Some(&"Ahri".to_string()));
    assert_eq!(map.get(&1), Some(&"Annie".to_string()));
}

#[test]
fn name_map_filters_invalid_entries() {
    let input = vec![summary(0, "Bad"), summary(-1, "Bad"), summary(1, "")];
    let map = champion_name_map(input);
    assert!(map.is_empty());
}

#[test]
fn name_map_empty_input() {
    let map = champion_name_map(vec![]);
    assert!(map.is_empty());
}

#[test]
fn name_map_keeps_the_later_entry_for_a_repeated_id() {
    let input = vec![summary(7, "First"), summary(7, "Second")];
    let map = champion_name_map(input);
    assert_eq!(map.len(), 1);
    assert_eq!(map.get(&7), Some(&"Second".to_string()));
}

#[test]
fn ability_rank_cap_depends_on_slot() {
    assert_eq!(ability_rank_cap("Passive"), 1);
    assert_eq!(ability_rank_cap("R"), 3);
    assert_eq!(ability_rank_cap("Q"), 5);
}

#[test]
fn ability_texts_prefer_tencent_description() {
    let texts = champion_ability_texts(
        "Q",
        Some(" Decisive Strike ".to_string()),
        Some("<b>Silences</b> the target &amp; slows".to_string()),
        Some("ignored".to_string()),
        Some("Garen's next attack silences."),
    );
    assert_eq!(texts.name, "Decisive Strike");
    assert_eq!(texts.summary_description, "Silences the target & slows");
    assert_eq!(texts.description, "Garen's next attack silences.");
}

#[test]
fn ability_texts_fall_back_to_slot_and_summary() {
    let texts = champion_ability_texts("W", Some("  ".to_string()), None, Some("Plain text".to_string()), Some(""));
    assert_eq!(texts.name, "W");
    assert_eq!(texts.summary_description, "Plain text");
    assert_eq!(texts.description, "Plain text");

    let bare = champion_ability_texts("E", None, None, None, None);
    assert_eq!(bare.name, "E");
    assert_eq!(bare.summary_description, "No description available");
    assert_eq!(bare.description, "");
}

fn entry(id: i64, name: &str) -> LeagueChampionSummary {
    LeagueChampionSummary { champion_id: id, champion_name: name.to_string() }
}

#[test]
fn catalog_sorts_by_name_ignoring_case_then_id() {
    let sorted = sort_champion_catalog(vec![
        entry(266, "Aatrox"),
        entry(103, "ahri"),
        entry(1, "Annie"),
        entry(84, "Akali"),
        entry(12, "Alistar"),
        entry(62, "Wukong"),
        entry(5, "aatrox"),
    ]);
    let ids: Vec<i64> = sorted.iter().map(|c| c.champion_id).collect();
    assert_eq!(ids, vec![5, 266, 103, 84, 12, 1, 62]);
}

#[test]
fn catalog_sort_puts_a_prefix_first_and_keeps_every_entry() {
    let sorted = sort_champion_catalog(vec![entry(2, "Kayle"), entry(3, "Kay"), entry(1, "Kai'Sa")]);
    let names: Vec<&str> = sorted.iter().map(|c| c.champion_name.as_str()).collect();
    assert_eq!(names, vec!["Kai'Sa", "Kay", "Kayle"]);
    assert!(sort_champion_catalog(Vec::new()).is_empty());
}

fn texts(values: &[&str]) -> Vec<String> {
    values.iter().map(|v| v.to_string()).collect()
}

#[test]
fn tencent_burn_values_take_precedence() {
    let fallback = texts(&["9", "8", "7", "6", "5"]);
    assert_eq!(burn_values_or(Some("8/7/6/5/4"), fallback), texts(&["8", "7", "6", "5", "4"]));
}

#[test]
fn empty_burn_or_no_tencent_data_uses_the_fallback() {
    assert_eq!(burn_values_or(Some(""), texts(&["300"])), texts(&["300"]));
    assert_eq!(burn_values_or(None, texts(&["8", "7"])), texts(&["8", "7"]));
    assert_eq!(burn_values_or(None, Vec::new()), Vec::<String>::new());
}
