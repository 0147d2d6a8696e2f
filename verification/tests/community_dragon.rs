use lol_assistant::champion::{
    bin_spell_path, capitalize_first, clean_stat_label, community_dragon_name,
    compact_display_strings, default_rank_count, direct_value_name, has_name_ignoring_case,
    is_interesting_stat, rank_window, spell_rank_count, split_burn, split_camel_case,
    truncate_to_rank,
};

#[test]
fn split_camel_case_preserves_acronyms() {
    assert_eq!(split_camel_case("BaseDamage"), "Base Damage");
    assert_eq!(split_camel_case("BaseDamagePerTick"), "Base Damage Per Tick");
    assert_eq!(split_camel_case("ADRatioPerTick"), "AD Ratio Per Tick");
    assert_eq!(split_camel_case("APRatio"), "AP Ratio");
    assert_eq!(split_camel_case("tADRatio"), "t AD Ratio");
    assert_eq!(split_camel_case("Duration"), "Duration");
}

#[test]
fn community_dragon_name_standard() {
    assert_eq!(community_dragon_name("Sett"), "sett");
    assert_eq!(community_dragon_name("Ahri"), "ahri");
}

#[test]
fn community_dragon_name_special_cases() {
    assert_eq!(community_dragon_name("Nunu & Willump"), "nunu");
    assert_eq!(community_dragon_name("Wukong"), "monkeyking");
    assert_eq!(community_dragon_name("Kog'Maw"), "kogmaw");
    assert_eq!(community_dragon_name("Cho'Gath"), "chogath");
}

#[test]
fn capitalize_first_works() {
    assert_eq!(capitalize_first("sett"), "Sett");
    assert_eq!(capitalize_first("monkeyking"), "Monkeyking");
    assert_eq!(capitalize_first(""), "");
}

#[test]
fn build_spell_path_passive() {
    let name = capitalize_first("sett");
    assert_eq!(
        format!("Characters/{}/Spells/{}PassiveAbility/{}Passive", name, name, name),
        "Characters/Sett/Spells/SettPassiveAbility/SettPassive"
    );
}

#[test]
fn build_spell_path_q() {
    let name = capitalize_first("sett");
    assert_eq!(
        format!("Characters/{}/Spells/{}QAbility/{}Q", name, name, name),
        "Characters/Sett/Spells/SettQAbility/SettQ"
    );
}

#[test]
fn split_camel_case_drops_the_part_after_a_star() {
    assert_eq!(split_camel_case("BaseDamage*0.5"), "Base Damage");
}

#[test]
fn capitalize_first_uses_unicode_case_mapping() {
    assert_eq!(capitalize_first("éclair"), "Éclair");
}

#[test]
fn split_burn_trims_each_rank() {
    assert_eq!(split_burn("8/7/6/5/4"), vec!["8", "7", "6", "5", "4"]);
    assert_eq!(split_burn(" 8 / 7 "), vec!["8", "7"]);
    assert!(split_burn("").is_empty());
}

#[test]
fn default_rank_count_by_slot() {
    assert_eq!(default_rank_count("Passive"), 1);
    assert_eq!(default_rank_count("R"), 3);
    assert_eq!(default_rank_count("Q"), 5);
}

#[test]
fn interesting_stats_skip_noise_short_and_internal_names() {
    assert!(is_interesting_stat("BaseDamage"));
    assert!(!is_interesting_stat(""));
    assert!(!is_interesting_stat("StunDuration"));
    assert!(!is_interesting_stat("SpellTooltipValue"));
    assert!(!is_interesting_stat("adratio"));
    assert!(!is_interesting_stat("Amp"));
}

#[test]
fn clean_stat_label_categories() {
    assert_eq!(clean_stat_label("BaseDamage"), ("Base Damage".to_string(), String::new()));
    assert_eq!(clean_stat_label("StunDuration"), ("Stun".to_string(), "s".to_string()));
    assert_eq!(clean_stat_label("SelfSlowPercent"), ("Self Slow Percent".to_string(), "%".to_string()));
    assert_eq!(clean_stat_label("MSDuration"), ("Move Speed".to_string(), "s".to_string()));
    assert_eq!(clean_stat_label("MovementSpeed"), ("Movement Speed".to_string(), String::new()));
    assert_eq!(clean_stat_label("HealPercent"), ("Heal Percent".to_string(), "%".to_string()));
    assert_eq!(clean_stat_label("LeapDistance"), ("Leap Distance".to_string(), String::new()));
    assert_eq!(clean_stat_label("WeirdValue"), ("Weird Value".to_string(), String::new()));
}

#[test]
fn bin_spell_path_of_passive_and_basic_slots() {
    let name = capitalize_first("sett");
    assert_eq!(
        bin_spell_path(name.as_str(), "Passive"),
        "Characters/Sett/Spells/SettPassiveAbility/SettPassive"
    );
    assert_eq!(bin_spell_path(name.as_str(), "Q"), "Characters/Sett/Spells/SettQAbility/SettQ");
    assert_eq!(
        bin_spell_path("Monkeyking", "R"),
        "Characters/Monkeyking/Spells/MonkeykingRAbility/MonkeykingR"
    );
}

#[test]
fn spell_rank_count_prefers_a_positive_level_count() {
    assert_eq!(spell_rank_count(Some(3), 5), 3);
    assert_eq!(spell_rank_count(Some(0), 5), 5);
    assert_eq!(spell_rank_count(None, 1), 1);
}

#[test]
fn direct_value_names_need_m_and_a_capital() {
    assert_eq!(direct_value_name("mAmmoRechargeTime"), Some("AmmoRechargeTime".to_string()));
    assert_eq!(direct_value_name("mCastTime"), Some("CastTime".to_string()));
    assert_eq!(direct_value_name("mspell"), None);
    assert_eq!(direct_value_name("m"), None);
    assert_eq!(direct_value_name("DataValues"), None);
    assert_eq!(direct_value_name(""), None);
}

#[test]
fn names_are_found_ignoring_ascii_case() {
    let names = vec!["BaseDamage".to_string(), "AmmoRechargeTime".to_string()];
    assert!(has_name_ignoring_case(&names, "ammorechargetime"));
    assert!(has_name_ignoring_case(&names, "BASEDAMAGE"));
    assert!(!has_name_ignoring_case(&names, "CastTime"));
    assert!(!has_name_ignoring_case(&Vec::new(), "BaseDamage"));
}

#[test]
fn rank_window_skips_the_unranked_value() {
    // Garen R: seven values, three ranks.
    let values = vec![50.0, 150.0, 250.0, 350.0, 450.0, 550.0, 650.0];
    assert_eq!(rank_window(values, 3), vec![150.0, 250.0, 350.0]);
    assert_eq!(rank_window(vec![1, 2, 3], 5), vec![1, 2, 3]);
    assert_eq!(rank_window(vec![1, 2, 3], 3), vec![1, 2, 3]);
    assert_eq!(rank_window(vec![1, 2, 3], 0), vec![1, 2, 3]);
    assert_eq!(rank_window(Vec::<i32>::new(), 2), Vec::<i32>::new());
}

#[test]
fn truncate_to_rank_drops_values_past_the_last_rank() {
    // The client appends a reset value after the five ranks of a basic ability.
    let cooldowns = vec![8.0, 7.0, 6.0, 5.0, 4.0, 99.0];
    assert_eq!(truncate_to_rank(cooldowns, Some(5)), vec![8.0, 7.0, 6.0, 5.0, 4.0]);
    assert_eq!(truncate_to_rank(vec![1, 2], Some(5)), vec![1, 2]);
    assert_eq!(truncate_to_rank(vec![1, 2, 3], Some(0)), vec![1, 2, 3]);
    assert_eq!(truncate_to_rank(vec![1, 2, 3], None), vec![1, 2, 3]);
}

#[test]
fn compact_display_strings_drops_blanks_and_trailing_repeats() {
    let values = vec!["600".to_string(), " ".to_string(), "700".to_string(), "700".to_string(), "700".to_string()];
    assert_eq!(compact_display_strings(values), vec!["600".to_string(), "700".to_string()]);
    let values = vec!["5".to_string(), "5".to_string(), "6".to_string()];
    assert_eq!(compact_display_strings(values), vec!["5".to_string(), "5".to_string(), "6".to_string()]);
    let values = vec!["".to_string(), "  ".to_string()];
    assert_eq!(compact_display_strings(values), Vec::<String>::new());
    assert_eq!(compact_display_strings(vec!["x".to_string()]), vec!["x".to_string()]);
}
