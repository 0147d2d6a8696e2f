use lol_assistant::application::{
    settings_default_choices, validate_settings, validate_settings_values, ApplicationError,
    SettingsChoicesInput, DEFAULT_ACTIVITY_LIMIT,
};
use lol_assistant::domain::{AppLanguagePreference, AppThemePreference, StartupPage};

fn input() -> SettingsChoicesInput {
    SettingsChoicesInput {
        startup_page: "activity".to_string(),
        language: "zh".to_string(),
        theme: "dark".to_string(),
        compact_mode: true,
        activity_limit: 50,
        auto_accept_enabled: false,
        auto_pick_enabled: true,
        auto_pick_champion_id: Some(86),
        auto_ban_enabled: false,
        auto_ban_champion_id: None,
        ai_base_url: Some("  https://api.example.test  ".to_string()),
        ai_api_key: Some("   ".to_string()),
        ai_model: None,
    }
}

fn validation(message: &str) -> Result<(), ApplicationError> {
    Err(ApplicationError::Validation(message.to_string()))
}

#[test]
fn settings_are_parsed_and_trimmed() {
    let values = validate_settings(input()).expect("valid settings");
    assert_eq!(values.startup_page, StartupPage::Activity);
    assert_eq!(values.language, AppLanguagePreference::Zh);
    assert_eq!(values.theme, AppThemePreference::Dark);
    assert!(values.compact_mode && !values.auto_accept_enabled);
    assert_eq!(values.activity_limit, 50);
    assert_eq!(values.auto_pick_champion_id, Some(86));
    assert_eq!(values.ai_base_url.as_deref(), Some("https://api.example.test"));
    assert_eq!(values.ai_api_key, None);
}

#[test]
fn settings_reject_unknown_names_in_order() {
    let mut bad = input();
    bad.startup_page = "profile".to_string();
    bad.language = "fr".to_string();
    assert_eq!(
        validate_settings(bad.clone()).map(|_| ()),
        validation("Startup page must be dashboard, profile, matches, advisor, or settings")
    );
    bad.startup_page = "settings".to_string();
    assert_eq!(validate_settings(bad.clone()).map(|_| ()), validation("Language must be system, zh, or en"));
    bad.language = "en".to_string();
    bad.theme = "auto".to_string();
    assert_eq!(validate_settings(bad).map(|_| ()), validation("Theme must be light or dark"));
}

#[test]
fn settings_values_follow_the_rules_in_order() {
    let mut bad = input();
    bad.activity_limit = 0;
    bad.auto_pick_champion_id = None;
    assert_eq!(validate_settings(bad.clone()).map(|_| ()), validation("Activity limit must be between 1 and 500"));
    bad.activity_limit = 500;
    assert_eq!(validate_settings(bad.clone()).map(|_| ()), validation("Auto pick requires a champion"));
    bad.auto_pick_champion_id = Some(2_000_000);
    assert_eq!(
        validate_settings(bad.clone()).map(|_| ()),
        validation("Auto pick champion must be between 1 and 1000000")
    );
    bad.auto_pick_champion_id = Some(1);
    bad.auto_ban_enabled = true;
    assert_eq!(validate_settings(bad).map(|_| ()), validation("Auto ban requires a champion"));
}

#[test]
fn default_settings_are_valid() {
    let defaults = settings_default_choices();
    assert_eq!(defaults.startup_page, StartupPage::Dashboard);
    assert_eq!(defaults.activity_limit, DEFAULT_ACTIVITY_LIMIT);
    assert!(defaults.auto_accept_enabled);
    assert_eq!(validate_settings_values(&defaults), Ok(()));
}
