use lol_assistant::domain::{
    ActivityKind, AppLanguagePreference, AppThemePreference, RankedChampionLane, StartupPage,
};

#[test]
fn language_names_round_trip() {
    for value in [AppLanguagePreference::System, AppLanguagePreference::Zh, AppLanguagePreference::En] {
        assert_eq!(AppLanguagePreference::parse(value.as_str()), Some(value));
    }
    assert_eq!(AppLanguagePreference::parse("ZH"), None);
}

#[test]
fn theme_names_round_trip() {
    for value in [AppThemePreference::Light, AppThemePreference::Dark] {
        assert_eq!(AppThemePreference::parse(value.as_str()), Some(value));
    }
    assert_eq!(AppThemePreference::parse("auto"), None);
}

#[test]
fn startup_page_names_round_trip() {
    for value in [StartupPage::Dashboard, StartupPage::Activity, StartupPage::Settings] {
        assert_eq!(StartupPage::parse(value.as_str()), Some(value));
    }
    assert_eq!(StartupPage::parse(""), None);
}

#[test]
fn activity_kind_names_round_trip() {
    for value in [ActivityKind::Note, ActivityKind::Settings, ActivityKind::System] {
        assert_eq!(ActivityKind::parse(value.as_str()), Some(value));
    }
    assert_eq!(ActivityKind::parse("notes"), None);
}

#[test]
fn lane_names_round_trip() {
    for value in RankedChampionLane::all() {
        assert_eq!(RankedChampionLane::parse(value.as_str()), Some(value));
    }
    assert_eq!(RankedChampionLane::parse("mid"), None);
}
