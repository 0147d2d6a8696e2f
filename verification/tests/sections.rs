use lol_assistant::application::{
    advisor_refresh_fallback, ranked_refresh_fallback, ApplicationError, RankedChampionDataError,
};
use lol_assistant::champion::{is_json_object_response, tencent_alias_accepted};
use lol_assistant::domain::{LeagueClientConnection, LeagueClientPhase, LeagueDataSection};
use lol_assistant::status::{self_data_warnings, LcuRequestError};

#[test]
fn self_data_without_failures_is_connected() {
    let (warnings, status) = self_data_warnings(None, None, None);
    assert!(warnings.is_empty());
    assert_eq!(status.phase, LeagueClientPhase::Connected);
    assert_eq!(status.connection, LeagueClientConnection::Connected);
    assert_eq!(status.message, None);
}

#[test]
fn self_data_failures_become_warnings_in_section_order() {
    let (warnings, status) =
        self_data_warnings(Some(LcuRequestError::Unauthorized), None, Some(LcuRequestError::NotLoggedIn));
    assert_eq!(warnings.len(), 2);
    assert_eq!(warnings[0].section, LeagueDataSection::Champions);
    assert_eq!(warnings[0].message, "Champion names could not be read");
    assert_eq!(warnings[1].section, LeagueDataSection::Matches);
    assert_eq!(warnings[1].message, "Recent matches is unavailable before login");
    assert_eq!(status.phase, LeagueClientPhase::PartialData);
    assert_eq!(status.message.as_deref(), Some("League Client connected with partial data"));
}

#[test]
fn json_object_response_skips_leading_white_space() {
    assert!(is_json_object_response(b"  \n\t{\"hero\":{}}"));
    assert!(is_json_object_response(b"{}"));
    assert!(!is_json_object_response(b"var x = {}"));
    assert!(!is_json_object_response(b"   "));
    assert!(!is_json_object_response(b""));
}

#[test]
fn tencent_alias_compares_without_case() {
    assert!(tencent_alias_accepted("MonkeyKing", Some("monkeyking")));
    assert!(!tencent_alias_accepted("MonkeyKing", Some("Wukong")));
    assert!(tencent_alias_accepted("Garen", None));
}

#[test]
fn ranked_refresh_falls_back_to_cache() {
    let error = RankedChampionDataError::Unavailable("timeout".to_string());
    let (snapshot, message) = ranked_refresh_fallback(error, Some(7)).expect("cached snapshot");
    assert_eq!(snapshot, 7);
    assert_eq!(message, "Remote ranked champion data could not be refreshed; showing cached data: timeout");

    let error = RankedChampionDataError::InvalidData("bad json".to_string());
    match ranked_refresh_fallback::<i32>(error, None) {
        Err(ApplicationError::Integration(message)) => assert_eq!(message, "bad json"),
        other => panic!("unexpected {other:?}"),
    }
}

#[test]
fn advisor_refresh_falls_back_to_cache() {
    let error = RankedChampionDataError::Unavailable("offline".to_string());
    let (snapshot, message) = advisor_refresh_fallback(error, Some("cached")).expect("cached");
    assert_eq!(snapshot, "cached");
    assert_eq!(message, "Remote advisor data could not be refreshed; showing cached data");
    let error = RankedChampionDataError::Unavailable("offline".to_string());
    assert!(matches!(
        advisor_refresh_fallback::<u8>(error, None),
        Err(ApplicationError::Integration(m)) if m == "offline"
    ));
}
