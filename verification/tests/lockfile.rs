use lol_assistant::lockfile::{parse_lockfile, LcuAdapterError};

const TEST_LOCKFILE_VALUE: &str = "not-a-real-test-value";

#[test]
fn parses_valid_lockfile_with_pid() {
    let creds = parse_lockfile("LeagueClient:12345:56789:secret_pass:https").unwrap();
    assert_eq!(creds.port, 56789);
    assert_eq!(creds.password, "secret_pass");
    assert_eq!(creds.pid, 12345);
}

#[test]
fn rejects_zero_pid() {
    let result = parse_lockfile("LeagueClient:0:12345:pass:https");
    assert!(result.is_err());
}

#[test]
fn rejects_empty_name() {
    let result = parse_lockfile(":1234:5678:pass:https");
    assert!(result.is_err());
}

#[test]
fn rejects_non_https() {
    let result = parse_lockfile("LeagueClient:1234:5678:pass:http");
    assert!(result.is_err());
}

#[test]
fn rejects_wrong_field_count() {
    let result = parse_lockfile("a:b:c:d");
    assert!(result.is_err());
}

#[test]
fn parses_valid_lockfile() {
    let credentials =
        parse_lockfile(format!("LeagueClient:1234:2999:{TEST_LOCKFILE_VALUE}:https").as_str())
            .expect("lockfile parses");

    assert_eq!(credentials.port, 2999);
    assert_eq!(credentials.password, TEST_LOCKFILE_VALUE);
}

#[test]
fn lockfile_credentials_debug_redacts_password() {
    let credentials =
        parse_lockfile(format!("LeagueClient:1234:2999:{TEST_LOCKFILE_VALUE}:https").as_str())
            .expect("lockfile parses");
    let message = credentials.debug_text();

    assert!(message.contains("<redacted>"));
    assert!(!message.contains(TEST_LOCKFILE_VALUE));
}

#[test]
fn rejects_malformed_lockfile_without_exposing_password() {
    let error = parse_lockfile(
        format!("LeagueClient:1234:not-a-port:{TEST_LOCKFILE_VALUE}:https").as_str(),
    )
    .err()
    .expect("lockfile is rejected");
    let message = format!("{error:?}");

    assert!(!message.contains(TEST_LOCKFILE_VALUE));
}

#[test]
fn rejects_non_https_lockfile() {
    let result =
        parse_lockfile(format!("LeagueClient:1234:2999:{TEST_LOCKFILE_VALUE}:http").as_str());

    assert!(matches!(result, Err(LcuAdapterError::InvalidLockfile)));
}

#[test]
fn lockfile_fields_are_trimmed_and_ports_range_checked() {
    let creds = parse_lockfile("  LeagueClient : 7 : 443 : pw : https \n").unwrap();
    assert_eq!((creds.pid, creds.port, creds.password.as_str()), (7, 443, "pw"));
    assert!(parse_lockfile("LeagueClient:1:70000:pw:https").is_err());
    assert!(parse_lockfile("LeagueClient:1:0:pw:https").is_err());
    assert!(parse_lockfile("LeagueClient:1:2:   :https").is_err());
    assert!(parse_lockfile("LeagueClient:+5:+6:pw:https").is_ok());
}
