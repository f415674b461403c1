//! Tests for credential and user lookup.

use rustmark::auth::{Credentials, User};
use rustmark::Heading;

fn users() -> Vec<(String, String)> {
    vec![
        ("alice".to_string(), "SECRET-REDACTED".to_string()),
        ("bob".to_string(), "hunter2".to_string()),
    ]
}

#[test]
fn find_by_credentials_checks_the_password() {
    let list = users();
    let good = Credentials::new("bob".to_string(), "hunter2".to_string());
    let found = User::find_by_credentials(&list, &good).unwrap();
    assert_eq!(found.username, "bob");
    assert_eq!(found.id().as_str(), "bob");
    assert_eq!(found.to_loggable_string(), "bob");

    let wrong = Credentials::new("bob".to_string(), "wrong".to_string());
    assert!(User::find_by_credentials(&list, &wrong).is_none());

    let unknown = Credentials::new("mallory".to_string(), "hunter2".to_string());
    assert!(User::find_by_credentials(&list, &unknown).is_none());
}

#[test]
fn find_by_id_ignores_the_password() {
    let list = users();
    let found = User::find_by_id(&list, &"alice".to_string()).unwrap();
    assert_eq!(found.username, "alice");
    assert!(User::find_by_id(&list, &"mallory".to_string()).is_none());
}

#[test]
fn credentials_log_only_the_username() {
    let credentials = Credentials::new("carol".to_string(), "pw".to_string());
    assert_eq!(credentials.to_loggable_string(), "carol");
}

#[test]
fn heading_holds_its_parts() {
    let heading = Heading { level: 2, id: "overview".to_string(), text: "Overview".to_string() };
    assert_eq!(heading.level, 2);
    assert_eq!(heading.id, "overview");
    assert_eq!(heading.text, "Overview");
}
