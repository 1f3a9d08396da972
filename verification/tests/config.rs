use otpc::config::{Config, ConfigError, Credential, NewCredential};

fn new_credential(name: &str) -> NewCredential {
    NewCredential { issuer: "Example".to_owned(), name: name.to_owned(), url: "url".to_owned() }
}

#[test]
fn deleted_ids_are_not_reused() {
    let mut config = Config { next_id: 4, credentials: Vec::new() };

    config
        .add(vec![NewCredential {
            issuer: "Example".to_owned(),
            name: "alice".to_owned(),
            url: "url".to_owned(),
        }])
        .unwrap();

    assert_eq!(config.credentials[0].id, 4);
    assert_eq!(config.next_id, 5);
}

#[test]
fn a_fresh_store_is_empty_and_counts_from_one() {
    let config = Config::default();
    assert_eq!(config.next_id, 1);
    assert!(config.credentials.is_empty());
}

#[test]
fn added_credentials_are_numbered_in_a_row() {
    let mut config = Config::default();
    assert_eq!(config.add(vec![new_credential("alice"), new_credential("bob")]), Ok(2));
    assert_eq!(config.add(vec![new_credential("carol")]), Ok(1));
    let ids: Vec<u64> = config.credentials.iter().map(|credential| credential.id).collect();
    let names: Vec<&str> =
        config.credentials.iter().map(|credential| credential.name.as_str()).collect();
    assert_eq!(ids, vec![1, 2, 3]);
    assert_eq!(names, vec!["alice", "bob", "carol"]);
    assert_eq!(config.next_id, 4);
}

#[test]
fn a_deleted_number_stays_retired() {
    let mut config = Config::default();
    config.add(vec![new_credential("alice"), new_credential("bob")]).unwrap();
    config.credentials.remove(1);
    config.add(vec![new_credential("carol")]).unwrap();
    let ids: Vec<u64> = config.credentials.iter().map(|credential| credential.id).collect();
    assert_eq!(ids, vec![1, 3]);
}

#[test]
fn nothing_to_add_is_an_error() {
    let mut config = Config::default();
    assert_eq!(config.add(Vec::new()), Err(ConfigError::NoCredentials));
    assert_eq!(ConfigError::NoCredentials.message(), "No credentials found");
    assert_eq!(config.next_id, 1);
}

#[test]
fn numbers_that_do_not_reach_are_an_error() {
    let mut config = Config { next_id: u64::MAX - 1, credentials: Vec::new() };
    assert_eq!(
        config.add(vec![new_credential("alice"), new_credential("bob")]),
        Err(ConfigError::IdLimitReached)
    );
    assert_eq!(ConfigError::IdLimitReached.message(), "Credential ID limit reached");
    assert!(config.credentials.is_empty());
    assert_eq!(config.add(vec![new_credential("alice")]), Ok(1));
    assert_eq!(config.credentials[0].id, u64::MAX - 1);
    assert_eq!(config.next_id, u64::MAX);
}

#[test]
fn a_label_joins_issuer_and_name() {
    let credential = Credential {
        id: 7,
        issuer: "GitHub".to_owned(),
        name: "user@example.com".to_owned(),
        url: "url".to_owned(),
    };
    assert_eq!(credential.label(), "GitHub: user@example.com");
    assert_eq!(credential.clone().label(), credential.label());
}
