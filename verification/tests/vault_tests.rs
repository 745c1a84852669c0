use simple_request::error::{CredentialBackendError, VaultError};
use simple_request::reference::SecretReference;
use simple_request::registry::AppState;
use simple_request::vault::{
    delete_secret, delete_secret_reference, get_secret, get_secret_references, load_secret_references,
    store_secret, store_secret_at, store_secret_reference, update_secret_last_used, RegistryFile,
};

fn empty() -> AppState {
    AppState::new(Ok(Vec::new())).unwrap()
}

fn store(state: &mut AppState, id: &str, name: &str, kind: &str) -> Result<(), VaultError> {
    store_secret(id.to_string(), name.to_string(), kind.to_string(), Ok(()), state)
}

fn ids(state: &AppState) -> Vec<String> {
    get_secret_references(state).iter().map(|r| r.id.clone()).collect()
}

#[test]
fn stored_secret_shows_in_the_references() {
    let mut state = empty();
    assert_eq!(store(&mut state, "abc", "GitHub Token", "bearer-token"), Ok(()));
    let refs = get_secret_references(&state);
    assert_eq!(refs.len(), 1);
    assert_eq!(refs[0].id, "abc");
    assert_eq!(refs[0].name, "GitHub Token");
    assert_eq!(refs[0].secret_type, "bearer-token");
    assert_eq!(refs[0].last_used, None);
    assert_eq!(get_secret(Ok("ghp_123".to_string())), Ok("ghp_123".to_string()));
}

#[test]
fn stored_secret_carries_the_current_time() {
    let before = chrono::Utc::now();
    let mut state = empty();
    store(&mut state, "abc", "GitHub Token", "bearer-token").unwrap();
    let after = chrono::Utc::now();
    let created = chrono::DateTime::parse_from_rfc3339(&state.secret_references[0].created_at)
        .expect("an RFC 3339 timestamp")
        .with_timezone(&chrono::Utc);
    assert!(before <= created && created <= after);
}

#[test]
fn store_with_a_given_time_writes_that_time() {
    let mut state = empty();
    let done = store_secret_at(
        "abc".to_string(),
        "GitHub Token".to_string(),
        "bearer-token".to_string(),
        "2024-05-06T07:08:09+00:00".to_string(),
        Ok(()),
        &mut state,
    );
    assert_eq!(done, Ok(()));
    assert_eq!(state.secret_references.len(), 1);
    assert_eq!(state.secret_references[0].created_at, "2024-05-06T07:08:09+00:00");
    assert_eq!(state.secret_references[0].last_used, None);
}

#[test]
fn second_store_under_one_id_wins() {
    let mut state = empty();
    store(&mut state, "abc", "first name", "generic").unwrap();
    store(&mut state, "other", "other", "generic").unwrap();
    store(&mut state, "abc", "second name", "api-key").unwrap();
    let refs = get_secret_references(&state);
    let hits: Vec<&SecretReference> = refs.iter().filter(|r| r.id == "abc").collect();
    assert_eq!(hits.len(), 1);
    assert_eq!(hits[0].name, "second name");
    assert_eq!(hits[0].secret_type, "api-key");
    assert_eq!(ids(&state), vec!["other".to_string(), "abc".to_string()]);
}

#[test]
fn store_resets_the_time_of_last_use() {
    let mut state = empty();
    store(&mut state, "abc", "n", "generic").unwrap();
    assert!(update_secret_last_used("abc", "2024-03-03T00:00:00+00:00".to_string(), &mut state));
    store(&mut state, "abc", "n", "generic").unwrap();
    assert_eq!(state.secret_references[0].last_used, None);
}

#[test]
fn failed_write_leaves_the_registry_alone() {
    for e in [CredentialBackendError::Unavailable, CredentialBackendError::PlatformDenied] {
        let mut state = empty();
        store(&mut state, "abc", "old", "generic").unwrap();
        let done = store_secret("abc".to_string(), "new".to_string(), "generic".to_string(), Err(e), &mut state);
        assert_eq!(done, Err(VaultError::CredentialBackend(e)));
        assert_eq!(state.secret_references.len(), 1);
        assert_eq!(state.secret_references[0].name, "old");
        let done = store_secret("x".to_string(), "new".to_string(), "generic".to_string(), Err(e), &mut state);
        assert_eq!(done, Err(VaultError::CredentialBackend(e)));
        assert_eq!(ids(&state), vec!["abc".to_string()]);
    }
}

#[test]
fn get_secret_hands_the_value_on() {
    assert_eq!(get_secret(Ok("ghp_123".to_string())), Ok("ghp_123".to_string()));
    assert_eq!(get_secret(Ok(String::new())), Ok(String::new()));
}

#[test]
fn get_secret_hands_the_failure_on() {
    assert_eq!(
        get_secret(Err(CredentialBackendError::NotFound)),
        Err(VaultError::CredentialBackend(CredentialBackendError::NotFound))
    );
    assert_eq!(
        get_secret(Err(CredentialBackendError::Unavailable)),
        Err(VaultError::CredentialBackend(CredentialBackendError::Unavailable))
    );
}

#[test]
fn get_secret_does_not_touch_last_used() {
    let mut state = empty();
    store(&mut state, "abc", "n", "generic").unwrap();
    let _ = get_secret(Ok("ghp_123".to_string()));
    assert_eq!(state.secret_references[0].last_used, None);
}

#[test]
fn deleted_secret_is_gone() {
    let mut state = empty();
    store(&mut state, "abc", "GitHub Token", "bearer-token").unwrap();
    store(&mut state, "keep", "Other", "generic").unwrap();
    assert_eq!(delete_secret("abc", Ok(()), &mut state), Ok(()));
    assert_eq!(ids(&state), vec!["keep".to_string()]);
    assert_eq!(
        get_secret(Err(CredentialBackendError::NotFound)),
        Err(VaultError::CredentialBackend(CredentialBackendError::NotFound))
    );
}

#[test]
fn deleting_an_absent_secret_succeeds() {
    let mut state = empty();
    assert_eq!(delete_secret("nope", Err(CredentialBackendError::NotFound), &mut state), Ok(()));
    assert!(state.secret_references.is_empty());
    store(&mut state, "keep", "Other", "generic").unwrap();
    assert_eq!(delete_secret("nope", Err(CredentialBackendError::NotFound), &mut state), Ok(()));
    assert_eq!(delete_secret("nope", Ok(()), &mut state), Ok(()));
    assert_eq!(ids(&state), vec!["keep".to_string()]);
}

#[test]
fn absent_credential_still_removes_the_reference() {
    let mut state = empty();
    store_secret_reference(
        SecretReference::new("abc".to_string(), "n".to_string(), "generic".to_string(), "t".to_string()),
        &mut state,
    );
    assert_eq!(delete_secret("abc", Err(CredentialBackendError::NotFound), &mut state), Ok(()));
    assert!(state.secret_references.is_empty());
}

#[test]
fn failed_delete_keeps_the_reference() {
    for e in [CredentialBackendError::Unavailable, CredentialBackendError::PlatformDenied] {
        let mut state = empty();
        store(&mut state, "abc", "n", "generic").unwrap();
        assert_eq!(delete_secret("abc", Err(e), &mut state), Err(VaultError::CredentialBackend(e)));
        assert_eq!(ids(&state), vec!["abc".to_string()]);
    }
}

#[test]
fn reference_can_be_stored_without_a_credential() {
    let mut state = empty();
    let mut r = SecretReference::new(
        "imp".to_string(),
        "Imported".to_string(),
        "basic-password".to_string(),
        "2023-12-31T23:59:59+00:00".to_string(),
    );
    r.last_used = Some("2024-01-02T00:00:00+00:00".to_string());
    store_secret_reference(r, &mut state);
    let refs = get_secret_references(&state);
    assert_eq!(refs.len(), 1);
    assert_eq!(refs[0].id, "imp");
    assert_eq!(refs[0].created_at, "2023-12-31T23:59:59+00:00");
    assert_eq!(refs[0].last_used, Some("2024-01-02T00:00:00+00:00".to_string()));
}

#[test]
fn stored_reference_replaces_the_record_of_its_id() {
    let mut state = empty();
    store(&mut state, "a", "A", "generic").unwrap();
    store(&mut state, "b", "B", "generic").unwrap();
    store_secret_reference(
        SecretReference::new("a".to_string(), "A2".to_string(), "api-key".to_string(), "t".to_string()),
        &mut state,
    );
    assert_eq!(ids(&state), vec!["b".to_string(), "a".to_string()]);
    assert_eq!(state.secret_references[1].name, "A2");
    assert_eq!(state.secret_references[1].created_at, "t");
}

#[test]
fn reference_can_be_deleted_without_the_backend() {
    let mut state = empty();
    store(&mut state, "a", "A", "generic").unwrap();
    store(&mut state, "b", "B", "generic").unwrap();
    delete_secret_reference("a", &mut state);
    assert_eq!(ids(&state), vec!["b".to_string()]);
    delete_secret_reference("a", &mut state);
    assert_eq!(ids(&state), vec!["b".to_string()]);
}

#[test]
fn last_used_is_set_on_request_only() {
    let mut state = empty();
    store(&mut state, "a", "A", "generic").unwrap();
    store(&mut state, "b", "B", "generic").unwrap();
    assert!(update_secret_last_used("b", "2024-03-03T00:00:00+00:00".to_string(), &mut state));
    assert_eq!(state.secret_references[0].last_used, None);
    assert_eq!(state.secret_references[1].last_used, Some("2024-03-03T00:00:00+00:00".to_string()));
    assert_eq!(ids(&state), vec!["a".to_string(), "b".to_string()]);
}

#[test]
fn last_used_of_an_absent_id_changes_nothing() {
    let mut state = empty();
    store(&mut state, "a", "A", "generic").unwrap();
    assert!(!update_secret_last_used("zzz", "2024-03-03T00:00:00+00:00".to_string(), &mut state));
    assert_eq!(state.secret_references.len(), 1);
    assert_eq!(state.secret_references[0].last_used, None);
    let mut none = empty();
    assert!(!update_secret_last_used("a", "t".to_string(), &mut none));
    assert!(none.secret_references.is_empty());
}

#[test]
fn references_come_in_write_order() {
    let mut state = empty();
    for id in ["z", "m", "a", "m"] {
        store(&mut state, id, id, "generic").unwrap();
    }
    assert_eq!(ids(&state), vec!["z".to_string(), "a".to_string(), "m".to_string()]);
}

#[test]
fn missing_file_loads_as_empty() {
    let loaded = load_secret_references(RegistryFile::Missing);
    assert_eq!(loaded.map(|v| v.len()), Ok(0));
}

#[test]
fn parsed_file_loads_as_it_is() {
    let refs = vec![
        SecretReference::new("a".to_string(), "A".to_string(), "generic".to_string(), "t1".to_string()),
        SecretReference::new("b".to_string(), "B".to_string(), "api-key".to_string(), "t2".to_string()),
    ];
    let loaded = load_secret_references(RegistryFile::Parsed(refs)).unwrap();
    assert_eq!(loaded.len(), 2);
    assert_eq!(loaded[0].id, "a");
    assert_eq!(loaded[1].id, "b");
    assert_eq!(loaded[1].secret_type, "api-key");
}

#[test]
fn load_failures_keep_their_kind() {
    assert_eq!(load_secret_references(RegistryFile::NoDirectory).err(), Some(VaultError::Config));
    assert_eq!(load_secret_references(RegistryFile::Unreadable).err(), Some(VaultError::Io));
    assert_eq!(load_secret_references(RegistryFile::Malformed).err(), Some(VaultError::Serialization));
}

#[test]
fn damaged_file_is_surfaced_at_start() {
    let state = AppState::new(load_secret_references(RegistryFile::Malformed));
    assert_eq!(state.err(), Some(VaultError::Serialization));
    let state = AppState::new(load_secret_references(RegistryFile::Unreadable));
    assert_eq!(state.err(), Some(VaultError::Io));
    let state = AppState::new(load_secret_references(RegistryFile::NoDirectory));
    assert_eq!(state.err(), Some(VaultError::Config));
}

#[test]
fn state_from_a_missing_file_is_usable() {
    let mut state = AppState::new(load_secret_references(RegistryFile::Missing)).unwrap();
    assert!(get_secret_references(&state).is_empty());
    store(&mut state, "a", "A", "generic").unwrap();
    assert_eq!(ids(&state), vec!["a".to_string()]);
}
