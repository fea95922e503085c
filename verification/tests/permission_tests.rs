use agentkernel::permissions::{
    uuid_v4_from_seed, GrantScope, PermissionGrant, PermissionKind, PermissionStore,
};

fn empty_store() -> PermissionStore {
    PermissionStore::with_loaded("/tmp/agentkernel-test-permissions.json".to_string(), Vec::new())
}

#[test]
fn test_grant_and_check() {
    let mut store = empty_store();
    assert!(!store.check(PermissionKind::SandboxRemove, Some("test")));

    store.grant(
        PermissionKind::SandboxRemove,
        GrantScope::Session,
        Some("test".to_string()),
        "user",
    );
    assert!(store.check(PermissionKind::SandboxRemove, Some("test")));
    assert!(!store.check(PermissionKind::SandboxRemove, Some("other")));
}

#[test]
fn test_wildcard_grant() {
    let mut store = empty_store();
    store.grant(PermissionKind::SandboxCreate, GrantScope::Session, None, "user");
    assert!(store.check(PermissionKind::SandboxCreate, Some("any")));
    assert!(store.check(PermissionKind::SandboxCreate, None));
}

#[test]
fn test_consume_once() {
    let mut store = empty_store();
    store.grant(
        PermissionKind::SandboxRemove,
        GrantScope::Once,
        Some("test".to_string()),
        "user",
    );
    assert!(store.check(PermissionKind::SandboxRemove, Some("test")));
    assert!(store.consume_once(PermissionKind::SandboxRemove, Some("test")));
    assert!(!store.check(PermissionKind::SandboxRemove, Some("test")));
}

#[test]
fn test_revoke() {
    let mut store = empty_store();
    let id = store.grant(PermissionKind::SudoExec, GrantScope::Session, None, "user");
    assert!(store.check(PermissionKind::SudoExec, None));
    assert!(store.revoke(&id));
    assert!(!store.check(PermissionKind::SudoExec, None));
}

#[test]
fn test_list() {
    let mut store = empty_store();
    store.grant(PermissionKind::SandboxRemove, GrantScope::Session, None, "user");
    store.grant(
        PermissionKind::SandboxCreate,
        GrantScope::Once,
        Some("test".to_string()),
        "user",
    );
    let list = store.list();
    assert_eq!(list.len(), 2);
}

#[test]
fn test_permission_kind_roundtrip() {
    let kinds = [
        PermissionKind::SandboxRemove,
        PermissionKind::SandboxCreate,
        PermissionKind::NetworkAccess,
        PermissionKind::MountDirectory,
        PermissionKind::SudoExec,
        PermissionKind::FileDelete,
    ];
    for kind in &kinds {
        let s = kind.to_string();
        let parsed = PermissionKind::from_str(&s);
        assert_eq!(parsed, Some(*kind));
    }
}

#[test]
fn test_create_request() {
    let req = PermissionStore::create_request(PermissionKind::SandboxRemove, Some("my-sandbox"));
    assert!(req.id.starts_with("req_"));
    assert_eq!(req.kind, PermissionKind::SandboxRemove);
    assert_eq!(req.sandbox.as_deref(), Some("my-sandbox"));
    assert!(req.description.contains("my-sandbox"));
}

#[test]
fn descriptions_name_the_sandbox_exactly() {
    assert_eq!(
        PermissionKind::SandboxRemove.description(Some("box")),
        "Remove sandbox for 'box' and all its data"
    );
    assert_eq!(PermissionKind::SandboxRemove.description(None), "Remove sandbox and all its data");
    assert_eq!(PermissionKind::FileDelete.description(Some("x")), "Delete files for 'x'");
    assert_eq!(
        PermissionKind::MountDirectory.description(None),
        "Mount a host directory into sandbox"
    );
}

#[test]
fn unknown_permission_name_is_rejected() {
    assert_eq!(PermissionKind::from_str("root"), None);
    assert_eq!(PermissionKind::from_str("Sudo_Exec"), None);
    assert_eq!(PermissionKind::from_str(""), None);
}

#[test]
fn consume_once_ignores_session_grants_and_keeps_others() {
    let mut store = empty_store();
    store.grant(PermissionKind::SudoExec, GrantScope::Session, None, "user");
    assert!(!store.consume_once(PermissionKind::SudoExec, None));
    store.grant(PermissionKind::SudoExec, GrantScope::Once, None, "user");
    store.grant(PermissionKind::SudoExec, GrantScope::Once, None, "user");
    assert!(store.consume_once(PermissionKind::SudoExec, Some("a")));
    assert_eq!(store.list().len(), 2);
    assert!(store.consume_once(PermissionKind::SudoExec, None));
    assert!(!store.consume_once(PermissionKind::SudoExec, None));
    assert!(store.check(PermissionKind::SudoExec, None));
}

#[test]
fn revoke_unknown_id_reports_nothing_removed() {
    let mut store = empty_store();
    store.grant(PermissionKind::NetworkAccess, GrantScope::Always, None, "user");
    assert!(!store.revoke("grant_missing"));
    assert_eq!(store.list().len(), 1);
}

#[test]
fn only_always_grants_are_persistent() {
    let mut store = empty_store();
    store.grant(PermissionKind::NetworkAccess, GrantScope::Always, None, "u");
    store.grant(PermissionKind::SudoExec, GrantScope::Session, None, "u");
    store.grant(PermissionKind::FileDelete, GrantScope::Once, None, "u");
    let saved = store.persistent_grants();
    assert_eq!(saved.len(), 1);
    assert_eq!(saved[0].kind, PermissionKind::NetworkAccess);

    let loaded: Vec<PermissionGrant> = store.list();
    let reloaded = PermissionStore::with_loaded("p".to_string(), loaded);
    assert_eq!(reloaded.list().len(), 1);
    assert!(reloaded.check(PermissionKind::NetworkAccess, Some("x")));
    assert!(!reloaded.check(PermissionKind::SudoExec, None));
}

#[test]
fn grant_records_identity_and_prefix() {
    let mut store = empty_store();
    let id = store.grant(PermissionKind::SandboxCreate, GrantScope::Once, None, "alice");
    assert!(id.starts_with("grant_"));
    let list = store.list();
    assert_eq!(list[0].id, id);
    assert_eq!(list[0].granted_by, "alice");
    assert_eq!(list[0].scope, GrantScope::Once);
}

#[test]
fn uuid_text_is_two_padded_hex_words() {
    assert_eq!(uuid_v4_from_seed(0), "00000000000000000000000000000000");
    assert_eq!(uuid_v4_from_seed(1), "00000000000000015851f42d4c957f2d");
    assert_eq!(uuid_v4_from_seed(255), "00000000000000ff57f9a2391f48e9add3");
}
