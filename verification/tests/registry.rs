use herdr_runtime::persist::PersistedRuntime;
use herdr_runtime::runtime::{
    RuntimeEntry, RuntimeId, RuntimeKind, RuntimeRegistry, RuntimeStatus, LOCAL_RUNTIME_ID,
    LOCAL_RUNTIME_LABEL,
};

fn remote(id: &str, kind: RuntimeKind, target: Option<&str>) -> RuntimeEntry {
    RuntimeEntry {
        id: RuntimeId::new(id.to_string()).unwrap(),
        kind,
        label: id.to_uppercase(),
        target: target.map(|t| t.to_string()),
        session: None,
        status: RuntimeStatus::Offline,
        last_error: None,
    }
}

#[test]
fn new_registry_has_local_connected() {
    let registry = RuntimeRegistry::new();
    assert_eq!(registry.list().len(), 1);
    let local = registry.get(LOCAL_RUNTIME_ID).unwrap();
    assert!(local.id.is_local());
    assert_eq!(local.kind, RuntimeKind::Local);
    assert_eq!(local.status, RuntimeStatus::Connected);
    assert_eq!(local.label, LOCAL_RUNTIME_LABEL);
}

#[test]
fn add_and_remove_remote_entries() {
    let mut registry = RuntimeRegistry::new();
    registry
        .add(RuntimeEntry {
            id: RuntimeId::new("workbox".to_string()).unwrap(),
            kind: RuntimeKind::RemoteSsh,
            label: "Workbox".into(),
            target: Some("workbox.example".into()),
            session: Some("worker".into()),
            status: RuntimeStatus::Offline,
            last_error: None,
        })
        .unwrap();
    registry
        .add(RuntimeEntry {
            id: RuntimeId::new("peer".to_string()).unwrap(),
            kind: RuntimeKind::Socket,
            label: "Peer session".into(),
            target: Some("/tmp/herdr-peer.sock".into()),
            session: None,
            status: RuntimeStatus::Offline,
            last_error: None,
        })
        .unwrap();

    assert_eq!(registry.list().len(), 3);
    assert!(registry.contains("workbox"));
    assert!(registry.contains("peer"));

    let removed = registry.remove("workbox").unwrap();
    assert_eq!(removed.id.as_str(), "workbox");
    assert!(!registry.contains("workbox"));
    assert!(registry.contains("peer"));
    assert!(registry.contains(LOCAL_RUNTIME_ID));
}

#[test]
fn rejects_duplicate_and_local_mutations() {
    let mut registry = RuntimeRegistry::new();
    let entry = RuntimeEntry {
        id: RuntimeId::new("workbox".to_string()).unwrap(),
        kind: RuntimeKind::RemoteSsh,
        label: "Workbox".into(),
        target: Some("host".into()),
        session: None,
        status: RuntimeStatus::Offline,
        last_error: None,
    };
    registry.add(entry.clone()).unwrap();
    assert!(registry.add(entry).is_err());
    assert!(registry
        .add(RuntimeEntry {
            id: RuntimeId::local(),
            kind: RuntimeKind::Local,
            label: "x".into(),
            target: None,
            session: None,
            status: RuntimeStatus::Connected,
            last_error: None,
        })
        .is_err());
    assert!(registry.remove(LOCAL_RUNTIME_ID).is_err());
}

#[test]
fn requires_target_for_socket_and_ssh() {
    let mut registry = RuntimeRegistry::new();
    assert!(registry
        .add(RuntimeEntry {
            id: RuntimeId::new("ssh1".to_string()).unwrap(),
            kind: RuntimeKind::RemoteSsh,
            label: "SSH".into(),
            target: None,
            session: None,
            status: RuntimeStatus::Offline,
            last_error: None,
        })
        .is_err());
    assert!(registry
        .add(RuntimeEntry {
            id: RuntimeId::new("sock1".to_string()).unwrap(),
            kind: RuntimeKind::Socket,
            label: "Sock".into(),
            target: Some("  ".into()),
            session: None,
            status: RuntimeStatus::Offline,
            last_error: None,
        })
        .is_err());
}

#[test]
fn membership_excludes_local() {
    let mut registry = RuntimeRegistry::new();
    registry
        .add(RuntimeEntry {
            id: RuntimeId::new("workbox".to_string()).unwrap(),
            kind: RuntimeKind::RemoteSsh,
            label: "Workbox".into(),
            target: Some("host".into()),
            session: None,
            status: RuntimeStatus::Connected,
            last_error: Some("should not persist".into()),
        })
        .unwrap();
    let membership = registry.membership_for_persist();
    assert_eq!(membership.len(), 1);
    assert_eq!(membership[0].id, "workbox");
    // status/last_error are not part of PersistedRuntime
    let restored = RuntimeRegistry::from_membership(membership).unwrap();
    let workbox = restored.get("workbox").unwrap();
    assert_eq!(workbox.status, RuntimeStatus::Offline);
    assert!(workbox.last_error.is_none());
}

#[test]
fn set_status_updates_non_local() {
    let mut registry = RuntimeRegistry::new();
    registry
        .add(RuntimeEntry {
            id: RuntimeId::new("workbox".to_string()).unwrap(),
            kind: RuntimeKind::RemoteSsh,
            label: "Workbox".into(),
            target: Some("host".into()),
            session: None,
            status: RuntimeStatus::Offline,
            last_error: None,
        })
        .unwrap();
    registry
        .set_status(
            "workbox",
            RuntimeStatus::Degraded,
            Some("ping failed".into()),
        )
        .unwrap();
    let entry = registry.get("workbox").unwrap();
    assert_eq!(entry.status, RuntimeStatus::Degraded);
    assert_eq!(entry.last_error.as_deref(), Some("ping failed"));
    assert!(registry
        .set_status(LOCAL_RUNTIME_ID, RuntimeStatus::Offline, None)
        .is_err());
}

#[test]
fn add_error_messages_follow_the_check_order() {
    let mut registry = RuntimeRegistry::new();
    let err = registry
        .add(remote("bad id", RuntimeKind::Socket, Some("/tmp/s.sock")))
        .unwrap_err();
    assert_eq!(
        err,
        "runtime id may only contain ASCII letters, numbers, '.', '_' and '-'"
    );
    let err = registry
        .add(remote("ssh1", RuntimeKind::RemoteSsh, Some(" \t ")))
        .unwrap_err();
    assert_eq!(
        err,
        "remote_ssh runtime requires a non-empty target (SSH host)"
    );
    let err = registry.add(remote("sock1", RuntimeKind::Socket, None)).unwrap_err();
    assert_eq!(err, "socket runtime requires a non-empty target (socket path)");
    let err = registry.add(remote("x", RuntimeKind::Local, None)).unwrap_err();
    assert_eq!(err, "cannot add a second local runtime");
    registry
        .add(remote("peer", RuntimeKind::Socket, Some("/tmp/p.sock")))
        .unwrap();
    let err = registry
        .add(remote("peer", RuntimeKind::Socket, Some("/tmp/q.sock")))
        .unwrap_err();
    assert_eq!(err, "runtime 'peer' already exists");
    assert_eq!(registry.list().len(), 2);
}

#[test]
fn add_returns_the_stored_entry() {
    let mut registry = RuntimeRegistry::new();
    let added = registry
        .add(remote("peer", RuntimeKind::Socket, Some("/tmp/p.sock")))
        .unwrap();
    assert_eq!(added.id.as_str(), "peer");
    assert_eq!(added.label, "PEER");
    assert_eq!(registry.list()[1].target.as_deref(), Some("/tmp/p.sock"));
}

#[test]
fn remove_then_get_misses_and_remove_unknown_errors() {
    let mut registry = RuntimeRegistry::new();
    registry
        .add(remote("a", RuntimeKind::Socket, Some("/a")))
        .unwrap();
    registry
        .add(remote("b", RuntimeKind::Socket, Some("/b")))
        .unwrap();
    let removed = registry.remove("a").unwrap();
    assert_eq!(removed.target.as_deref(), Some("/a"));
    assert!(registry.get("a").is_none());
    assert_eq!(registry.list()[1].id.as_str(), "b");
    assert_eq!(registry.remove("a").unwrap_err(), "runtime 'a' not found");
    assert_eq!(
        registry.remove(LOCAL_RUNTIME_ID).unwrap_err(),
        "cannot remove the local runtime"
    );
}

#[test]
fn add_then_remove_restores_the_registry() {
    let mut registry = RuntimeRegistry::new();
    registry
        .add(remote("peer", RuntimeKind::Socket, Some("/p")))
        .unwrap();
    let before = registry.clone();
    let entry = remote("workbox", RuntimeKind::RemoteSsh, Some("host"));
    registry.add(entry.clone()).unwrap();
    let removed = registry.remove("workbox").unwrap();
    assert_eq!(removed, entry);
    assert_eq!(registry, before);
}

#[test]
fn set_status_on_local_and_unknown() {
    let mut registry = RuntimeRegistry::new();
    assert_eq!(
        registry
            .set_status(LOCAL_RUNTIME_ID, RuntimeStatus::Degraded, None)
            .unwrap_err(),
        "local runtime status is always connected"
    );
    registry
        .set_status(LOCAL_RUNTIME_ID, RuntimeStatus::Connected, Some("note".into()))
        .unwrap();
    assert_eq!(
        registry.get(LOCAL_RUNTIME_ID).unwrap().last_error.as_deref(),
        Some("note")
    );
    assert_eq!(
        registry
            .set_status("ghost", RuntimeStatus::Offline, None)
            .unwrap_err(),
        "runtime 'ghost' not found"
    );
}

#[test]
fn get_mut_changes_the_entry_in_place() {
    let mut registry = RuntimeRegistry::new();
    registry
        .add(remote("peer", RuntimeKind::Socket, Some("/p")))
        .unwrap();
    registry.get_mut("peer").unwrap().label = "Renamed".to_string();
    assert_eq!(registry.get("peer").unwrap().label, "Renamed");
    assert!(registry.get_mut("nope").is_none());
}

#[test]
fn membership_is_sorted_and_round_trips() {
    let mut registry = RuntimeRegistry::new();
    for id in ["zeta", "alpha", "Mid", "beta-2", "beta"] {
        registry
            .add(remote(id, RuntimeKind::Socket, Some("/s")))
            .unwrap();
    }
    registry
        .set_status("alpha", RuntimeStatus::Connected, Some("live".into()))
        .unwrap();
    let membership = registry.membership_for_persist();
    let ids: Vec<&str> = membership.iter().map(|p| p.id.as_str()).collect();
    assert_eq!(ids, vec!["Mid", "alpha", "beta", "beta-2", "zeta"]);
    let restored = RuntimeRegistry::from_membership(membership).unwrap();
    let restored_ids: Vec<&str> = restored.list().iter().map(|e| e.id.as_str()).collect();
    assert_eq!(
        restored_ids,
        vec!["local", "Mid", "alpha", "beta", "beta-2", "zeta"]
    );
    let alpha = restored.get("alpha").unwrap();
    assert_eq!(alpha.status, RuntimeStatus::Offline);
    assert!(alpha.last_error.is_none());
    assert_eq!(alpha.label, "ALPHA");
}

#[test]
fn from_membership_stops_at_the_first_bad_row() {
    let row = |id: &str, kind: RuntimeKind, target: Option<&str>| PersistedRuntime {
        id: id.to_string(),
        kind,
        label: id.to_string(),
        target: target.map(|t| t.to_string()),
        session: None,
    };
    let err = RuntimeRegistry::from_membership(vec![
        row("a", RuntimeKind::Socket, Some("/a")),
        row("a", RuntimeKind::Socket, Some("/b")),
    ])
    .unwrap_err();
    assert_eq!(err, "runtime 'a' already exists");
    let err = RuntimeRegistry::from_membership(vec![row("x", RuntimeKind::Local, None)])
        .unwrap_err();
    assert_eq!(err, "persisted runtime cannot be local");
    let err = RuntimeRegistry::from_membership(vec![row("", RuntimeKind::Socket, Some("/a"))])
        .unwrap_err();
    assert_eq!(err, "runtime id cannot be empty");
    let err = RuntimeRegistry::from_membership(vec![row("local", RuntimeKind::Socket, Some("/a"))])
        .unwrap_err();
    assert_eq!(err, "cannot add a second local runtime");
    assert_eq!(RuntimeRegistry::from_membership(vec![]).unwrap(), RuntimeRegistry::new());
}

#[test]
fn kinds_and_statuses_have_wire_names() {
    assert_eq!(RuntimeKind::Local.as_str(), "local");
    assert_eq!(RuntimeKind::Socket.as_str(), "socket");
    assert_eq!(RuntimeKind::RemoteSsh.as_str(), "remote_ssh");
    assert_eq!(RuntimeStatus::Connected.as_str(), "connected");
    assert_eq!(RuntimeStatus::Degraded.as_str(), "degraded");
    assert_eq!(RuntimeStatus::Offline.as_str(), "offline");
    assert_eq!(RuntimeStatus::Connecting.as_str(), "connecting");
}

#[test]
fn runtime_id_new_refuses_empty() {
    assert!(RuntimeId::new(String::new()).is_err());
    let id = RuntimeId::new("w".to_string()).unwrap();
    assert_eq!(id.as_str(), "w");
    assert_eq!(id.to_string(), "w");
    assert!(!id.is_local());
    assert!(RuntimeId::local().is_local());
    assert_eq!(RuntimeEntry::local().label, "Local");
    assert_eq!(RuntimeRegistry::default(), RuntimeRegistry::new());
}
