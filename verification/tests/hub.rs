use herdr_runtime::cache::AgentCache;
use herdr_runtime::hub::{
    aggregate_agents, registry_from_loaded, runtime_not_found, ApiError, ApiReply,
    ResponseResult, RuntimeHub,
};
use herdr_runtime::inventory::{AgentInfo, AgentStatus};
use herdr_runtime::persist::PersistedRuntime;
use herdr_runtime::runtime::{RuntimeKind, RuntimeRegistry, RuntimeStatus};
use herdr_runtime::schema::{RuntimeAddParams, RuntimeTarget};

fn test_hub() -> RuntimeHub {
    RuntimeHub::new(RuntimeRegistry::new())
}

fn target(id: &str) -> RuntimeTarget {
    RuntimeTarget { runtime_id: id.into() }
}

fn add(hub: &mut RuntimeHub, params: RuntimeAddParams) -> ApiReply {
    match hub.begin_runtime_add(params) {
        Ok(id) => hub.finish_runtime_add(&id, Ok(())),
        Err(reply) => reply,
    }
}

fn remove(hub: &mut RuntimeHub, id: &str) -> ApiReply {
    match hub.begin_runtime_remove(&target(id)) {
        Ok(entry) => hub.finish_runtime_remove(entry, Ok(())),
        Err(reply) => reply,
    }
}

fn code(reply: &ApiReply) -> &'static str {
    match reply {
        ApiReply::Failure(ApiError { code, .. }) => code,
        ApiReply::Success(_) => "",
    }
}

fn agent(name: &str, runtime_id: &str) -> AgentInfo {
    AgentInfo {
        terminal_id: format!("term-{name}"),
        name: Some(name.into()),
        agent: None,
        title: None,
        terminal_title: None,
        terminal_title_stripped: None,
        display_agent: None,
        agent_status: AgentStatus::Idle,
        screen_detection_skipped: false,
        state_labels: Vec::new(),
        tokens: Vec::new(),
        agent_session: None,
        workspace_id: "w1".into(),
        tab_id: "t1".into(),
        pane_id: name.into(),
        focused: false,
        launch_pending: false,
        interactive_ready: true,
        state_change_seq: 0,
        cwd: None,
        foreground_cwd: None,
        revision: 1,
        runtime_id: runtime_id.into(),
        runtime_label: None,
    }
}

#[test]
fn list_includes_local_connected() {
    let hub = test_hub();
    let ApiReply::Success(ResponseResult::RuntimeList { runtimes }) = hub.handle_runtime_list()
    else {
        panic!("expected a runtime list");
    };
    assert_eq!(runtimes.len(), 1);
    assert_eq!(runtimes[0].runtime_id, "local");
    assert_eq!(runtimes[0].kind.as_str(), "local");
    assert_eq!(runtimes[0].status.as_str(), "connected");
}

#[test]
fn add_get_remove_remote_offline() {
    let mut hub = test_hub();
    let added = add(
        &mut hub,
        RuntimeAddParams {
            id: "workbox".into(),
            kind: RuntimeKind::RemoteSsh,
            label: Some("Workbox".into()),
            target: Some("workbox.example".into()),
            session: Some("worker".into()),
        },
    );
    let ApiReply::Success(ResponseResult::RuntimeAdded { runtime }) = added else {
        panic!("expected runtime_added, got {added:?}");
    };
    assert_eq!(runtime.runtime_id, "workbox");
    assert_eq!(runtime.status.as_str(), "offline");
    assert_eq!(runtime.session.as_deref(), Some("worker"));

    let ApiReply::Success(ResponseResult::RuntimeInfo { runtime }) =
        hub.handle_runtime_get(&target("workbox"))
    else {
        panic!("expected runtime info");
    };
    assert_eq!(runtime.label, "Workbox");

    let ApiReply::Success(ResponseResult::RuntimeList { runtimes }) = hub.handle_runtime_list()
    else {
        panic!("expected a runtime list");
    };
    assert_eq!(runtimes.len(), 2);

    let removed = remove(&mut hub, "workbox");
    assert_eq!(
        removed,
        ApiReply::Success(ResponseResult::RuntimeRemoved {
            runtime_id: "workbox".into(),
            removed: true
        })
    );

    let missing = hub.handle_runtime_get(&target("workbox"));
    assert_eq!(code(&missing), "runtime_not_found");
}

#[test]
fn cannot_remove_local_or_add_duplicate() {
    let mut hub = test_hub();
    let remove_local = remove(&mut hub, "local");
    assert_eq!(code(&remove_local), "cannot_remove_local_runtime");

    let params = RuntimeAddParams {
        id: "peer".into(),
        kind: RuntimeKind::Socket,
        label: None,
        target: Some("/tmp/peer.sock".into()),
        session: None,
    };
    let first = add(&mut hub, params.clone());
    assert_eq!(code(&first), "", "{first:?}");
    let second = add(&mut hub, params);
    assert_eq!(code(&second), "runtime_already_exists");
}

#[test]
fn add_defaults_label_and_drops_blank_session() {
    let mut hub = test_hub();
    let reply = add(
        &mut hub,
        RuntimeAddParams {
            id: "box".into(),
            kind: RuntimeKind::RemoteSsh,
            label: Some("  ".into()),
            target: Some("host".into()),
            session: Some(" ".into()),
        },
    );
    let ApiReply::Success(ResponseResult::RuntimeAdded { runtime }) = reply else {
        panic!("expected runtime_added");
    };
    assert_eq!(runtime.label, "box");
    assert_eq!(runtime.session, None);
}

#[test]
fn add_refusals_have_codes() {
    let mut hub = test_hub();
    let local = add(
        &mut hub,
        RuntimeAddParams {
            id: "x".into(),
            kind: RuntimeKind::Local,
            label: None,
            target: None,
            session: None,
        },
    );
    assert_eq!(
        local,
        ApiReply::Failure(ApiError {
            code: "invalid_runtime_kind",
            message: "cannot add a local runtime; it is always present".into()
        })
    );
    let bad_id = add(
        &mut hub,
        RuntimeAddParams {
            id: "local".into(),
            kind: RuntimeKind::Socket,
            label: None,
            target: Some("/s".into()),
            session: None,
        },
    );
    assert_eq!(code(&bad_id), "invalid_runtime_id");
    let no_target = add(
        &mut hub,
        RuntimeAddParams {
            id: "s".into(),
            kind: RuntimeKind::Socket,
            label: None,
            target: None,
            session: None,
        },
    );
    assert_eq!(code(&no_target), "invalid_runtime");
    assert_eq!(hub.registry().list().len(), 1);
}

#[test]
fn failed_saves_roll_back() {
    let mut hub = test_hub();
    let id = hub
        .begin_runtime_add(RuntimeAddParams {
            id: "peer".into(),
            kind: RuntimeKind::Socket,
            label: None,
            target: Some("/p".into()),
            session: None,
        })
        .unwrap();
    let reply = hub.finish_runtime_add(&id, Err("disk full".into()));
    assert_eq!(
        reply,
        ApiReply::Failure(ApiError {
            code: "runtime_registry_save_failed",
            message: "disk full".into()
        })
    );
    assert_eq!(hub.registry(), &RuntimeRegistry::new());

    add(
        &mut hub,
        RuntimeAddParams {
            id: "peer".into(),
            kind: RuntimeKind::Socket,
            label: None,
            target: Some("/p".into()),
            session: None,
        },
    );
    let entry = hub.begin_runtime_remove(&target("peer")).unwrap();
    assert!(!hub.registry().contains("peer"));
    let reply = hub.finish_runtime_remove(entry, Err("read-only".into()));
    assert_eq!(code(&reply), "runtime_registry_save_failed");
    assert!(hub.registry().contains("peer"));
}

#[test]
fn connect_and_disconnect_update_status_and_snapshots() {
    let mut hub = test_hub();
    add(
        &mut hub,
        RuntimeAddParams {
            id: "peer".into(),
            kind: RuntimeKind::Socket,
            label: None,
            target: Some("/p".into()),
            session: None,
        },
    );
    assert_eq!(
        hub.begin_runtime_connect(&target("local")),
        Err(ApiReply::Failure(ApiError {
            code: "invalid_runtime",
            message: "local runtime is always connected".into()
        }))
    );
    assert_eq!(hub.begin_runtime_connect(&target("nope")), Err(runtime_not_found("nope")));
    hub.begin_runtime_connect(&target("peer")).unwrap();
    assert_eq!(
        hub.registry().get("peer").unwrap().status,
        RuntimeStatus::Connecting
    );
    let reply = hub.finish_runtime_connect("peer", Ok(Ok(vec![agent("a", "peer")])));
    let ApiReply::Success(ResponseResult::RuntimeConnected { runtime }) = reply else {
        panic!("expected runtime_connected");
    };
    assert_eq!(runtime.status, RuntimeStatus::Connected);

    // a failed refresh keeps the last good snapshot and degrades the runtime
    let kept = hub.record_refresh("peer", Err("timeout".into()));
    assert_eq!(kept, Some(vec![agent("a", "peer")]));
    let entry = hub.registry().get("peer").unwrap();
    assert_eq!(entry.status, RuntimeStatus::Degraded);
    assert_eq!(entry.last_error.as_deref(), Some("timeout"));
    let fresh = hub.record_refresh("peer", Ok(vec![agent("b", "peer")]));
    assert_eq!(fresh, Some(vec![agent("b", "peer")]));

    assert_eq!(
        hub.check_runtime_disconnect(&target("local")).unwrap_err(),
        ApiReply::Failure(ApiError {
            code: "invalid_runtime",
            message: "cannot disconnect the local runtime".into()
        })
    );
    hub.check_runtime_disconnect(&target("peer")).unwrap();
    let reply = hub.finish_runtime_disconnect("peer".into(), true);
    assert_eq!(
        reply,
        ApiReply::Success(ResponseResult::RuntimeDisconnected {
            runtime_id: "peer".into(),
            disconnected: true
        })
    );
    assert_eq!(hub.registry().get("peer").unwrap().status, RuntimeStatus::Offline);
    assert_eq!(hub.record_refresh("peer", Err("gone".into())), None);

    let failed = hub.finish_runtime_connect("peer", Err("refused".into()));
    assert_eq!(code(&failed), "runtime_connect_failed");
    let entry = hub.registry().get("peer").unwrap();
    assert_eq!(entry.status, RuntimeStatus::Offline);
    assert_eq!(entry.last_error.as_deref(), Some("refused"));
}

#[test]
fn refresh_ids_follow_registry_order_and_connections() {
    let mut hub = test_hub();
    for id in ["b", "a", "c"] {
        add(
            &mut hub,
            RuntimeAddParams {
                id: id.into(),
                kind: RuntimeKind::Socket,
                label: None,
                target: Some("/s".into()),
                session: None,
            },
        );
    }
    let connected = vec!["c".to_string(), "local".to_string(), "b".to_string()];
    assert_eq!(hub.remote_ids_to_refresh(&connected), vec!["b".to_string(), "c".to_string()]);
}

#[test]
fn aggregate_puts_local_first_and_splits_remote_rows() {
    let (merged, remote) = aggregate_agents(
        vec![agent("l", "whatever")],
        vec![vec![agent("r", "box")], vec![agent("q", "local")]],
    );
    assert_eq!(merged.len(), 3);
    assert_eq!(merged[0].runtime_id, "local");
    assert_eq!(remote, vec![agent("r", "box")]);
}

#[test]
fn loaded_rows_that_do_not_restore_fall_back_to_local_only() {
    let row = PersistedRuntime {
        id: "bad id".into(),
        kind: RuntimeKind::Socket,
        label: "x".into(),
        target: Some("/s".into()),
        session: None,
    };
    let (registry, err) = registry_from_loaded(vec![row]);
    assert_eq!(registry, RuntimeRegistry::new());
    assert!(err.is_some());
    let (registry, err) = registry_from_loaded(vec![]);
    assert_eq!(registry, RuntimeRegistry::new());
    assert!(err.is_none());
}

#[test]
fn agent_cache_replaces_and_forgets() {
    let mut cache = AgentCache::new();
    cache.insert("a".into(), vec![agent("x", "a")]);
    cache.insert("b".into(), vec![]);
    cache.insert("a".into(), vec![agent("y", "a")]);
    assert_eq!(cache.get("a"), Some(vec![agent("y", "a")]));
    cache.remove("a");
    assert_eq!(cache.get("a"), None);
    assert_eq!(cache.get("b"), Some(vec![]));
}
