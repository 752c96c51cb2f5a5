use herdr_runtime::persist::PersistedRuntime;
use herdr_runtime::runtime::{RuntimeEntry, RuntimeId, RuntimeKind, RuntimeStatus};
use herdr_runtime::schema::RuntimeInfo;

fn workbox() -> RuntimeEntry {
    RuntimeEntry {
        id: RuntimeId::new("workbox".to_string()).unwrap(),
        kind: RuntimeKind::RemoteSsh,
        label: "Workbox".into(),
        target: Some("host".into()),
        session: Some("worker".into()),
        status: RuntimeStatus::Degraded,
        last_error: Some("slow".into()),
    }
}

#[test]
fn runtime_info_reports_every_field() {
    let info = RuntimeInfo::from_entry(&workbox());
    assert_eq!(info, RuntimeInfo::from(&workbox()));
    assert_eq!(info.runtime_id, "workbox");
    assert_eq!(info.kind, RuntimeKind::RemoteSsh);
    assert_eq!(info.status, RuntimeStatus::Degraded);
    assert_eq!(info.last_error.as_deref(), Some("slow"));
    assert_eq!(info.session.as_deref(), Some("worker"));
}

#[test]
fn persisted_row_drops_live_state_and_comes_back_offline() {
    let row = PersistedRuntime::from_entry(&workbox());
    assert_eq!(row, PersistedRuntime::from(&workbox()));
    assert_eq!(row.id, "workbox");
    let back = row.into_entry().unwrap();
    assert_eq!(back.status, RuntimeStatus::Offline);
    assert!(back.last_error.is_none());
    assert_eq!(back.target.as_deref(), Some("host"));
    let local_row = PersistedRuntime {
        id: "x".into(),
        kind: RuntimeKind::Local,
        label: "x".into(),
        target: None,
        session: None,
    };
    assert_eq!(
        local_row.into_entry().unwrap_err(),
        "persisted runtime cannot be local"
    );
}
