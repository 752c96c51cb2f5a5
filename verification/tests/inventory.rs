use herdr_runtime::inventory::{
    agent_list_request_id, agents_from_reply, annotate_agents, merge_agent_lists, AgentInfo,
    AgentListReply, AgentStatus,
};
use herdr_runtime::runtime::{RuntimeEntry, RuntimeId, RuntimeKind, RuntimeStatus};
use herdr_runtime::runtime::LOCAL_RUNTIME_ID;

fn sample_agent(name: &str, pane_id: &str) -> AgentInfo {
    AgentInfo {
        terminal_id: format!("term-{pane_id}"),
        name: Some(name.into()),
        agent: Some("aider".into()),
        title: None,
        terminal_title: None,
        terminal_title_stripped: None,
        display_agent: None,
        agent_status: AgentStatus::Idle,
        screen_detection_skipped: false,
        state_labels: Vec::new(),
        tokens: Vec::new(),
        agent_session: None,
        workspace_id: "w1".into(),
        tab_id: "t1".into(),
        pane_id: pane_id.into(),
        focused: false,
        launch_pending: false,
        interactive_ready: true,
        state_change_seq: 0,
        cwd: None,
        foreground_cwd: None,
        revision: 1,
        runtime_id: LOCAL_RUNTIME_ID.into(),
        runtime_label: None,
    }
}

#[test]
fn annotate_local_leaves_ids_bare() {
    let agents = annotate_agents(
        vec![sample_agent("builder", "w1:p1")],
        LOCAL_RUNTIME_ID,
        None,
    );
    assert_eq!(agents[0].runtime_id, "local");
    assert_eq!(agents[0].name.as_deref(), Some("builder"));
    assert_eq!(agents[0].pane_id, "w1:p1");
    assert!(agents[0].runtime_label.is_none());
}

#[test]
fn annotate_remote_scopes_targets() {
    let agents = annotate_agents(
        vec![sample_agent("builder", "w1:p1")],
        "workbox",
        Some("Workbox"),
    );
    assert_eq!(agents[0].runtime_id, "workbox");
    assert_eq!(agents[0].runtime_label.as_deref(), Some("Workbox"));
    assert_eq!(agents[0].name.as_deref(), Some("workbox/builder"));
    assert_eq!(agents[0].pane_id, "workbox/w1:p1");
    assert_eq!(agents[0].terminal_id, "workbox/term-w1:p1");
}

#[test]
fn merge_local_then_remotes() {
    let local = vec![sample_agent("local-a", "p1")];
    let remote = annotate_agents(
        vec![sample_agent("remote-a", "p2")],
        "workbox",
        Some("Workbox"),
    );
    let merged = merge_agent_lists(local, vec![remote]);
    assert_eq!(merged.len(), 2);
    assert_eq!(merged[0].runtime_id, "local");
    assert_eq!(merged[1].runtime_id, "workbox");
    assert_eq!(merged[1].name.as_deref(), Some("workbox/remote-a"));
}

#[test]
fn annotate_remote_keeps_other_fields_and_scopes_all_targets() {
    let mut agent = sample_agent("builder", "w1:p1");
    agent.name = None;
    agent.revision = 7;
    let out = annotate_agents(vec![agent.clone()], "box", None);
    assert_eq!(out.len(), 1);
    assert_eq!(out[0].name, None);
    assert_eq!(out[0].workspace_id, "box/w1");
    assert_eq!(out[0].tab_id, "box/t1");
    assert_eq!(out[0].revision, 7);
    assert_eq!(out[0].agent.as_deref(), Some("aider"));
    assert!(out[0].runtime_label.is_none());
}

#[test]
fn annotate_with_empty_runtime_id_keeps_targets_bare() {
    let out = annotate_agents(vec![sample_agent("r", "p")], "", Some("L"));
    assert_eq!(out[0].runtime_id, "");
    assert_eq!(out[0].runtime_label.as_deref(), Some("L"));
    assert_eq!(out[0].pane_id, "p");
}

#[test]
fn merge_keeps_remote_rows_as_given_in_order() {
    let a = sample_agent("a", "1");
    let b = sample_agent("b", "2");
    let c = sample_agent("c", "3");
    let merged = merge_agent_lists(vec![], vec![vec![a.clone(), b.clone()], vec![], vec![c.clone()]]);
    assert_eq!(merged, vec![a, b, c]);
}

fn workbox_entry() -> RuntimeEntry {
    RuntimeEntry {
        id: RuntimeId::new("workbox".to_string()).unwrap(),
        kind: RuntimeKind::RemoteSsh,
        label: "Workbox".into(),
        target: Some("workbox.example".into()),
        session: None,
        status: RuntimeStatus::Connected,
        last_error: None,
    }
}

#[test]
fn annotate_keeps_status_labels_tokens_and_session() {
    let mut agent = sample_agent("builder", "w1:p1");
    agent.agent_status = AgentStatus::Blocked;
    agent.state_labels = vec![("phase".into(), "\"planning\"".into())];
    agent.tokens = vec![("input".into(), "120".into())];
    agent.agent_session = Some("{\"id\":\"s1\"}".into());
    let out = annotate_agents(vec![agent.clone()], "workbox", Some("Workbox"));
    assert_eq!(out[0].agent_status, AgentStatus::Blocked);
    assert_eq!(out[0].state_labels, agent.state_labels);
    assert_eq!(out[0].tokens, agent.tokens);
    assert_eq!(out[0].agent_session, agent.agent_session);
    let merged = merge_agent_lists(vec![agent.clone()], vec![out.clone()]);
    assert_eq!(merged[0].agent_status, AgentStatus::Blocked);
    assert_eq!(merged[1].tokens, agent.tokens);
}

#[test]
fn agent_list_request_id_names_the_runtime() {
    assert_eq!(agent_list_request_id("workbox"), "runtime:workbox:agent.list");
}

#[test]
fn agents_from_reply_annotates_listed_agents() {
    let reply = Ok(AgentListReply::AgentList(vec![sample_agent("builder", "w1:p1")]));
    let agents = agents_from_reply(&workbox_entry(), reply).unwrap();
    assert_eq!(agents.len(), 1);
    assert_eq!(agents[0].runtime_id, "workbox");
    assert_eq!(agents[0].runtime_label.as_deref(), Some("Workbox"));
    assert_eq!(agents[0].name.as_deref(), Some("workbox/builder"));
    assert_eq!(agents[0].pane_id, "workbox/w1:p1");
}

#[test]
fn agents_from_reply_refuses_other_results_and_keeps_errors() {
    let other = agents_from_reply(&workbox_entry(), Ok(AgentListReply::Other("pong".into())));
    assert_eq!(
        other.unwrap_err(),
        "unexpected agent.list result from workbox: pong"
    );
    let failed = agents_from_reply(&workbox_entry(), Err("broken pipe".into()));
    assert_eq!(failed.unwrap_err(), "broken pipe");
}
