//! Merge agent inventory across hub runtimes.

use vstd::prelude::*;
use crate::ids::{lemma_unscope_scope, runtime_id_error, scope_target, scoped_target, unscoped};
use crate::runtime::{RuntimeEntry, RuntimeId, local_id, LOCAL_RUNTIME_ID};
use crate::text::{concat_str, opt_view, pairs_view, str_eq};

verus! {

/// What an agent is doing.
#[derive(Debug, Clone, Copy, PartialEq, Eq)]
pub enum AgentStatus {
    Idle,
    Working,
    Blocked,
    Done,
    Unknown,
}

/// One agent as the hub lists it. `state_labels` and `tokens` hold each
/// entry as its key and the JSON text of its value; `agent_session` holds the
/// JSON text of the agent's session, when it has one.
#[derive(Debug, Clone, PartialEq, Eq)]
pub struct AgentInfo {
    pub terminal_id: String,
    pub name: Option<String>,
    pub agent: Option<String>,
    pub title: Option<String>,
    pub terminal_title: Option<String>,
    pub terminal_title_stripped: Option<String>,
    pub display_agent: Option<String>,
    pub agent_status: AgentStatus,
    pub screen_detection_skipped: bool,
    pub state_labels: Vec<(String, String)>,
    pub tokens: Vec<(String, String)>,
    pub agent_session: Option<String>,
    pub workspace_id: String,
    pub tab_id: String,
    pub pane_id: String,
    pub focused: bool,
    pub launch_pending: bool,
    pub interactive_ready: bool,
    pub state_change_seq: u64,
    pub cwd: Option<String>,
    pub foreground_cwd: Option<String>,
    pub revision: u64,
    pub runtime_id: String,
    pub runtime_label: Option<String>,
}

/// The mathematical content of an [`AgentInfo`]: every field, by its view.
pub struct AgentInfoView {
    pub terminal_id: Seq<char>,
    pub name: Option<Seq<char>>,
    pub agent: Option<Seq<char>>,
    pub title: Option<Seq<char>>,
    pub terminal_title: Option<Seq<char>>,
    pub terminal_title_stripped: Option<Seq<char>>,
    pub display_agent: Option<Seq<char>>,
    pub agent_status: AgentStatus,
    pub screen_detection_skipped: bool,
    pub state_labels: Seq<(Seq<char>, Seq<char>)>,
    pub tokens: Seq<(Seq<char>, Seq<char>)>,
    pub agent_session: Option<Seq<char>>,
    pub workspace_id: Seq<char>,
    pub tab_id: Seq<char>,
    pub pane_id: Seq<char>,
    pub focused: bool,
    pub launch_pending: bool,
    pub interactive_ready: bool,
    pub state_change_seq: u64,
    pub cwd: Option<Seq<char>>,
    pub foreground_cwd: Option<Seq<char>>,
    pub revision: u64,
    pub runtime_id: Seq<char>,
    pub runtime_label: Option<Seq<char>>,
}

impl View for AgentInfo {
    type V = AgentInfoView;

    open spec fn view(&self) -> AgentInfoView {
        AgentInfoView {
            terminal_id: self.terminal_id@,
            name: opt_view(self.name),
            agent: opt_view(self.agent),
            title: opt_view(self.title),
            terminal_title: opt_view(self.terminal_title),
            terminal_title_stripped: opt_view(self.terminal_title_stripped),
            display_agent: opt_view(self.display_agent),
            agent_status: self.agent_status,
            screen_detection_skipped: self.screen_detection_skipped,
            state_labels: pairs_view(self.state_labels@),
            tokens: pairs_view(self.tokens@),
            agent_session: opt_view(self.agent_session),
            workspace_id: self.workspace_id@,
            tab_id: self.tab_id@,
            pane_id: self.pane_id@,
            focused: self.focused,
            launch_pending: self.launch_pending,
            interactive_ready: self.interactive_ready,
            state_change_seq: self.state_change_seq,
            cwd: opt_view(self.cwd),
            foreground_cwd: opt_view(self.foreground_cwd),
            revision: self.revision,
            runtime_id: self.runtime_id@,
            runtime_label: opt_view(self.runtime_label),
        }
    }
}

/// The views of a list of agents.
pub open spec fn agents_view(s: Seq<AgentInfo>) -> Seq<AgentInfoView> {
    s.map_values(|a: AgentInfo| a@)
}

/// The view of an optional borrowed string.
pub open spec fn opt_str_view(o: Option<&str>) -> Option<Seq<char>> {
    match o {
        Some(s) => Some(s@),
        None => None,
    }
}

/// The runtime whose prefix scopes the targets of agents annotated with
/// `runtime_id`: the id itself, or the local runtime when it is empty.
pub open spec fn scoping_id(runtime_id: Seq<char>) -> Seq<char> {
    if runtime_id.len() == 0 {
        local_id()
    } else {
        runtime_id
    }
}

/// `b` is `a` annotated with the runtime `runtime_id` and `label`: the
/// runtime fields are set (the label only off the hub), the identity fields
/// used as targets are scoped off the hub and left alone on it, and every
/// other field, the status, labels, tokens and session among them, is
/// unchanged.
pub open spec fn annotated(
    a: AgentInfoView,
    runtime_id: Seq<char>,
    label: Option<Seq<char>>,
    b: AgentInfoView,
) -> bool {
    let local = runtime_id == local_id();
    let sid = scoping_id(runtime_id);
    &&& b.runtime_id == runtime_id
    &&& b.runtime_label == (if local {
        None
    } else {
        label
    })
    &&& if local {
        &&& b.name == a.name
        &&& b.pane_id == a.pane_id
        &&& b.terminal_id == a.terminal_id
        &&& b.workspace_id == a.workspace_id
        &&& b.tab_id == a.tab_id
    } else {
        &&& b.name == (match a.name {
            Some(n) => Some(scoped_target(sid, n)),
            None => None,
        })
        &&& b.pane_id == scoped_target(sid, a.pane_id)
        &&& b.terminal_id == scoped_target(sid, a.terminal_id)
        &&& b.workspace_id == scoped_target(sid, a.workspace_id)
        &&& b.tab_id == scoped_target(sid, a.tab_id)
    }
    &&& b.agent == a.agent
    &&& b.title == a.title
    &&& b.terminal_title == a.terminal_title
    &&& b.terminal_title_stripped == a.terminal_title_stripped
    &&& b.display_agent == a.display_agent
    &&& b.agent_status == a.agent_status
    &&& b.screen_detection_skipped == a.screen_detection_skipped
    &&& b.state_labels == a.state_labels
    &&& b.tokens == a.tokens
    &&& b.agent_session == a.agent_session
    &&& b.focused == a.focused
    &&& b.launch_pending == a.launch_pending
    &&& b.interactive_ready == a.interactive_ready
    &&& b.state_change_seq == a.state_change_seq
    &&& b.cwd == a.cwd
    &&& b.foreground_cwd == a.foreground_cwd
    &&& b.revision == a.revision
}

fn annotate_one(
    agent: AgentInfo,
    runtime_id: &str,
    runtime_label: Option<&str>,
    is_local: bool,
    runtime: &RuntimeId,
) -> (r: AgentInfo)
    requires
        is_local == (runtime_id@ == local_id()),
        runtime@ == scoping_id(runtime_id@),
    ensures
        annotated(agent@, runtime_id@, opt_str_view(runtime_label), r@),
{
    let mut agent = agent;
    let ghost a = agent;
    agent.runtime_id = runtime_id.to_string();
    agent.runtime_label = if is_local {
        None
    } else {
        match runtime_label {
            Some(l) => Some(l.to_string()),
            None => None,
        }
    };
    if !is_local {
        agent.name = match &agent.name {
            Some(name) => Some(scope_target(runtime, name.as_str())),
            None => None,
        };
        agent.pane_id = scope_target(runtime, agent.pane_id.as_str());
        agent.terminal_id = scope_target(runtime, agent.terminal_id.as_str());
        agent.workspace_id = scope_target(runtime, agent.workspace_id.as_str());
        agent.tab_id = scope_target(runtime, agent.tab_id.as_str());
    }
    agent
}

/// Attach hub runtime identity to agent infos from a single runtime.
pub fn annotate_agents(agents: Vec<AgentInfo>, runtime_id: &str, runtime_label: Option<&str>) -> (r:
    Vec<AgentInfo>)
    ensures
        r@.len() == agents@.len(),
        forall|i: int|
            0 <= i < agents@.len() ==> annotated(
                #[trigger] agents@[i]@,
                runtime_id@,
                opt_str_view(runtime_label),
                r@[i]@,
            ),
{
    let is_local = str_eq(runtime_id, LOCAL_RUNTIME_ID);
    let runtime = match RuntimeId::new(runtime_id.to_string()) {
        Ok(id) => id,
        Err(()) => RuntimeId::local(),
    };
    let mut rest = agents;
    let mut out: Vec<AgentInfo> = Vec::new();
    while rest.len() > 0
        invariant
            is_local == (runtime_id@ == local_id()),
            runtime@ == scoping_id(runtime_id@),
            out@.len() + rest@.len() == agents@.len(),
            rest@ == agents@.skip(out@.len() as int),
            forall|i: int|
                0 <= i < out@.len() ==> annotated(
                    #[trigger] agents@[i]@,
                    runtime_id@,
                    opt_str_view(runtime_label),
                    out@[i]@,
                ),
        decreases rest.len(),
    {
        let ghost k = out@.len() as int;
        let agent = rest.remove(0);
        assert(agent == agents@[k]);
        let b = annotate_one(agent, runtime_id, runtime_label, is_local, &runtime);
        out.push(b);
        assert(rest@ =~= agents@.skip(out@.len() as int));
    }
    out
}

/// The agents of the lists in `lists`, in order.
pub open spec fn flatten_agents(lists: Seq<Vec<AgentInfo>>) -> Seq<AgentInfoView>
    decreases lists.len(),
{
    if lists.len() == 0 {
        Seq::empty()
    } else {
        agents_view(lists[0]@) + flatten_agents(lists.drop_first())
    }
}

/// Merge local agents with remote inventories (local first, then registry order).
pub fn merge_agent_lists(local: Vec<AgentInfo>, remotes: Vec<Vec<AgentInfo>>) -> (r: Vec<AgentInfo>)
    ensures
        r@.len() == local@.len() + flatten_agents(remotes@).len(),
        forall|i: int|
            0 <= i < local@.len() ==> annotated(#[trigger] local@[i]@, local_id(), None, r@[i]@),
        agents_view(r@).skip(local@.len() as int) == flatten_agents(remotes@),
{
    let n = local.len();
    let mut merged = annotate_agents(local, LOCAL_RUNTIME_ID, None);
    let ghost first = merged@;
    let mut rest = remotes;
    assert(agents_view(merged@).skip(n as int) =~= Seq::<AgentInfoView>::empty());
    while rest.len() > 0
        invariant
            merged@.len() >= n,
            merged@.take(n as int) == first,
            first.len() == n,
            agents_view(merged@).skip(n as int) + flatten_agents(rest@) == flatten_agents(
                remotes@,
            ),
        decreases rest.len(),
    {
        let ghost old_rest = rest@;
        let ghost old_merged = merged@;
        let mut remote = rest.remove(0);
        assert(old_rest.drop_first() =~= rest@);
        assert(old_rest[0] == remote);
        merged.append(&mut remote);
        assert(agents_view(merged@).skip(n as int) =~= agents_view(old_merged).skip(n as int)
            + agents_view(old_rest[0]@));
        assert(merged@.take(n as int) =~= old_merged.take(n as int));
    }
    assert(agents_view(merged@).skip(n as int) + flatten_agents(rest@) =~= agents_view(
        merged@,
    ).skip(n as int));
    assert forall|i: int| 0 <= i < n implies merged@[i] == first[i] by {
        assert(merged@.take(n as int)[i] == merged@[i]);
    }
    merged
}

/// What a runtime answered to an `agent.list` request.
#[derive(Debug)]
pub enum AgentListReply {
    /// The agents it lists.
    AgentList(Vec<AgentInfo>),
    /// A result of another kind, as its description.
    Other(String),
}

/// The request id of the `agent.list` request sent to `runtime_id`.
pub fn agent_list_request_id(runtime_id: &str) -> (r: String)
    ensures
        r@ == "runtime:"@ + runtime_id@ + ":agent.list"@,
{
    let mut r = concat_str("runtime:", runtime_id);
    r.append(":agent.list");
    r
}

/// The error for a reply to `agent.list` from `runtime_id` that lists no
/// agents but `other`.
pub open spec fn unexpected_reply_msg(runtime_id: Seq<char>, other: Seq<char>) -> Seq<char> {
    "unexpected agent.list result from "@ + runtime_id + ": "@ + other
}

/// The agents of a connected runtime, given its answer to `agent.list`:
/// the listed agents annotated with the runtime's id and label. A failed
/// request keeps its error, and a reply of another kind is refused.
pub fn agents_from_reply(entry: &RuntimeEntry, reply: Result<AgentListReply, String>) -> (r: Result<
    Vec<AgentInfo>,
    String,
>)
    ensures
        match reply {
            Err(e) => r matches Err(x) && x@ == e@,
            Ok(AgentListReply::Other(d)) => r matches Err(x) && x@ == unexpected_reply_msg(
                entry@.id,
                d@,
            ),
            Ok(AgentListReply::AgentList(agents)) => r matches Ok(v) && v@.len() == agents@.len()
                && forall|i: int|
                0 <= i < agents@.len() ==> annotated(
                    #[trigger] agents@[i]@,
                    entry@.id,
                    Some(entry@.label),
                    v@[i]@,
                ),
        },
{
    match reply {
        Err(e) => Err(e),
        Ok(AgentListReply::Other(d)) => {
            let mut msg = concat_str("unexpected agent.list result from ", entry.id.as_str());
            msg.append(": ");
            msg.append(d.as_str());
            Err(msg)
        },
        Ok(AgentListReply::AgentList(agents)) => Ok(
            annotate_agents(agents, entry.id.as_str(), Some(entry.label.as_str())),
        ),
    }
}

/// Scoped agent targets resolve back to their runtime: once annotated with
/// a valid remote id, an agent's non-empty pane target splits into that id
/// and the pane target it had before.
pub proof fn lemma_annotated_pane_resolves(
    a: AgentInfoView,
    runtime_id: Seq<char>,
    label: Option<Seq<char>>,
    b: AgentInfoView,
)
    requires
        annotated(a, runtime_id, label, b),
        runtime_id_error(runtime_id) is None,
        a.pane_id.len() > 0,
    ensures
        unscoped(b.pane_id) == Some((runtime_id, a.pane_id)),
{
    lemma_unscope_scope(runtime_id, a.pane_id);
}

} // verus!
