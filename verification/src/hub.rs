//! The hub's runtime API: what each request does to the registry and the
//! agent snapshots, and what it is answered.
//!
//! Requests that also touch the disk or the network are split in two: a
//! `begin_` step decides and changes the state, the caller does the outside
//! work, and a `finish_` step takes its outcome and gives the reply.

use vstd::prelude::*;
use crate::cache::{AgentCache, Snapshots, clone_agent, lemma_store_then_lookup, value_for, without_key};
use crate::ids::{parse_runtime_id, runtime_id_error};
use crate::inventory::{AgentInfo, AgentInfoView, agents_view, annotated, flatten_agents, merge_agent_lists};
use crate::persist::PersistedRuntime;
use crate::runtime::{
    RuntimeEntry, RuntimeEntryView, RuntimeKind, RuntimeRegistry, RuntimeStatus, add_error, has_id,
    index_of, local_id, not_found_msg, registry_inv, remove_error, restore_from, rows_view,
    set_status_error, with_status, local_entry_view, lemma_index_of, member_ok, LOCAL_RUNTIME_ID,
};
use crate::schema::{RuntimeAddParams, RuntimeAddParamsView, RuntimeInfo, RuntimeTarget};
use crate::text::{concat_str, contains_str, is_blank, opt_view, str_eq, str_is_blank, strings_view};

verus! {

/// What a successful request returns.
#[derive(Debug, Clone, PartialEq, Eq)]
pub enum ResponseResult {
    RuntimeList { runtimes: Vec<RuntimeInfo> },
    RuntimeInfo { runtime: RuntimeInfo },
    RuntimeAdded { runtime: RuntimeInfo },
    RuntimeRemoved { runtime_id: String, removed: bool },
    RuntimeConnected { runtime: RuntimeInfo },
    RuntimeDisconnected { runtime_id: String, disconnected: bool },
}

/// A refused request: a stable code and a message.
#[derive(Debug, Clone, PartialEq, Eq)]
pub struct ApiError {
    pub code: &'static str,
    pub message: String,
}

/// The answer to a request.
#[derive(Debug, Clone, PartialEq, Eq)]
pub enum ApiReply {
    Success(ResponseResult),
    Failure(ApiError),
}

/// The mathematical content of a [`ResponseResult`].
pub enum ResultView {
    RuntimeList(Seq<RuntimeEntryView>),
    RuntimeInfo(RuntimeEntryView),
    RuntimeAdded(RuntimeEntryView),
    RuntimeRemoved(Seq<char>, bool),
    RuntimeConnected(RuntimeEntryView),
    RuntimeDisconnected(Seq<char>, bool),
}

/// The mathematical content of an [`ApiReply`].
pub enum ReplyView {
    Success(ResultView),
    /// The code and the message.
    Failure(Seq<char>, Seq<char>),
}

/// The views of a list of runtime reports.
pub open spec fn infos_view(v: Seq<RuntimeInfo>) -> Seq<RuntimeEntryView> {
    v.map_values(|i: RuntimeInfo| i@)
}

impl View for ResponseResult {
    type V = ResultView;

    open spec fn view(&self) -> ResultView {
        match self {
            ResponseResult::RuntimeList { runtimes } => ResultView::RuntimeList(
                infos_view(runtimes@),
            ),
            ResponseResult::RuntimeInfo { runtime } => ResultView::RuntimeInfo(runtime@),
            ResponseResult::RuntimeAdded { runtime } => ResultView::RuntimeAdded(runtime@),
            ResponseResult::RuntimeRemoved { runtime_id, removed } => ResultView::RuntimeRemoved(
                runtime_id@,
                *removed,
            ),
            ResponseResult::RuntimeConnected { runtime } => ResultView::RuntimeConnected(
                runtime@,
            ),
            ResponseResult::RuntimeDisconnected { runtime_id, disconnected } =>
                ResultView::RuntimeDisconnected(runtime_id@, *disconnected),
        }
    }
}

impl View for ApiReply {
    type V = ReplyView;

    open spec fn view(&self) -> ReplyView {
        match self {
            ApiReply::Success(r) => ReplyView::Success(r@),
            ApiReply::Failure(e) => ReplyView::Failure(e.code@, e.message@),
        }
    }
}

/// A refusal with `code` and `message`.
pub open spec fn failure(code: Seq<char>, message: Seq<char>) -> ReplyView {
    ReplyView::Failure(code, message)
}

/// The answer naming a runtime that is not registered.
pub open spec fn not_found_reply(id: Seq<char>) -> ReplyView {
    failure("runtime_not_found"@, not_found_msg(id))
}

fn api_failure(code: &'static str, message: String) -> (r: ApiReply)
    ensures
        r@ == failure(code@, message@),
{
    ApiReply::Failure(ApiError { code, message })
}

/// The answer naming a runtime that is not registered.
pub fn runtime_not_found(runtime_id: &str) -> (r: ApiReply)
    ensures
        r@ == not_found_reply(runtime_id@),
{
    let mut msg = concat_str("runtime '", runtime_id);
    msg.append("' not found");
    api_failure("runtime_not_found", msg)
}

/// The entries after setting the status of `id`, or unchanged when that is
/// refused.
pub open spec fn apply_status(
    s: Seq<RuntimeEntryView>,
    id: Seq<char>,
    status: RuntimeStatus,
    last_error: Option<Seq<char>>,
) -> Seq<RuntimeEntryView> {
    if set_status_error(s, id, status) is None {
        s.update(index_of(s, id), with_status(s[index_of(s, id)], status, last_error))
    } else {
        s
    }
}

/// The entries after removing `id`, or unchanged when that is refused.
pub open spec fn apply_remove(s: Seq<RuntimeEntryView>, id: Seq<char>) -> Seq<RuntimeEntryView> {
    if remove_error(s, id) is None {
        s.remove(index_of(s, id))
    } else {
        s
    }
}

/// The entries after adding `e`, or unchanged when that is refused.
pub open spec fn apply_add(s: Seq<RuntimeEntryView>, e: RuntimeEntryView) -> Seq<RuntimeEntryView> {
    if add_error(s, e) is None {
        s.push(e)
    } else {
        s
    }
}

/// The mathematical content of a [`RuntimeHub`]: the registry's entries and
/// the agent snapshots.
pub struct HubView {
    pub runtimes: Seq<RuntimeEntryView>,
    pub snapshots: Snapshots,
}

/// The entry an add request registers: offline, labelled by its id when the
/// label is absent or blank, without a blank session.
pub open spec fn requested_entry(p: RuntimeAddParamsView) -> RuntimeEntryView {
    RuntimeEntryView {
        id: p.id,
        kind: p.kind,
        label: match p.label {
            Some(l) => if is_blank(l) {
                p.id
            } else {
                l
            },
            None => p.id,
        },
        target: p.target,
        session: match p.session {
            Some(x) => if is_blank(x) {
                None
            } else {
                Some(x)
            },
            None => None,
        },
        status: RuntimeStatus::Offline,
        last_error: None,
    }
}

/// Why an add request is refused, as a reply; `None` when it is accepted.
pub open spec fn add_refusal(s: Seq<RuntimeEntryView>, p: RuntimeAddParamsView) -> Option<
    ReplyView,
> {
    if p.kind == RuntimeKind::Local {
        Some(failure("invalid_runtime_kind"@, "cannot add a local runtime; it is always present"@))
    } else if runtime_id_error(p.id) is Some {
        Some(failure("invalid_runtime_id"@, runtime_id_error(p.id)->0))
    } else if add_error(s, requested_entry(p)) is Some {
        Some(
            failure(
                if has_id(s, p.id) {
                    "runtime_already_exists"@
                } else {
                    "invalid_runtime"@
                },
                add_error(s, requested_entry(p))->0,
            ),
        )
    } else {
        None
    }
}

/// The runtime registry and the remote agent snapshots of the hub.
pub struct RuntimeHub {
    registry: RuntimeRegistry,
    remote_agent_cache: AgentCache,
}

impl View for RuntimeHub {
    type V = HubView;

    closed spec fn view(&self) -> HubView {
        HubView { runtimes: self.registry@, snapshots: self.remote_agent_cache@ }
    }
}

impl RuntimeHub {
    /// The registry invariant holds.
    pub open spec fn wf(&self) -> bool {
        registry_inv(self@.runtimes)
    }

    /// A hub over `registry`, with no snapshots yet.
    pub fn new(registry: RuntimeRegistry) -> (r: Self)
        requires
            registry.wf(),
        ensures
            r.wf(),
            r@.runtimes == registry@,
            r@.snapshots == Seq::<(Seq<char>, Seq<AgentInfoView>)>::empty(),
    {
        RuntimeHub { registry, remote_agent_cache: AgentCache::new() }
    }

    /// The registry.
    pub fn registry(&self) -> (r: &RuntimeRegistry)
        ensures
            r@ == self@.runtimes,
    {
        &self.registry
    }

    /// The membership rows to save.
    pub fn membership_for_persist(&self) -> (r: Vec<PersistedRuntime>)
        requires
            self.wf(),
        ensures
            crate::runtime::is_membership_of(self@.runtimes, rows_view(r@)),
    {
        self.registry.membership_for_persist()
    }

    /// `runtime.list`: every runtime, local first.
    pub fn handle_runtime_list(&self) -> (r: ApiReply)
        ensures
            r@ == ReplyView::Success(ResultView::RuntimeList(self@.runtimes)),
    {
        let entries = self.registry.list();
        let mut runtimes: Vec<RuntimeInfo> = Vec::new();
        let mut i: usize = 0;
        while i < entries.len()
            invariant
                i <= entries@.len(),
                entries@.map_values(|e: RuntimeEntry| e@) == self@.runtimes,
                infos_view(runtimes@) == self@.runtimes.take(i as int),
            decreases entries.len() - i,
        {
            assert(self@.runtimes[i as int] == entries@[i as int]@);
            let info = RuntimeInfo::from_entry(&entries[i]);
            let ghost before = runtimes@;
            let ghost iv = info@;
            runtimes.push(info);
            assert(infos_view(runtimes@) =~= infos_view(before).push(iv));
            assert(self@.runtimes.take(i + 1) =~= self@.runtimes.take(i as int).push(iv));
            i += 1;
        }
        assert(self@.runtimes.take(i as int) =~= self@.runtimes);
        ApiReply::Success(ResponseResult::RuntimeList { runtimes })
    }

    /// `runtime.get`: the runtime named by `target`.
    pub fn handle_runtime_get(&self, target: &RuntimeTarget) -> (r: ApiReply)
        ensures
            r@ == if has_id(self@.runtimes, target.runtime_id@) {
                ReplyView::Success(
                    ResultView::RuntimeInfo(
                        self@.runtimes[index_of(self@.runtimes, target.runtime_id@)],
                    ),
                )
            } else {
                not_found_reply(target.runtime_id@)
            },
    {
        match self.registry.get(target.runtime_id.as_str()) {
            Some(entry) => ApiReply::Success(
                ResponseResult::RuntimeInfo { runtime: RuntimeInfo::from_entry(entry) },
            ),
            None => runtime_not_found(target.runtime_id.as_str()),
        }
    }

    /// `runtime.add`, first step: check the request and register the runtime.
    /// On success the caller saves the membership and calls
    /// [`RuntimeHub::finish_runtime_add`] with the id returned.
    pub fn begin_runtime_add(&mut self, params: RuntimeAddParams) -> (r: Result<String, ApiReply>)
        requires
            old(self).wf(),
        ensures
            final(self).wf(),
            final(self)@.snapshots == old(self)@.snapshots,
            match add_refusal(old(self)@.runtimes, params@) {
                Some(reply) => r matches Err(x) && x@ == reply && final(self)@.runtimes == old(
                    self,
                )@.runtimes,
                None => r matches Ok(id) && id@ == params@.id && final(self)@.runtimes == old(
                    self,
                )@.runtimes.push(requested_entry(params@)),
            },
    {
        let ghost p = params@;
        if params.kind == RuntimeKind::Local {
            return Err(
                api_failure(
                    "invalid_runtime_kind",
                    "cannot add a local runtime; it is always present".to_string(),
                ),
            );
        }
        let runtime_id = match parse_runtime_id(params.id.as_str()) {
            Ok(runtime_id) => runtime_id,
            Err(message) => {
                return Err(api_failure("invalid_runtime_id", message));
            },
        };
        let label = match params.label {
            Some(l) => if str_is_blank(l.as_str()) {
                runtime_id.to_string()
            } else {
                l
            },
            None => runtime_id.to_string(),
        };
        let session = match params.session {
            Some(s) => if str_is_blank(s.as_str()) {
                None
            } else {
                Some(s)
            },
            None => None,
        };
        let runtime_id_str = runtime_id.to_string();
        let entry = RuntimeEntry {
            id: runtime_id,
            kind: params.kind,
            label,
            target: params.target,
            session,
            status: RuntimeStatus::Offline,
            last_error: None,
        };
        assert(entry@ == requested_entry(p));
        let taken = self.registry.contains(runtime_id_str.as_str());
        match self.registry.add(entry) {
            Ok(_) => {},
            Err(message) => {
                let code = if taken {
                    "runtime_already_exists"
                } else {
                    "invalid_runtime"
                };
                return Err(api_failure(code, message));
            },
        }
        Ok(runtime_id_str)
    }

    /// `runtime.add`, last step: `saved` is how saving the membership went.
    /// When it failed the runtime is taken out again so that memory matches
    /// the disk.
    pub fn finish_runtime_add(&mut self, runtime_id: &str, saved: Result<(), String>) -> (r:
        ApiReply)
        requires
            old(self).wf(),
        ensures
            final(self).wf(),
            final(self)@.snapshots == old(self)@.snapshots,
            match saved {
                Err(e) => final(self)@.runtimes == apply_remove(old(self)@.runtimes, runtime_id@)
                    && r@ == failure("runtime_registry_save_failed"@, e@),
                Ok(()) => final(self)@.runtimes == old(self)@.runtimes && r@ == if has_id(
                    old(self)@.runtimes,
                    runtime_id@,
                ) {
                    ReplyView::Success(
                        ResultView::RuntimeAdded(
                            old(self)@.runtimes[index_of(old(self)@.runtimes, runtime_id@)],
                        ),
                    )
                } else {
                    failure(
                        "runtime_internal_error"@,
                        "runtime missing after successful add"@,
                    )
                },
            },
    {
        match saved {
            Err(e) => {
                let _ = self.registry.remove(runtime_id);
                api_failure("runtime_registry_save_failed", e)
            },
            Ok(()) => match self.registry.get(runtime_id) {
                Some(entry) => ApiReply::Success(
                    ResponseResult::RuntimeAdded { runtime: RuntimeInfo::from_entry(entry) },
                ),
                None => api_failure(
                    "runtime_internal_error",
                    "runtime missing after successful add".to_string(),
                ),
            },
        }
    }

    /// `runtime.remove`, first step: refuse the local runtime and unknown
    /// ids, else forget the runtime's snapshot and take it out of the
    /// registry. The caller drops the connection, saves the membership and
    /// calls [`RuntimeHub::finish_runtime_remove`] with the entry returned.
    pub fn begin_runtime_remove(&mut self, target: &RuntimeTarget) -> (r: Result<
        RuntimeEntry,
        ApiReply,
    >)
        requires
            old(self).wf(),
        ensures
            final(self).wf(),
            ({
                let s = old(self)@.runtimes;
                let id = target.runtime_id@;
                if id == local_id() {
                    r matches Err(x) && x@ == failure(
                        "cannot_remove_local_runtime"@,
                        "cannot remove the local runtime"@,
                    ) && final(self)@ == old(self)@
                } else if !has_id(s, id) {
                    r matches Err(x) && x@ == not_found_reply(id) && final(self)@ == old(self)@
                } else {
                    r matches Ok(e) && e@ == s[index_of(s, id)] && final(self)@.runtimes
                        == s.remove(index_of(s, id)) && final(self)@.snapshots == without_key(
                        old(self)@.snapshots,
                        id,
                    )
                }
            }),
    {
        let id = target.runtime_id.as_str();
        if str_eq(id, LOCAL_RUNTIME_ID) {
            return Err(
                api_failure(
                    "cannot_remove_local_runtime",
                    "cannot remove the local runtime".to_string(),
                ),
            );
        }
        if !self.registry.contains(id) {
            return Err(runtime_not_found(id));
        }
        self.remote_agent_cache.remove(id);
        match self.registry.remove(id) {
            Ok(entry) => Ok(entry),
            Err(message) => Err(api_failure("runtime_remove_failed", message)),
        }
    }

    /// `runtime.remove`, last step: `saved` is how saving the membership
    /// went. When it failed the removed entry is put back.
    pub fn finish_runtime_remove(&mut self, removed: RuntimeEntry, saved: Result<(), String>) -> (r:
        ApiReply)
        requires
            old(self).wf(),
        ensures
            final(self).wf(),
            final(self)@.snapshots == old(self)@.snapshots,
            match saved {
                Err(e) => final(self)@.runtimes == apply_add(old(self)@.runtimes, removed@) && r@
                    == failure("runtime_registry_save_failed"@, e@),
                Ok(()) => final(self)@.runtimes == old(self)@.runtimes && r@ == ReplyView::Success(
                    ResultView::RuntimeRemoved(removed@.id, true),
                ),
            },
    {
        match saved {
            Err(e) => {
                let _ = self.registry.add(removed);
                api_failure("runtime_registry_save_failed", e)
            },
            Ok(()) => ApiReply::Success(
                ResponseResult::RuntimeRemoved { runtime_id: removed.id.to_string(), removed: true },
            ),
        }
    }

    /// `runtime.connect`, first step: refuse the local runtime and unknown
    /// ids, else mark the runtime as connecting. The caller then connects
    /// and, once connected, fetches its agents, and calls
    /// [`RuntimeHub::finish_runtime_connect`].
    pub fn begin_runtime_connect(&mut self, target: &RuntimeTarget) -> (r: Result<(), ApiReply>)
        requires
            old(self).wf(),
        ensures
            final(self).wf(),
            final(self)@.snapshots == old(self)@.snapshots,
            ({
                let s = old(self)@.runtimes;
                let id = target.runtime_id@;
                if id == local_id() {
                    r matches Err(x) && x@ == failure(
                        "invalid_runtime"@,
                        "local runtime is always connected"@,
                    ) && final(self)@.runtimes == s
                } else if !has_id(s, id) {
                    r matches Err(x) && x@ == not_found_reply(id) && final(self)@.runtimes == s
                } else {
                    r is Ok && final(self)@.runtimes == apply_status(
                        s,
                        id,
                        RuntimeStatus::Connecting,
                        None,
                    )
                }
            }),
    {
        let id = target.runtime_id.as_str();
        if str_eq(id, LOCAL_RUNTIME_ID) {
            return Err(
                api_failure("invalid_runtime", "local runtime is always connected".to_string()),
            );
        }
        if !self.registry.contains(id) {
            return Err(runtime_not_found(id));
        }
        let _ = self.registry.set_status(id, RuntimeStatus::Connecting, None);
        Ok(())
    }

    /// `runtime.connect`, last step. `outcome` is the connection error, or
    /// the result of fetching the runtime's agents once connected. A
    /// connected runtime whose fetch failed is marked degraded; a failed
    /// connection marks it offline and forgets its snapshot.
    pub fn finish_runtime_connect(
        &mut self,
        runtime_id: &str,
        outcome: Result<Result<Vec<AgentInfo>, String>, String>,
    ) -> (r: ApiReply)
        requires
            old(self).wf(),
        ensures
            final(self).wf(),
            ({
                let s = old(self)@.runtimes;
                let id = runtime_id@;
                match outcome {
                    Err(msg) => final(self)@.runtimes == apply_status(
                        s,
                        id,
                        RuntimeStatus::Offline,
                        Some(msg@),
                    ) && final(self)@.snapshots == without_key(old(self)@.snapshots, id) && r@
                        == failure("runtime_connect_failed"@, msg@),
                    Ok(fetched) => {
                        let s1 = apply_status(s, id, RuntimeStatus::Connected, None);
                        let s2 = match fetched {
                            Ok(_) => s1,
                            Err(e) => apply_status(s1, id, RuntimeStatus::Degraded, Some(e@)),
                        };
                        &&& final(self)@.runtimes == s2
                        &&& final(self)@.snapshots == match fetched {
                            Ok(agents) => without_key(old(self)@.snapshots, id).push(
                                (id, agents_view(agents@)),
                            ),
                            Err(_) => old(self)@.snapshots,
                        }
                        &&& r@ == if has_id(s2, id) {
                            ReplyView::Success(ResultView::RuntimeConnected(s2[index_of(s2, id)]))
                        } else {
                            not_found_reply(id)
                        }
                    },
                }
            }),
    {
        match outcome {
            Err(message) => {
                let _ = self.registry.set_status(
                    runtime_id,
                    RuntimeStatus::Offline,
                    Some(message.clone()),
                );
                self.remote_agent_cache.remove(runtime_id);
                api_failure("runtime_connect_failed", message)
            },
            Ok(fetched) => {
                let _ = self.registry.set_status(runtime_id, RuntimeStatus::Connected, None);
                match fetched {
                    Ok(agents) => {
                        self.remote_agent_cache.insert(runtime_id.to_string(), agents);
                    },
                    Err(e) => {
                        let _ = self.registry.set_status(
                            runtime_id,
                            RuntimeStatus::Degraded,
                            Some(e),
                        );
                    },
                }
                match self.registry.get(runtime_id) {
                    Some(entry) => ApiReply::Success(
                        ResponseResult::RuntimeConnected { runtime: RuntimeInfo::from_entry(entry) },
                    ),
                    None => runtime_not_found(runtime_id),
                }
            },
        }
    }

    /// `runtime.disconnect`, first step: refuse the local runtime and unknown
    /// ids. The caller then drops the connection and calls
    /// [`RuntimeHub::finish_runtime_disconnect`].
    pub fn check_runtime_disconnect(&self, target: &RuntimeTarget) -> (r: Result<(), ApiReply>)
        ensures
            ({
                let id = target.runtime_id@;
                if id == local_id() {
                    r matches Err(x) && x@ == failure(
                        "invalid_runtime"@,
                        "cannot disconnect the local runtime"@,
                    )
                } else if !has_id(self@.runtimes, id) {
                    r matches Err(x) && x@ == not_found_reply(id)
                } else {
                    r is Ok
                }
            }),
    {
        let id = target.runtime_id.as_str();
        if str_eq(id, LOCAL_RUNTIME_ID) {
            return Err(
                api_failure("invalid_runtime", "cannot disconnect the local runtime".to_string()),
            );
        }
        if !self.registry.contains(id) {
            return Err(runtime_not_found(id));
        }
        Ok(())
    }

    /// `runtime.disconnect`, last step: forget the snapshot, mark the
    /// runtime offline and report whether a connection was dropped.
    pub fn finish_runtime_disconnect(&mut self, runtime_id: String, disconnected: bool) -> (r:
        ApiReply)
        requires
            old(self).wf(),
        ensures
            final(self).wf(),
            final(self)@.snapshots == without_key(old(self)@.snapshots, runtime_id@),
            final(self)@.runtimes == apply_status(
                old(self)@.runtimes,
                runtime_id@,
                RuntimeStatus::Offline,
                None,
            ),
            r@ == ReplyView::Success(ResultView::RuntimeDisconnected(runtime_id@, disconnected)),
    {
        self.remote_agent_cache.remove(runtime_id.as_str());
        let _ = self.registry.set_status(runtime_id.as_str(), RuntimeStatus::Offline, None);
        ApiReply::Success(ResponseResult::RuntimeDisconnected { runtime_id, disconnected })
    }

    /// Record the result of fetching the agents of `runtime_id`: a fresh list
    /// replaces the snapshot; a failure marks the runtime degraded and keeps
    /// the last good snapshot. Returns the snapshot to report, if any.
    pub fn record_refresh(&mut self, runtime_id: &str, outcome: Result<Vec<AgentInfo>, String>) -> (r:
        Option<Vec<AgentInfo>>)
        requires
            old(self).wf(),
        ensures
            final(self).wf(),
            match outcome {
                Ok(agents) => {
                    &&& final(self)@.runtimes == old(self)@.runtimes
                    &&& final(self)@.snapshots == without_key(old(self)@.snapshots, runtime_id@).push(
                        (runtime_id@, agents_view(agents@)),
                    )
                    &&& r matches Some(x) && agents_view(x@) == agents_view(agents@)
                },
                Err(e) => {
                    &&& final(self)@.runtimes == apply_status(
                        old(self)@.runtimes,
                        runtime_id@,
                        RuntimeStatus::Degraded,
                        Some(e@),
                    )
                    &&& final(self)@.snapshots == old(self)@.snapshots
                    &&& match value_for(old(self)@.snapshots, runtime_id@) {
                        Some(v) => r matches Some(x) && agents_view(x@) == v,
                        None => r is None,
                    }
                },
            },
    {
        match outcome {
            Ok(agents) => {
                let ghost before = self@.snapshots;
                let ghost v = agents_view(agents@);
                self.remote_agent_cache.insert(runtime_id.to_string(), agents);
                proof {
                    lemma_store_then_lookup(before, runtime_id@, v, runtime_id@);
                }
                self.remote_agent_cache.get(runtime_id)
            },
            Err(e) => {
                let _ = self.registry.set_status(runtime_id, RuntimeStatus::Degraded, Some(e));
                self.remote_agent_cache.get(runtime_id)
            },
        }
    }
}

/// The ids of the runtimes of `s`, in registry order, that are not local and
/// have a live connection (are in `connected`).
pub open spec fn refresh_ids(s: Seq<RuntimeEntryView>, connected: Seq<Seq<char>>) -> Seq<Seq<char>>
    decreases s.len(),
{
    if s.len() == 0 {
        Seq::empty()
    } else {
        let rest = refresh_ids(s.drop_last(), connected);
        if s.last().id != local_id() && connected.contains(s.last().id) {
            rest.push(s.last().id)
        } else {
            rest
        }
    }
}

/// The agents of `s` that do not belong to the local runtime.
pub open spec fn non_local_agents(s: Seq<AgentInfoView>) -> Seq<AgentInfoView>
    decreases s.len(),
{
    if s.len() == 0 {
        s
    } else {
        let rest = non_local_agents(s.drop_last());
        if s.last().runtime_id != local_id() {
            rest.push(s.last())
        } else {
            rest
        }
    }
}

impl RuntimeHub {
    /// The runtimes whose agents the aggregated list asks for: the non-local
    /// ones, in registry order, among those with a live connection.
    pub fn remote_ids_to_refresh(&self, connected: &Vec<String>) -> (r: Vec<String>)
        ensures
            strings_view(r@) == refresh_ids(self@.runtimes, strings_view(connected@)),
    {
        let entries = self.registry.list();
        let ghost s = self@.runtimes;
        let ghost c = strings_view(connected@);
        let mut ids: Vec<String> = Vec::new();
        let mut i: usize = 0;
        assert(s.take(0) =~= Seq::<RuntimeEntryView>::empty());
        while i < entries.len()
            invariant
                i <= entries@.len(),
                entries@.map_values(|e: RuntimeEntry| e@) == s,
                c == strings_view(connected@),
                strings_view(ids@) == refresh_ids(s.take(i as int), c),
            decreases entries.len() - i,
        {
            assert(s[i as int] == entries@[i as int]@);
            assert(s.take(i + 1).drop_last() =~= s.take(i as int));
            assert(s.take(i + 1).last() == s[i as int]);
            let entry = &entries[i];
            if !entry.id.is_local() && contains_str(connected, entry.id.as_str()) {
                let ghost before = ids@;
                let id = entry.id.to_string();
                ids.push(id);
                assert(strings_view(ids@) =~= strings_view(before).push(s[i as int].id));
            }
            i += 1;
        }
        assert(s.take(i as int) =~= s);
        ids
    }
}

/// The aggregated agent list and its remote rows: the local agents
/// annotated as local, then each remote list as fetched; the second list
/// keeps the rows that are not local.
pub fn aggregate_agents(local: Vec<AgentInfo>, remotes: Vec<Vec<AgentInfo>>) -> (r: (
    Vec<AgentInfo>,
    Vec<AgentInfo>,
))
    ensures
        r.0@.len() == local@.len() + flatten_agents(remotes@).len(),
        forall|i: int|
            0 <= i < local@.len() ==> annotated(#[trigger] local@[i]@, local_id(), None, r.0@[i]@),
        agents_view(r.0@).skip(local@.len() as int) == flatten_agents(remotes@),
        agents_view(r.1@) == non_local_agents(agents_view(r.0@)),
{
    let merged = merge_agent_lists(local, remotes);
    let mut remote_rows: Vec<AgentInfo> = Vec::new();
    let mut i: usize = 0;
    let ghost m = agents_view(merged@);
    assert(m.take(0) =~= Seq::<AgentInfoView>::empty());
    while i < merged.len()
        invariant
            i <= merged@.len(),
            m == agents_view(merged@),
            agents_view(remote_rows@) == non_local_agents(m.take(i as int)),
        decreases merged.len() - i,
    {
        assert(m.take(i + 1).drop_last() =~= m.take(i as int));
        assert(m.take(i + 1).last() == merged@[i as int]@);
        if !str_eq(merged[i].runtime_id.as_str(), LOCAL_RUNTIME_ID) {
            let ghost before = remote_rows@;
            remote_rows.push(clone_agent(&merged[i]));
            assert(agents_view(remote_rows@) =~= agents_view(before).push(merged@[i as int]@));
        }
        i += 1;
    }
    assert(m.take(i as int) =~= m);
    (merged, remote_rows)
}

/// The registry to start from, given the membership read from disk: the
/// restored registry, or the local-only one and the reason when the rows do
/// not restore.
pub fn registry_from_loaded(membership: Vec<PersistedRuntime>) -> (r: (
    RuntimeRegistry,
    Option<String>,
))
    ensures
        r.0.wf(),
        match restore_from(seq![local_entry_view()], rows_view(membership@)) {
            Ok(v) => r.0@ == v && r.1 is None,
            Err(msg) => r.0@ == seq![local_entry_view()] && (r.1 matches Some(e) && e@ == msg),
        },
{
    match RuntimeRegistry::from_membership(membership) {
        Ok(registry) => (registry, None),
        Err(err) => (RuntimeRegistry::new(), Some(err)),
    }
}

/// An accepted add request is found again: the registry then holds the
/// requested entry, looking its id up gives that entry, and taking it out
/// again (as a failed save does) restores the registry.
pub proof fn lemma_add_request_round_trip(s: Seq<RuntimeEntryView>, p: RuntimeAddParamsView)
    requires
        registry_inv(s),
        add_refusal(s, p) is None,
    ensures
        registry_inv(s.push(requested_entry(p))),
        has_id(s.push(requested_entry(p)), p.id),
        s.push(requested_entry(p))[index_of(s.push(requested_entry(p)), p.id)] == requested_entry(
            p,
        ),
        apply_remove(s.push(requested_entry(p)), p.id) == s,
{
    crate::runtime::lemma_add_then_remove(s, requested_entry(p));
}

/// A removal whose save fails is undone: the removed entry is accepted
/// again, so the registry holds the same runtimes as before, the removed one
/// now last.
pub proof fn lemma_remove_rollback(s: Seq<RuntimeEntryView>, id: Seq<char>)
    requires
        registry_inv(s),
        remove_error(s, id) is None,
    ensures
        add_error(s.remove(index_of(s, id)), s[index_of(s, id)]) is None,
        apply_add(s.remove(index_of(s, id)), s[index_of(s, id)]) == s.remove(index_of(s, id)).push(
            s[index_of(s, id)],
        ),
        registry_inv(s.remove(index_of(s, id)).push(s[index_of(s, id)])),
{
    let k = index_of(s, id);
    assert(crate::runtime::is_first_with_id(s, id, k)) by {
        let j = choose|j: int| 0 <= j < s.len() && #[trigger] s[j].id == id;
        assert forall|q: int| 0 <= q < j implies #[trigger] s[q].id != id by {
            assert(s[q].id != s[j].id);
        }
        assert(crate::runtime::is_first_with_id(s, id, j));
        lemma_index_of(s, id, j);
    }
    assert(k != 0);
    let t = s.remove(k);
    let e = s[k];
    assert(member_ok(e));
    assert(!has_id(t, e.id)) by {
        if has_id(t, e.id) {
            let j = choose|j: int| 0 <= j < t.len() && #[trigger] t[j].id == e.id;
            if j < k {
                assert(t[j] == s[j]);
            } else {
                assert(t[j] == s[j + 1]);
            }
        }
    }
    assert(t[0] == s[0]);
    assert forall|i: int| 1 <= i < t.len() implies member_ok(#[trigger] t[i]) by {
        if i < k {
            assert(t[i] == s[i]);
        } else {
            assert(t[i] == s[i + 1]);
        }
    }
    assert forall|i: int, j: int| 0 <= i < j < t.len() implies #[trigger] t[i].id
        != #[trigger] t[j].id by {
        let ii = if i < k { i } else { i + 1 };
        let jj = if j < k { j } else { j + 1 };
        assert(t[i] == s[ii]);
        assert(t[j] == s[jj]);
    }
    let u = t.push(e);
    assert forall|i: int, j: int| 0 <= i < j < u.len() implies #[trigger] u[i].id
        != #[trigger] u[j].id by {
        if j == t.len() {
            assert(u[i] == t[i]);
        } else {
            assert(u[i] == t[i] && u[j] == t[j]);
        }
    }
    assert forall|i: int| 1 <= i < u.len() implies member_ok(#[trigger] u[i]) by {
        if i < t.len() {
            assert(u[i] == t[i]);
        }
    }
}

/// An accepted add request registers the runtime under the requested id,
/// offline and with no error, with the requested kind and target; it is
/// labelled by the requested label when that is present and not blank, and
/// by its id otherwise; it keeps the requested session unless that is
/// absent or blank.
pub proof fn lemma_add_request_entry(s: Seq<RuntimeEntryView>, p: RuntimeAddParamsView)
    requires
        registry_inv(s),
        add_refusal(s, p) is None,
    ensures
        ({
            let t = s.push(requested_entry(p));
            let e = t[index_of(t, p.id)];
            &&& has_id(t, p.id)
            &&& e.id == p.id
            &&& e.kind == p.kind
            &&& e.target == p.target
            &&& e.status == RuntimeStatus::Offline
            &&& e.last_error is None
            &&& (p.label is None || is_blank(p.label->0)) ==> e.label == p.id
            &&& (p.label is Some && !is_blank(p.label->0)) ==> e.label == p.label->0
            &&& (p.session is None || is_blank(p.session->0)) ==> e.session is None
            &&& (p.session is Some && !is_blank(p.session->0)) ==> e.session == p.session
        }),
{
    lemma_add_request_round_trip(s, p);
}

/// The runtimes the aggregated agent list refreshes are exactly the
/// registered non-local runtimes with a live connection, whatever their
/// status.
pub proof fn lemma_refresh_ids_members(
    s: Seq<RuntimeEntryView>,
    connected: Seq<Seq<char>>,
    id: Seq<char>,
)
    ensures
        refresh_ids(s, connected).contains(id) <==> (id != local_id() && connected.contains(id)
            && has_id(s, id)),
    decreases s.len(),
{
    if s.len() > 0 {
        let rest = s.drop_last();
        lemma_refresh_ids_members(rest, connected, id);
        let r = refresh_ids(rest, connected);
        let last = s.last();
        if has_id(rest, id) {
            let j = choose|j: int| 0 <= j < rest.len() && #[trigger] rest[j].id == id;
            assert(s[j].id == id);
        }
        if has_id(s, id) && !has_id(rest, id) {
            let j = choose|j: int| 0 <= j < s.len() && #[trigger] s[j].id == id;
            if j < rest.len() {
                assert(rest[j].id == id);
            }
            assert(last.id == id);
        }
        if last.id != local_id() && connected.contains(last.id) {
            assert(refresh_ids(s, connected) == r.push(last.id));
            if r.push(last.id).contains(id) && !r.contains(id) {
                let k = choose|k: int| 0 <= k < r.push(last.id).len() && r.push(last.id)[k] == id;
                if k < r.len() {
                    assert(r[k] == id);
                }
            }
            if r.contains(id) {
                let k = choose|k: int| 0 <= k < r.len() && r[k] == id;
                assert(r.push(last.id)[k] == id);
            }
            if id == last.id {
                assert(r.push(last.id)[r.len() as int] == id);
                assert(s[s.len() - 1].id == id);
            }
        } else {
            if id == last.id {
                assert(s[s.len() - 1].id == id);
            }
        }
    }
}

} // verus!
