//! Hub-side multi-runtime federation registry.
//!
//! The local `herdr server` is the hub. Remote hosts keep their own servers;
//! this module tracks membership and live status only.

use vstd::prelude::*;
use crate::text::{concat_str, is_blank, opt_view, str_eq, str_is_blank};
use crate::ids::{runtime_id_error, validate_runtime_id};
use crate::persist::{PersistedRuntime, PersistedView, into_entry_result, persisted_of, restored_entry};
use crate::text::{lex_lt, lemma_lex_lt_irreflexive, lemma_lex_lt_total, lemma_lex_lt_transitive, str_lt};

verus! {

/// The id reserved for the hub itself.
pub const LOCAL_RUNTIME_ID: &'static str = "local";

/// The label of the hub's own entry.
pub const LOCAL_RUNTIME_LABEL: &'static str = "Local";

/// The reserved id of the local runtime.
pub open spec fn local_id() -> Seq<char> {
    LOCAL_RUNTIME_ID@
}

/// The label of the local runtime.
pub open spec fn local_label() -> Seq<char> {
    LOCAL_RUNTIME_LABEL@
}

/// Stable runtime identifier. `local` is reserved for the hub itself.
#[derive(Debug, Clone, PartialEq, Eq, Hash)]
pub struct RuntimeId(pub(crate) String);

impl View for RuntimeId {
    type V = Seq<char>;

    closed spec fn view(&self) -> Seq<char> {
        self.0@
    }
}

/// The view of an id is the view of the text it holds.
pub(crate) proof fn lemma_runtime_id_view(id: RuntimeId)
    ensures
        id@ == id.0@,
{
}

impl RuntimeId {
    /// An id made of `id`; refused when `id` is empty.
    pub fn new(id: String) -> (r: Result<Self, ()>)
        ensures
            match r {
                Ok(x) => id@.len() > 0 && x@ == id@,
                Err(()) => id@.len() == 0,
            },
    {
        if id.as_str().is_empty() {
            return Err(());
        }
        Ok(RuntimeId(id))
    }

    /// The id of the hub itself.
    pub fn local() -> (r: Self)
        ensures
            r@ == local_id(),
    {
        RuntimeId(LOCAL_RUNTIME_ID.to_string())
    }

    /// The id as text.
    pub fn as_str(&self) -> (r: &str)
        ensures
            r@ == self@,
    {
        self.0.as_str()
    }

    /// The id as an owned string.
    pub fn to_string(&self) -> (r: String)
        ensures
            r@ == self@,
    {
        self.0.clone()
    }

    /// Whether this is the hub's own id.
    pub fn is_local(&self) -> (r: bool)
        ensures
            r == (self@ == local_id()),
    {
        str_eq(self.0.as_str(), LOCAL_RUNTIME_ID)
    }
}

/// How the hub reaches a runtime.
#[derive(Debug, Clone, Copy, PartialEq, Eq, Structural)]
pub enum RuntimeKind {
    Local,
    Socket,
    RemoteSsh,
}

impl RuntimeKind {
    /// The wire name of the kind.
    pub fn as_str(self) -> (r: &'static str)
        ensures
            r@ == match self {
                RuntimeKind::Local => "local"@,
                RuntimeKind::Socket => "socket"@,
                RuntimeKind::RemoteSsh => "remote_ssh"@,
            },
    {
        match self {
            RuntimeKind::Local => "local",
            RuntimeKind::Socket => "socket",
            RuntimeKind::RemoteSsh => "remote_ssh",
        }
    }
}

/// Live status of a runtime.
#[derive(Debug, Clone, Copy, PartialEq, Eq, Structural)]
pub enum RuntimeStatus {
    Connected,
    Degraded,
    Offline,
    Connecting,
}

impl RuntimeStatus {
    /// The wire name of the status.
    pub fn as_str(self) -> (r: &'static str)
        ensures
            r@ == match self {
                RuntimeStatus::Connected => "connected"@,
                RuntimeStatus::Degraded => "degraded"@,
                RuntimeStatus::Offline => "offline"@,
                RuntimeStatus::Connecting => "connecting"@,
            },
    {
        match self {
            RuntimeStatus::Connected => "connected",
            RuntimeStatus::Degraded => "degraded",
            RuntimeStatus::Offline => "offline",
            RuntimeStatus::Connecting => "connecting",
        }
    }
}

/// One runtime known to the hub (local always present).
#[derive(Debug, Clone, PartialEq, Eq)]
pub struct RuntimeEntry {
    pub id: RuntimeId,
    pub kind: RuntimeKind,
    pub label: String,
    /// SSH host alias/hostname for [`RuntimeKind::RemoteSsh`], or Unix socket
    /// path for [`RuntimeKind::Socket`].
    pub target: Option<String>,
    /// Optional remote Herdr session name (`--session`).
    pub session: Option<String>,
    pub status: RuntimeStatus,
    pub last_error: Option<String>,
}

/// The mathematical content of a [`RuntimeEntry`].
pub struct RuntimeEntryView {
    pub id: Seq<char>,
    pub kind: RuntimeKind,
    pub label: Seq<char>,
    pub target: Option<Seq<char>>,
    pub session: Option<Seq<char>>,
    pub status: RuntimeStatus,
    pub last_error: Option<Seq<char>>,
}

impl View for RuntimeEntry {
    type V = RuntimeEntryView;

    open spec fn view(&self) -> RuntimeEntryView {
        RuntimeEntryView {
            id: self.id@,
            kind: self.kind,
            label: self.label@,
            target: opt_view(self.target),
            session: opt_view(self.session),
            status: self.status,
            last_error: opt_view(self.last_error),
        }
    }
}

/// The hub's own entry.
pub open spec fn local_entry_view() -> RuntimeEntryView {
    RuntimeEntryView {
        id: local_id(),
        kind: RuntimeKind::Local,
        label: local_label(),
        target: None,
        session: None,
        status: RuntimeStatus::Connected,
        last_error: None,
    }
}

impl RuntimeEntry {
    /// The hub's own entry: connected, labelled `Local`.
    pub fn local() -> (r: Self)
        ensures
            r@ == local_entry_view(),
    {
        RuntimeEntry {
            id: RuntimeId::local(),
            kind: RuntimeKind::Local,
            label: LOCAL_RUNTIME_LABEL.to_string(),
            target: None,
            session: None,
            status: RuntimeStatus::Connected,
            last_error: None,
        }
    }
}

} // verus!

verus! {

/// Whether some entry of `s` has the id `id`.
pub open spec fn has_id(s: Seq<RuntimeEntryView>, id: Seq<char>) -> bool {
    exists|i: int| 0 <= i < s.len() && #[trigger] s[i].id == id
}

/// `i` is the first position of `s` whose entry has the id `id`.
pub open spec fn is_first_with_id(s: Seq<RuntimeEntryView>, id: Seq<char>, i: int) -> bool {
    &&& 0 <= i < s.len()
    &&& s[i].id == id
    &&& forall|j: int| 0 <= j < i ==> #[trigger] s[j].id != id
}

/// The first position of `s` whose entry has the id `id`.
pub open spec fn index_of(s: Seq<RuntimeEntryView>, id: Seq<char>) -> int {
    choose|i: int| is_first_with_id(s, id, i)
}

/// The first position with an id is the one `index_of` names.
pub proof fn lemma_index_of(s: Seq<RuntimeEntryView>, id: Seq<char>, i: int)
    requires
        is_first_with_id(s, id, i),
    ensures
        index_of(s, id) == i,
{
    let k = index_of(s, id);
    assert(is_first_with_id(s, id, k));
    if k < i {
        assert(s[k].id != id);
    } else if i < k {
        assert(s[i].id != id);
    }
}

/// A target that is absent or holds only whitespace.
pub open spec fn target_blank(t: Option<Seq<char>>) -> bool {
    match t {
        None => true,
        Some(x) => is_blank(x),
    }
}

/// The error naming a runtime that is already registered.
pub open spec fn already_exists_msg(id: Seq<char>) -> Seq<char> {
    "runtime '"@ + id + "' already exists"@
}

/// The error naming a runtime that is not registered.
pub open spec fn not_found_msg(id: Seq<char>) -> Seq<char> {
    "runtime '"@ + id + "' not found"@
}

/// Why adding `e` to the entries `s` is refused, checked in this order;
/// `None` when it is accepted.
pub open spec fn add_error(s: Seq<RuntimeEntryView>, e: RuntimeEntryView) -> Option<Seq<char>> {
    if e.kind == RuntimeKind::Local || e.id == local_id() {
        Some("cannot add a second local runtime"@)
    } else if runtime_id_error(e.id) is Some {
        runtime_id_error(e.id)
    } else if has_id(s, e.id) {
        Some(already_exists_msg(e.id))
    } else if e.kind == RuntimeKind::RemoteSsh && target_blank(e.target) {
        Some("remote_ssh runtime requires a non-empty target (SSH host)"@)
    } else if e.kind == RuntimeKind::Socket && target_blank(e.target) {
        Some("socket runtime requires a non-empty target (socket path)"@)
    } else {
        None
    }
}

/// What every non-local entry of a registry satisfies.
pub open spec fn member_ok(e: RuntimeEntryView) -> bool {
    &&& e.kind != RuntimeKind::Local
    &&& runtime_id_error(e.id) is None
    &&& e.kind == RuntimeKind::RemoteSsh ==> !target_blank(e.target)
    &&& e.kind == RuntimeKind::Socket ==> !target_blank(e.target)
}

/// No two entries share an id.
pub open spec fn ids_distinct(s: Seq<RuntimeEntryView>) -> bool {
    forall|i: int, j: int| 0 <= i < j < s.len() ==> #[trigger] s[i].id != #[trigger] s[j].id
}

/// The registry invariant: the local entry comes first and is connected,
/// every other entry is a valid non-local runtime, and ids are unique.
pub open spec fn registry_inv(s: Seq<RuntimeEntryView>) -> bool {
    &&& s.len() >= 1
    &&& s[0].id == local_id()
    &&& s[0].kind == RuntimeKind::Local
    &&& s[0].label == local_label()
    &&& s[0].target is None
    &&& s[0].session is None
    &&& s[0].status == RuntimeStatus::Connected
    &&& forall|i: int| 1 <= i < s.len() ==> member_ok(#[trigger] s[i])
    &&& ids_distinct(s)
}

/// `e` with a new status and last error.
pub open spec fn with_status(
    e: RuntimeEntryView,
    status: RuntimeStatus,
    last_error: Option<Seq<char>>,
) -> RuntimeEntryView {
    RuntimeEntryView { status, last_error, ..e }
}

/// Why setting the status of `id` is refused; `None` when it is accepted.
pub open spec fn set_status_error(
    s: Seq<RuntimeEntryView>,
    id: Seq<char>,
    status: RuntimeStatus,
) -> Option<Seq<char>> {
    if !has_id(s, id) {
        Some(not_found_msg(id))
    } else if id == local_id() && status != RuntimeStatus::Connected {
        Some("local runtime status is always connected"@)
    } else {
        None
    }
}

/// Why removing `id` is refused; `None` when it is accepted.
pub open spec fn remove_error(s: Seq<RuntimeEntryView>, id: Seq<char>) -> Option<Seq<char>> {
    if id == local_id() {
        Some("cannot remove the local runtime"@)
    } else if !has_id(s, id) {
        Some(not_found_msg(id))
    } else {
        None
    }
}

/// A change to one entry that keeps the registry invariant: the id and kind
/// stay, the local entry stays as it is but for its last error, and any
/// other entry stays a valid member.
pub open spec fn in_place_edit_ok(before: RuntimeEntryView, after: RuntimeEntryView) -> bool {
    &&& after.id == before.id
    &&& after.kind == before.kind
    &&& if before.kind == RuntimeKind::Local {
        after == with_status(before, RuntimeStatus::Connected, after.last_error)
    } else {
        member_ok(after)
    }
}

/// Changing one entry as [`in_place_edit_ok`] allows keeps the registry
/// invariant.
pub proof fn lemma_in_place_edit(s: Seq<RuntimeEntryView>, k: int, e: RuntimeEntryView)
    ensures
        registry_inv(s) && 0 <= k < s.len() && in_place_edit_ok(s[k], e) ==> registry_inv(
            s.update(k, e),
        ),
{
    if registry_inv(s) && 0 <= k < s.len() && in_place_edit_ok(s[k], e) {
        let t = s.update(k, e);
        if k != 0 {
            assert(member_ok(s[k]));
        }
        assert(t[0].id == s[0].id);
        assert forall|i: int| 1 <= i < t.len() implies member_ok(#[trigger] t[i]) by {
            if i != k {
                assert(t[i] == s[i]);
            }
        }
        assert forall|i: int, j: int| 0 <= i < j < t.len() implies #[trigger] t[i].id
            != #[trigger] t[j].id by {
            assert(t[i].id == s[i].id);
            assert(t[j].id == s[j].id);
        }
    }
}

/// Hub registry of local + remote runtimes. Local is always first.
#[derive(Debug, Clone, PartialEq, Eq)]
pub struct RuntimeRegistry {
    entries: Vec<RuntimeEntry>,
}

impl View for RuntimeRegistry {
    type V = Seq<RuntimeEntryView>;

    closed spec fn view(&self) -> Seq<RuntimeEntryView> {
        self.entries@.map_values(|e: RuntimeEntry| e@)
    }
}

impl Default for RuntimeRegistry {
    fn default() -> (r: Self)
        ensures
            r@ == seq![local_entry_view()],
            r.wf(),
    {
        Self::new()
    }
}

impl RuntimeRegistry {
    /// The registry invariant holds.
    pub open spec fn wf(&self) -> bool {
        registry_inv(self@)
    }

    /// A registry holding only the local runtime.
    pub fn new() -> (r: Self)
        ensures
            r@ == seq![local_entry_view()],
            r.wf(),
    {
        let r = RuntimeRegistry { entries: vec![RuntimeEntry::local()] };
        assert(r@ =~= seq![local_entry_view()]);
        r
    }

    /// All entries, local first.
    pub fn list(&self) -> (r: &[RuntimeEntry])
        ensures
            r@.map_values(|e: RuntimeEntry| e@) == self@,
    {
        self.entries.as_slice()
    }

    /// The entry with id `id`, if any.
    pub fn get(&self, id: &str) -> (r: Option<&RuntimeEntry>)
        ensures
            r is Some <==> has_id(self@, id@),
            r matches Some(e) ==> e@ == self@[index_of(self@, id@)],
    {
        let mut i: usize = 0;
        while i < self.entries.len()
            invariant
                i <= self.entries.len(),
                forall|j: int| 0 <= j < i ==> #[trigger] self@[j].id != id@,
            decreases self.entries.len() - i,
        {
            if str_eq(self.entries[i].id.as_str(), id) {
                proof {
                    assert(self@[i as int] == self.entries@[i as int]@);
                    assert(self@[i as int].id == id@);
                    lemma_index_of(self@, id@, i as int);
                }
                return Some(&self.entries[i]);
            }
            assert(self@[i as int] == self.entries@[i as int]@);
            i += 1;
        }
        None
    }

    /// The position of the entry with id `id`, if any.
    fn position(&self, id: &str) -> (r: Option<usize>)
        ensures
            r is Some <==> has_id(self@, id@),
            r matches Some(i) ==> i == index_of(self@, id@) && is_first_with_id(
                self@,
                id@,
                i as int,
            ),
    {
        let mut i: usize = 0;
        while i < self.entries.len()
            invariant
                i <= self.entries.len(),
                forall|j: int| 0 <= j < i ==> #[trigger] self@[j].id != id@,
            decreases self.entries.len() - i,
        {
            if str_eq(self.entries[i].id.as_str(), id) {
                proof {
                    assert(self@[i as int] == self.entries@[i as int]@);
                    assert(self@[i as int].id == id@);
                    lemma_index_of(self@, id@, i as int);
                }
                return Some(i);
            }
            assert(self@[i as int] == self.entries@[i as int]@);
            i += 1;
        }
        None
    }

    /// The entry with id `id`, if any, for in-place changes. The registry
    /// stays well formed when the change keeps what [`in_place_edit_ok`]
    /// asks for.
    pub fn get_mut(&mut self, id: &str) -> (r: Option<&mut RuntimeEntry>)
        ensures
            r is Some <==> has_id(old(self)@, id@),
            r is None ==> final(self)@ == old(self)@,
            r matches Some(e) ==> (*e)@ == old(self)@[index_of(old(self)@, id@)],
            r matches Some(e) ==> final(self)@ == old(self)@.update(
                index_of(old(self)@, id@),
                (*final(e))@,
            ),
            r matches Some(e) ==> (old(self).wf() && in_place_edit_ok((*e)@, (*final(e))@)
                ==> final(self).wf()),
    {
        match self.position(id) {
            None => None,
            Some(i) => {
                let ghost after = *final(self);
                let e = &mut self.entries[i];
                proof {
                    lemma_in_place_edit(old(self)@, i as int, (*final(e))@);
                    assert(after@ =~= old(self)@.update(i as int, (*final(e))@));
                }
                Some(e)
            },
        }
    }

    /// Whether an entry has id `id`.
    pub fn contains(&self, id: &str) -> (r: bool)
        ensures
            r == has_id(self@, id@),
    {
        self.get(id).is_some()
    }

    /// Add a non-local runtime. Fails if the id is reserved, invalid, or taken.
    pub fn add(&mut self, entry: RuntimeEntry) -> (r: Result<&RuntimeEntry, String>)
        requires
            old(self).wf(),
        ensures
            final(self).wf(),
            match add_error(old(self)@, entry@) {
                Some(msg) => r matches Err(e) && e@ == msg && final(self)@ == old(self)@,
                None => r matches Ok(e) && e@ == entry@ && final(self)@ == old(self)@.push(
                    entry@,
                ),
            },
    {
        if entry.kind == RuntimeKind::Local || entry.id.is_local() {
            return Err("cannot add a second local runtime".to_string());
        }
        match validate_runtime_id(entry.id.as_str()) {
            Ok(()) => {},
            Err(e) => {
                return Err(e);
            },
        }
        if self.contains(entry.id.as_str()) {
            let mut msg = concat_str("runtime '", entry.id.as_str());
            msg.append("' already exists");
            return Err(msg);
        }
        if entry.kind == RuntimeKind::RemoteSsh {
            let blank = match &entry.target {
                None => true,
                Some(t) => str_is_blank(t.as_str()),
            };
            if blank {
                return Err("remote_ssh runtime requires a non-empty target (SSH host)".to_string());
            }
        }
        if entry.kind == RuntimeKind::Socket {
            let blank = match &entry.target {
                None => true,
                Some(t) => str_is_blank(t.as_str()),
            };
            if blank {
                return Err("socket runtime requires a non-empty target (socket path)".to_string());
            }
        }
        let ghost old_view = self@;
        let ghost ev = entry@;
        self.entries.push(entry);
        assert(self@ =~= old_view.push(ev));
        proof {
            assert forall|i: int, j: int| 0 <= i < j < self@.len() implies #[trigger] self@[i].id
                != #[trigger] self@[j].id by {
                if j == old_view.len() {
                    assert(old_view[i].id != ev.id);
                }
            }
        }
        let index = self.entries.len() - 1;
        Ok(&self.entries[index])
    }

    /// Remove a non-local runtime by id.
    pub fn remove(&mut self, id: &str) -> (r: Result<RuntimeEntry, String>)
        requires
            old(self).wf(),
        ensures
            final(self).wf(),
            match remove_error(old(self)@, id@) {
                Some(msg) => r matches Err(e) && e@ == msg && final(self)@ == old(self)@,
                None => r matches Ok(e) && e@ == old(self)@[index_of(old(self)@, id@)]
                    && final(self)@ == old(self)@.remove(index_of(old(self)@, id@)),
            },
    {
        if str_eq(id, LOCAL_RUNTIME_ID) {
            return Err("cannot remove the local runtime".to_string());
        }
        match self.position(id) {
            None => {
                let mut msg = concat_str("runtime '", id);
                msg.append("' not found");
                Err(msg)
            },
            Some(index) => {
                let ghost old_view = self@;
                proof {
                    if index == 0 {
                        assert(old_view[0].id == local_id());
                    }
                }
                assert(index > 0);
                let e = self.entries.remove(index);
                assert(self@[0] == old_view[0]);
                assert(self@ =~= old_view.remove(index as int));
                assert(e@ == old_view[index as int]);
                proof {
                    assert forall|i: int| 1 <= i < self@.len() implies member_ok(
                        #[trigger] self@[i],
                    ) by {
                        if i < index {
                            assert(self@[i] == old_view[i]);
                        } else {
                            assert(self@[i] == old_view[i + 1]);
                        }
                    }
                    assert forall|i: int, j: int| 0 <= i < j < self@.len() implies #[trigger] self@[i].id
                        != #[trigger] self@[j].id by {
                        let ii = if i < index { i } else { i + 1 };
                        let jj = if j < index { j } else { j + 1 };
                        assert(self@[i] == old_view[ii]);
                        assert(self@[j] == old_view[jj]);
                    }
                }
                Ok(e)
            },
        }
    }

    /// Record the live status of a runtime; the local runtime only ever takes
    /// `Connected`.
    pub fn set_status(&mut self, id: &str, status: RuntimeStatus, last_error: Option<String>) -> (r:
        Result<(), String>)
        requires
            old(self).wf(),
        ensures
            final(self).wf(),
            match set_status_error(old(self)@, id@, status) {
                Some(msg) => r matches Err(e) && e@ == msg && final(self)@ == old(self)@,
                None => r is Ok && final(self)@ == old(self)@.update(
                    index_of(old(self)@, id@),
                    with_status(old(self)@[index_of(old(self)@, id@)], status, opt_view(last_error)),
                ),
            },
    {
        match self.position(id) {
            None => {
                let mut msg = concat_str("runtime '", id);
                msg.append("' not found");
                Err(msg)
            },
            Some(index) => {
                let ghost old_view = self@;
                let ghost le = opt_view(last_error);
                let mut entry = self.entries.remove(index);
                if entry.id.is_local() && status != RuntimeStatus::Connected {
                    self.entries.insert(index, entry);
                    assert(self.entries@ =~= old(self).entries@);
                    return Err("local runtime status is always connected".to_string());
                }
                entry.status = status;
                entry.last_error = last_error;
                self.entries.insert(index, entry);
                proof {
                    assert(self@ =~= old_view.update(
                        index as int,
                        with_status(old_view[index as int], status, le),
                    ));
                    if index == 0 {
                        assert(status == RuntimeStatus::Connected);
                    }
                    assert forall|i: int| 1 <= i < self@.len() implies member_ok(
                        #[trigger] self@[i],
                    ) by {
                        if i != index {
                            assert(self@[i] == old_view[i]);
                        } else {
                            assert(member_ok(old_view[i]));
                        }
                    }
                    assert forall|i: int, j: int| 0 <= i < j < self@.len() implies #[trigger] self@[i].id
                        != #[trigger] self@[j].id by {
                        assert(self@[i].id == old_view[i].id);
                        assert(self@[j].id == old_view[j].id);
                    }
                }
                Ok(())
            },
        }
    }
}

} // verus!

verus! {

/// The views of a list of membership rows.
pub open spec fn rows_view(rows: Seq<PersistedRuntime>) -> Seq<PersistedView> {
    rows.map_values(|p: PersistedRuntime| p@)
}

/// Adding the rows `m`, in order, to the entries `s`: the entries reached, or
/// the first error met.
pub open spec fn restore_from(s: Seq<RuntimeEntryView>, m: Seq<PersistedView>) -> Result<
    Seq<RuntimeEntryView>,
    Seq<char>,
>
    decreases m.len(),
{
    if m.len() == 0 {
        Ok(s)
    } else {
        match into_entry_result(m[0]) {
            Err(e) => Err(e),
            Ok(ev) => match add_error(s, ev) {
                Some(e) => Err(e),
                None => restore_from(s.push(ev), m.drop_first()),
            },
        }
    }
}

/// The entries a registry restored from the rows `m` holds: the local entry,
/// then each row's entry, offline and without an error.
pub open spec fn restored_view(m: Seq<PersistedView>) -> Seq<RuntimeEntryView> {
    seq![local_entry_view()] + m.map_values(|p: PersistedView| restored_entry(p))
}

/// Rows strictly ordered by id.
pub open spec fn sorted_by_id(m: Seq<PersistedView>) -> bool {
    forall|a: int, b: int| 0 <= a < b < m.len() ==> lex_lt(#[trigger] m[a].id, #[trigger] m[b].id)
}

/// `m` holds the rows of the non-local entries of `s` (those after the
/// first), each once, sorted by id.
pub open spec fn is_membership_of(s: Seq<RuntimeEntryView>, m: Seq<PersistedView>) -> bool {
    &&& m.len() + 1 == s.len()
    &&& sorted_by_id(m)
    &&& rows_cover(s, m, s.len() as int)
}

/// Inserting a row at the place the insertion scan found keeps the rows
/// sorted.
proof fn lemma_insert_sorted(m: Seq<PersistedView>, p: int, row: PersistedView)
    requires
        sorted_by_id(m),
        0 <= p <= m.len(),
        forall|q: int| 0 <= q < p ==> !lex_lt(row.id, #[trigger] m[q].id),
        p < m.len() ==> lex_lt(row.id, m[p].id),
        forall|q: int| 0 <= q < m.len() ==> #[trigger] m[q].id != row.id,
    ensures
        sorted_by_id(m.insert(p, row)),
{
    let n = m.insert(p, row);
    assert forall|a: int, b: int| 0 <= a < b < n.len() implies lex_lt(
        #[trigger] n[a].id,
        #[trigger] n[b].id,
    ) by {
        if b < p {
            assert(n[a] == m[a] && n[b] == m[b]);
        } else if b == p {
            assert(n[a] == m[a]);
            assert(m[a].id != row.id);
            lemma_lex_lt_total(m[a].id, row.id);
        } else if a < p {
            assert(n[a] == m[a] && n[b] == m[b - 1]);
        } else if a == p {
            assert(n[b] == m[b - 1]);
            if b - 1 > p {
                lemma_lex_lt_transitive(row.id, m[p].id, m[b - 1].id);
            }
        } else {
            assert(n[a] == m[a - 1] && n[b] == m[b - 1]);
        }
    }
}

/// What a row must satisfy to be added back to a registry.
pub open spec fn row_ok(p: PersistedView) -> bool {
    member_ok(restored_entry(p))
}

/// `r` is the row of one of the entries `s[1..n]`.
pub open spec fn comes_from(s: Seq<RuntimeEntryView>, n: int, r: PersistedView) -> bool {
    exists|j: int| 1 <= j < n && r == #[trigger] persisted_of(s[j])
}

/// Every row of `m` is among the rows of the entries `s[1..n]`, and every
/// such entry has its row in `m`.
pub open spec fn rows_cover(s: Seq<RuntimeEntryView>, m: Seq<PersistedView>, n: int) -> bool {
    &&& forall|k: int| 0 <= k < m.len() ==> comes_from(s, n, #[trigger] m[k])
    &&& forall|j: int| 1 <= j < n ==> m.contains(#[trigger] persisted_of(s[j]))
}

/// Persisting a registry and restoring the rows gives back the local entry
/// followed by every other runtime, offline and without an error, in id
/// order: membership survives a round trip through disk, live state does
/// not.
pub proof fn lemma_membership_round_trip(s: Seq<RuntimeEntryView>, m: Seq<PersistedView>)
    requires
        registry_inv(s),
        is_membership_of(s, m),
    ensures
        restore_from(seq![local_entry_view()], m) == Ok::<Seq<RuntimeEntryView>, Seq<char>>(
            restored_view(m),
        ),
{
    assert forall|k: int| 0 <= k < m.len() implies #[trigger] row_ok(m[k]) by {
        assert(comes_from(s, s.len() as int, m[k]));
        let i = choose|i: int| 1 <= i < s.len() && m[k] == #[trigger] persisted_of(s[i]);
        assert(member_ok(s[i]));
    }
    assert(seq![local_entry_view()] =~= seq![local_entry_view()] + m.take(0).map_values(
        |p: PersistedView| restored_entry(p),
    ));
    assert(m.skip(0) =~= m);
    lemma_round_trip_from(m, 0);
}

/// Persisting and restoring keeps each runtime's membership: every
/// non-local entry of the registry comes back from the saved rows with its
/// id, kind, label, target and session, offline and with no error.
pub proof fn lemma_round_trip_keeps_members(s: Seq<RuntimeEntryView>, m: Seq<PersistedView>, j: int)
    requires
        registry_inv(s),
        is_membership_of(s, m),
        1 <= j < s.len(),
    ensures
        restore_from(seq![local_entry_view()], m) == Ok::<Seq<RuntimeEntryView>, Seq<char>>(
            restored_view(m),
        ),
        restored_view(m).contains(with_status(s[j], RuntimeStatus::Offline, None)),
{
    lemma_membership_round_trip(s, m);
    assert(m.contains(persisted_of(s[j])));
    let k = choose|k: int| 0 <= k < m.len() && m[k] == persisted_of(s[j]);
    assert(restored_view(m)[k + 1] == restored_entry(m[k]));
    assert(restored_entry(persisted_of(s[j])) == with_status(s[j], RuntimeStatus::Offline, None));
}

proof fn lemma_round_trip_from(m: Seq<PersistedView>, k: int)
    requires
        sorted_by_id(m),
        forall|j: int| 0 <= j < m.len() ==> #[trigger] row_ok(m[j]),
        0 <= k <= m.len(),
    ensures
        restore_from(
            seq![local_entry_view()] + m.take(k).map_values(|p: PersistedView| restored_entry(p)),
            m.skip(k),
        ) == Ok::<Seq<RuntimeEntryView>, Seq<char>>(restored_view(m)),
    decreases m.len() - k,
{
    let f = |p: PersistedView| restored_entry(p);
    let t = seq![local_entry_view()] + m.take(k).map_values(f);
    if k == m.len() {
        assert(m.take(k) =~= m);
        assert(t =~= restored_view(m));
        assert(m.skip(k).len() == 0);
    } else {
        let row = m[k];
        assert(row_ok(row));
        let ev = restored_entry(row);
        assert(m.skip(k)[0] == row);
        assert(into_entry_result(row) == Ok::<RuntimeEntryView, Seq<char>>(ev));
        assert(!has_id(t, ev.id)) by {
            if has_id(t, ev.id) {
                let j = choose|j: int| 0 <= j < t.len() && #[trigger] t[j].id == ev.id;
                if j == 0 {
                    assert(t[0].id == local_id());
                } else {
                    assert(t[j] == restored_entry(m[j - 1]));
                    assert(lex_lt(m[j - 1].id, m[k].id));
                    lemma_lex_lt_irreflexive(m[k].id);
                }
            }
        }
        assert(add_error(t, ev) is None);
        assert(m.skip(k).drop_first() =~= m.skip(k + 1));
        assert(t.push(ev) =~= seq![local_entry_view()] + m.take(k + 1).map_values(f));
        lemma_round_trip_from(m, k + 1);
    }
}

/// One step of the insertion that builds the membership rows.
proof fn lemma_membership_step(
    s: Seq<RuntimeEntryView>,
    old_rows: Seq<PersistedView>,
    p: int,
    i: int,
)
    requires
        ids_distinct(s),
        1 <= i < s.len(),
        0 <= p <= old_rows.len(),
        sorted_by_id(old_rows),
        rows_cover(s, old_rows, i),
        forall|q: int| 0 <= q < p ==> !lex_lt(persisted_of(s[i]).id, #[trigger] old_rows[q].id),
        p < old_rows.len() ==> lex_lt(persisted_of(s[i]).id, old_rows[p].id),
    ensures
        sorted_by_id(old_rows.insert(p, persisted_of(s[i]))),
        rows_cover(s, old_rows.insert(p, persisted_of(s[i])), i + 1),
{
    let rowv = persisted_of(s[i]);
    assert forall|q: int| 0 <= q < old_rows.len() implies #[trigger] old_rows[q].id != rowv.id by {
        assert(comes_from(s, i, old_rows[q]));
        let j = choose|j: int| 1 <= j < i && old_rows[q] == #[trigger] persisted_of(s[j]);
        assert(s[j].id != s[i].id);
    }
    lemma_insert_sorted(old_rows, p, rowv);
    let nr = old_rows.insert(p, rowv);
    assert forall|k: int| 0 <= k < nr.len() implies comes_from(s, i + 1, #[trigger] nr[k]) by {
        if k < p {
            assert(nr[k] == old_rows[k]);
            assert(comes_from(s, i, old_rows[k]));
        } else if k == p {
            assert(nr[k] == persisted_of(s[i]));
        } else {
            assert(nr[k] == old_rows[k - 1]);
            assert(comes_from(s, i, old_rows[k - 1]));
        }
    }
    assert forall|j: int| 1 <= j < i + 1 implies nr.contains(#[trigger] persisted_of(s[j])) by {
        if j == i {
            assert(nr[p] == persisted_of(s[j]));
        } else {
            assert(old_rows.contains(persisted_of(s[j])));
            let k = choose|k: int| 0 <= k < old_rows.len() && old_rows[k] == persisted_of(s[j]);
            if k < p {
                assert(nr[k] == old_rows[k]);
            } else {
                assert(nr[k + 1] == old_rows[k]);
            }
        }
    }
}

impl RuntimeRegistry {
    /// Build a registry from persisted membership (non-local only).
    pub fn from_membership(membership: Vec<PersistedRuntime>) -> (r: Result<Self, String>)
        ensures
            match restore_from(seq![local_entry_view()], rows_view(membership@)) {
                Ok(v) => r matches Ok(reg) && reg@ == v && reg.wf(),
                Err(msg) => r matches Err(e) && e@ == msg,
            },
    {
        let mut registry = Self::new();
        let mut rest = membership;
        assert(rows_view(rest@) == rows_view(membership@));
        while rest.len() > 0
            invariant
                registry.wf(),
                restore_from(seq![local_entry_view()], rows_view(membership@)) == restore_from(
                    registry@,
                    rows_view(rest@),
                ),
            decreases rest.len(),
        {
            let ghost rv = rows_view(rest@);
            let persisted = rest.remove(0);
            assert(rv[0] == persisted@);
            assert(rv.drop_first() =~= rows_view(rest@));
            match persisted.into_entry() {
                Err(e) => {
                    return Err(e);
                },
                Ok(entry) => {
                    match registry.add(entry) {
                        Err(e) => {
                            return Err(e);
                        },
                        Ok(_) => {},
                    }
                },
            }
        }
        Ok(registry)
    }

    /// Membership rows suitable for disk (excludes local).
    /// Sorted by id for stable on-disk representation.
    pub fn membership_for_persist(&self) -> (r: Vec<PersistedRuntime>)
        requires
            self.wf(),
        ensures
            is_membership_of(self@, rows_view(r@)),
    {
        let ghost s = self@;
        let mut sorted: Vec<PersistedRuntime> = Vec::new();
        let mut i: usize = 0;
        while i < self.entries.len()
            invariant
                s == self@,
                registry_inv(s),
                i <= self.entries.len(),
                sorted@.len() + 1 == (if i == 0 { 1 } else { i as int }),
                sorted_by_id(rows_view(sorted@)),
                rows_cover(s, rows_view(sorted@), i as int),
            decreases self.entries.len() - i,
        {
            assert(s[i as int] == self.entries@[i as int]@);
            if !self.entries[i].id.is_local() {
                proof {
                    if i == 0 {
                        assert(s[0].id == local_id());
                    }
                }
                let row = PersistedRuntime::from_entry(&self.entries[i]);
                let ghost old_rows = rows_view(sorted@);
                let mut p: usize = 0;
                while p < sorted.len() && !str_lt(row.id.as_str(), sorted[p].id.as_str())
                    invariant
                        p <= sorted.len(),
                        old_rows == rows_view(sorted@),
                        forall|q: int| 0 <= q < p ==> !lex_lt(row@.id, #[trigger] old_rows[q].id),
                    decreases sorted.len() - p,
                {
                    assert(old_rows[p as int] == sorted@[p as int]@);
                    p += 1;
                }
                proof {
                    if p < sorted.len() {
                        assert(old_rows[p as int] == sorted@[p as int]@);
                    }
                    lemma_membership_step(s, old_rows, p as int, i as int);
                }
                let ghost rowv = row@;
                sorted.insert(p, row);
                assert(rows_view(sorted@) =~= old_rows.insert(p as int, rowv));
            } else {
                proof {
                    if i > 0 {
                        assert(member_ok(s[i as int]));
                        assert(runtime_id_error(s[i as int].id) is None);
                    }
                }
            }
            i += 1;
        }
        sorted
    }
}

} // verus!

verus! {

/// Removing a runtime undoes adding it: once `e` is accepted, looking its id
/// up finds `e`, and removing that id hands `e` back and leaves the entries
/// as they were.
pub proof fn lemma_add_then_remove(s: Seq<RuntimeEntryView>, e: RuntimeEntryView)
    requires
        registry_inv(s),
        add_error(s, e) is None,
    ensures
        registry_inv(s.push(e)),
        has_id(s.push(e), e.id),
        index_of(s.push(e), e.id) == s.len(),
        s.push(e)[index_of(s.push(e), e.id)] == e,
        remove_error(s.push(e), e.id) is None,
        s.push(e).remove(index_of(s.push(e), e.id)) == s,
{
    let t = s.push(e);
    assert(t[s.len() as int] == e);
    assert forall|j: int| 0 <= j < s.len() implies #[trigger] t[j].id != e.id by {
        assert(t[j] == s[j]);
    }
    lemma_index_of(t, e.id, s.len() as int);
    assert(t.remove(s.len() as int) =~= s);
    assert forall|i: int, j: int| 0 <= i < j < t.len() implies #[trigger] t[i].id
        != #[trigger] t[j].id by {
        if j == s.len() {
            assert(t[i] == s[i]);
        } else {
            assert(t[i] == s[i] && t[j] == s[j]);
        }
    }
    assert forall|i: int| 1 <= i < t.len() implies member_ok(#[trigger] t[i]) by {
        if i < s.len() {
            assert(t[i] == s[i]);
        }
    }
}

} // verus!

verus! {

/// Two rows lists sorted by id that hold the same rows are equal.
proof fn lemma_sorted_rows_unique(a: Seq<PersistedView>, b: Seq<PersistedView>)
    requires
        sorted_by_id(a),
        sorted_by_id(b),
        forall|x: PersistedView| a.contains(x) <==> b.contains(x),
    ensures
        a == b,
    decreases a.len(),
{
    if a.len() == 0 {
        if b.len() > 0 {
            assert(b.contains(b[0]));
        }
        assert(a =~= b);
    } else {
        assert(a.contains(a[0]));
        let j = choose|j: int| 0 <= j < b.len() && b[j] == a[0];
        assert(b.contains(b[0]));
        let i = choose|i: int| 0 <= i < a.len() && a[i] == b[0];
        if i > 0 && j > 0 {
            assert(lex_lt(a[0].id, a[i].id));
            assert(lex_lt(b[0].id, b[j].id));
            lemma_lex_lt_transitive(a[0].id, b[0].id, a[0].id);
            lemma_lex_lt_irreflexive(a[0].id);
        }
        assert(a[0] == b[0]);
        let ta = a.drop_first();
        let tb = b.drop_first();
        assert forall|x: PersistedView| ta.contains(x) <==> tb.contains(x) by {
            if ta.contains(x) {
                let k = choose|k: int| 0 <= k < ta.len() && ta[k] == x;
                assert(a[k + 1] == x);
                assert(a.contains(x));
                let q = choose|q: int| 0 <= q < b.len() && b[q] == x;
                if q == 0 {
                    assert(lex_lt(a[0].id, a[k + 1].id));
                    lemma_lex_lt_irreflexive(x.id);
                }
                assert(tb[q - 1] == x);
            }
            if tb.contains(x) {
                let k = choose|k: int| 0 <= k < tb.len() && tb[k] == x;
                assert(b[k + 1] == x);
                assert(b.contains(x));
                let q = choose|q: int| 0 <= q < a.len() && a[q] == x;
                if q == 0 {
                    assert(lex_lt(b[0].id, b[k + 1].id));
                    lemma_lex_lt_irreflexive(x.id);
                }
                assert(ta[q - 1] == x);
            }
        }
        lemma_sorted_rows_unique(ta, tb);
        assert(a =~= seq![a[0]] + ta);
        assert(b =~= seq![b[0]] + tb);
    }
}

/// The membership rows depend only on which runtimes a registry holds, not
/// on the order they were added in: registries with the same non-local
/// entries save the same rows.
pub proof fn lemma_membership_order_independent(
    s1: Seq<RuntimeEntryView>,
    s2: Seq<RuntimeEntryView>,
    m1: Seq<PersistedView>,
    m2: Seq<PersistedView>,
)
    requires
        is_membership_of(s1, m1),
        is_membership_of(s2, m2),
        forall|e: RuntimeEntryView| s1.drop_first().contains(e) <==> s2.drop_first().contains(e),
    ensures
        m1 == m2,
{
    assert forall|x: PersistedView| m1.contains(x) implies m2.contains(x) by {
        let k = choose|k: int| 0 <= k < m1.len() && m1[k] == x;
        assert(comes_from(s1, s1.len() as int, m1[k]));
        let i = choose|i: int| 1 <= i < s1.len() && m1[k] == #[trigger] persisted_of(s1[i]);
        assert(s1.drop_first()[i - 1] == s1[i]);
        assert(s1.drop_first().contains(s1[i]));
        let j = choose|j: int| 0 <= j < s2.drop_first().len() && s2.drop_first()[j] == s1[i];
        assert(s2[j + 1] == s1[i]);
        assert(m2.contains(persisted_of(s2[j + 1])));
    }
    assert forall|x: PersistedView| m2.contains(x) implies m1.contains(x) by {
        let k = choose|k: int| 0 <= k < m2.len() && m2[k] == x;
        assert(comes_from(s2, s2.len() as int, m2[k]));
        let i = choose|i: int| 1 <= i < s2.len() && m2[k] == #[trigger] persisted_of(s2[i]);
        assert(s2.drop_first()[i - 1] == s2[i]);
        assert(s2.drop_first().contains(s2[i]));
        let j = choose|j: int| 0 <= j < s1.drop_first().len() && s1.drop_first()[j] == s2[i];
        assert(s1[j + 1] == s2[i]);
        assert(m1.contains(persisted_of(s1[j + 1])));
    }
    lemma_sorted_rows_unique(m1, m2);
}

} // verus!
