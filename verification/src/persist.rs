//! Persisted hub runtime membership (not live state).

use vstd::prelude::*;
use crate::text::{clone_opt_string, opt_view};
use crate::runtime::{RuntimeEntry, RuntimeEntryView, RuntimeId, RuntimeKind, RuntimeStatus};

verus! {

/// Membership fields only. Status and connection errors are live state.
#[derive(Debug, Clone, PartialEq, Eq)]
pub struct PersistedRuntime {
    pub id: String,
    pub kind: RuntimeKind,
    pub label: String,
    pub target: Option<String>,
    pub session: Option<String>,
}

/// The mathematical content of a [`PersistedRuntime`].
pub struct PersistedView {
    pub id: Seq<char>,
    pub kind: RuntimeKind,
    pub label: Seq<char>,
    pub target: Option<Seq<char>>,
    pub session: Option<Seq<char>>,
}

impl View for PersistedRuntime {
    type V = PersistedView;

    open spec fn view(&self) -> PersistedView {
        PersistedView {
            id: self.id@,
            kind: self.kind,
            label: self.label@,
            target: opt_view(self.target),
            session: opt_view(self.session),
        }
    }
}

/// The membership row of an entry.
pub open spec fn persisted_of(e: RuntimeEntryView) -> PersistedView {
    PersistedView { id: e.id, kind: e.kind, label: e.label, target: e.target, session: e.session }
}

/// The entry a membership row stands for: offline, with no error.
pub open spec fn restored_entry(p: PersistedView) -> RuntimeEntryView {
    RuntimeEntryView {
        id: p.id,
        kind: p.kind,
        label: p.label,
        target: p.target,
        session: p.session,
        status: RuntimeStatus::Offline,
        last_error: None,
    }
}

/// What `into_entry` gives for a row.
pub open spec fn into_entry_result(p: PersistedView) -> Result<RuntimeEntryView, Seq<char>> {
    if p.kind == RuntimeKind::Local {
        Err("persisted runtime cannot be local"@)
    } else if p.id.len() == 0 {
        Err("runtime id cannot be empty"@)
    } else {
        Ok(restored_entry(p))
    }
}

impl<'a> vstd::std_specs::convert::FromSpecImpl<&'a RuntimeEntry> for PersistedRuntime {
    open spec fn obeys_from_spec() -> bool {
        true
    }

    closed spec fn from_spec(entry: &'a RuntimeEntry) -> PersistedRuntime {
        PersistedRuntime {
            id: entry.id.0,
            kind: entry.kind,
            label: entry.label,
            target: entry.target,
            session: entry.session,
        }
    }
}

impl<'a> From<&'a RuntimeEntry> for PersistedRuntime {
    fn from(entry: &'a RuntimeEntry) -> (r: Self) {
        PersistedRuntime {
            id: entry.id.0.clone(),
            kind: entry.kind,
            label: entry.label.clone(),
            target: clone_opt_string(&entry.target),
            session: clone_opt_string(&entry.session),
        }
    }
}

impl PersistedRuntime {
    /// The row of `entry`, without its live status.
    pub fn from_entry(entry: &RuntimeEntry) -> (r: Self)
        ensures
            r@ == persisted_of(entry@),
    {
        let r = PersistedRuntime::from(entry);
        proof {
            crate::runtime::lemma_runtime_id_view(entry.id);
        }
        r
    }

    /// The entry this row stands for, offline; refused for a local row or an
    /// empty id.
    pub fn into_entry(self) -> (r: Result<RuntimeEntry, String>)
        ensures
            match into_entry_result(self@) {
                Ok(v) => r matches Ok(e) && e@ == v,
                Err(msg) => r matches Err(e) && e@ == msg,
            },
    {
        if self.kind == RuntimeKind::Local {
            return Err("persisted runtime cannot be local".to_string());
        }
        let id = match RuntimeId::new(self.id) {
            Ok(id) => id,
            Err(()) => {
                return Err("runtime id cannot be empty".to_string());
            },
        };
        Ok(
            RuntimeEntry {
                id,
                kind: self.kind,
                label: self.label,
                target: self.target,
                session: self.session,
                status: RuntimeStatus::Offline,
                last_error: None,
            },
        )
    }
}

/// A membership row keeps every membership field of its entry: the row
/// made from `entry` (by `From`), restored, is `entry` with its id, kind,
/// label, target and session, offline and with no error.
pub proof fn lemma_row_restores_entry(entry: &RuntimeEntry)
    ensures
        restored_entry(persisted_of(entry@)) == (RuntimeEntryView {
            status: RuntimeStatus::Offline,
            last_error: None,
            ..entry@
        }),
        restored_entry(
            <PersistedRuntime as vstd::std_specs::convert::FromSpec<&RuntimeEntry>>::from_spec(
                entry,
            )@,
        ) == (RuntimeEntryView { status: RuntimeStatus::Offline, last_error: None, ..entry@ }),
{
    crate::runtime::lemma_runtime_id_view(entry.id);
}

} // verus!
