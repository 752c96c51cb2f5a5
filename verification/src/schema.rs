//! Request and reply shapes of the runtime API.

use vstd::prelude::*;
use crate::runtime::{RuntimeEntry, RuntimeEntryView, RuntimeKind, RuntimeStatus};
use crate::text::{clone_opt_string, opt_view};

verus! {

/// Names one runtime.
#[derive(Debug, Clone, PartialEq, Eq)]
pub struct RuntimeTarget {
    pub runtime_id: String,
}

/// Asks the hub to register a runtime.
#[derive(Debug, Clone, PartialEq, Eq)]
pub struct RuntimeAddParams {
    /// Stable runtime id (not `local`).
    pub id: String,
    pub kind: RuntimeKind,
    pub label: Option<String>,
    /// SSH host for `remote_ssh`, or Unix socket path for `socket`.
    pub target: Option<String>,
    /// Optional remote Herdr session name.
    pub session: Option<String>,
}

/// The mathematical content of [`RuntimeAddParams`].
pub struct RuntimeAddParamsView {
    pub id: Seq<char>,
    pub kind: RuntimeKind,
    pub label: Option<Seq<char>>,
    pub target: Option<Seq<char>>,
    pub session: Option<Seq<char>>,
}

impl View for RuntimeAddParams {
    type V = RuntimeAddParamsView;

    open spec fn view(&self) -> RuntimeAddParamsView {
        RuntimeAddParamsView {
            id: self.id@,
            kind: self.kind,
            label: opt_view(self.label),
            target: opt_view(self.target),
            session: opt_view(self.session),
        }
    }
}

/// A runtime as the API reports it.
#[derive(Debug, Clone, PartialEq, Eq)]
pub struct RuntimeInfo {
    pub runtime_id: String,
    pub kind: RuntimeKind,
    pub label: String,
    pub target: Option<String>,
    pub session: Option<String>,
    pub status: RuntimeStatus,
    pub last_error: Option<String>,
}

impl View for RuntimeInfo {
    type V = RuntimeEntryView;

    open spec fn view(&self) -> RuntimeEntryView {
        RuntimeEntryView {
            id: self.runtime_id@,
            kind: self.kind,
            label: self.label@,
            target: opt_view(self.target),
            session: opt_view(self.session),
            status: self.status,
            last_error: opt_view(self.last_error),
        }
    }
}

impl<'a> vstd::std_specs::convert::FromSpecImpl<&'a RuntimeEntry> for RuntimeInfo {
    open spec fn obeys_from_spec() -> bool {
        true
    }

    closed spec fn from_spec(entry: &'a RuntimeEntry) -> RuntimeInfo {
        RuntimeInfo {
            runtime_id: entry.id.0,
            kind: entry.kind,
            label: entry.label,
            target: entry.target,
            session: entry.session,
            status: entry.status,
            last_error: entry.last_error,
        }
    }
}

impl<'a> From<&'a RuntimeEntry> for RuntimeInfo {
    fn from(entry: &'a RuntimeEntry) -> (r: Self) {
        RuntimeInfo {
            runtime_id: entry.id.0.clone(),
            kind: entry.kind,
            label: entry.label.clone(),
            target: clone_opt_string(&entry.target),
            session: clone_opt_string(&entry.session),
            status: entry.status,
            last_error: clone_opt_string(&entry.last_error),
        }
    }
}

impl RuntimeInfo {
    /// The report of `entry`: every field of it.
    pub fn from_entry(entry: &RuntimeEntry) -> (r: Self)
        ensures
            r@ == entry@,
    {
        let r = RuntimeInfo::from(entry);
        proof {
            crate::runtime::lemma_runtime_id_view(entry.id);
        }
        r
    }
}

} // verus!
