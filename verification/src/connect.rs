//! Decisions of the hub's connections to socket and SSH runtimes: what to
//! connect to, how to name and quote things for the bridge, and the status
//! that each outcome records.

use vstd::prelude::*;
use vstd::string::StrSliceExecFns;
use crate::ids::{is_id_char, char_is_id_char, runtime_id_error};
use crate::runtime::{RuntimeEntry, RuntimeEntryView, RuntimeKind, RuntimeStatus, local_id, registry_inv, member_ok};
use crate::cache::{value_for, without_key};
use crate::text::{
    lemma_trimmed_empty_iff_blank, chars_of, concat_str, is_blank, opt_view, push_char, str_eq,
    str_is_blank, str_trim, strings_view, trimmed,
};

verus! {

/// Map a successful connect onto registry status fields.
pub fn connected_status() -> (r: (RuntimeStatus, Option<String>))
    ensures
        r.0 == RuntimeStatus::Connected,
        r.1 is None,
{
    (RuntimeStatus::Connected, None)
}

/// Map a failed connect onto registry status fields.
pub fn offline_status(error: String) -> (r: (RuntimeStatus, Option<String>))
    ensures
        r.0 == RuntimeStatus::Offline,
        r.1 == Some(error),
{
    (RuntimeStatus::Offline, Some(error))
}

/// Map a failed refresh of a connected runtime onto registry status fields.
pub fn degraded_status(error: String) -> (r: (RuntimeStatus, Option<String>))
    ensures
        r.0 == RuntimeStatus::Degraded,
        r.1 == Some(error),
{
    (RuntimeStatus::Degraded, Some(error))
}

/// `s` with every character outside ASCII letters, digits, `-`, `_` and
/// `.` replaced by `_`.
pub open spec fn sanitized(s: Seq<char>) -> Seq<char> {
    s.map_values(|c: char| if is_id_char(c) { c } else { '_' })
}

/// A runtime id made safe for a file name.
pub fn sanitize_id(id: &str) -> (r: String)
    ensures
        r@ == sanitized(id@),
{
    let v = chars_of(id);
    let mut out = String::new();
    let mut i: usize = 0;
    while i < v.len()
        invariant
            v@ == id@,
            i <= v.len(),
            out@ == sanitized(id@.take(i as int)),
        decreases v.len() - i,
    {
        let c = v[i];
        if char_is_id_char(c) {
            push_char(&mut out, c);
        } else {
            push_char(&mut out, '_');
        }
        assert(sanitized(id@.take(i + 1)) =~= sanitized(id@.take(i as int)).push(
            if is_id_char(c) { c } else { '_' },
        ));
        i += 1;
    }
    assert(id@.take(v.len() as int) =~= id@);
    out
}

/// Sanitizing changes nothing more the second time.
pub proof fn lemma_sanitize_idempotent(s: Seq<char>)
    ensures
        sanitized(sanitized(s)) == sanitized(s),
{
    assert(sanitized(sanitized(s)) =~= sanitized(s));
}

/// A valid runtime id is already safe for a file name.
pub proof fn lemma_sanitize_valid_id(id: Seq<char>)
    requires
        runtime_id_error(id) is None,
    ensures
        sanitized(id) == id,
{
    assert forall|i: int| 0 <= i < id.len() implies is_id_char(#[trigger] id[i]) by {}
    assert(sanitized(id) =~= id);
}

/// The characters that may stand unquoted in a shell word.
pub open spec fn is_shell_safe_char(c: char) -> bool {
    ||| ('a' <= c && c <= 'z')
    ||| ('A' <= c && c <= 'Z')
    ||| ('0' <= c && c <= '9')
    ||| c == '@' || c == '%' || c == '_' || c == '+' || c == '=' || c == ':'
    ||| c == ',' || c == '.' || c == '/' || c == '-'
}

fn char_is_shell_safe(c: char) -> (r: bool)
    ensures
        r == is_shell_safe_char(c),
{
    ('a' <= c && c <= 'z') || ('A' <= c && c <= 'Z') || ('0' <= c && c <= '9') || c == '@' || c
        == '%' || c == '_' || c == '+' || c == '=' || c == ':' || c == ',' || c == '.' || c == '/'
        || c == '-'
}

/// A non-empty word of safe characters needs no quoting.
pub open spec fn shell_safe(s: Seq<char>) -> bool {
    s.len() > 0 && forall|i: int| 0 <= i < s.len() ==> is_shell_safe_char(#[trigger] s[i])
}

/// `s` with each single quote written as `'\''`.
pub open spec fn escape_quotes(s: Seq<char>) -> Seq<char>
    decreases s.len(),
{
    if s.len() == 0 {
        Seq::empty()
    } else {
        escape_quotes(s.drop_last()) + if s.last() == '\'' {
            "'\\''"@
        } else {
            seq![s.last()]
        }
    }
}

/// `s` as one shell word: unchanged when safe, else in single quotes.
pub open spec fn shell_quoted(s: Seq<char>) -> Seq<char> {
    if shell_safe(s) {
        s
    } else {
        "'"@ + escape_quotes(s) + "'"@
    }
}

/// Quote `value` as one word for a POSIX shell.
pub fn shell_quote(value: &str) -> (r: String)
    ensures
        r@ == shell_quoted(value@),
{
    let v = chars_of(value);
    let mut safe = v.len() > 0;
    let mut k: usize = 0;
    while k < v.len()
        invariant
            v@ == value@,
            k <= v.len(),
            safe == (v.len() > 0 && forall|j: int| 0 <= j < k ==> is_shell_safe_char(
                #[trigger] value@[j],
            )),
        decreases v.len() - k,
    {
        if !char_is_shell_safe(v[k]) {
            safe = false;
        }
        k += 1;
    }
    if safe {
        return value.to_string();
    }
    let mut out = "'".to_string();
    let mut i: usize = 0;
    assert(value@.take(0) =~= Seq::<char>::empty());
    while i < v.len()
        invariant
            v@ == value@,
            i <= v.len(),
            out@ == "'"@ + escape_quotes(value@.take(i as int)),
        decreases v.len() - i,
    {
        let c = v[i];
        if c == '\'' {
            out.append("'\\''");
        } else {
            push_char(&mut out, c);
        }
        assert(value@.take(i + 1).drop_last() =~= value@.take(i as int));
        assert(value@.take(i + 1).last() == c);
        assert(out@ =~= "'"@ + escape_quotes(value@.take(i + 1)));
        i += 1;
    }
    assert(value@.take(v.len() as int) =~= value@);
    out.append("'");
    out
}

/// The command that runs the API bridge on the remote host, naming the
/// session unless it is the default one.
pub open spec fn bridge_command(session: Option<Seq<char>>, default_session: Seq<char>) -> Seq<
    char,
> {
    let middle = match session {
        Some(s) => if s != default_session {
            " --session "@ + shell_quoted(s)
        } else {
            Seq::empty()
        },
        None => Seq::empty(),
    };
    "exec herdr"@ + middle + " remote-api-bridge"@
}

/// Build the remote `herdr remote-api-bridge` invocation for `session`;
/// `default_session` is the name Herdr uses when none is given.
pub fn remote_api_bridge_command(session: Option<&str>, default_session: &str) -> (r: String)
    ensures
        r@ == bridge_command(
            match session {
                Some(s) => Some(s@),
                None => None,
            },
            default_session@,
        ),
{
    let mut command = "exec herdr".to_string();
    if let Some(session) = session {
        if !str_eq(session, default_session) {
            command.append(" --session ");
            let quoted = shell_quote(session);
            command.append(quoted.as_str());
        }
    }
    command.append(" remote-api-bridge");
    command
}

/// What the hub connects to for a runtime.
#[derive(Debug, Clone, PartialEq, Eq)]
pub enum ConnectionPlan {
    /// The API socket of another session on this machine.
    Socket { path: String },
    /// A remote host reached through an SSH bridge, and the session named there.
    RemoteSsh { host: String, session: Option<String> },
}

/// A target with its surrounding whitespace removed, when anything is left.
pub open spec fn usable_target(target: Option<Seq<char>>) -> Option<Seq<char>> {
    match target {
        Some(t) => if trimmed(t).len() > 0 {
            Some(trimmed(t))
        } else {
            None
        },
        None => None,
    }
}

/// Why the hub cannot connect to `e`; `None` when it can.
pub open spec fn connect_error(e: crate::runtime::RuntimeEntryView) -> Option<Seq<char>> {
    if e.kind == RuntimeKind::Local || e.id == local_id() {
        Some("local runtime is always connected"@)
    } else if usable_target(e.target) is None {
        if e.kind == RuntimeKind::Socket {
            Some("socket runtime requires a target path"@)
        } else {
            Some("remote_ssh runtime requires an SSH host target"@)
        }
    } else {
        None
    }
}

/// `p` is what to connect to for `e`: its trimmed socket path, or its
/// trimmed SSH host and its session when that is not blank.
pub open spec fn plan_for(e: RuntimeEntryView, p: ConnectionPlan) -> bool {
    match p {
        ConnectionPlan::Socket { path } => e.kind == RuntimeKind::Socket && Some(path@)
            == usable_target(e.target),
        ConnectionPlan::RemoteSsh { host, session } => e.kind == RuntimeKind::RemoteSsh && Some(
            host@,
        ) == usable_target(e.target) && opt_view(session) == (match e.session {
            Some(x) => if is_blank(x) {
                None
            } else {
                Some(x)
            },
            None => None,
        }),
    }
}

/// `r` is the outcome of planning a connection to `e`: the refusal
/// [`connect_error`] names, else the plan for `e`.
pub open spec fn planned(e: RuntimeEntryView, r: Result<ConnectionPlan, String>) -> bool {
    match connect_error(e) {
        Some(msg) => r matches Err(x) && x@ == msg,
        None => r matches Ok(p) && plan_for(e, p),
    }
}

fn usable_target_of(target: &Option<String>) -> (r: Option<String>)
    ensures
        opt_view(r) == usable_target(opt_view(*target)),
{
    match target {
        Some(t) => {
            let t = str_trim(t.as_str());
            if t.is_empty() {
                None
            } else {
                Some(t.to_string())
            }
        },
        None => None,
    }
}

/// What to connect to for a registered runtime: the trimmed socket path, or
/// the trimmed SSH host and the session when it is not blank. The local
/// runtime and a runtime without a usable target are refused.
pub fn plan_connection(entry: &RuntimeEntry) -> (r: Result<ConnectionPlan, String>)
    ensures
        planned(entry@, r),
{
    if entry.kind == RuntimeKind::Local || entry.id.is_local() {
        return Err("local runtime is always connected".to_string());
    }
    let target = usable_target_of(&entry.target);
    match entry.kind {
        RuntimeKind::Local => Err("local runtime is always connected".to_string()),
        RuntimeKind::Socket => match target {
            Some(path) => Ok(ConnectionPlan::Socket { path }),
            None => Err("socket runtime requires a target path".to_string()),
        },
        RuntimeKind::RemoteSsh => match target {
            Some(host) => {
                let session = match &entry.session {
                    Some(s) => if str_is_blank(s.as_str()) {
                        None
                    } else {
                        Some(s.clone())
                    },
                    None => None,
                };
                Ok(ConnectionPlan::RemoteSsh { host, session })
            },
            None => Err("remote_ssh runtime requires an SSH host target".to_string()),
        },
    }
}

/// Every runtime a registry holds besides the hub itself has what a
/// connection needs: the registry refuses blank targets, and a target that is
/// not blank keeps something after trimming.
pub proof fn lemma_members_can_connect(s: Seq<RuntimeEntryView>, i: int)
    requires
        registry_inv(s),
        1 <= i < s.len(),
    ensures
        connect_error(s[i]) is None,
{
    assert(member_ok(s[i]));
    if let Some(t) = s[i].target {
        lemma_trimmed_empty_iff_blank(t);
    }
}

} // verus!

verus! {

/// The request id of the ping that checks a new connection to `runtime_id`.
pub fn ping_request_id(runtime_id: &str) -> (r: String)
    ensures
        r@ == "runtime:"@ + runtime_id@ + ":ping"@,
{
    let mut r = concat_str("runtime:", runtime_id);
    r.append(":ping");
    r
}

/// The error of a connection that was opened but did not answer its ping.
pub open spec fn ping_failed_msg(err: Seq<char>) -> Seq<char> {
    "connected but ping failed: "@ + err
}

/// The hub's live connections, by runtime id. Its view lists (runtime id,
/// connection) rows; a runtime has at most the row stored last for it.
pub struct RuntimeConnections<C> {
    connections: Vec<(String, C)>,
}

impl<C> View for RuntimeConnections<C> {
    type V = Seq<(Seq<char>, C)>;

    closed spec fn view(&self) -> Seq<(Seq<char>, C)> {
        self.connections@.map_values(|p: (String, C)| (p.0@, p.1))
    }
}

impl<C> Default for RuntimeConnections<C> {
    fn default() -> (r: Self)
        ensures
            r@ == Seq::<(Seq<char>, C)>::empty(),
    {
        Self::new()
    }
}

impl<C> RuntimeConnections<C> {
    /// No connections.
    pub fn new() -> (r: Self)
        ensures
            r@ == Seq::<(Seq<char>, C)>::empty(),
    {
        let r = RuntimeConnections { connections: Vec::new() };
        assert(r@ =~= Seq::<(Seq<char>, C)>::empty());
        r
    }

    /// The live connection to `runtime_id`, if any.
    pub fn get(&self, runtime_id: &str) -> (r: Option<&C>)
        ensures
            match value_for(self@, runtime_id@) {
                Some(c) => r matches Some(x) && *x == c,
                None => r is None,
            },
    {
        let ghost s = self@;
        let mut i: usize = self.connections.len();
        assert(s.take(i as int) =~= s);
        while i > 0
            invariant
                i <= self.connections@.len(),
                s == self@,
                value_for(s, runtime_id@) == value_for(s.take(i as int), runtime_id@),
            decreases i,
        {
            assert(s.take(i as int).last() == (
                self.connections@[i - 1].0@,
                self.connections@[i - 1].1,
            ));
            if str_eq(self.connections[i - 1].0.as_str(), runtime_id) {
                return Some(&self.connections[i - 1].1);
            }
            assert(s.take(i as int).drop_last() =~= s.take(i - 1));
            i -= 1;
        }
        None
    }

    /// Whether `runtime_id` has a live connection.
    pub fn is_connected(&self, runtime_id: &str) -> (r: bool)
        ensures
            r == (value_for(self@, runtime_id@) is Some),
    {
        self.get(runtime_id).is_some()
    }

    /// Drop the connection to `runtime_id`; whether there was one.
    pub fn disconnect(&mut self, runtime_id: &str) -> (r: bool)
        ensures
            final(self)@ == without_key(old(self)@, runtime_id@),
            r == (value_for(old(self)@, runtime_id@) is Some),
    {
        let ghost s = self@;
        let mut old_rows = Vec::new();
        std::mem::swap(&mut old_rows, &mut self.connections);
        let ghost all = old_rows@;
        assert(all.len() == old_rows.len());
        assert(s =~= all.map_values(|p: (String, C)| (p.0@, p.1)));
        let mut kept: Vec<(String, C)> = Vec::new();
        let mut found = false;
        let mut i: usize = 0;
        assert(s.take(0) =~= Seq::<(Seq<char>, C)>::empty());
        while old_rows.len() > 0
            invariant
                i + old_rows@.len() == all.len(),
                all.len() <= usize::MAX,
                old_rows@ == all.skip(i as int),
                s == all.map_values(|p: (String, C)| (p.0@, p.1)),
                kept@.map_values(|p: (String, C)| (p.0@, p.1)) == without_key(
                    s.take(i as int),
                    runtime_id@,
                ),
                found == (value_for(s.take(i as int), runtime_id@) is Some),
            decreases old_rows.len(),
        {
            let row = old_rows.remove(0);
            assert(row == all[i as int]);
            let ghost rv = (row.0@, row.1);
            assert(s.take(i + 1).drop_last() =~= s.take(i as int));
            assert(s.take(i + 1).last() == rv);
            if str_eq(row.0.as_str(), runtime_id) {
                found = true;
            } else {
                kept.push(row);
                assert(kept@.map_values(|p: (String, C)| (p.0@, p.1)) =~= without_key(
                    s.take(i as int),
                    runtime_id@,
                ).push(rv));
            }
            i += 1;
            assert(old_rows@ =~= all.skip(i as int));
        }
        assert(s.take(i as int) =~= s);
        self.connections = kept;
        found
    }

    /// The ids with a live connection, in the order they were stored.
    pub fn connected_ids(&self) -> (r: Vec<String>)
        ensures
            strings_view(r@) == self@.map_values(|p: (Seq<char>, C)| p.0),
    {
        let ghost keys = self@.map_values(|p: (Seq<char>, C)| p.0);
        let mut ids: Vec<String> = Vec::new();
        let mut i: usize = 0;
        while i < self.connections.len()
            invariant
                i <= self.connections@.len(),
                keys == self@.map_values(|p: (Seq<char>, C)| p.0),
                keys.len() == self.connections@.len(),
                strings_view(ids@) == keys.take(i as int),
            decreases self.connections.len() - i,
        {
            let ghost before = ids@;
            assert(keys[i as int] == self.connections@[i as int].0@);
            ids.push(self.connections[i].0.clone());
            assert(strings_view(ids@) =~= strings_view(before).push(keys[i as int]));
            assert(keys.take(i + 1) =~= keys.take(i as int).push(keys[i as int]));
            i += 1;
        }
        assert(keys.take(i as int) =~= keys);
        ids
    }

    /// Connecting to `entry`, first step: refuse the local runtime, drop any
    /// live connection to the runtime, and say what to connect to. The
    /// caller opens the connection and pings it, then calls
    /// [`RuntimeConnections::finish_connect`].
    pub fn begin_connect(&mut self, entry: &RuntimeEntry) -> (r: Result<ConnectionPlan, String>)
        ensures
            if entry@.kind == RuntimeKind::Local || entry@.id == local_id() {
                &&& r matches Err(e) && e@ == "local runtime is always connected"@
                &&& final(self)@ == old(self)@
            } else {
                &&& final(self)@ == without_key(old(self)@, entry@.id)
                &&& planned(entry@, r)
            },
    {
        if entry.kind == RuntimeKind::Local || entry.id.is_local() {
            return Err("local runtime is always connected".to_string());
        }
        let _ = self.disconnect(entry.id.as_str());
        plan_connection(entry)
    }

    /// Connecting, last step: keep `connection` as the live connection to
    /// `runtime_id` when `ping` went through; otherwise drop it and say why.
    pub fn finish_connect(&mut self, runtime_id: String, connection: C, ping: Result<(), String>) -> (r:
        Result<(), String>)
        ensures
            match ping {
                Ok(()) => r is Ok && final(self)@ == without_key(old(self)@, runtime_id@).push(
                    (runtime_id@, connection),
                ),
                Err(e) => r matches Err(m) && m@ == ping_failed_msg(e@) && final(self)@ == old(
                    self,
                )@,
            },
    {
        match ping {
            Err(e) => Err(concat_str("connected but ping failed: ", e.as_str())),
            Ok(()) => {
                let ghost c = connection;
                self.disconnect(runtime_id.as_str());
                let ghost before = self@;
                let ghost k = runtime_id@;
                self.connections.push((runtime_id, connection));
                assert(self@ =~= before.push((k, c)));
                Ok(())
            },
        }
    }
}

} // verus!
