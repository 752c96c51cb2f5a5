//! Runtime id validation and scoped public targets.
//!
//! Local agents keep bare targets (`pane_id` / name). Remote agents use
//! `{runtime_id}/{existing_target}`.

use vstd::prelude::*;
use vstd::utf8::encode_utf8;
use vstd::string::StrSliceExecFns;
use crate::text::{chars_of, concat_str, str_eq};
use crate::runtime::{RuntimeId, local_id, LOCAL_RUNTIME_ID};

verus! {

/// The longest runtime id accepted, in bytes.
pub const MAX_RUNTIME_ID_LEN: usize = 64;

/// The characters a runtime id may hold: ASCII letters and digits, `.`, `_`
/// and `-`.
pub open spec fn is_id_char(c: char) -> bool {
    ||| ('a' <= c && c <= 'z')
    ||| ('A' <= c && c <= 'Z')
    ||| ('0' <= c && c <= '9')
    ||| c == '.'
    ||| c == '_'
    ||| c == '-'
}

/// Decides `is_id_char`.
pub fn char_is_id_char(c: char) -> (r: bool)
    ensures
        r == is_id_char(c),
{
    ('a' <= c && c <= 'z') || ('A' <= c && c <= 'Z') || ('0' <= c && c <= '9') || c == '.' || c
        == '_' || c == '-'
}

/// Why `id` is refused as a runtime id, checked in this order; `None` when
/// it is accepted.
pub open spec fn runtime_id_error(id: Seq<char>) -> Option<Seq<char>> {
    if id.len() == 0 {
        Some("runtime id cannot be empty"@)
    } else if encode_utf8(id).len() > MAX_RUNTIME_ID_LEN {
        Some("runtime id cannot be longer than 64 bytes"@)
    } else if id == local_id() {
        Some("runtime id 'local' is reserved"@)
    } else if id == "."@ || id == ".."@ {
        Some("runtime id cannot be . or .."@)
    } else if id.contains('/') {
        Some("runtime id must not contain '/'"@)
    } else if exists|i: int| 0 <= i < id.len() && !is_id_char(#[trigger] id[i]) {
        Some("runtime id may only contain ASCII letters, numbers, '.', '_' and '-'"@)
    } else {
        None
    }
}

/// The checks of `runtime_id_error` that come after the length and the
/// reserved names.
spec fn runtime_id_error_after_names(id: Seq<char>) -> Option<Seq<char>> {
    if id.contains('/') {
        Some("runtime id must not contain '/'"@)
    } else if exists|i: int| 0 <= i < id.len() && !is_id_char(#[trigger] id[i]) {
        Some("runtime id may only contain ASCII letters, numbers, '.', '_' and '-'"@)
    } else {
        None
    }
}

/// Validate a runtime id for registry membership.
///
/// Accepts ASCII letters, numbers, `.`, `_`, and `-`. Rejects empty values,
/// path separators, and the reserved `local` id (callers that need the local
/// entry construct it via [`RuntimeId::local`]).
pub fn validate_runtime_id(id: &str) -> (r: Result<(), String>)
    ensures
        match r {
            Ok(()) => runtime_id_error(id@) is None,
            Err(e) => runtime_id_error(id@) == Some(e@),
        },
{
    if id.is_empty() {
        return Err("runtime id cannot be empty".to_string());
    }
    if id.as_bytes().len() > MAX_RUNTIME_ID_LEN {
        return Err("runtime id cannot be longer than 64 bytes".to_string());
    }
    if str_eq(id, LOCAL_RUNTIME_ID) {
        return Err("runtime id 'local' is reserved".to_string());
    }
    if str_eq(id, ".") || str_eq(id, "..") {
        return Err("runtime id cannot be . or ..".to_string());
    }
    let v = chars_of(id);
    assert(runtime_id_error(id@) == runtime_id_error_after_names(id@));
    let mut i: usize = 0;
    while i < v.len()
        invariant
            v@ == id@,
            runtime_id_error(id@) == runtime_id_error_after_names(id@),
            i <= v.len(),
            forall|j: int| 0 <= j < i ==> v@[j] != '/',
        decreases v.len() - i,
    {
        if v[i] == '/' {
            assert(id@.contains('/')) by {
                assert(id@[i as int] == '/');
            }
            return Err("runtime id must not contain '/'".to_string());
        }
        i += 1;
    }
    assert(!id@.contains('/'));
    let mut k: usize = 0;
    while k < v.len()
        invariant
            v@ == id@,
            runtime_id_error(id@) == runtime_id_error_after_names(id@),
            !id@.contains('/'),
            k <= v.len(),
            forall|j: int| 0 <= j < k ==> is_id_char(#[trigger] v@[j]),
        decreases v.len() - k,
    {
        if !char_is_id_char(v[k]) {
            assert(!is_id_char(id@[k as int]));
            return Err(
                "runtime id may only contain ASCII letters, numbers, '.', '_' and '-'".to_string(),
            );
        }
        k += 1;
    }
    Ok(())
}

/// Exactly the id `local` is reserved: an id is accepted if and only if it
/// is non-empty, at most 64 characters long, made only of ASCII letters,
/// digits, `.`, `_` and `-`, and none of `local`, `.` and `..`.
pub proof fn lemma_accepted_ids(id: Seq<char>)
    ensures
        runtime_id_error(id) is None <==> {
            &&& 0 < id.len() <= MAX_RUNTIME_ID_LEN
            &&& forall|i: int| 0 <= i < id.len() ==> is_id_char(#[trigger] id[i])
            &&& id != local_id()
            &&& id != "."@
            &&& id != ".."@
        },
{
    if forall|i: int| 0 <= i < id.len() ==> is_id_char(#[trigger] id[i]) {
        assert(vstd::utf8::is_ascii_chars(id)) by {
            assert forall|i: int| 0 <= i < id.len() implies '\0' <= #[trigger] id[i] <= '\u{7f}' by {
                assert(is_id_char(id[i]));
            }
        }
        vstd::utf8::is_ascii_chars_encode_utf8(id);
        assert(!id.contains('/')) by {
            if id.contains('/') {
                let k = choose|k: int| 0 <= k < id.len() && id[k] == '/';
                assert(is_id_char(id[k]));
            }
        }
    }
}

/// Parse and validate a non-local runtime id.
pub fn parse_runtime_id(id: &str) -> (r: Result<RuntimeId, String>)
    ensures
        match runtime_id_error(id@) {
            None => r matches Ok(x) && x@ == id@,
            Some(msg) => r matches Err(e) && e@ == msg,
        },
{
    match validate_runtime_id(id) {
        Ok(()) => {},
        Err(e) => {
            return Err(e);
        },
    }
    match RuntimeId::new(id.to_string()) {
        Ok(x) => Ok(x),
        Err(()) => Err("runtime id cannot be empty".to_string()),
    }
}

/// The public target of `target` on the runtime `id`: bare on the local
/// runtime, `{id}/{target}` elsewhere.
pub open spec fn scoped_target(id: Seq<char>, target: Seq<char>) -> Seq<char> {
    if id == local_id() {
        target
    } else {
        id + "/"@ + target
    }
}

/// Scope a public target for a runtime.
///
/// Local targets stay bare for backward compatibility. Non-local targets are
/// prefixed with `{runtime_id}/`.
pub fn scope_target(runtime_id: &RuntimeId, target: &str) -> (r: String)
    ensures
        r@ == scoped_target(runtime_id@, target@),
{
    if runtime_id.is_local() {
        target.to_string()
    } else {
        let mut s = concat_str(runtime_id.as_str(), "/");
        s.append(target);
        s
    }
}

/// `p` is the position of the first `/` in `s`.
pub open spec fn is_first_slash(s: Seq<char>, p: int) -> bool {
    &&& 0 <= p < s.len()
    &&& s[p] == '/'
    &&& forall|j: int| 0 <= j < p ==> #[trigger] s[j] != '/'
}

/// The position of the first `/` in `s`.
pub open spec fn first_slash(s: Seq<char>) -> int {
    choose|p: int| is_first_slash(s, p)
}

/// A scoped target split into its runtime id and its local target: with no
/// `/` it is local; otherwise it splits at the first `/`, and both halves
/// must be non-empty.
pub open spec fn unscoped(s: Seq<char>) -> Option<(Seq<char>, Seq<char>)> {
    if !s.contains('/') {
        Some((local_id(), s))
    } else {
        let p = first_slash(s);
        let prefix = s.subrange(0, p);
        let rest = s.subrange(p + 1, s.len() as int);
        if prefix.len() == 0 || rest.len() == 0 {
            None
        } else {
            Some((prefix, rest))
        }
    }
}

proof fn lemma_first_slash(s: Seq<char>, p: int)
    requires
        is_first_slash(s, p),
    ensures
        first_slash(s) == p,
{
    let q = first_slash(s);
    assert(is_first_slash(s, q));
    if q < p {
        assert(s[q] != '/');
    } else if p < q {
        assert(s[p] != '/');
    }
}

/// Split a possibly scoped public target into `(runtime_id, local_target)`.
///
/// When there is no `/`, the target is treated as local. When the first
/// segment is `local`, it is also treated as local (the prefix is stripped).
///
/// Returns `None` when a remote-style prefix is empty or the local half is empty.
pub fn unscope_target(scoped: &str) -> (r: Option<(RuntimeId, &str)>)
    ensures
        r is Some <==> unscoped(scoped@) is Some,
        r matches Some((id, t)) ==> unscoped(scoped@) == Some((id@, t@)),
{
    let v = chars_of(scoped);
    let mut p: usize = 0;
    while p < v.len() && v[p] != '/'
        invariant
            v@ == scoped@,
            p <= v.len(),
            forall|j: int| 0 <= j < p ==> #[trigger] scoped@[j] != '/',
        decreases v.len() - p,
    {
        p += 1;
    }
    if p == v.len() {
        assert(!scoped@.contains('/'));
        return Some((RuntimeId::local(), scoped));
    }
    proof {
        lemma_first_slash(scoped@, p as int);
    }
    let n = v.len();
    let prefix = scoped.substring_char(0, p);
    let rest = scoped.substring_char(p + 1, n);
    if p == 0 || p + 1 == n {
        return None;
    }
    if str_eq(prefix, LOCAL_RUNTIME_ID) {
        return Some((RuntimeId::local(), rest));
    }
    match RuntimeId::new(prefix.to_string()) {
        Ok(runtime_id) => Some((runtime_id, rest)),
        Err(()) => None,
    }
}

/// The spec of `is_scoped_remote_target`.
pub open spec fn scoped_remote(s: Seq<char>) -> bool {
    match unscoped(s) {
        Some((id, _)) => id != local_id(),
        None => false,
    }
}

/// Whether `scoped` uses a non-local runtime prefix.
pub fn is_scoped_remote_target(scoped: &str) -> (r: bool)
    ensures
        r == scoped_remote(scoped@),
{
    match unscope_target(scoped) {
        Some((runtime_id, _)) => !runtime_id.is_local(),
        None => false,
    }
}

/// Unscoping undoes scoping: a valid remote id with a non-empty target, or
/// the local id with a target free of `/`, comes back unchanged, and the
/// result counts as remote exactly when the id is not local.
pub proof fn lemma_unscope_scope(id: Seq<char>, target: Seq<char>)
    requires
        (id == local_id() && !target.contains('/')) || (runtime_id_error(id) is None
            && target.len() > 0),
    ensures
        unscoped(scoped_target(id, target)) == Some((id, target)),
        scoped_remote(scoped_target(id, target)) == (id != local_id()),
{
    if id != local_id() {
        reveal_strlit("/");
        let s = id + "/"@ + target;
        assert(s[id.len() as int] == '/');
        assert forall|j: int| 0 <= j < id.len() implies #[trigger] s[j] != '/' by {
            assert(s[j] == id[j]);
        }
        lemma_first_slash(s, id.len() as int);
        assert(s.contains('/'));
        assert(s.subrange(0, id.len() as int) =~= id);
        assert(s.subrange(id.len() + 1int, s.len() as int) =~= target);
    }
}

} // verus!
