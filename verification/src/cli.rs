//! The `herdr runtime` command line: which command the arguments ask for, or
//! why they are refused.

use vstd::prelude::*;
use crate::runtime::RuntimeKind;
use crate::schema::{RuntimeAddParams, RuntimeAddParamsView};
use crate::text::{concat_str, opt_view, str_eq};

verus! {

/// What `herdr runtime ...` asks for.
#[derive(Debug, Clone, PartialEq, Eq)]
pub enum RuntimeCommand {
    List,
    Get { runtime_id: String },
    Add(RuntimeAddParams),
    Remove { runtime_id: String },
    /// Print the help and succeed.
    Help,
}

/// Why the arguments are refused; both end with exit status 2.
#[derive(Debug, Clone, PartialEq, Eq)]
pub enum CommandError {
    /// Print the help.
    Help,
    /// Print this line.
    Usage(String),
}

/// The usage line of `runtime add`.
pub open spec fn add_usage() -> Seq<char> {
    "usage: herdr runtime add <id> (--ssh HOST | --socket PATH) [--session NAME] [--label TEXT]"@
}

/// The options of `runtime add` read so far.
pub struct AddOptions {
    pub kind: Option<RuntimeKind>,
    pub target: Option<Seq<char>>,
    pub session: Option<Seq<char>>,
    pub label: Option<Seq<char>>,
}

/// No options read yet.
pub open spec fn no_options() -> AddOptions {
    AddOptions { kind: None, target: None, session: None, label: None }
}

/// Reading the options `a[i..]` of `runtime add` from the state `st`.
pub open spec fn add_options(a: Seq<Seq<char>>, i: int, st: AddOptions) -> Result<
    AddOptions,
    Seq<char>,
>
    decreases a.len() - i,
{
    if i < 0 || i >= a.len() {
        Ok(st)
    } else if a[i] == "--ssh"@ {
        if i + 1 >= a.len() {
            Err("missing value for --ssh"@)
        } else if st.kind is Some {
            Err("specify only one of --ssh or --socket"@)
        } else {
            add_options(
                a,
                i + 2,
                AddOptions { kind: Some(RuntimeKind::RemoteSsh), target: Some(a[i + 1]), ..st },
            )
        }
    } else if a[i] == "--socket"@ {
        if i + 1 >= a.len() {
            Err("missing value for --socket"@)
        } else if st.kind is Some {
            Err("specify only one of --ssh or --socket"@)
        } else {
            add_options(
                a,
                i + 2,
                AddOptions { kind: Some(RuntimeKind::Socket), target: Some(a[i + 1]), ..st },
            )
        }
    } else if a[i] == "--session"@ {
        if i + 1 >= a.len() {
            Err("missing value for --session"@)
        } else {
            add_options(a, i + 2, AddOptions { session: Some(a[i + 1]), ..st })
        }
    } else if a[i] == "--label"@ {
        if i + 1 >= a.len() {
            Err("missing value for --label"@)
        } else {
            add_options(a, i + 2, AddOptions { label: Some(a[i + 1]), ..st })
        }
    } else {
        Err("unknown option: "@ + a[i])
    }
}

/// The arguments of `runtime add` (after `add`) read as a request.
pub open spec fn add_command(a: Seq<Seq<char>>) -> Result<RuntimeAddParamsView, Seq<char>> {
    if a.len() == 0 {
        Err(add_usage())
    } else {
        match add_options(a, 1, no_options()) {
            Err(e) => Err(e),
            Ok(st) => match st.kind {
                None => Err(add_usage()),
                Some(kind) => if kind == RuntimeKind::Socket && st.session is Some {
                    Err("--session is only valid with --ssh"@)
                } else {
                    Ok(
                        RuntimeAddParamsView {
                            id: a[0],
                            kind,
                            label: st.label,
                            target: st.target,
                            session: st.session,
                        },
                    )
                },
            },
        }
    }
}

/// The value given last to the option `name` among the option and value
/// pairs `a[i]`, `a[i + 1]`, `a[i + 2]`, ...; `acc` when none is.
pub open spec fn last_value_of(
    a: Seq<Seq<char>>,
    i: int,
    name: Seq<char>,
    acc: Option<Seq<char>>,
) -> Option<Seq<char>>
    decreases a.len() - i,
{
    if i < 0 || i + 1 >= a.len() {
        acc
    } else {
        last_value_of(
            a,
            i + 2,
            name,
            if a[i] == name {
                Some(a[i + 1])
            } else {
                acc
            },
        )
    }
}

/// Reading options that succeed takes each option's value as given: the
/// label, session and target read are those of the last `--label`,
/// `--session`, and `--ssh` or `--socket`.
proof fn lemma_options_as_given(a: Seq<Seq<char>>, i: int, st: AddOptions)
    requires
        i >= 0,
        add_options(a, i, st) is Ok,
    ensures
        ({
            let r = add_options(a, i, st)->Ok_0;
            &&& r.label == last_value_of(a, i, "--label"@, st.label)
            &&& r.session == last_value_of(a, i, "--session"@, st.session)
            &&& r.kind == Some(RuntimeKind::RemoteSsh) && st.kind is None ==> r.target
                == last_value_of(a, i, "--ssh"@, st.target)
            &&& r.kind == Some(RuntimeKind::Socket) && st.kind is None ==> r.target
                == last_value_of(a, i, "--socket"@, st.target)
            &&& st.kind != Some(RuntimeKind::Local) ==> r.kind != Some(RuntimeKind::Local)
        }),
    decreases a.len() - i,
{
    reveal_strlit("--ssh");
    reveal_strlit("--socket");
    reveal_strlit("--session");
    reveal_strlit("--label");
    assert("--ssh"@.len() == 5 && "--socket"@.len() == 8);
    assert("--session"@.len() == 9 && "--label"@.len() == 7);
    if i < a.len() {
        assert(i + 1 < a.len());
        if a[i] == "--ssh"@ {
            let st2 = AddOptions { kind: Some(RuntimeKind::RemoteSsh), target: Some(a[i + 1]), ..st };
            lemma_options_as_given(a, i + 2, st2);
            lemma_options_keep_kind(a, i + 2, st2, Some(a[i + 1]));
        } else if a[i] == "--socket"@ {
            let st2 = AddOptions { kind: Some(RuntimeKind::Socket), target: Some(a[i + 1]), ..st };
            lemma_options_as_given(a, i + 2, st2);
            lemma_options_keep_kind(a, i + 2, st2, Some(a[i + 1]));
        } else if a[i] == "--session"@ {
            lemma_options_as_given(a, i + 2, AddOptions { session: Some(a[i + 1]), ..st });
        } else {
            lemma_options_as_given(a, i + 2, AddOptions { label: Some(a[i + 1]), ..st });
        }
    }
}

/// A kind, once read, stays, with its target: no later `--ssh` or
/// `--socket` can follow.
proof fn lemma_options_keep_kind(a: Seq<Seq<char>>, i: int, st: AddOptions, x: Option<Seq<char>>)
    requires
        i >= 0,
        add_options(a, i, st) is Ok,
        st.kind is Some,
    ensures
        add_options(a, i, st)->Ok_0.kind == st.kind,
        add_options(a, i, st)->Ok_0.target == st.target,
        last_value_of(a, i, "--ssh"@, x) == x,
        last_value_of(a, i, "--socket"@, x) == x,
    decreases a.len() - i,
{
    reveal_strlit("--ssh");
    reveal_strlit("--socket");
    reveal_strlit("--session");
    reveal_strlit("--label");
    if i < a.len() {
        if a[i] == "--session"@ {
            lemma_options_keep_kind(a, i + 2, AddOptions { session: Some(a[i + 1]), ..st }, x);
        } else if a[i] == "--label"@ {
            lemma_options_keep_kind(a, i + 2, AddOptions { label: Some(a[i + 1]), ..st }, x);
        }
    }
}

/// A `runtime add` command line that parses gives the request as written,
/// whatever its kind: the id is the first argument, the label is the value
/// of the last `--label` (none without one), the session that of the last
/// `--session`, and the target that of `--ssh` or `--socket`, which also
/// sets the kind.
pub proof fn lemma_add_command_as_given(a: Seq<Seq<char>>)
    requires
        add_command(a) is Ok,
    ensures
        ({
            let p = add_command(a)->Ok_0;
            &&& p.id == a[0]
            &&& p.label == last_value_of(a, 1, "--label"@, None)
            &&& p.session == last_value_of(a, 1, "--session"@, None)
            &&& p.kind == RuntimeKind::RemoteSsh ==> p.target == last_value_of(
                a,
                1,
                "--ssh"@,
                None,
            )
            &&& p.kind == RuntimeKind::Socket ==> p.target == last_value_of(
                a,
                1,
                "--socket"@,
                None,
            )
            &&& p.kind != RuntimeKind::Local
        }),
{
    lemma_options_as_given(a, 1, no_options());
}

/// The views of command line arguments.
pub open spec fn args_view(args: Seq<String>) -> Seq<Seq<char>> {
    args.map_values(|s: String| s@)
}

/// Read the arguments of `runtime add` from `args[start..]`.
fn parse_add(args: &[String], start: usize) -> (r: Result<RuntimeAddParams, String>)
    requires
        start <= args@.len(),
    ensures
        match add_command(args_view(args@).skip(start as int)) {
            Ok(p) => r matches Ok(x) && x@ == p,
            Err(msg) => r matches Err(e) && e@ == msg,
        },
{
    let ghost a = args_view(args@).skip(start as int);
    if start >= args.len() {
        return Err(
            "usage: herdr runtime add <id> (--ssh HOST | --socket PATH) [--session NAME] [--label TEXT]".to_string(),
        );
    }
    let id = args[start].clone();
    assert(a[0] == args@[start as int]@);
    let mut kind: Option<RuntimeKind> = None;
    let mut target: Option<String> = None;
    let mut session: Option<String> = None;
    let mut label: Option<String> = None;
    let mut index: usize = start + 1;
    while index < args.len()
        invariant
            start < index <= args@.len() + 1,
            a == args_view(args@).skip(start as int),
            a.len() + start == args@.len(),
            add_options(a, 1, no_options()) == add_options(
                a,
                index - start,
                AddOptions {
                    kind,
                    target: opt_view(target),
                    session: opt_view(session),
                    label: opt_view(label),
                },
            ),
        decreases args.len() - index,
    {
        let ghost i = index - start;
        assert(a[i] == args@[index as int]@);
        let arg = args[index].as_str();
        if str_eq(arg, "--ssh") {
            if index + 1 >= args.len() {
                return Err("missing value for --ssh".to_string());
            }
            if kind.is_some() {
                return Err("specify only one of --ssh or --socket".to_string());
            }
            assert(a[i + 1] == args@[index + 1]@);
            kind = Some(RuntimeKind::RemoteSsh);
            target = Some(args[index + 1].clone());
            index += 2;
        } else if str_eq(arg, "--socket") {
            if index + 1 >= args.len() {
                return Err("missing value for --socket".to_string());
            }
            if kind.is_some() {
                return Err("specify only one of --ssh or --socket".to_string());
            }
            assert(a[i + 1] == args@[index + 1]@);
            kind = Some(RuntimeKind::Socket);
            target = Some(args[index + 1].clone());
            index += 2;
        } else if str_eq(arg, "--session") {
            if index + 1 >= args.len() {
                return Err("missing value for --session".to_string());
            }
            assert(a[i + 1] == args@[index + 1]@);
            session = Some(args[index + 1].clone());
            index += 2;
        } else if str_eq(arg, "--label") {
            if index + 1 >= args.len() {
                return Err("missing value for --label".to_string());
            }
            assert(a[i + 1] == args@[index + 1]@);
            label = Some(args[index + 1].clone());
            index += 2;
        } else {
            return Err(concat_str("unknown option: ", arg));
        }
    }
    let kind = match kind {
        Some(kind) => kind,
        None => {
            return Err(
                "usage: herdr runtime add <id> (--ssh HOST | --socket PATH) [--session NAME] [--label TEXT]".to_string(),
            );
        },
    };
    if kind == RuntimeKind::Socket && session.is_some() {
        return Err("--session is only valid with --ssh".to_string());
    }
    Ok(RuntimeAddParams { id, kind, label, target, session })
}

/// The usage line of `runtime get`.
pub open spec fn get_usage() -> Seq<char> {
    "usage: herdr runtime get <runtime_id>"@
}

/// The usage line of `runtime remove`.
pub open spec fn remove_usage() -> Seq<char> {
    "usage: herdr runtime remove <runtime_id>"@
}

/// What the arguments of `herdr runtime` ask for: `Ok(Some(p))` to add `p`,
/// otherwise described by `command_spec`.
pub open spec fn command_spec(a: Seq<Seq<char>>) -> Result<CommandKind, CommandErrorView> {
    if a.len() == 0 {
        Err(CommandErrorView::Help)
    } else if a[0] == "list"@ {
        if a.len() != 1 {
            Err(CommandErrorView::Usage("usage: herdr runtime list"@))
        } else {
            Ok(CommandKind::List)
        }
    } else if a[0] == "get"@ {
        if a.len() != 2 {
            Err(CommandErrorView::Usage(get_usage()))
        } else {
            Ok(CommandKind::Get(a[1]))
        }
    } else if a[0] == "add"@ {
        match add_command(a.drop_first()) {
            Ok(p) => Ok(CommandKind::Add(p)),
            Err(e) => Err(CommandErrorView::Usage(e)),
        }
    } else if a[0] == "remove"@ || a[0] == "rm"@ {
        if a.len() != 2 {
            Err(CommandErrorView::Usage(remove_usage()))
        } else {
            Ok(CommandKind::Remove(a[1]))
        }
    } else if a[0] == "help"@ || a[0] == "--help"@ || a[0] == "-h"@ {
        Ok(CommandKind::Help)
    } else {
        Err(CommandErrorView::Help)
    }
}

/// The mathematical content of a [`RuntimeCommand`].
pub enum CommandKind {
    List,
    Get(Seq<char>),
    Add(RuntimeAddParamsView),
    Remove(Seq<char>),
    Help,
}

/// The mathematical content of a [`CommandError`].
pub enum CommandErrorView {
    Help,
    Usage(Seq<char>),
}

impl View for RuntimeCommand {
    type V = CommandKind;

    open spec fn view(&self) -> CommandKind {
        match self {
            RuntimeCommand::List => CommandKind::List,
            RuntimeCommand::Get { runtime_id } => CommandKind::Get(runtime_id@),
            RuntimeCommand::Add(p) => CommandKind::Add(p@),
            RuntimeCommand::Remove { runtime_id } => CommandKind::Remove(runtime_id@),
            RuntimeCommand::Help => CommandKind::Help,
        }
    }
}

impl View for CommandError {
    type V = CommandErrorView;

    open spec fn view(&self) -> CommandErrorView {
        match self {
            CommandError::Help => CommandErrorView::Help,
            CommandError::Usage(m) => CommandErrorView::Usage(m@),
        }
    }
}

/// Read the arguments of `herdr runtime`.
pub fn parse_runtime_command(args: &[String]) -> (r: Result<RuntimeCommand, CommandError>)
    ensures
        match command_spec(args_view(args@)) {
            Ok(c) => r matches Ok(x) && x@ == c,
            Err(e) => r matches Err(x) && x@ == e,
        },
{
    let ghost a = args_view(args@);
    if args.len() == 0 {
        return Err(CommandError::Help);
    }
    assert(a[0] == args@[0]@);
    let sub = args[0].as_str();
    if str_eq(sub, "list") {
        if args.len() != 1 {
            return Err(CommandError::Usage("usage: herdr runtime list".to_string()));
        }
        Ok(RuntimeCommand::List)
    } else if str_eq(sub, "get") {
        if args.len() != 2 {
            return Err(CommandError::Usage("usage: herdr runtime get <runtime_id>".to_string()));
        }
        assert(a[1] == args@[1]@);
        Ok(RuntimeCommand::Get { runtime_id: args[1].clone() })
    } else if str_eq(sub, "add") {
        assert(a.drop_first() =~= args_view(args@).skip(1));
        match parse_add(args, 1) {
            Ok(p) => Ok(RuntimeCommand::Add(p)),
            Err(e) => Err(CommandError::Usage(e)),
        }
    } else if str_eq(sub, "remove") || str_eq(sub, "rm") {
        if args.len() != 2 {
            return Err(
                CommandError::Usage("usage: herdr runtime remove <runtime_id>".to_string()),
            );
        }
        assert(a[1] == args@[1]@);
        Ok(RuntimeCommand::Remove { runtime_id: args[1].clone() })
    } else if str_eq(sub, "help") || str_eq(sub, "--help") || str_eq(sub, "-h") {
        Ok(RuntimeCommand::Help)
    } else {
        Err(CommandError::Help)
    }
}

} // verus!
