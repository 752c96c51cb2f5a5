use herdr_runtime::cli::{parse_runtime_command, CommandError, RuntimeCommand};
use herdr_runtime::runtime::RuntimeKind;
use herdr_runtime::schema::RuntimeAddParams;

fn args(items: &[&str]) -> Vec<String> {
    items.iter().map(|s| s.to_string()).collect()
}

fn usage(msg: &str) -> Result<RuntimeCommand, CommandError> {
    Err(CommandError::Usage(msg.to_string()))
}

const ADD_USAGE: &str =
    "usage: herdr runtime add <id> (--ssh HOST | --socket PATH) [--session NAME] [--label TEXT]";

#[test]
fn command_words() {
    assert_eq!(parse_runtime_command(&args(&[])), Err(CommandError::Help));
    assert_eq!(parse_runtime_command(&args(&["list"])), Ok(RuntimeCommand::List));
    assert_eq!(
        parse_runtime_command(&args(&["list", "x"])),
        usage("usage: herdr runtime list")
    );
    assert_eq!(
        parse_runtime_command(&args(&["get", "w"])),
        Ok(RuntimeCommand::Get { runtime_id: "w".into() })
    );
    assert_eq!(
        parse_runtime_command(&args(&["get"])),
        usage("usage: herdr runtime get <runtime_id>")
    );
    assert_eq!(
        parse_runtime_command(&args(&["rm", "w"])),
        Ok(RuntimeCommand::Remove { runtime_id: "w".into() })
    );
    assert_eq!(
        parse_runtime_command(&args(&["remove", "a", "b"])),
        usage("usage: herdr runtime remove <runtime_id>")
    );
    assert_eq!(parse_runtime_command(&args(&["-h"])), Ok(RuntimeCommand::Help));
    assert_eq!(parse_runtime_command(&args(&["frob"])), Err(CommandError::Help));
}

#[test]
fn add_reads_options_in_any_order() {
    assert_eq!(
        parse_runtime_command(&args(&[
            "add", "workbox", "--label", "Workbox", "--ssh", "workbox.example", "--session",
            "worker"
        ])),
        Ok(RuntimeCommand::Add(RuntimeAddParams {
            id: "workbox".into(),
            kind: RuntimeKind::RemoteSsh,
            label: Some("Workbox".into()),
            target: Some("workbox.example".into()),
            session: Some("worker".into()),
        }))
    );
    assert_eq!(
        parse_runtime_command(&args(&["add", "peer", "--socket", "/tmp/p.sock"])),
        Ok(RuntimeCommand::Add(RuntimeAddParams {
            id: "peer".into(),
            kind: RuntimeKind::Socket,
            label: None,
            target: Some("/tmp/p.sock".into()),
            session: None,
        }))
    );
}

#[test]
fn add_refusals() {
    assert_eq!(parse_runtime_command(&args(&["add"])), usage(ADD_USAGE));
    assert_eq!(parse_runtime_command(&args(&["add", "w"])), usage(ADD_USAGE));
    assert_eq!(
        parse_runtime_command(&args(&["add", "w", "--ssh"])),
        usage("missing value for --ssh")
    );
    assert_eq!(
        parse_runtime_command(&args(&["add", "w", "--ssh", "h", "--socket", "/s"])),
        usage("specify only one of --ssh or --socket")
    );
    assert_eq!(
        parse_runtime_command(&args(&["add", "w", "--bogus"])),
        usage("unknown option: --bogus")
    );
    assert_eq!(
        parse_runtime_command(&args(&["add", "w", "--socket", "/s", "--session", "x"])),
        usage("--session is only valid with --ssh")
    );
    assert_eq!(
        parse_runtime_command(&args(&["add", "w", "--label"])),
        usage("missing value for --label")
    );
}
