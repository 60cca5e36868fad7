use cue::dav::Cred;
use cue::ipc::{parse_command, read_command, Command, DavCommand};

#[test]
fn plain_commands() {
    assert_eq!(parse_command("{\"cmd\":\"ready\"}"), Command::Ready);
    assert_eq!(parse_command("{\"cmd\":\"drag\"}"), Command::Drag);
    assert_eq!(parse_command("{\"cmd\":\"close\"}"), Command::Close);
    assert_eq!(parse_command("{\"cmd\":\"copy\"}"), Command::Copy);
}

#[test]
fn unknown_commands_are_ignored() {
    for m in ["{}", "[]", "not json", "{\"cmd\":1}", "{\"cmd\":\"\"}", "{\"cmd\":\"Ready\"}"] {
        assert_eq!(parse_command(m), Command::Ignore);
    }
}

#[test]
fn running_an_action() {
    assert_eq!(
        parse_command("{\"cmd\":\"run\",\"idx\":2,\"input\":\"a\\nb\"}"),
        Command::Run { idx: 2, input: "a\nb".to_string() }
    );
    assert_eq!(
        parse_command("{\"cmd\":\"run\",\"idx\":-1}"),
        Command::Run { idx: 0, input: String::new() }
    );
    assert_eq!(
        parse_command("{\"cmd\":\"run\",\"idx\":\"2\",\"input\":3}"),
        Command::Run { idx: 0, input: String::new() }
    );
}

#[test]
fn texts_of_commands() {
    assert_eq!(
        parse_command("{\"cmd\":\"followup\",\"text\":\" why? \"}"),
        Command::Followup("why?".to_string())
    );
    assert_eq!(
        parse_command("{\"cmd\":\"copytext\",\"text\":\" t \"}"),
        Command::CopyText(Some(" t ".to_string()))
    );
    assert_eq!(parse_command("{\"cmd\":\"copytext\"}"), Command::CopyText(None));
    assert_eq!(
        parse_command("{\"cmd\":\"open\",\"url\":\"https://x\"}"),
        Command::Open("https://x".to_string())
    );
    assert_eq!(parse_command("{\"cmd\":\"open\"}"), Command::Open(String::new()));
}

#[test]
fn the_form_is_passed_on() {
    assert_eq!(
        parse_command("{\"cmd\":\"save\",\"form\":{\"hotkey\": \"a\"}}"),
        Command::Save("{\"hotkey\":\"a\"}".to_string())
    );
    assert_eq!(parse_command("{\"cmd\":\"save\"}"), Command::Save("null".to_string()));
}

#[test]
fn operations_on_the_server() {
    let m = "{\"cmd\":\"restore\",\"name\":\"n.toml\",\
        \"dav\":{\"url\":\" https://x \",\"user\":\" u \",\"pass\":\" p \"}}";
    let cred = || Cred {
        url: "https://x".to_string(),
        user: "u".to_string(),
        pass: " p ".to_string(),
    };
    assert_eq!(
        parse_command(m),
        Command::Dav { op: DavCommand::Restore, cred: cred(), name: "n.toml".to_string() }
    );
    assert_eq!(
        read_command("davlist", m),
        Command::Dav { op: DavCommand::List, cred: cred(), name: "n.toml".to_string() }
    );
    let empty = Cred { url: String::new(), user: String::new(), pass: String::new() };
    assert_eq!(
        parse_command("{\"cmd\":\"backup\"}"),
        Command::Dav { op: DavCommand::Backup, cred: empty, name: String::new() }
    );
}
