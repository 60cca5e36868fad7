use cue::capture::{
    begin_grab, clipboard_vscode_from_empty_selection, focus_looks_like_vscode_terminal,
    grab_selection, grab_vscode, is_vscode_foreground, synth_ctrl_c, uia_selection, Ask, Grab,
    KeyName, KeyStep, Reply, Sel, TerminalStep, TERMINAL_DEPTH,
};

struct Screen {
    selection: fn() -> Sel<String>,
    path: Option<&'static str>,
    terminal: bool,
    opens: bool,
    clipboard: Option<&'static str>,
    presses: bool,
    format: Option<Vec<u8>>,
    copied: Option<&'static str>,
}

fn screen() -> Screen {
    Screen {
        selection: || Sel::Unknown,
        path: Some(r"C:\Windows\notepad.exe"),
        terminal: false,
        opens: true,
        clipboard: Some("old"),
        presses: true,
        format: None,
        copied: Some(" new "),
    }
}

/// Runs a capture and gives the names of its questions and its text.
fn run(s: &Screen) -> (Vec<String>, Option<String>) {
    let mut log = Vec::new();
    let (mut state, mut ask) = begin_grab();
    loop {
        let text = |t: Option<&'static str>| Reply::Text(t.map(String::from));
        let reply = match ask {
            Ask::Finish(out) => return (log, out),
            Ask::Selection => Reply::Selection((s.selection)()),
            Ask::Foreground => Reply::Foreground(s.path.map(String::from)),
            Ask::Terminal => Reply::Terminal(s.terminal),
            Ask::Open => Reply::Opened(s.opens),
            Ask::Save => text(s.clipboard),
            Ask::Press => Reply::Pressed(s.presses),
            Ask::Format => Reply::Format(s.format.clone()),
            Ask::Read => text(s.copied),
            Ask::Clear => Reply::Done,
            Ask::Restore(ref t) => {
                assert_eq!(Some(t.as_str()), s.clipboard);
                Reply::Done
            }
        };
        log.push(format!("{ask:?}"));
        let next = grab_selection(state, reply);
        state = next.0;
        ask = next.1;
    }
}

fn flagged(flag: &str) -> Option<Vec<u8>> {
    let mut body = 1u32.to_le_bytes().to_vec();
    let json = format!("{{\"version\":1,\"isFromEmptySelection\":{flag}}}");
    for s in ["vscode-editor-data", json.as_str()] {
        let u: Vec<u16> = s.encode_utf16().collect();
        body.extend((u.len() as u32).to_le_bytes());
        for x in u {
            body.extend(x.to_le_bytes());
        }
        while body.len() % 4 != 0 {
            body.push(0);
        }
    }
    let mut out = (body.len() as u32).to_le_bytes().to_vec();
    out.extend(body);
    Some(out)
}

#[test]
fn selection_of_ranges() {
    let v = |r: &[&str]| Some(r.iter().map(|s| s.to_string()).collect::<Vec<String>>());
    assert_eq!(uia_selection(None), Sel::Unknown);
    assert_eq!(uia_selection(v(&[])), Sel::Empty);
    assert_eq!(uia_selection(v(&[" ", "\n"])), Sel::Empty);
    assert_eq!(uia_selection(v(&[" a", "b\n"])), Sel::Text("ab".to_string()));
}

#[test]
fn a_reported_selection_needs_no_keystroke() {
    let mut s = screen();
    s.selection = || Sel::Text("sel".to_string());
    assert_eq!(run(&s), (vec!["Selection".to_string(), "Foreground".to_string()], Some("sel".to_string())));
    s.path = Some(r"C:\Apps\VS Code\Code.exe");
    assert_eq!(run(&s).1, Some("sel".to_string()));
    assert_eq!(run(&s).0.len(), 2);
}

#[test]
fn an_empty_selection_is_trusted() {
    let mut s = screen();
    s.selection = || Sel::Empty;
    let (log, out) = run(&s);
    assert_eq!(out, None);
    assert_eq!(log, ["Selection", "Foreground"]);
}

#[test]
fn a_copy_puts_the_clipboard_back() {
    let (log, out) = run(&screen());
    assert_eq!(out, Some(" new ".to_string()));
    assert_eq!(
        log,
        [
            "Selection", "Foreground", "Open", "Save", "Clear", "Press", "Read", "Restore(\"old\")"
        ]
    );
}

#[test]
fn a_clipboard_without_text_is_left_alone() {
    let mut s = screen();
    s.clipboard = None;
    let (log, out) = run(&s);
    assert_eq!(out, Some(" new ".to_string()));
    assert_eq!(log, ["Selection", "Foreground", "Open", "Save", "Press", "Read"]);
}

#[test]
fn blank_copies_and_failures_capture_nothing() {
    let mut s = screen();
    s.copied = Some(" \n");
    assert_eq!(run(&s).1, None);
    s.copied = None;
    assert_eq!(run(&s).1, None);
    let mut s = screen();
    s.opens = false;
    assert_eq!(run(&s), (vec!["Selection".to_string(), "Foreground".to_string(), "Open".to_string()], None));
}

#[test]
fn a_failed_keystroke_puts_the_clipboard_back() {
    let mut s = screen();
    s.presses = false;
    let (log, out) = run(&s);
    assert_eq!(out, None);
    assert_eq!(
        log,
        ["Selection", "Foreground", "Open", "Save", "Clear", "Press", "Restore(\"old\")"]
    );
    s.path = Some(r"C:\Apps\Code.exe");
    let (log, out) = run(&s);
    assert_eq!(out, None);
    assert_eq!(log.last().unwrap(), "Restore(\"old\")");
    s.clipboard = None;
    assert_eq!(run(&s).0.last().unwrap(), "Press");
}

#[test]
fn the_editor_of_vscode_is_asked_by_copying() {
    let mut s = screen();
    s.path = Some(r"C:\Apps\Code - Insiders.exe");
    s.selection = || Sel::Empty;
    s.format = flagged("false");
    let (log, out) = run(&s);
    assert_eq!(out, Some(" new ".to_string()));
    assert_eq!(
        log,
        [
            "Selection", "Foreground", "Terminal", "Open", "Save", "Clear", "Press", "Format",
            "Read", "Restore(\"old\")"
        ]
    );
    s.format = flagged("true");
    assert_eq!(run(&s).1, None);
    s.format = None;
    assert_eq!(run(&s).1, Some(" new ".to_string()));
}

#[test]
fn no_keystroke_into_a_terminal_of_vscode() {
    let mut s = screen();
    s.path = Some(r"d:/code.EXE");
    s.terminal = true;
    assert_eq!(run(&s), (vec!["Selection".to_string(), "Foreground".to_string(), "Terminal".to_string()], None));
}

#[test]
fn vscode_with_a_reported_selection() {
    assert_eq!(
        grab_vscode(Sel::Text("t".to_string())),
        (Grab::Finished, Ask::Finish(Some("t".to_string())))
    );
    assert_eq!(grab_vscode(Sel::Empty), (Grab::Focusing, Ask::Terminal));
    assert_eq!(grab_vscode(Sel::Unknown), (Grab::Focusing, Ask::Terminal));
}

#[test]
fn which_programs_are_vscode() {
    let is = |s: &str| is_vscode_foreground(&Some(s.to_string()));
    assert!(is(r"C:\Users\me\AppData\Local\Programs\Microsoft VS Code\Code.exe"));
    assert!(is(r"C:\x\code - INSIDERS.exe"));
    assert!(is("Code"));
    assert!(!is(r"C:\Code\Cursor.exe"));
    assert!(!is("codium.exe"));
    assert!(!is("code.old.exe"));
    assert!(is(r"C:\a\Code.exe\"));
    assert!(is("C:Code.exe"));
    assert!(!is(""));
    assert!(!is_vscode_foreground(&None));
}

#[test]
fn the_flag_of_a_copy_without_selection() {
    assert_eq!(clipboard_vscode_from_empty_selection(&flagged("true")), Some(true));
    assert_eq!(clipboard_vscode_from_empty_selection(&flagged("false")), Some(false));
    assert_eq!(clipboard_vscode_from_empty_selection(&flagged("1")), None);
    assert_eq!(clipboard_vscode_from_empty_selection(&flagged("oops")), None);
    assert_eq!(clipboard_vscode_from_empty_selection(&None), None);
}

#[test]
fn the_way_up_from_the_focus() {
    let look = |d, n: Option<&str>| focus_looks_like_vscode_terminal(d, n.map(String::from));
    assert_eq!(TERMINAL_DEPTH, 10);
    assert_eq!(look(0, Some("powershell, Terminal")), TerminalStep::Found);
    assert_eq!(look(9, Some("TERMINAL 1")), TerminalStep::Found);
    assert_eq!(look(0, Some("editor")), TerminalStep::Parent);
    assert_eq!(look(8, None), TerminalStep::Parent);
    assert_eq!(look(9, None), TerminalStep::GiveUp);
}

#[test]
fn the_keys_of_a_copy() {
    let v = synth_ctrl_c();
    assert_eq!(v.len(), 9);
    assert_eq!(v[0], KeyStep::Release(KeyName::Alt));
    assert_eq!(v[4], KeyStep::Wait(50));
    assert_eq!(v[6], KeyStep::Click(KeyName::C));
    assert_eq!(v[8], KeyStep::Wait(150));
}

#[test]
fn a_near_terminal_is_found() {
    let walk = |names: &[&str]| {
        for (i, n) in names.iter().enumerate() {
            match focus_looks_like_vscode_terminal(i, Some(n.to_string())) {
                TerminalStep::Found => return true,
                TerminalStep::GiveUp => return false,
                TerminalStep::Parent => {}
            }
        }
        false
    };
    let mut names = vec!["x"; 9];
    assert!(!walk(&names));
    names.push("Terminal 1");
    assert!(walk(&names));
    names.insert(0, "y");
    assert!(!walk(&names));
}
