use cue::api::{Delta, Role};
use cue::config::{Action, Config};
use cue::dav::{Cred, Done};
use cue::form::{Form, FormAction};
use cue::ipc::{Command, DavCommand};
use cue::ui::{
    startup_config, App, Arrival, DavArrival, DavStep, Effect, Mode, RestoreStep, Step,
    NEXT_LOOK,
};

fn config() -> Config {
    let mut c = Config::default();
    c.hotkey = "alt+q".to_string();
    c.api.base_url = "https://api".to_string();
    c.api.model = "m".to_string();
    c.secrets.insert("default".to_string(), "sk".to_string());
    c.actions.push(Action {
        name: "ask".to_string(),
        prompt: "Q: {{text}} / {{text}}".to_string(),
        model: None,
        base_url: None,
        api_key: None,
        key: None,
        reasoning: None,
    });
    c
}

fn app() -> App {
    App::new(startup_config(Ok((config(), false))), None).0
}

fn script(s: &str) -> Effect {
    Effect::Script(s.to_string())
}

fn chunk(s: &str) -> Arrival {
    Arrival::Delta(Delta::Chunk(s.to_string()))
}

fn done() -> Arrival {
    Arrival::Delta(Delta::Done)
}

fn cred() -> Cred {
    Cred { url: "https://dav".to_string(), user: "u".to_string(), pass: "p".to_string() }
}

fn answered() -> App {
    let mut a = app();
    a.run_action(0, "x");
    a.poll_stream(vec![chunk("yes"), done()]);
    a
}

fn form() -> Form {
    Form {
        hotkey: "alt+q".to_string(),
        autostart: true,
        width: 560f32.to_bits(),
        height: 600f32.to_bits(),
        base_url: "https://api".to_string(),
        model: "m".to_string(),
        reasoning: true,
        secret: "sk2".to_string(),
        dav_url: String::new(),
        dav_user: String::new(),
        dav_pass: "pw".to_string(),
        actions: vec![FormAction {
            name: " ".to_string(),
            prompt: String::new(),
            model: String::new(),
            reasoning: None,
            base_url: None,
            api_key: None,
            key: None,
        }],
    }
}

#[test]
fn a_silent_start() {
    let (a, log) = App::new(startup_config(Ok((config(), false))), None);
    assert_eq!(log, None);
    assert_eq!(a.startup_notice, None);
    assert_eq!(a.startup_hotkey, "alt+q");
    assert_eq!(a.mode, Mode::Assist);
    assert!(!a.streaming && !a.receiving && !a.dav_busy && !a.had_focus && !a.focus_pending);
}

#[test]
fn a_first_start_welcomes() {
    let (mut a, log) = App::new(startup_config(Ok((config(), true))), Some("note".to_string()));
    let text = "note\nwelcome - set your api key in settings (tray icon), then press alt+q on any \
        selected text";
    assert_eq!(log, Some(text.to_string()));
    let shown = "assist(\"\",[\"ask\"],\"note\\nwelcome - set your api key in settings (tray \
        icon), then press alt+q on any selected text\",true)";
    assert_eq!(a.on_ipc(Command::Ready), Step::Effects(vec![script(shown)]));
    assert_eq!(a.on_ipc(Command::Ready), Step::Effects(Vec::new()));
}

#[test]
fn a_start_without_settings() {
    let s = startup_config(Err("settings.toml: bad".to_string()));
    assert_eq!(s.cfg, Config::default());
    assert!(!s.created);
    let (a, log) = App::new(s, None);
    assert_eq!(log, Some("settings.toml: bad".to_string()));
    assert_eq!(a.startup_hotkey, "");
}

#[test]
fn running_an_action_asks_for_a_response() {
    let mut a = app();
    let e = a.run_action(0, " hi ");
    assert_eq!(e.len(), 3);
    assert_eq!(e[0], Effect::Abort);
    match &e[1] {
        Effect::OpenStream(r) => {
            assert_eq!(r.url, "https://api/chat/completions");
            assert!(r.body.as_ref().unwrap().contains("Q: hi / hi"));
        }
        other => panic!("{other:?}"),
    }
    assert_eq!(e[2], script("resp(\"\",true)"));
    assert!(a.streaming && a.receiving);
    assert_eq!(a.messages.len(), 1);
    assert_eq!(a.messages[0].content, "Q: hi / hi");
    assert_eq!(a.endpoint.as_ref().unwrap().api_key, "sk");
    assert!(app().run_action(1, "hi").is_empty());
}

#[test]
fn a_response_arrives_in_pieces() {
    let mut a = app();
    a.run_action(0, "x");
    assert!(a.poll_stream(Vec::new()).is_empty());
    assert_eq!(
        a.poll_stream(vec![chunk("*a"), chunk("*")]),
        [script("resp(\"<p><em>a</em></p>\\n\",true)")]
    );
    assert_eq!(
        a.poll_stream(vec![done(), chunk("late")]),
        [Effect::CloseStream, script("resp(\"<p><em>a</em></p>\\n\",false)")]
    );
    assert_eq!(a.response, "*a*");
    assert!(a.poll_stream(vec![chunk("late")]).is_empty());
}

#[test]
fn errors_and_silence_of_a_stream() {
    let mut a = app();
    a.run_action(0, "x");
    a.poll_stream(vec![chunk("half"), Arrival::Delta(Delta::Error("quota".to_string()))]);
    assert_eq!(a.response, "half\n\n**error:** quota");
    assert!(!a.streaming && !a.receiving);
    let mut a = app();
    a.run_action(0, "x");
    assert_eq!(a.poll_stream(vec![Arrival::Gone]), [Effect::CloseStream]);
    assert!(!a.streaming);
}

#[test]
fn a_followup_carries_the_conversation() {
    let mut a = answered();
    let e = a.send_followup("why\u{1e}?".to_string());
    assert_eq!(e.len(), 3);
    assert_eq!(a.messages.len(), 3);
    assert_eq!(a.messages[1].role, Role::Assistant);
    assert_eq!(a.messages[1].content, "yes");
    assert_eq!(a.messages[2].content, "why\u{1e}?");
    assert_eq!(a.transcript, "yes\n\n---\n\n\u{1e}why?\u{1e}\n\n");
    assert_eq!(a.response, "");
    assert_eq!(
        e[2],
        script("resp(\"<p>yes</p>\\n<hr />\\n<p class=\\\"ask\\\">why?</p>\\n\",true)")
    );
}

#[test]
fn followups_that_are_refused() {
    assert!(app().send_followup("q".to_string()).is_empty());
    assert!(answered().send_followup(String::new()).is_empty());
    let mut a = app();
    a.run_action(0, "x");
    a.poll_stream(vec![chunk("part")]);
    assert!(a.send_followup("q".to_string()).is_empty());
    assert_eq!(a.messages.len(), 1);
}

#[test]
fn activation_resets_the_conversation() {
    let mut a = answered();
    let mut c = config();
    c.hotkey = "alt+w".to_string();
    c.autostart = true;
    let e = a.activate("sel".to_string(), Ok(c));
    assert_eq!(
        e,
        [
            Effect::Abort,
            Effect::SyncAutostart(true),
            Effect::CloseStream,
            script("assist(\"sel\",[\"ask\"],\"hotkey changed - restart cue to apply\",false)"),
        ]
    );
    assert_eq!(a.cfg.hotkey, "alt+q");
    assert!(a.cfg.autostart);
    assert!(a.messages.is_empty() && a.response.is_empty() && a.transcript.is_empty());
    assert!(!a.focus_pending);
}

#[test]
fn activation_without_settings() {
    let mut a = app();
    let e = a.activate(String::new(), Err("gone".to_string()));
    assert_eq!(
        e,
        [
            Effect::Abort,
            Effect::CloseStream,
            script("assist(\"\",[\"ask\"],\"gone\",true)"),
        ]
    );
    assert!(a.focus_pending);
    assert_eq!(a.cfg, config());
}

#[test]
fn hiding_and_closing() {
    let mut a = app();
    a.run_action(0, "x");
    assert_eq!(a.hide_window(), [Effect::Abort, Effect::CloseStream, Effect::HideWindow]);
    assert!(!a.streaming && !a.receiving);
    a.open_settings("560.0".to_string(), "600.0".to_string());
    let e = a.close();
    assert_eq!(e[0], script("dirty=false"));
    assert_eq!(e.len(), 4);
    assert_eq!(a.mode, Mode::Assist);
    assert_eq!(a.close().len(), 3);
}

#[test]
fn copying_and_opening() {
    let mut a = answered();
    assert_eq!(a.on_ipc(Command::Copy), Step::Effects(vec![Effect::CopyText("yes".to_string())]));
    assert_eq!(app().on_ipc(Command::Copy), Step::Effects(Vec::new()));
    let t = Command::CopyText(Some("t".to_string()));
    assert_eq!(a.on_ipc(t), Step::Effects(vec![Effect::CopyText("t".to_string())]));
    assert_eq!(a.on_ipc(Command::CopyText(None)), Step::Effects(Vec::new()));
    for url in ["https://x", "http://x"] {
        let opened = Step::Effects(vec![Effect::OpenUrl(url.to_string())]);
        assert_eq!(a.on_ipc(Command::Open(url.to_string())), opened);
    }
    for url in ["", "file:///x", "HTTPS://x", "javascript:1"] {
        assert_eq!(a.on_ipc(Command::Open(url.to_string())), Step::Effects(Vec::new()));
    }
    assert_eq!(a.on_ipc(Command::Drag), Step::Effects(vec![Effect::DragWindow]));
    assert_eq!(a.on_ipc(Command::Ignore), Step::Effects(Vec::new()));
    assert_eq!(a.on_ipc(Command::Save("{}".to_string())), Step::Save("{}".to_string()));
}

#[test]
fn commands_of_the_conversation() {
    let mut a = app();
    match a.on_ipc(Command::Run { idx: 0, input: "x".to_string() }) {
        Step::Effects(v) => assert_eq!(v.len(), 3),
        other => panic!("{other:?}"),
    }
    a.poll_stream(vec![chunk("r"), done()]);
    match a.on_ipc(Command::Followup("q".to_string())) {
        Step::Effects(v) => assert_eq!(v.len(), 3),
        other => panic!("{other:?}"),
    }
    match a.on_ipc(Command::Close) {
        Step::Effects(v) => assert_eq!(v[2], Effect::HideWindow),
        other => panic!("{other:?}"),
    }
}

#[test]
fn opening_the_settings() {
    let mut a = app();
    let mut c = config();
    c.hotkey = "alt+e".to_string();
    a.reload(Some(c));
    a.reload(None);
    let e = a.open_settings("560.0".to_string(), "600.0".to_string());
    assert_eq!(a.mode, Mode::Settings);
    assert_eq!(e[1], Effect::FocusPage);
    match &e[0] {
        Effect::Script(s) => {
            assert!(s.starts_with("settings({"));
            assert!(s.ends_with("},false)"));
            assert!(s.contains("\"hotkey\":\"alt+e\""));
        }
        other => panic!("{other:?}"),
    }
}

#[test]
fn saving_the_form() {
    let mut a = app();
    let plan = a.save(form());
    assert_eq!(plan.secret, "sk2");
    assert_eq!(plan.key_name, "default");
    assert_eq!(a.cfg.secrets.get("default"), "sk2");
    let e = a.saved(plan.unnamed, Ok(()), Ok(()), Ok(()));
    assert_eq!(
        e,
        [
            Effect::SyncAutostart(true),
            script("saved(\"saved - give the unnamed action a name\")"),
        ]
    );
    let e = a.saved(false, Ok(()), Ok(()), Ok(()));
    assert_eq!(e[1], script("saved(\"saved\")"));
}

#[test]
fn saving_that_fails_shows_the_last_error() {
    let err = |s: &str| Err(s.to_string());
    let mut a = app();
    let mut f = form();
    f.hotkey = "alt+w".to_string();
    a.save(f);
    assert_eq!(a.saved(false, err("1"), err("2"), err("3"))[1], script("saved(\"3\")"));
    assert_eq!(a.saved(false, err("1"), err("2"), Ok(()))[1], script("saved(\"2\")"));
    assert_eq!(a.saved(true, err("1"), Ok(()), Ok(()))[1], script("saved(\"1\")"));
    assert_eq!(a.saved(true, Ok(()), Ok(()), Ok(()))[1], Effect::Restart);
    assert_eq!(a.save_failed("bad"), [script("notice(\"save failed: bad\")")]);
}

#[test]
fn one_operation_at_a_time() {
    let mut a = app();
    assert_eq!(
        a.dav_op(DavCommand::List, cred(), String::new()),
        Step::Effects(vec![Effect::ListBackups(cred()), script("davbusy(true)")])
    );
    assert!(a.dav_busy);
    for op in [DavCommand::List, DavCommand::Backup, DavCommand::Restore] {
        let c = Command::Dav { op, cred: cred(), name: String::new() };
        assert_eq!(a.on_ipc(c), Step::Effects(Vec::new()));
    }
    let none = Cred { url: String::new(), user: String::new(), pass: String::new() };
    assert_eq!(app().dav_op(DavCommand::List, none, String::new()), Step::Effects(Vec::new()));
}

#[test]
fn backing_up() {
    let mut a = app();
    assert_eq!(
        a.dav_op(DavCommand::Backup, cred(), String::new()),
        Step::LoadForBackup(cred())
    );
    assert!(!a.dav_busy);
    assert_eq!(a.begin_backup(cred(), Err("bad".to_string())), [script("notice(\"bad\")")]);
    assert!(!a.dav_busy);
    assert_eq!(
        a.begin_backup(cred(), Ok("toml".to_string())),
        [Effect::Backup(cred(), "toml".to_string()), script("davbusy(true)")]
    );
    assert!(a.dav_busy);
}

#[test]
fn what_comes_of_an_operation() {
    let shown = |d: DavArrival| {
        let mut a = app();
        a.dav_op(DavCommand::List, cred(), String::new());
        let step = a.poll_dav(d);
        assert!(!a.dav_busy);
        match step {
            DavStep::Effects(v) => v,
            DavStep::Read(_) => panic!(),
        }
    };
    let both = |s: &str| [script(&format!("notice(\"{s}\")")), script("davbusy(false)")];
    let err = || "down".to_string();
    assert_eq!(shown(DavArrival::Done(Done::Backup(Ok(())))), both("backup uploaded"));
    assert_eq!(shown(DavArrival::Done(Done::Backup(Err(err())))), both("backup failed: down"));
    assert_eq!(shown(DavArrival::Done(Done::List(Err(err())))), both("list failed: down"));
    assert_eq!(shown(DavArrival::Done(Done::Restore(Err(err())))), both("restore failed: down"));
    assert_eq!(shown(DavArrival::Gone), [script("davbusy(false)")]);
    assert_eq!(
        shown(DavArrival::Done(Done::List(Ok(Vec::new())))),
        [script("notice(\"no backups found\")"), script("davlist([])"), script("davbusy(false)")]
    );
    assert_eq!(
        shown(DavArrival::Done(Done::List(Ok(vec!["n".to_string()])))),
        [script("davlist([\"n\"])"), script("davbusy(false)")]
    );
    let mut idle = app();
    assert_eq!(idle.poll_dav(DavArrival::Gone), DavStep::Effects(Vec::new()));
}

#[test]
fn a_restore_keeps_the_connection() {
    let mut a = app();
    a.open_settings("560.0".to_string(), "600.0".to_string());
    assert_eq!(
        a.dav_op(DavCommand::Restore, cred(), "n.toml".to_string()),
        Step::Effects(vec![
            Effect::Restore(cred(), "n.toml".to_string()),
            script("davbusy(true)"),
        ])
    );
    let body = "toml".to_string();
    assert_eq!(
        a.poll_dav(DavArrival::Done(Done::Restore(Ok(body.clone())))),
        DavStep::Read(body)
    );
    let (c, pass) = a.restore_merged(config());
    assert_eq!(c.webdav.url, "https://dav");
    assert_eq!(c.webdav.user, "u");
    assert_eq!(pass, "p");
    assert_eq!(a.dav_cred, None);
    a.reload(Some(c));
    let e = a.restore_done(pass, "560.0".to_string(), "600.0".to_string());
    assert_eq!(e.len(), 3);
    match &e[0] {
        Effect::Script(s) => {
            assert!(s.contains("\"dav_pass\":\"p\""));
            assert!(s.ends_with("},true)"));
        }
        other => panic!("{other:?}"),
    }
    assert_eq!(e[1], script("notice(\"restored from webdav\")"));
    assert_eq!(e[2], script("davbusy(false)"));
    assert_eq!(app().restore_done(String::new(), String::new(), String::new()).len(), 2);
}

#[test]
fn a_restore_keeps_the_connection_over_another() {
    let mut a = app();
    a.dav_op(DavCommand::Restore, cred(), String::new());
    let mut c = config();
    c.webdav.url = "https://own".to_string();
    c.webdav.user = "other".to_string();
    let (c, pass) = a.restore_merged(c);
    assert_eq!(c.webdav.url, "https://dav");
    assert_eq!(c.webdav.user, "u");
    assert_eq!(pass, "p");
    assert_eq!(c.hotkey, "alt+q");
    assert_eq!(c.actions.len(), 1);
    let (c, pass) = app().restore_merged(config());
    assert_eq!(c.webdav.url, "");
    assert_eq!(pass, "");
}

#[test]
fn a_backup_comes_back() {
    let backup = || config().for_backup(cred().url, cred().user);
    let mut a = app();
    a.dav_op(DavCommand::Restore, cred(), String::new());
    let (c, _) = a.restore_merged(backup());
    assert_eq!(c, backup());
    assert_eq!(c.webdav.url, "https://dav");
}

#[test]
fn an_invalid_restore() {
    assert_eq!(
        app().restore_invalid("line 1"),
        [script("notice(\"restore: not a valid config: line 1\")"), script("davbusy(false)")]
    );
}

#[test]
fn the_window_hides_when_the_focus_leaves() {
    let mut a = app();
    a.activate(String::new(), Ok(config()));
    assert_eq!(a.tick(true, false), (Vec::new(), true));
    assert_eq!(
        a.tick(true, true),
        (vec![Effect::FocusPage, script("document.getElementById('inp').focus()")], true)
    );
    assert_eq!(a.tick(true, true), (Vec::new(), true));
    let (e, again) = a.tick(true, false);
    assert_eq!(e, [Effect::Abort, Effect::CloseStream, Effect::HideWindow]);
    assert!(!again && !a.had_focus);
    assert_eq!(a.tick(false, false), (Vec::new(), false));
}

#[test]
fn captured_text_leaves_the_focus_free() {
    let mut a = app();
    a.activate("sel".to_string(), Ok(config()));
    assert_eq!(a.tick(true, true), (Vec::new(), true));
}

#[test]
fn the_settings_survive_a_loss_of_focus() {
    let mut a = app();
    a.activate(String::new(), Ok(config()));
    a.tick(true, true);
    a.open_settings("1.0".to_string(), "1.0".to_string());
    assert_eq!(a.tick(true, false), (Vec::new(), false));
    assert_eq!(a.mode, Mode::Settings);
}

#[test]
fn an_invalid_backup_is_not_written() {
    let mut a = app();
    a.dav_op(DavCommand::Restore, cred(), String::new());
    assert_eq!(
        a.restore_read(Err("line 1".to_string())),
        RestoreStep::Effects(a.restore_invalid("line 1"))
    );
    assert_eq!(a.dav_cred, Some(cred()));
    match a.restore_read(Ok(config())) {
        RestoreStep::Write { cfg, pass } => {
            assert_eq!(cfg.webdav.url, "https://dav");
            assert_eq!(pass, "p");
        }
        other => panic!("{other:?}"),
    }
    assert_eq!(a.dav_cred, None);
}

#[test]
fn the_next_look_at_the_focus() {
    assert_eq!(NEXT_LOOK, 150);
}
