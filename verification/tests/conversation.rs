use cue::api::{Delta, Role};
use cue::config::{Action, Config};
use cue::text::split_str;
use cue::ui::{startup_config, App, Arrival};

fn app() -> App {
    let mut c = Config::default();
    c.actions.push(Action {
        name: "ask".to_string(),
        prompt: "{{text}}".to_string(),
        model: None,
        base_url: None,
        api_key: None,
        key: None,
        reasoning: None,
    });
    App::new(startup_config(Ok((c, false))), None).0
}

fn chunk(s: &str) -> Arrival {
    Arrival::Delta(Delta::Chunk(s.to_string()))
}

fn answer(a: &mut App, s: &str) {
    a.poll_stream(vec![chunk(s), Arrival::Delta(Delta::Done)]);
}

#[test]
fn questions_and_responses_stay_apart() {
    let mut a = app();
    a.run_action(0, "first");
    answer(&mut a, "one");
    a.send_followup("se\u{1e}cond".to_string());
    answer(&mut a, "two");
    a.send_followup("third".to_string());
    a.poll_stream(vec![chunk("thr")]);
    let shown = format!("{}{}", a.transcript, a.response);
    assert_eq!(
        split_str(&shown, "\u{1e}"),
        ["one\n\n---\n\n", "second", "\n\ntwo\n\n---\n\n", "third", "\n\nthr"]
    );
    assert_eq!(a.messages.len(), 5);
    for (i, m) in a.messages.iter().enumerate() {
        assert_eq!(m.role, if i % 2 == 0 { Role::User } else { Role::Assistant });
    }
}

#[test]
fn a_response_that_holds_the_separator() {
    let mut a = app();
    a.run_action(0, "first");
    answer(&mut a, "o\u{1e}ne");
    a.send_followup("second".to_string());
    let parts = split_str(&a.transcript, "\u{1e}");
    assert_eq!(parts, ["o", "ne\n\n---\n\n", "second", "\n\n"]);
}

#[test]
fn a_response_does_not_depend_on_the_polls() {
    let pieces = || vec![chunk("a"), chunk("b"), Arrival::Delta(Delta::Done), chunk("c")];
    let mut at_once = app();
    at_once.run_action(0, "x");
    at_once.poll_stream(pieces());
    for cut in 0..4 {
        let mut a = app();
        a.run_action(0, "x");
        let mut first = pieces();
        let second = first.split_off(cut);
        a.poll_stream(first);
        a.poll_stream(second);
        assert_eq!(a, at_once);
    }
    assert_eq!(at_once.response, "ab");
}

#[test]
fn a_stream_given_up_changes_nothing() {
    let mut a = app();
    a.run_action(0, "x");
    a.poll_stream(vec![chunk("half")]);
    a.hide_window();
    assert!(a.poll_stream(vec![chunk("rest")]).is_empty());
    assert_eq!(a.response, "half");
    assert_eq!(a.streaming, a.receiving);
}
