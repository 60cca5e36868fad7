use cue::api::{
    assistant, event_step, pass_on, stream, stream_failure, stream_step, user, Delta, Endpoint,
    Incoming, Role, Signal, StreamStep,
};
use cue::http::{Failure, Method};
use serde_json::Value;

fn endpoint(reasoning: bool) -> Endpoint {
    Endpoint {
        base_url: "https://api/v1/".to_string(),
        api_key: "sk-\"1".to_string(),
        model: "m\n".to_string(),
        reasoning,
    }
}

fn line(s: &str) -> StreamStep {
    stream_step(Incoming::Line(s.to_string()))
}

#[test]
fn messages_have_roles() {
    assert_eq!(user("hi").role, Role::User);
    assert_eq!(user("hi").content, "hi");
    assert_eq!(assistant("yo").role, Role::Assistant);
    assert_eq!(assistant("yo").content, "yo");
}

#[test]
fn the_request_of_a_conversation() {
    let r = stream(&endpoint(true), &vec![user("a \"b\""), assistant("c"), user("\u{1f600}")]);
    assert_eq!(r.method, Method::Post);
    assert_eq!(r.url, "https://api/v1/chat/completions");
    assert_eq!(r.headers[0], ("Authorization".to_string(), "Bearer sk-\"1".to_string()));
    assert_eq!(r.headers[1], ("Content-Type".to_string(), "application/json".to_string()));
    let v: Value = serde_json::from_str(&r.body.unwrap()).unwrap();
    assert_eq!(v["model"].as_str(), Some("m\n"));
    assert_eq!(v["stream"].as_bool(), Some(true));
    assert_eq!(v.get("reasoning"), None);
    let m = v["messages"].as_array().unwrap();
    assert_eq!(m.len(), 3);
    assert_eq!(m[0]["role"].as_str(), Some("user"));
    assert_eq!(m[0]["content"].as_str(), Some("a \"b\""));
    assert_eq!(m[1]["role"].as_str(), Some("assistant"));
    assert_eq!(m[2]["content"].as_str(), Some("\u{1f600}"));
}

#[test]
fn reasoning_switched_off() {
    let r = stream(&endpoint(false), &vec![user("q")]);
    let v: Value = serde_json::from_str(&r.body.unwrap()).unwrap();
    assert_eq!(v["reasoning"]["enabled"].as_bool(), Some(false));
    assert_eq!(v.as_object().unwrap().len(), 4);
}

#[test]
fn failed_requests() {
    let status = Failure::Status(401, "no key".to_string());
    assert_eq!(stream_failure(status), Delta::Error("HTTP 401: no key".to_string()));
    let down = Failure::Transport("down".to_string());
    assert_eq!(stream_failure(down), Delta::Error("down".to_string()));
}

#[test]
fn lines_of_a_stream() {
    let chunk = line("data: {\"choices\":[{\"delta\":{\"content\":\"h\\u00e9\"}}]}");
    assert_eq!(chunk, StreamStep { emit: Some(Delta::Chunk("h\u{e9}".to_string())), more: true });
    let quiet = StreamStep { emit: None, more: true };
    assert_eq!(line("data:{\"choices\":[{\"delta\":{\"content\":\"\"}}]}"), quiet);
    assert_eq!(line("data: {\"choices\":[]}"), quiet);
    assert_eq!(line("data: {\"choices\":[{\"delta\":{}}]}"), quiet);
    assert_eq!(line("data: {\"choices\":[{\"delta\":{\"content\":null}}]}"), quiet);
    assert_eq!(line("data: not json"), quiet);
    assert_eq!(line(": keep-alive"), quiet);
    assert_eq!(line(""), quiet);
    assert_eq!(line(" data: [DONE]"), quiet);
    let done = StreamStep { emit: Some(Delta::Done), more: false };
    assert_eq!(line("data:   [DONE] "), done);
}

#[test]
fn ends_of_a_stream() {
    let e = line("data: {\"error\":{\"message\":\"quota\"},\"choices\":[]}");
    assert_eq!(e, StreamStep { emit: Some(Delta::Error("quota".to_string())), more: false });
    let strange = line("data: {\"error\":\"quota\"}");
    assert_eq!(strange, StreamStep { emit: None, more: true });
    let broken = stream_step(Incoming::Broken("reset".to_string()));
    assert_eq!(broken, StreamStep { emit: Some(Delta::Error("reset".to_string())), more: false });
    let end = stream_step(Incoming::End);
    assert_eq!(end, StreamStep { emit: Some(Delta::Done), more: false });
    assert_eq!(stream_step(Incoming::Aborted), StreamStep { emit: None, more: false });
}

#[test]
fn only_the_last_delta_ends_a_stream() {
    let lines = ["data: {\"choices\":[{\"delta\":{\"content\":\"a\"}}]}", "", "data: [DONE]"];
    let mut deltas = Vec::new();
    for l in lines {
        let s = line(l);
        let more = s.more;
        deltas.extend(s.emit);
        if !more {
            break;
        }
    }
    assert_eq!(deltas, [Delta::Chunk("a".to_string()), Delta::Done]);
}

#[test]
fn events_once_read() {
    let both = event_step(Some("e".to_string()), Some("c".to_string()));
    assert_eq!(both, StreamStep { emit: Some(Delta::Error("e".to_string())), more: false });
    assert_eq!(event_step(None, None), StreamStep { emit: None, more: true });
}

#[test]
fn a_finished_stream_says_how_it_ended() {
    let incoming = [Incoming::Line("data: x".to_string()), Incoming::End];
    let mut last = None;
    for i in incoming {
        let s = stream_step(i);
        if s.emit.is_some() {
            last = s.emit;
        }
        if !s.more {
            break;
        }
    }
    assert_eq!(last, Some(Delta::Done));
}

#[test]
fn a_broken_stream_says_so_and_nothing_follows_an_abort() {
    let chunk = || Incoming::Line("data: {\"choices\":[{\"delta\":{\"content\":\"a\"}}]}".to_string());
    let all = |incoming: Vec<Incoming<String>>| {
        let mut out = Vec::new();
        for i in incoming {
            let s = stream_step(i);
            out.extend(s.emit);
            if !s.more {
                break;
            }
        }
        out
    };
    let a = || Delta::Chunk("a".to_string());
    let broken = Incoming::Broken("reset".to_string());
    assert_eq!(all(vec![chunk(), broken]), [a(), Delta::Error("reset".to_string())]);
    assert_eq!(all(vec![chunk(), Incoming::Aborted, chunk(), Incoming::End]), [a()]);
}

#[test]
fn a_wake_follows_each_delta() {
    assert_eq!(pass_on(Delta::Done), [Signal::Delta(Delta::Done), Signal::Wake]);
}
