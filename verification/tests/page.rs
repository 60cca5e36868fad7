use cue::config::{Action, Config};
use cue::page::{assist, backups, busy, call, notice, resp, saved, settings, settings_payload};
use serde_json::Value;

fn config() -> Config {
    let mut c = Config::default();
    c.hotkey = "alt+q".to_string();
    c.api.base_url = "https://api".to_string();
    c.api.model = "m".to_string();
    c.webdav.url = "https://dav".to_string();
    c.webdav.user = "me".to_string();
    c.secrets.insert("default".to_string(), "sk".to_string());
    c.secrets.insert("webdav".to_string(), "pw".to_string());
    c.actions.push(Action {
        name: "a\"b".to_string(),
        prompt: "p".to_string(),
        model: None,
        base_url: Some("https://b".to_string()),
        api_key: None,
        key: Some("k".to_string()),
        reasoning: Some(false),
    });
    c
}

fn payload(pass: Option<&str>) -> Value {
    let p = pass.map(String::from);
    let s = settings_payload(&config(), p, "560.0".to_string(), "600.5".to_string());
    serde_json::from_str(&s).unwrap()
}

#[test]
fn calls_with_json_arguments() {
    assert_eq!(call("f", &Vec::new()), "f()");
    assert_eq!(call("f", &vec!["1".to_string(), "true".to_string()]), "f(1,true)");
    assert_eq!(notice("a \"b\"\n"), "notice(\"a \\\"b\\\"\\n\")");
    assert_eq!(saved("saved"), "saved(\"saved\")");
    assert_eq!(busy(true), "davbusy(true)");
    assert_eq!(busy(false), "davbusy(false)");
    assert_eq!(resp("<p>\\</p>", true), "resp(\"<p>\\\\</p>\",true)");
    assert_eq!(backups(&vec!["x".to_string(), "y".to_string()]), "davlist([\"x\",\"y\"])");
    assert_eq!(backups(&Vec::new()), "davlist([])");
}

#[test]
fn an_argument_reads_back() {
    let text = "\u{0}\u{1f}\u{7f}\u{2028}\\\"</script>\u{1f600}";
    let script = notice(text);
    let argument = &script["notice(".len()..script.len() - 1];
    assert_eq!(serde_json::from_str::<String>(argument).unwrap(), text);
}

#[test]
fn showing_the_assistant() {
    let c = config();
    assert_eq!(
        assist("t", &c.actions, "n", true),
        "assist(\"t\",[\"a\\\"b\"],\"n\",true)"
    );
    assert_eq!(assist("", &Vec::new(), "", false), "assist(\"\",[],\"\",false)");
}

#[test]
fn the_payload_of_the_settings() {
    let v = payload(None);
    assert_eq!(v["hotkey"].as_str(), Some("alt+q"));
    assert_eq!(v["autostart"].as_bool(), Some(false));
    assert_eq!(v["width"].as_f64(), Some(560.0));
    assert_eq!(v["height"].as_f64(), Some(600.5));
    assert_eq!(v["base_url"].as_str(), Some("https://api"));
    assert_eq!(v["model"].as_str(), Some("m"));
    assert_eq!(v["reasoning"].as_bool(), Some(false));
    assert_eq!(v["secret"].as_str(), Some("sk"));
    assert_eq!(v["dav_url"].as_str(), Some("https://dav"));
    assert_eq!(v["dav_user"].as_str(), Some("me"));
    assert_eq!(v["dav_pass"].as_str(), Some("pw"));
    assert_eq!(v.as_object().unwrap().len(), 12);
    let a = &v["actions"][0];
    assert_eq!(a["name"].as_str(), Some("a\"b"));
    assert_eq!(a["prompt"].as_str(), Some("p"));
    assert_eq!(a["model"].as_str(), Some(""));
    assert_eq!(a["reasoning"].as_bool(), Some(false));
    assert_eq!(a["base_url"].as_str(), Some("https://b"));
    assert!(a["api_key"].is_null());
    assert_eq!(a["key"].as_str(), Some("k"));
    assert_eq!(a.as_object().unwrap().len(), 7);
}

#[test]
fn a_given_password_wins() {
    assert_eq!(payload(Some("typed"))["dav_pass"].as_str(), Some("typed"));
    assert_eq!(settings("{}".to_string(), true), "settings({},true)");
}
