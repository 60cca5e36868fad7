use cue::config::{load, Action, Config, Settings, DEFAULT_HEIGHT, DEFAULT_WIDTH};
use cue::document::{ActionEntries, ApiEntries, Document, Switch, WebdavEntries};

fn empty() -> Document {
    Document {
        hotkey: None,
        autostart: None,
        width: None,
        height: None,
        api: None,
        webdav: None,
        actions: None,
    }
}

fn api(reasoning: Option<Switch<String>>) -> Option<ApiEntries> {
    Some(ApiEntries { base_url: None, api_key: None, key: None, model: None, reasoning })
}

fn action(reasoning: Option<bool>) -> Action {
    Action {
        name: "a".to_string(),
        prompt: "p".to_string(),
        model: Some(String::new()),
        base_url: None,
        api_key: Some("k".to_string()),
        key: None,
        reasoning,
    }
}

fn full() -> Config {
    let mut c = Config::default();
    c.hotkey = "alt+w".to_string();
    c.autostart = true;
    c.width = 300f32.to_bits();
    c.api.base_url = "https://api".to_string();
    c.api.api_key = "inline".to_string();
    c.webdav.user = "me".to_string();
    c.actions = vec![action(Some(true)), action(None), action(Some(false))];
    c
}

#[test]
fn what_missing_entries_mean() {
    let c = Config::from_document(empty());
    assert_eq!(c.hotkey, "alt+q");
    assert!(!c.autostart);
    assert_eq!((c.width, c.height), (DEFAULT_WIDTH, DEFAULT_HEIGHT));
    assert_eq!(c.api.base_url, "");
    assert!(!c.api.reasoning);
    assert!(c.webdav.is_empty());
    assert!(c.actions.is_empty());
    let mut d = empty();
    d.api = api(None);
    d.webdav = Some(WebdavEntries { url: None, user: Some("u".to_string()) });
    let c = Config::from_document(d);
    assert!(c.api.reasoning);
    assert_eq!(c.webdav.user, "u");
    assert_eq!(c.webdav.url, "");
}

#[test]
fn switches_in_words() {
    let on = |s: Switch<String>| {
        let mut d = empty();
        d.api = api(Some(s));
        Config::from_document(d).api.reasoning
    };
    assert!(!on(Switch::Word("OFF".to_string())));
    assert!(on(Switch::Word("high".to_string())));
    assert!(!on(Switch::Flag(false)));
    assert!(on(Switch::Flag(true)));
    let mut d = empty();
    d.actions = Some(vec![ActionEntries {
        name: "a".to_string(),
        prompt: String::new(),
        model: None,
        base_url: None,
        api_key: None,
        key: None,
        reasoning: Some(Switch::Word("off".to_string())),
    }]);
    assert_eq!(Config::from_document(d).actions[0].reasoning, Some(false));
}

#[test]
fn defaults_are_left_out() {
    let mut c = full();
    c.api.api_key = String::new();
    c.api.reasoning = true;
    c.webdav.user = String::new();
    let d = c.document();
    assert_eq!(d.webdav, None);
    let a = d.api.unwrap();
    assert_eq!(a.api_key, None);
    assert_eq!(a.key, None);
    assert_eq!(a.reasoning, None);
    assert_eq!(a.model, Some(String::new()));
    let off = full().document();
    assert_eq!(off.api.unwrap().reasoning, Some(Switch::Flag(false)));
    assert!(off.webdav.is_some());
}

#[test]
fn saved_settings_are_loaded_again() {
    for reasoning in [false, true] {
        let mut c = full();
        c.api.reasoning = reasoning;
        let document = c.document();
        let text = Some("default = \"sk\"\n".to_string());
        c.secrets.insert("default".to_string(), "sk".to_string());
        assert_eq!(load(None, Settings::Read(document), text), Ok((c, false)));
    }
}

#[test]
fn stripped_settings_read_back() {
    let mut c = full().sanitized();
    assert_eq!(Config::from_document(c.document()), c);
    assert_eq!(c.actions[0].api_key, None);
    c.api.key = "work".to_string();
    assert_eq!(Config::from_document(c.document()).api.key, "work");
}
