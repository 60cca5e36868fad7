use cue::config::Config;
use cue::form::{apply_form, Form, FormAction};
use cue::page::settings_payload;

fn action(name: &str, reasoning: Option<bool>, model: &str) -> FormAction {
    FormAction {
        name: name.to_string(),
        prompt: " {{text}} ".to_string(),
        model: model.to_string(),
        reasoning,
        base_url: None,
        api_key: Some("inline".to_string()),
        key: None,
    }
}

fn form() -> Form {
    Form {
        hotkey: " alt+w ".to_string(),
        autostart: true,
        width: 100f32.to_bits(),
        height: 5000f32.to_bits(),
        base_url: " https://api ".to_string(),
        model: " m ".to_string(),
        reasoning: true,
        secret: " sk ".to_string(),
        dav_url: " https://dav ".to_string(),
        dav_user: " me ".to_string(),
        dav_pass: " pw ".to_string(),
        actions: vec![
            action(" ask ", Some(true), " "),
            action("  ", None, "x"),
            action("tell", Some(false), " n "),
        ],
    }
}

#[test]
fn saving_trims_and_bounds() {
    let mut c = Config::default();
    c.api.key = "work".to_string();
    c.api.api_key = "sk-inline".to_string();
    let plan = apply_form(&mut c, form());
    assert_eq!(c.hotkey, "alt+w");
    assert!(c.autostart);
    assert_eq!(c.width, 200f32.to_bits());
    assert_eq!(c.height, 2000f32.to_bits());
    assert_eq!(c.api.base_url, "https://api");
    assert_eq!(c.api.model, "m");
    assert_eq!(c.api.key, "work");
    assert_eq!(c.api.api_key, "sk-inline");
    assert!(c.api.reasoning);
    assert_eq!(c.webdav.url, "https://dav");
    assert_eq!(c.webdav.user, "me");
    assert_eq!(plan.key_name, "work");
    assert_eq!(plan.secret, "sk");
    assert_eq!(plan.dav_name, "webdav");
    assert_eq!(plan.dav_pass, " pw ");
    assert!(plan.unnamed);
}

#[test]
fn saved_actions_are_named_and_inherit() {
    let mut c = Config::default();
    apply_form(&mut c, form());
    assert_eq!(c.actions.len(), 2);
    assert_eq!(c.actions[0].name, "ask");
    assert_eq!(c.actions[0].prompt, " {{text}} ");
    assert_eq!(c.actions[0].model, None);
    assert_eq!(c.actions[0].reasoning, None);
    assert_eq!(c.actions[0].api_key, Some("inline".to_string()));
    assert_eq!(c.actions[1].name, "tell");
    assert_eq!(c.actions[1].model, Some("n".to_string()));
    assert_eq!(c.actions[1].reasoning, Some(false));
}

#[test]
fn saved_reasoning_means_the_same() {
    for global in [false, true] {
        for own in [None, Some(false), Some(true)] {
            let mut c = Config::default();
            let mut f = form();
            f.reasoning = global;
            f.actions = vec![action("a", own, "")];
            apply_form(&mut c, f);
            assert_eq!(c.endpoint(&c.actions[0]).reasoning, own.unwrap_or(global));
        }
    }
}

#[test]
fn all_actions_named() {
    let mut c = Config::default();
    let mut f = form();
    f.actions.remove(1);
    assert!(!apply_form(&mut c, f).unnamed);
}

#[test]
fn saved_secrets_are_found_again() {
    let mut c = Config::default();
    apply_form(&mut c, form());
    assert_eq!(c.secrets.get("default"), "sk");
    assert_eq!(c.secrets.get("webdav"), " pw ");
    let mut c = Config::default();
    c.api.key = "webdav".to_string();
    apply_form(&mut c, form());
    assert_eq!(c.secrets.get("webdav"), " pw ");
}

#[test]
fn a_tidy_form_is_shown_as_saved() {
    let mut c = Config::default();
    let mut f = form();
    f.hotkey = "alt+w".to_string();
    f.secret = "sk".to_string();
    f.width = 300f32.to_bits();
    f.actions = vec![action("tell", Some(false), "n"), action("ask", None, "")];
    apply_form(&mut c, f);
    assert_eq!(c.width, 300f32.to_bits());
    let text = settings_payload(&c, None, "300.0".to_string(), "600.0".to_string());
    let v: serde_json::Value = serde_json::from_str(&text).unwrap();
    assert_eq!(v["hotkey"].as_str(), Some("alt+w"));
    assert_eq!(v["secret"].as_str(), Some("sk"));
    assert_eq!(v["dav_pass"].as_str(), Some(" pw "));
    assert_eq!(v["actions"][0]["reasoning"].as_bool(), Some(false));
    assert_eq!(v["actions"][0]["model"].as_str(), Some("n"));
    assert!(v["actions"][1]["reasoning"].is_null());
    assert_eq!(v["actions"][1]["model"].as_str(), Some(""));
}
