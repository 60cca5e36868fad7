use cue::config::{
    clamp_length, d_height, d_hotkey, d_true, d_width, de_reasoning, is_true, load, save, save_raw,
    save_restored, set_secret, write_atomic, Action, Api, Config, File, Settings, Webdav, Write, WriteAsk,
    DEFAULT_HEIGHT, DEFAULT_WIDTH, MAX_LENGTH, MIN_HEIGHT, MIN_WIDTH, SECRETS_TEMPLATE, TEMPLATE,
};
use cue::secrets::{load_secrets, Secrets};

fn action(name: &str) -> Action {
    Action {
        name: name.to_string(),
        prompt: "{{text}}".to_string(),
        model: None,
        base_url: None,
        api_key: None,
        key: None,
        reasoning: None,
    }
}

fn settings() -> Config {
    Config {
        hotkey: "alt+q".to_string(),
        autostart: true,
        width: 560f32.to_bits(),
        height: 600f32.to_bits(),
        api: Api {
            base_url: "https://api".to_string(),
            api_key: String::new(),
            key: String::new(),
            model: "m".to_string(),
            reasoning: true,
        },
        webdav: Webdav { url: String::new(), user: String::new() },
        actions: vec![action("ask")],
        secrets: Secrets {
            entries: vec![
                ("default".to_string(), "sk-default".to_string()),
                ("work".to_string(), "sk-work".to_string()),
            ],
        },
    }
}

#[test]
fn lengths_are_single_precision_numbers() {
    assert_eq!(MIN_HEIGHT, 150f32.to_bits());
    assert_eq!(MIN_WIDTH, 200f32.to_bits());
    assert_eq!(DEFAULT_WIDTH, 560f32.to_bits());
    assert_eq!(DEFAULT_HEIGHT, 600f32.to_bits());
    assert_eq!(MAX_LENGTH, 2000f32.to_bits());
    assert_eq!(d_width(), 560f32.to_bits());
    assert_eq!(d_height(), 600f32.to_bits());
}

#[test]
fn lengths_are_bounded_like_numbers() {
    let numbers = [
        0.0f32, -0.0, 1.0, -1.0, 149.9, 150.0, 150.1, 200.0, 560.5, 2000.0, 2000.1, -2000.0, 1e30,
        f32::INFINITY, f32::NEG_INFINITY, f32::MIN_POSITIVE, 1e-45,
    ];
    for n in numbers {
        let c = clamp_length(n.to_bits(), MIN_WIDTH, MAX_LENGTH);
        assert_eq!(f32::from_bits(c), n.clamp(200.0, 2000.0));
        let mut s = settings();
        s.width = n.to_bits();
        s.height = n.to_bits();
        assert_eq!(s.size(), (n.max(200.0).to_bits(), n.max(150.0).to_bits()));
    }
    let nan = f32::NAN.to_bits();
    assert_eq!(clamp_length(nan, MIN_WIDTH, MAX_LENGTH), nan);
    let mut s = settings();
    s.width = nan;
    assert_eq!(s.size().0, f32::NAN.max(200.0).to_bits());
}

#[test]
fn template_of_the_first_run() {
    let t: toml::Table = toml::from_str(TEMPLATE).unwrap();
    assert_eq!(t["hotkey"].as_str(), Some("alt+q"));
    assert_eq!(d_hotkey(), "alt+q");
    assert_eq!(t["width"].as_integer(), Some(560));
    assert_eq!(t["height"].as_integer(), Some(600));
    let actions = t["actions"].as_array().unwrap();
    let names: Vec<&str> = actions.iter().map(|a| a["name"].as_str().unwrap()).collect();
    assert_eq!(names, ["translate", "explain", "ask"]);
    assert_eq!(
        actions[1]["prompt"].as_str(),
        Some("Explain the following concisely:\n\n{{text}}")
    );
    assert_eq!(load_secrets(Some(SECRETS_TEMPLATE.to_string())).entries.len(), 1);
}

#[test]
fn reasoning_in_words() {
    assert!(!de_reasoning("off"));
    assert!(!de_reasoning("FALSE"));
    assert!(de_reasoning("on"));
    assert!(de_reasoning(""));
    assert!(de_reasoning("offline"));
    assert!(d_true());
    assert!(is_true(&true));
    assert!(!is_true(&false));
}

#[test]
fn keys_resolve_from_action_to_global() {
    let mut c = settings();
    assert_eq!(c.endpoint(&action("a")).api_key, "sk-default");
    c.api.key = "work".to_string();
    assert_eq!(c.endpoint(&action("a")).api_key, "sk-work");
    c.api.api_key = "sk-inline".to_string();
    assert_eq!(c.endpoint(&action("a")).api_key, "sk-inline");
    let mut a = action("a");
    a.key = Some("default".to_string());
    assert_eq!(c.endpoint(&a).api_key, "sk-default");
    a.key = Some("missing".to_string());
    assert_eq!(c.endpoint(&a).api_key, "");
    a.api_key = Some(String::new());
    assert_eq!(c.endpoint(&a).api_key, "");
    a.api_key = Some("sk-own".to_string());
    assert_eq!(c.endpoint(&a).api_key, "sk-own");
}

#[test]
fn an_action_overrides_the_global_settings() {
    let c = settings();
    let mut a = action("a");
    let inherited = c.endpoint(&a);
    assert_eq!(inherited.base_url, "https://api");
    assert_eq!(inherited.model, "m");
    assert!(inherited.reasoning);
    a.base_url = Some("https://other".to_string());
    a.model = Some("n".to_string());
    a.reasoning = Some(false);
    let own = c.endpoint(&a);
    assert_eq!(own.base_url, "https://other");
    assert_eq!(own.model, "n");
    assert!(!own.reasoning);
}

#[test]
fn name_of_the_global_key() {
    let mut c = settings();
    assert_eq!(c.api.key_name(), "default");
    c.api.key = "work".to_string();
    assert_eq!(c.api.key_name(), "work");
}

#[test]
fn empty_connection() {
    let mut w = Webdav { url: String::new(), user: String::new() };
    assert!(w.is_empty());
    w.user = "u".to_string();
    assert!(!w.is_empty());
}

#[test]
fn blank_settings() {
    let c = Config::default();
    assert_eq!(c.hotkey, "");
    assert_eq!(c.width, 0f32.to_bits());
    assert!(!c.api.reasoning);
    assert!(c.actions.is_empty());
    assert_eq!(c.size(), (200f32.to_bits(), 150f32.to_bits()));
}

#[test]
fn a_backup_holds_no_inline_key() {
    let mut c = settings();
    c.api.api_key = "sk-inline".to_string();
    c.api.key = "work".to_string();
    c.actions[0].api_key = Some("sk-own".to_string());
    let b = c.for_backup("https://dav".to_string(), "me".to_string());
    assert_eq!(b.api.api_key, "");
    assert_eq!(b.api.key, "work");
    assert_eq!(b.actions[0].api_key, None);
    assert_eq!(b.webdav.url, "https://dav");
    assert_eq!(b.webdav.user, "me");
    assert_eq!(b.actions[0].name, "ask");
}

#[test]
fn a_backup_says_nothing_of_keys() {
    let mut c = settings();
    c.api.api_key = "sk-inline".to_string();
    c.actions[0].api_key = Some(String::new());
    c.secrets.insert("webdav".to_string(), "pw".to_string());
    let backup = |c: Config| c.for_backup("u".to_string(), "w".to_string());
    assert_eq!(backup(c), backup(settings()));
    assert!(backup(settings()).secrets.entries.is_empty());
}

#[test]
fn a_named_key_survives_a_backup() {
    let mut c = settings();
    c.api.key = "work".to_string();
    let before = c.endpoint(&c.actions[0]).api_key;
    let mut b = c.for_backup(String::new(), String::new());
    assert_eq!(b.endpoint(&b.actions[0]).api_key, "");
    b.secrets = settings().secrets;
    assert_eq!(b.endpoint(&b.actions[0]).api_key, before);
    assert_eq!(before, "sk-work");
}

#[test]
fn loading() {
    let secrets = Some("default = \"k\"\n".to_string());
    let (c, created) = load(None, Settings::Read(settings().document()), secrets.clone()).unwrap();
    assert!(!created);
    assert_eq!(c.secrets.get("default"), "k");
    assert_eq!(c.secrets.get("work"), "");
    let mut saved = settings();
    saved.secrets = load_secrets(secrets);
    assert_eq!(c, saved);
    assert_eq!(c.hotkey, "alt+q");
    let (_, created) = load(Some(Ok(())), Settings::Read(settings().document()), None).unwrap();
    assert!(created);
}

#[test]
fn loading_that_fails() {
    let written = Some(Err("disk full".to_string()));
    assert_eq!(load(written, Settings::Read(settings().document()), None), Err("disk full".to_string()));
    let unread = Settings::Unread("denied".to_string());
    assert_eq!(load(None, unread, None), Err("denied".to_string()));
    let invalid = Settings::Invalid("line 1".to_string());
    assert_eq!(load(None, invalid, None), Err("settings.toml: line 1".to_string()));
}

#[test]
fn writing_goes_through_a_temporary_file() {
    let (w, ask) = save_raw("text".to_string());
    assert_eq!(ask, WriteAsk::Temp(File::Settings, "text".to_string()));
    let (w, ask) = write_atomic(w, Ok(()));
    assert_eq!(ask, WriteAsk::Rename(File::Settings));
    let (_, ask) = write_atomic(w, Ok(()));
    assert_eq!(ask, WriteAsk::Finish(Ok(())));
}

#[test]
fn a_file_is_kept_when_writing_fails() {
    let (w, _) = save(Ok("text".to_string()));
    assert_eq!(w, Write::Writing(File::Settings));
    let (w, ask) = write_atomic(w, Err("full".to_string()));
    assert_eq!(w, Write::Finished);
    assert_eq!(ask, WriteAsk::Finish(Err("full".to_string())));
    let (w, _) = write_atomic(Write::Writing(File::Secrets), Ok(()));
    let (_, ask) = write_atomic(w, Err("busy".to_string()));
    assert_eq!(ask, WriteAsk::Finish(Err("busy".to_string())));
    let (_, ask) = save(Err("no toml".to_string()));
    assert_eq!(ask, WriteAsk::Finish(Err("no toml".to_string())));
}

#[test]
fn a_secret_is_written_to_its_file() {
    let (w, ask) = set_secret(Some("a = \"1\"\n".to_string()), "b", "x\"y");
    assert_eq!(w, Write::Writing(File::Secrets));
    assert_eq!(ask, WriteAsk::Temp(File::Secrets, "a = \"1\"\nb = 'x\"y'\n".to_string()));
}

#[test]
fn restored_settings_are_written_as_toml_or_as_they_came() {
    let (w, ask) = save_restored(Ok("merged".to_string()), "body".to_string());
    assert_eq!(w, Write::Writing(File::Settings));
    assert_eq!(ask, WriteAsk::Temp(File::Settings, "merged".to_string()));
    let (_, ask) = save_restored(Err("no toml".to_string()), "body".to_string());
    assert_eq!(ask, WriteAsk::Temp(File::Settings, "body".to_string()));
}
