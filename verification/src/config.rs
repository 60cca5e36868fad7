//! The settings: their schema, where keys come from, and how files are written.
use crate::api::{Endpoint, EndpointView};
use crate::document::{settings_in, Document};
use crate::secrets::{load_secrets, secret_in, secrets_of, with_secret, Secrets};
use crate::text::{lower, lower_str, opt_view, same};
use vstd::prelude::*;
use vstd::string::StringExecFns;

verus! {

/// The settings file of a first run.
pub const TEMPLATE: &'static str = "hotkey    = \"alt+q\"
autostart = false
width     = 560
height    = 600

[api]
base_url = \"https://openrouter.ai/api/v1\"
model    = \"openai/gpt-4o-mini\"
# api key: put it in the secrets file (see key below), or inline: api_key = \"sk-...\"
key      = \"default\"

[[actions]]
name   = \"translate\"
prompt = \"\"\"
Translate the following into Chinese (into English if it is already Chinese).
Output only the translation.

{{text}}\"\"\"

[[actions]]
name   = \"explain\"
prompt = \"\"\"
Explain the following concisely:

{{text}}\"\"\"

[[actions]]
name   = \"ask\"
prompt = \"{{text}}\"
# per-action overrides:
# model    = \"...\"
# base_url = \"...\"
# key      = \"...\"   # a name in the secrets file
# api_key  = \"...\"   # or an inline key
";

/// The secrets file of a first run.
pub const SECRETS_TEMPLATE: &'static str = "default = \"\"\n";

/// 150.0 as a length.
pub const MIN_HEIGHT: u32 = 0x4316_0000;

/// 200.0 as a length.
pub const MIN_WIDTH: u32 = 0x4348_0000;

/// 560.0 as a length.
pub const DEFAULT_WIDTH: u32 = 0x440C_0000;

/// 600.0 as a length.
pub const DEFAULT_HEIGHT: u32 = 0x4416_0000;

/// 2000.0 as a length.
pub const MAX_LENGTH: u32 = 0x44FA_0000;

/// The settings. Lengths are single-precision numbers, held by their IEEE 754 bits: the bits of
/// numbers that are not negative stand in the order of the numbers.
#[derive(Debug, PartialEq, Eq)]
pub struct Config {
    pub hotkey: String,
    pub autostart: bool,
    pub width: u32,
    pub height: u32,
    pub api: Api,
    pub webdav: Webdav,
    pub actions: Vec<Action>,
    pub secrets: Secrets,
}

pub struct ConfigView {
    pub hotkey: Seq<char>,
    pub autostart: bool,
    pub width: u32,
    pub height: u32,
    pub api: ApiView,
    pub webdav: WebdavView,
    pub actions: Seq<ActionView>,
    pub secrets: Map<Seq<char>, Seq<char>>,
}

impl View for Config {
    type V = ConfigView;

    open spec fn view(&self) -> ConfigView {
        ConfigView {
            hotkey: self.hotkey@,
            autostart: self.autostart,
            width: self.width,
            height: self.height,
            api: self.api@,
            webdav: self.webdav@,
            actions: action_views(self.actions@),
            secrets: self.secrets@,
        }
    }
}

#[derive(Debug, PartialEq, Eq)]
pub struct Webdav {
    pub url: String,
    pub user: String,
}

pub struct WebdavView {
    pub url: Seq<char>,
    pub user: Seq<char>,
}

impl View for Webdav {
    type V = WebdavView;

    open spec fn view(&self) -> WebdavView {
        WebdavView { url: self.url@, user: self.user@ }
    }
}

#[derive(Debug, PartialEq, Eq)]
pub struct Api {
    pub base_url: String,
    pub api_key: String,
    pub key: String,
    pub model: String,
    /// true = model default, false = disabled; per-action override wins
    pub reasoning: bool,
}

pub struct ApiView {
    pub base_url: Seq<char>,
    pub api_key: Seq<char>,
    pub key: Seq<char>,
    pub model: Seq<char>,
    pub reasoning: bool,
}

impl View for Api {
    type V = ApiView;

    open spec fn view(&self) -> ApiView {
        ApiView {
            base_url: self.base_url@,
            api_key: self.api_key@,
            key: self.key@,
            model: self.model@,
            reasoning: self.reasoning,
        }
    }
}

/// A prompt that can be run on a text.
#[derive(Debug, PartialEq, Eq)]
pub struct Action {
    pub name: String,
    pub prompt: String,
    pub model: Option<String>,
    pub base_url: Option<String>,
    pub api_key: Option<String>,
    pub key: Option<String>,
    /// None = inherit the global setting
    pub reasoning: Option<bool>,
}

pub struct ActionView {
    pub name: Seq<char>,
    pub prompt: Seq<char>,
    pub model: Option<Seq<char>>,
    pub base_url: Option<Seq<char>>,
    pub api_key: Option<Seq<char>>,
    pub key: Option<Seq<char>>,
    pub reasoning: Option<bool>,
}

impl View for Action {
    type V = ActionView;

    open spec fn view(&self) -> ActionView {
        ActionView {
            name: self.name@,
            prompt: self.prompt@,
            model: opt_view(self.model),
            base_url: opt_view(self.base_url),
            api_key: opt_view(self.api_key),
            key: opt_view(self.key),
            reasoning: self.reasoning,
        }
    }
}

pub open spec fn action_views(v: Seq<Action>) -> Seq<ActionView> {
    v.map_values(|a: Action| a@)
}

/// The length is not a number.
pub open spec fn not_a_number(bits: u32) -> bool {
    bits % 0x8000_0000 > 0x7F80_0000
}

pub open spec fn negative(bits: u32) -> bool {
    bits >= 0x8000_0000
}

/// The larger of a length and a positive bound; the bound where the length is not a number.
pub open spec fn at_least(bits: u32, bound: u32) -> u32 {
    if not_a_number(bits) || negative(bits) || bits < bound {
        bound
    } else {
        bits
    }
}

/// A length brought between two positive bounds; what is not a number stays so.
pub open spec fn clamped(bits: u32, low: u32, high: u32) -> u32 {
    if not_a_number(bits) {
        bits
    } else if negative(bits) || bits < low {
        low
    } else if bits > high {
        high
    } else {
        bits
    }
}

pub fn clamp_length(bits: u32, low: u32, high: u32) -> (r: u32)
    ensures
        r == clamped(bits, low, high),
{
    if bits % 0x8000_0000 > 0x7F80_0000 {
        bits
    } else if bits >= 0x8000_0000 || bits < low {
        low
    } else if bits > high {
        high
    } else {
        bits
    }
}

fn max_length(bits: u32, bound: u32) -> (r: u32)
    ensures
        r == at_least(bits, bound),
{
    if bits % 0x8000_0000 > 0x7F80_0000 || bits >= 0x8000_0000 || bits < bound {
        bound
    } else {
        bits
    }
}

/// The default of reasoning where the settings do not say.
pub fn d_true() -> (r: bool)
    ensures
        r,
{
    true
}

/// The default, which is left out of the settings file.
pub fn is_true(b: &bool) -> (r: bool)
    ensures
        r == *b,
{
    *b
}

pub fn d_hotkey() -> (r: String)
    ensures
        r@ == "alt+q"@,
{
    "alt+q".to_owned()
}

pub fn d_width() -> (r: u32)
    ensures
        r == DEFAULT_WIDTH,
{
    DEFAULT_WIDTH
}

pub fn d_height() -> (r: u32)
    ensures
        r == DEFAULT_HEIGHT,
{
    DEFAULT_HEIGHT
}

/// The reasoning switch in its old form, a word: only "off" and "false" switch it off.
pub fn de_reasoning(word: &str) -> (r: bool)
    ensures
        r == !(lower(word@) == "off"@ || lower(word@) == "false"@),
{
    let l = lower_str(word);
    !(same(l.as_str(), "off") || same(l.as_str(), "false"))
}

impl Webdav {
    pub fn is_empty(&self) -> (r: bool)
        ensures
            r == (self@.url.len() == 0 && self@.user.len() == 0),
    {
        self.url.as_str().is_empty() && self.user.as_str().is_empty()
    }
}

/// The name in the secrets file of the global key.
pub open spec fn global_key_name(api: ApiView) -> Seq<char> {
    if api.key.len() == 0 {
        "default"@
    } else {
        api.key
    }
}

impl Api {
    /// Secrets-file entry name for the global key.
    pub fn key_name(&self) -> (r: &str)
        ensures
            r@ == global_key_name(self@),
    {
        if self.key.as_str().is_empty() {
            "default"
        } else {
            self.key.as_str()
        }
    }
}

/// Which key an action uses. Action-level settings win over global ones; within a level an inline
/// key wins over a name in the secrets file.
pub open spec fn key_for(c: ConfigView, a: ActionView) -> Seq<char> {
    if a.api_key is Some && a.api_key->0.len() > 0 {
        a.api_key->0
    } else if a.key is Some {
        secret_in(c.secrets, a.key->0)
    } else if c.api.api_key.len() > 0 {
        c.api.api_key
    } else {
        secret_in(c.secrets, global_key_name(c.api))
    }
}

/// Where an action sends its request: its own settings, and the global ones where it has none.
pub open spec fn endpoint_for(c: ConfigView, a: ActionView) -> EndpointView {
    EndpointView {
        base_url: match a.base_url {
            Some(u) => u,
            None => c.api.base_url,
        },
        api_key: key_for(c, a),
        model: match a.model {
            Some(m) => m,
            None => c.api.model,
        },
        reasoning: match a.reasoning {
            Some(b) => b,
            None => c.api.reasoning,
        },
    }
}

/// An action without its inline key.
pub open spec fn stripped(a: ActionView) -> ActionView {
    ActionView { api_key: None, ..a }
}

/// The settings without keys, be they inline or in the secrets file.
pub open spec fn sanitized(c: ConfigView) -> ConfigView {
    ConfigView {
        api: ApiView { api_key: Seq::empty(), ..c.api },
        actions: c.actions.map_values(|a: ActionView| stripped(a)),
        secrets: Map::empty(),
        ..c
    }
}

/// What the settings file holds of the settings: all but the secrets, which have a file of their
/// own.
pub open spec fn file_part(c: ConfigView) -> ConfigView {
    ConfigView { secrets: Map::empty(), ..c }
}

/// The settings that were read from their file, with the secrets of a file with this text.
pub open spec fn with_secrets(read: ConfigView, secrets_text: Option<Seq<char>>) -> ConfigView {
    ConfigView { secrets: secrets_of(secrets_text), ..read }
}

/// The settings before anything was read.
pub open spec fn blank() -> ConfigView {
    ConfigView {
        hotkey: Seq::empty(),
        autostart: false,
        width: 0,
        height: 0,
        api: ApiView {
            base_url: Seq::empty(),
            api_key: Seq::empty(),
            key: Seq::empty(),
            model: Seq::empty(),
            reasoning: false,
        },
        webdav: WebdavView { url: Seq::empty(), user: Seq::empty() },
        actions: Seq::empty(),
        secrets: Map::empty(),
    }
}

impl Default for Config {
    fn default() -> (r: Self)
        ensures
            r@ == blank(),
    {
        let r = Config {
            hotkey: String::new(),
            autostart: false,
            width: 0,
            height: 0,
            api: Api {
                base_url: String::new(),
                api_key: String::new(),
                key: String::new(),
                model: String::new(),
                reasoning: false,
            },
            webdav: Webdav { url: String::new(), user: String::new() },
            actions: Vec::new(),
            secrets: Secrets::new(),
        };
        assert(r@.actions =~= Seq::<ActionView>::empty());
        r
    }
}

impl Config {
    /// The size of the window, at least 200 by 150.
    pub fn size(&self) -> (r: (u32, u32))
        ensures
            r == (at_least(self.width, MIN_WIDTH), at_least(self.height, MIN_HEIGHT)),
    {
        (max_length(self.width, MIN_WIDTH), max_length(self.height, MIN_HEIGHT))
    }

    /// Where `action` sends its request, and with which key.
    pub fn endpoint(&self, action: &Action) -> (r: Endpoint)
        ensures
            r@ == endpoint_for(self@, action@),
    {
        let mut inline = String::new();
        if let Some(k) = &action.api_key {
            inline = k.clone();
        }
        let api_key = if !inline.as_str().is_empty() {
            inline
        } else if let Some(name) = &action.key {
            self.secrets.get(name.as_str())
        } else if !self.api.api_key.as_str().is_empty() {
            self.api.api_key.clone()
        } else {
            self.secrets.get(self.api.key_name())
        };
        let base_url = match &action.base_url {
            Some(u) => u.clone(),
            None => self.api.base_url.clone(),
        };
        let model = match &action.model {
            Some(m) => m.clone(),
            None => self.api.model.clone(),
        };
        let reasoning: bool = match action.reasoning {
            Some(b) => b,
            None => self.api.reasoning,
        };
        Endpoint { base_url, api_key, model, reasoning }
    }

    /// The settings without inline keys and without secrets; the only form that ever leaves this
    /// machine.
    pub fn sanitized(self) -> (r: Config)
        ensures
            r@ == sanitized(self@),
    {
        let mut c = self;
        c.api.api_key = String::new();
        c.secrets = Secrets::new();
        let ghost plain = c.actions@;
        let mut i: usize = 0;
        while i < c.actions.len()
            invariant
                i <= c.actions.len(),
                c.actions@.len() == plain.len(),
                forall|k: int|
                    0 <= k < plain.len() ==> #[trigger] c.actions@[k]@ == if k < i {
                        stripped(plain[k]@)
                    } else {
                        plain[k]@
                    },
                c@ == (ConfigView { actions: c@.actions, ..sanitized(self@) }),
                action_views(plain) == self@.actions,
            decreases c.actions.len() - i,
        {
            let ghost was = c.actions@;
            assert(was[i as int]@ == plain[i as int]@);
            c.actions[i].api_key = None;
            assert(c.actions@[i as int]@ == stripped(was[i as int]@));
            assert(forall|k: int|
                0 <= k < plain.len() && k != i ==> #[trigger] c.actions@[k] == was[k]);
            i += 1;
        }
        assert(c@.actions =~= sanitized(self@).actions);
        c
    }

    /// The settings as they are backed up: with the connection that is used for it, since else a
    /// later restore would wipe that, and without keys.
    pub fn for_backup(self, url: String, user: String) -> (r: Config)
        ensures
            r@ == backed_up(self@, url@, user@),
    {
        let mut c = self;
        c.webdav = Webdav { url, user };
        c.sanitized()
    }
}

/// The settings with this WebDAV connection and without keys.
pub open spec fn backed_up(c: ConfigView, url: Seq<char>, user: Seq<char>) -> ConfigView {
    sanitized(ConfigView { webdav: WebdavView { url, user }, ..c })
}

/// What came of reading the settings file.
#[derive(Debug, PartialEq, Eq)]
pub enum Settings {
    /// The file could not be read.
    Unread(String),
    /// The text is not valid.
    Invalid(String),
    Read(Document),
}

/// Why the settings could not be loaded.
pub open spec fn load_error(
    written: Option<Result<(), String>>,
    settings: Settings,
) -> Option<Seq<char>> {
    match written {
        Some(Err(e)) => Some(e@),
        _ => match settings {
            Settings::Unread(e) => Some(e@),
            Settings::Invalid(e) => Some("settings.toml: "@ + e@),
            Settings::Read(_) => None,
        },
    }
}

/// The loaded settings, and whether their file is new. `written` is what came of writing the
/// template where there was no file; the secrets come from a file of their own.
pub fn load(
    written: Option<Result<(), String>>,
    settings: Settings,
    secrets_text: Option<String>,
) -> (r: Result<(Config, bool), String>)
    ensures
        match r {
            Ok((c, created)) => {
                &&& load_error(written, settings) is None
                &&& created == (written is Some)
                &&& c@ == with_secrets(
                    settings_in(settings->Read_0@),
                    opt_view(secrets_text),
                )
            },
            Err(e) => load_error(written, settings) == Some(e@),
        },
{
    let created: bool = written.is_some();
    if let Some(Err(e)) = written {
        return Err(e);
    }
    match settings {
        Settings::Unread(e) => Err(e),
        Settings::Invalid(e) => {
            let mut s = "settings.toml: ".to_owned();
            s.append(e.as_str());
            Err(s)
        },
        Settings::Read(d) => {
            let mut cfg = Config::from_document(d);
            cfg.secrets = load_secrets(secrets_text);
            Ok((cfg, created))
        },
    }
}

#[derive(Debug, PartialEq, Eq, Clone, Copy)]
pub enum File {
    Settings,
    Secrets,
}

/// What to do next to write a file.
#[derive(Debug, PartialEq, Eq)]
pub enum WriteAsk<T> {
    /// Write this text to a temporary file beside the file.
    Temp(File, T),
    /// Put the temporary file in the place of the file.
    Rename(File),
    /// Writing is over.
    Finish(Result<(), T>),
}

pub open spec fn result_view(r: Result<(), String>) -> Result<(), Seq<char>> {
    match r {
        Ok(_) => Ok(()),
        Err(e) => Err(e@),
    }
}

impl View for WriteAsk<String> {
    type V = WriteAsk<Seq<char>>;

    open spec fn view(&self) -> WriteAsk<Seq<char>> {
        match self {
            WriteAsk::Temp(f, s) => WriteAsk::Temp(*f, s@),
            WriteAsk::Rename(f) => WriteAsk::Rename(*f),
            WriteAsk::Finish(r) => WriteAsk::Finish(result_view(*r)),
        }
    }
}

/// Where the writing of a file stands.
#[derive(Debug, PartialEq, Eq, Clone, Copy)]
pub enum Write {
    Writing(File),
    Renaming,
    Finished,
}

/// Where writing goes when the last thing to do came to `done`, and what to do then.
pub open spec fn next_write(w: Write, done: Result<(), Seq<char>>) -> (Write, WriteAsk<Seq<char>>) {
    match (w, done) {
        (Write::Writing(f), Ok(_)) => (Write::Renaming, WriteAsk::Rename(f)),
        _ => (Write::Finished, WriteAsk::Finish(done)),
    }
}

/// One step of writing a file. Files are read at any moment, so a file is never written in place.
pub fn write_atomic(state: Write, done: Result<(), String>) -> (r: (Write, WriteAsk<String>))
    ensures
        (r.0, r.1@) == next_write(state, result_view(done)),
{
    match (state, done) {
        (Write::Writing(f), Ok(_)) => (Write::Renaming, WriteAsk::Rename(f)),
        (_, done) => (Write::Finished, WriteAsk::Finish(done)),
    }
}

/// Begins to write `s` as the settings file.
pub fn save_raw(s: String) -> (r: (Write, WriteAsk<String>))
    ensures
        r.0 == Write::Writing(File::Settings),
        r.1@ == WriteAsk::Temp(File::Settings, s@),
{
    (Write::Writing(File::Settings), WriteAsk::Temp(File::Settings, s))
}

/// Begins to write restored settings: their TOML, or the restored text itself where there is none.
pub fn save_restored(document: Result<String, String>, body: String) -> (r: (
    Write,
    WriteAsk<String>,
))
    ensures
        r.0 == Write::Writing(File::Settings),
        r.1@ == WriteAsk::Temp(
            File::Settings,
            match document {
                Ok(s) => s@,
                Err(_) => body@,
            },
        ),
{
    match document {
        Ok(s) => save_raw(s),
        Err(_) => save_raw(body),
    }
}

/// Begins to write the settings file, from the settings in TOML or the reason why there are none.
pub fn save(document: Result<String, String>) -> (r: (Write, WriteAsk<String>))
    ensures
        (r.0, r.1@) == match document {
            Ok(s) => (Write::Writing(File::Settings), WriteAsk::Temp(File::Settings, s@)),
            Err(e) => (Write::Finished, WriteAsk::Finish(Err(e@))),
        },
{
    match document {
        Ok(s) => save_raw(s),
        Err(e) => (Write::Finished, WriteAsk::Finish(Err(e))),
    }
}

/// Begins to write the secrets file with the key `name` set to `value`, where the file now holds
/// `text`. What is written is read back as the old secrets with that key.
pub fn set_secret(text: Option<String>, name: &str, value: &str) -> (r: (Write, WriteAsk<String>))
    ensures
        ({
            let table = secrets_of(opt_view(text)).insert(name@, value@);
            match crate::secrets::toml_document(table) {
                Ok(s) => {
                    &&& r.0 == Write::Writing(File::Secrets)
                    &&& r.1@ == WriteAsk::Temp(File::Secrets, s)
                    &&& secrets_of(Some(s)) == table
                },
                Err(e) => r.0 == Write::Finished && r.1@ == WriteAsk::Finish(
                    Err::<(), Seq<char>>(e),
                ),
            }
        }),
{
    match with_secret(text, name, value) {
        Ok(s) => (Write::Writing(File::Secrets), WriteAsk::Temp(File::Secrets, s)),
        Err(e) => (Write::Finished, WriteAsk::Finish(Err(e))),
    }
}

/// A file is replaced only once its new text has been written in full, and writing succeeds
/// exactly where both the temporary file was written and it took the file's place.
pub proof fn law_file_replaced_only_when_written(
    f: File,
    written: Result<(), Seq<char>>,
    renamed: Result<(), Seq<char>>,
)
    ensures
        ({
            let (w1, ask1) = next_write(Write::Writing(f), written);
            let (w2, ask2) = next_write(w1, renamed);
            &&& ask1 == WriteAsk::<Seq<char>>::Rename(f) <==> written is Ok
            &&& written is Err ==> ask1 == WriteAsk::Finish(written) && w1 is Finished
            &&& written is Ok ==> ask2 == WriteAsk::Finish(renamed) && w2 is Finished
        }),
{
}

/// What leaves this machine holds no key, inline or from the secrets file, and stripping it again
/// changes nothing.
pub proof fn law_backup_holds_no_key(c: ConfigView, url: Seq<char>, user: Seq<char>)
    ensures
        backed_up(c, url, user).api.api_key.len() == 0,
        forall|i: int|
            0 <= i < c.actions.len() ==> (#[trigger] backed_up(c, url, user).actions[i]).api_key
                is None,
        backed_up(c, url, user).secrets == Map::<Seq<char>, Seq<char>>::empty(),
        sanitized(backed_up(c, url, user)) == backed_up(c, url, user),
{
    let b = backed_up(c, url, user);
    assert(sanitized(b).actions =~= b.actions);
}

/// Two settings differ at most in their inline keys and their secrets.
pub open spec fn same_but_keys(c: ConfigView, d: ConfigView) -> bool {
    &&& d == ConfigView {
        api: ApiView { api_key: d.api.api_key, ..c.api },
        actions: d.actions,
        secrets: d.secrets,
        ..c
    }
    &&& d.actions.len() == c.actions.len()
    &&& forall|i: int|
        0 <= i < c.actions.len() ==> #[trigger] d.actions[i] == (ActionView {
            api_key: d.actions[i].api_key,
            ..c.actions[i]
        })
}

/// Nothing about a key, not even that there is one, leaves this machine: settings that differ only
/// in keys are backed up alike. And nothing else is lost: a backup differs from the settings with
/// its connection only in keys.
pub proof fn law_a_backup_says_nothing_of_keys(
    c: ConfigView,
    d: ConfigView,
    url: Seq<char>,
    user: Seq<char>,
)
    ensures
        same_but_keys(c, d) ==> sanitized(c) == sanitized(d),
        same_but_keys(c, d) ==> backed_up(c, url, user) == backed_up(d, url, user),
        same_but_keys(ConfigView { webdav: WebdavView { url, user }, ..c }, backed_up(c, url, user)),
        same_but_keys(c, sanitized(c)),
{
    if same_but_keys(c, d) {
        assert(forall|i: int|
            0 <= i < c.actions.len() ==> stripped(c.actions[i]) == stripped(#[trigger] d.actions[i]));
        assert(sanitized(c).actions =~= sanitized(d).actions);
    }
}

/// Stripping keys leaves an action the key that it has by name, once the secrets file is at hand
/// again: its own, or the global one where no inline key stands before it.
pub proof fn law_named_keys_survive_a_backup(
    c: ConfigView,
    i: int,
    url: Seq<char>,
    user: Seq<char>,
)
    requires
        0 <= i < c.actions.len(),
        c.actions[i].api_key is None || c.actions[i].api_key->0.len() == 0,
        c.actions[i].key is Some || c.api.api_key.len() == 0,
    ensures
        ({
            let restored = ConfigView { secrets: c.secrets, ..backed_up(c, url, user) };
            key_for(restored, restored.actions[i]) == key_for(c, c.actions[i])
        }),
{
}

/// Bounded lengths lie within their bounds, unless they are no numbers; a window is never smaller
/// than its bounds.
pub proof fn law_lengths_within_bounds(bits: u32, low: u32, high: u32)
    requires
        low <= high <= 0x7F80_0000,
    ensures
        !not_a_number(bits) ==> low <= clamped(bits, low, high) <= high,
        !not_a_number(bits) ==> !negative(clamped(bits, low, high)),
        low <= at_least(bits, low) <= 0x7F80_0000,
{
}

/// Where an action's key comes from: its own inline key; else the key that it names; else the
/// global inline key; else the key that the global settings name, `default` where they name none.
/// A name that the secrets file lacks gives an empty key.
pub proof fn law_keys_resolve_in_order(c: ConfigView, a: ActionView, k: Seq<char>, n: Seq<char>)
    ensures
        ({
            let has_own = a.api_key matches Some(x) && x.len() > 0;
            let named = |name: Seq<char>|
                if c.secrets.contains_key(name) {
                    c.secrets[name]
                } else {
                    Seq::empty()
                };
            let key = endpoint_for(c, a).api_key;
            &&& a.api_key == Some(k) && k.len() > 0 ==> key == k
            &&& !has_own && a.key == Some(n) ==> key == named(n)
            &&& !has_own && a.key is None && c.api.api_key.len() > 0 ==> key == c.api.api_key
            &&& !has_own && a.key is None && c.api.api_key.len() == 0 && c.api.key.len() > 0 ==> key
                == named(c.api.key)
            &&& !has_own && a.key is None && c.api.api_key.len() == 0 && c.api.key.len() == 0 ==> key
                == named("default"@)
        }),
{
}

/// An action asks at its own address, with its own model and its own switch, and at the global ones
/// where it has none.
pub proof fn law_an_action_overrides_the_global_settings(
    c: ConfigView,
    a: ActionView,
    s: Seq<char>,
    b: bool,
)
    ensures
        a.base_url == Some(s) ==> endpoint_for(c, a).base_url == s,
        a.base_url is None ==> endpoint_for(c, a).base_url == c.api.base_url,
        a.model == Some(s) ==> endpoint_for(c, a).model == s,
        a.model is None ==> endpoint_for(c, a).model == c.api.model,
        a.reasoning == Some(b) ==> endpoint_for(c, a).reasoning == b,
        a.reasoning is None ==> endpoint_for(c, a).reasoning == c.api.reasoning,
{
}

/// A length that lies within the bounds is left alone, and one outside is brought to the nearer
/// bound; what is not a number stays as it is where a length is bounded, and gives way to the bound
/// where a window is sized.
pub proof fn law_lengths_are_changed_only_at_their_bounds(bits: u32, low: u32, high: u32)
    requires
        low <= high <= 0x7F80_0000,
    ensures
        low <= bits <= high ==> clamped(bits, low, high) == bits,
        bits < low ==> clamped(bits, low, high) == low,
        high < bits <= 0x7F80_0000 ==> clamped(bits, low, high) == high,
        0x8000_0000 <= bits <= 0xFF80_0000 ==> clamped(bits, low, high) == low,
        0x7F80_0000 < bits < 0x8000_0000 || bits > 0xFF80_0000 ==> clamped(bits, low, high) == bits,
        low <= bits <= 0x7F80_0000 ==> at_least(bits, low) == bits,
        bits < low || bits > 0x7F80_0000 ==> at_least(bits, low) == low,
{
}

/// Loading fails exactly where the template could not be written, the file could not be read or its
/// text is not valid, and the first of these is what is told.
pub proof fn law_loading_fails_for_the_first_reason(e: String, f: String, d: Document)
    ensures
        forall|s: Settings| #[trigger] load_error(Some(Err(e)), s) == Some(e@),
        load_error(None, Settings::Unread(f)) == Some(f@),
        load_error(Some(Ok(())), Settings::Unread(f)) == Some(f@),
        load_error(None, Settings::Invalid(f)) == Some("settings.toml: "@ + f@),
        load_error(Some(Ok(())), Settings::Invalid(f)) == Some("settings.toml: "@ + f@),
        load_error(None, Settings::Read(d)) is None,
        load_error(Some(Ok(())), Settings::Read(d)) is None,
{
}

/// A backup has the connection that it is made with, and everything else of the settings but their
/// keys.
pub proof fn law_a_backup_carries_its_connection(
    c: ConfigView,
    url: Seq<char>,
    user: Seq<char>,
    i: int,
)
    ensures
        ({
            let b = backed_up(c, url, user);
            &&& b.webdav.url == url && b.webdav.user == user
            &&& b.hotkey == c.hotkey && b.autostart == c.autostart
            &&& b.width == c.width && b.height == c.height
            &&& b.api == (ApiView { api_key: Seq::empty(), ..c.api })
            &&& b.actions.len() == c.actions.len()
            &&& 0 <= i < c.actions.len() ==> b.actions[i] == (ActionView {
                api_key: None,
                ..c.actions[i]
            })
            &&& b.secrets.dom() =~= Set::empty()
        }),
{
}

/// Settings before anything was read say nothing: no text, no key, no action, and no switch on.
pub proof fn law_blank_settings_say_nothing(name: Seq<char>)
    ensures
        ({
            let c = blank();
            &&& c.hotkey.len() == 0 && !c.autostart && c.width == 0 && c.height == 0
            &&& c.api.base_url.len() == 0 && c.api.api_key.len() == 0 && c.api.key.len() == 0
            &&& c.api.model.len() == 0 && !c.api.reasoning
            &&& c.webdav.url.len() == 0 && c.webdav.user.len() == 0
            &&& c.actions.len() == 0
            &&& !c.secrets.contains_key(name)
        }),
{
}

} // verus!
