//! The settings file: what stands in it, what is left out of it, and what a missing entry means.
use crate::config::{
    action_views, d_height, d_hotkey, d_true, d_width, de_reasoning, file_part, is_true, sanitized,
    with_secrets, Action, ActionView, Api, ApiView, Config, ConfigView, Webdav, WebdavView,
    DEFAULT_HEIGHT, DEFAULT_WIDTH,
};
use crate::secrets::{secrets_of, Secrets};
use crate::text::{lower, opt_view};
use vstd::prelude::*;

verus! {

/// A switch in the file: a flag, or a word in its old form.
#[derive(Debug, PartialEq, Eq)]
pub enum Switch<T> {
    Flag(bool),
    Word(T),
}

impl View for Switch<String> {
    type V = Switch<Seq<char>>;

    open spec fn view(&self) -> Switch<Seq<char>> {
        match self {
            Switch::Flag(b) => Switch::Flag(*b),
            Switch::Word(w) => Switch::Word(w@),
        }
    }
}

pub open spec fn switch_view(s: Option<Switch<String>>) -> Option<Switch<Seq<char>>> {
    match s {
        Some(x) => Some(x@),
        None => None,
    }
}

/// The entries of the settings file.
#[derive(Debug, PartialEq, Eq)]
pub struct Document {
    pub hotkey: Option<String>,
    pub autostart: Option<bool>,
    pub width: Option<u32>,
    pub height: Option<u32>,
    pub api: Option<ApiEntries>,
    pub webdav: Option<WebdavEntries>,
    pub actions: Option<Vec<ActionEntries>>,
}

pub struct DocumentView {
    pub hotkey: Option<Seq<char>>,
    pub autostart: Option<bool>,
    pub width: Option<u32>,
    pub height: Option<u32>,
    pub api: Option<ApiEntriesView>,
    pub webdav: Option<WebdavEntriesView>,
    pub actions: Option<Seq<ActionEntriesView>>,
}

impl View for Document {
    type V = DocumentView;

    open spec fn view(&self) -> DocumentView {
        DocumentView {
            hotkey: opt_view(self.hotkey),
            autostart: self.autostart,
            width: self.width,
            height: self.height,
            api: match self.api {
                Some(a) => Some(a@),
                None => None,
            },
            webdav: match self.webdav {
                Some(w) => Some(w@),
                None => None,
            },
            actions: match self.actions {
                Some(v) => Some(entries_views(v@)),
                None => None,
            },
        }
    }
}

#[derive(Debug, PartialEq, Eq)]
pub struct ApiEntries {
    pub base_url: Option<String>,
    pub api_key: Option<String>,
    pub key: Option<String>,
    pub model: Option<String>,
    pub reasoning: Option<Switch<String>>,
}

pub struct ApiEntriesView {
    pub base_url: Option<Seq<char>>,
    pub api_key: Option<Seq<char>>,
    pub key: Option<Seq<char>>,
    pub model: Option<Seq<char>>,
    pub reasoning: Option<Switch<Seq<char>>>,
}

impl View for ApiEntries {
    type V = ApiEntriesView;

    open spec fn view(&self) -> ApiEntriesView {
        ApiEntriesView {
            base_url: opt_view(self.base_url),
            api_key: opt_view(self.api_key),
            key: opt_view(self.key),
            model: opt_view(self.model),
            reasoning: switch_view(self.reasoning),
        }
    }
}

#[derive(Debug, PartialEq, Eq)]
pub struct WebdavEntries {
    pub url: Option<String>,
    pub user: Option<String>,
}

pub struct WebdavEntriesView {
    pub url: Option<Seq<char>>,
    pub user: Option<Seq<char>>,
}

impl View for WebdavEntries {
    type V = WebdavEntriesView;

    open spec fn view(&self) -> WebdavEntriesView {
        WebdavEntriesView { url: opt_view(self.url), user: opt_view(self.user) }
    }
}

#[derive(Debug, PartialEq, Eq)]
pub struct ActionEntries {
    pub name: String,
    pub prompt: String,
    pub model: Option<String>,
    pub base_url: Option<String>,
    pub api_key: Option<String>,
    pub key: Option<String>,
    pub reasoning: Option<Switch<String>>,
}

pub struct ActionEntriesView {
    pub name: Seq<char>,
    pub prompt: Seq<char>,
    pub model: Option<Seq<char>>,
    pub base_url: Option<Seq<char>>,
    pub api_key: Option<Seq<char>>,
    pub key: Option<Seq<char>>,
    pub reasoning: Option<Switch<Seq<char>>>,
}

impl View for ActionEntries {
    type V = ActionEntriesView;

    open spec fn view(&self) -> ActionEntriesView {
        ActionEntriesView {
            name: self.name@,
            prompt: self.prompt@,
            model: opt_view(self.model),
            base_url: opt_view(self.base_url),
            api_key: opt_view(self.api_key),
            key: opt_view(self.key),
            reasoning: switch_view(self.reasoning),
        }
    }
}

pub open spec fn entries_views(v: Seq<ActionEntries>) -> Seq<ActionEntriesView> {
    v.map_values(|a: ActionEntries| a@)
}

/// What a switch says: a word switches off only where it is "off" or "false".
pub open spec fn switched_on(s: Switch<Seq<char>>) -> bool {
    match s {
        Switch::Flag(b) => b,
        Switch::Word(w) => !(lower(w) == "off"@ || lower(w) == "false"@),
    }
}

pub open spec fn or_empty(s: Option<Seq<char>>) -> Seq<char> {
    match s {
        Some(t) => t,
        None => Seq::empty(),
    }
}

/// The API settings of a file with these entries. In a file with an API section reasoning is on
/// where it is not mentioned; without such a section all is blank.
pub open spec fn api_in(api: Option<ApiEntriesView>) -> ApiView {
    match api {
        Some(a) => ApiView {
            base_url: or_empty(a.base_url),
            api_key: or_empty(a.api_key),
            key: or_empty(a.key),
            model: or_empty(a.model),
            reasoning: match a.reasoning {
                Some(s) => switched_on(s),
                None => true,
            },
        },
        None => crate::config::blank().api,
    }
}

pub open spec fn webdav_in(webdav: Option<WebdavEntriesView>) -> WebdavView {
    match webdav {
        Some(w) => WebdavView { url: or_empty(w.url), user: or_empty(w.user) },
        None => WebdavView { url: Seq::empty(), user: Seq::empty() },
    }
}

pub open spec fn action_in(a: ActionEntriesView) -> ActionView {
    ActionView {
        name: a.name,
        prompt: a.prompt,
        model: a.model,
        base_url: a.base_url,
        api_key: a.api_key,
        key: a.key,
        reasoning: match a.reasoning {
            Some(s) => Some(switched_on(s)),
            None => None,
        },
    }
}

pub open spec fn actions_in(actions: Option<Seq<ActionEntriesView>>) -> Seq<ActionView> {
    match actions {
        Some(v) => v.map_values(|a: ActionEntriesView| action_in(a)),
        None => Seq::empty(),
    }
}

/// The settings in a file with these entries. The secrets are in no such file.
pub open spec fn settings_in(d: DocumentView) -> ConfigView {
    ConfigView {
        hotkey: match d.hotkey {
            Some(h) => h,
            None => "alt+q"@,
        },
        autostart: d.autostart == Some(true),
        width: match d.width {
            Some(w) => w,
            None => DEFAULT_WIDTH,
        },
        height: match d.height {
            Some(h) => h,
            None => DEFAULT_HEIGHT,
        },
        api: api_in(d.api),
        webdav: webdav_in(d.webdav),
        actions: actions_in(d.actions),
        secrets: Map::empty(),
    }
}

/// A text, left out where it is empty.
pub open spec fn unless_empty(s: Seq<char>) -> Option<Seq<char>> {
    if s.len() == 0 {
        None
    } else {
        Some(s)
    }
}

pub open spec fn action_entries(a: ActionView) -> ActionEntriesView {
    ActionEntriesView {
        name: a.name,
        prompt: a.prompt,
        model: a.model,
        base_url: a.base_url,
        api_key: a.api_key,
        key: a.key,
        reasoning: match a.reasoning {
            Some(b) => Some(Switch::Flag(b)),
            None => None,
        },
    }
}

/// The entries of the file of these settings. Empty keys, reasoning where it is on and an empty
/// connection are left out.
pub open spec fn document_of(c: ConfigView) -> DocumentView {
    DocumentView {
        hotkey: Some(c.hotkey),
        autostart: Some(c.autostart),
        width: Some(c.width),
        height: Some(c.height),
        api: Some(
            ApiEntriesView {
                base_url: Some(c.api.base_url),
                api_key: unless_empty(c.api.api_key),
                key: unless_empty(c.api.key),
                model: Some(c.api.model),
                reasoning: if c.api.reasoning {
                    None
                } else {
                    Some(Switch::Flag(false))
                },
            },
        ),
        webdav: if c.webdav.url.len() == 0 && c.webdav.user.len() == 0 {
            None
        } else {
            Some(WebdavEntriesView { url: Some(c.webdav.url), user: Some(c.webdav.user) })
        },
        actions: Some(c.actions.map_values(|a: ActionView| action_entries(a))),
    }
}

fn read_switch(s: Switch<String>) -> (r: bool)
    ensures
        r == switched_on(s@),
{
    match s {
        Switch::Flag(b) => b,
        Switch::Word(w) => de_reasoning(w.as_str()),
    }
}

fn read_text(s: Option<String>) -> (r: String)
    ensures
        r@ == or_empty(opt_view(s)),
{
    match s {
        Some(t) => t,
        None => String::new(),
    }
}

fn read_actions(v: Vec<ActionEntries>) -> (r: Vec<Action>)
    ensures
        action_views(r@) == actions_in(Some(entries_views(v@))),
{
    let ghost all = actions_in(Some(entries_views(v@)));
    let mut v = v;
    let ghost given = v@;
    let mut out: Vec<Action> = Vec::new();
    let n: usize = v.len();
    let mut i: usize = 0;
    while i < n
        invariant
            i <= n,
            n == given.len(),
            v@ == given.skip(i as int),
            all == actions_in(Some(entries_views(given))),
            action_views(out@) == all.take(i as int),
        decreases n - i,
    {
        let ghost done = action_views(out@);
        let a = v.remove(0);
        assert(a == given[i as int]);
        assert(v@ =~= given.skip(i + 1));
        let ghost wanted = action_in(a@);
        let reasoning: Option<bool> = match a.reasoning {
            Some(s) => Some(read_switch(s)),
            None => None,
        };
        let b = Action {
            name: a.name,
            prompt: a.prompt,
            model: a.model,
            base_url: a.base_url,
            api_key: a.api_key,
            key: a.key,
            reasoning,
        };
        assert(b@ == wanted);
        assert(all[i as int] == wanted);
        out.push(b);
        i += 1;
        assert(action_views(out@) =~= done.push(all[i - 1]));
        assert(all.take(i as int) =~= all.take(i - 1).push(all[i - 1]));
    }
    assert(all.take(all.len() as int) =~= all);
    out
}

fn write_text(s: &String) -> (r: Option<String>)
    ensures
        opt_view(r) == unless_empty(s@),
{
    if s.as_str().is_empty() {
        None
    } else {
        Some(s.clone())
    }
}

fn copy_text(s: &Option<String>) -> (r: Option<String>)
    ensures
        opt_view(r) == opt_view(*s),
{
    match s {
        Some(t) => Some(t.clone()),
        None => None,
    }
}

fn write_actions(v: &Vec<Action>) -> (r: Vec<ActionEntries>)
    ensures
        entries_views(r@) == action_views(v@).map_values(|a: ActionView| action_entries(a)),
{
    let ghost all = action_views(v@).map_values(|a: ActionView| action_entries(a));
    let mut out: Vec<ActionEntries> = Vec::new();
    let mut i: usize = 0;
    while i < v.len()
        invariant
            i <= v.len(),
            all == action_views(v@).map_values(|a: ActionView| action_entries(a)),
            entries_views(out@) == all.take(i as int),
        decreases v.len() - i,
    {
        let ghost done = entries_views(out@);
        let a = &v[i];
        let reasoning: Option<Switch<String>> = match a.reasoning {
            Some(b) => Some(Switch::Flag(b)),
            None => None,
        };
        let e = ActionEntries {
            name: a.name.clone(),
            prompt: a.prompt.clone(),
            model: copy_text(&a.model),
            base_url: copy_text(&a.base_url),
            api_key: copy_text(&a.api_key),
            key: copy_text(&a.key),
            reasoning,
        };
        assert(e@ == action_entries(a@));
        assert(all[i as int] == e@);
        out.push(e);
        i += 1;
        assert(entries_views(out@) =~= done.push(all[i - 1]));
        assert(all.take(i as int) =~= all.take(i - 1).push(all[i - 1]));
    }
    assert(all.take(all.len() as int) =~= all);
    out
}

impl Config {
    /// The settings in a file with these entries, without secrets.
    pub fn from_document(d: Document) -> (r: Config)
        ensures
            r@ == settings_in(d@),
    {
        let ghost wanted = settings_in(d@);
        let hotkey = match d.hotkey {
            Some(h) => h,
            None => d_hotkey(),
        };
        let autostart: bool = match d.autostart {
            Some(b) => b,
            None => false,
        };
        let width: u32 = match d.width {
            Some(w) => w,
            None => d_width(),
        };
        let height: u32 = match d.height {
            Some(h) => h,
            None => d_height(),
        };
        let blank = Config::default();
        let api = match d.api {
            Some(a) => {
                let reasoning: bool = match a.reasoning {
                    Some(s) => read_switch(s),
                    None => d_true(),
                };
                Api {
                    base_url: read_text(a.base_url),
                    api_key: read_text(a.api_key),
                    key: read_text(a.key),
                    model: read_text(a.model),
                    reasoning,
                }
            },
            None => blank.api,
        };
        let webdav = match d.webdav {
            Some(w) => Webdav { url: read_text(w.url), user: read_text(w.user) },
            None => blank.webdav,
        };
        let actions = match d.actions {
            Some(v) => read_actions(v),
            None => blank.actions,
        };
        let c = Config {
            hotkey,
            autostart,
            width,
            height,
            api,
            webdav,
            actions,
            secrets: Secrets::new(),
        };
        assert(c@.actions =~= wanted.actions);
        c
    }

    /// The entries of the file of these settings.
    pub fn document(&self) -> (r: Document)
        ensures
            r@ == document_of(self@),
    {
        let reasoning: Option<Switch<String>> = if is_true(&self.api.reasoning) {
            None
        } else {
            Some(Switch::Flag(false))
        };
        let webdav = if self.webdav.is_empty() {
            None
        } else {
            Some(
                WebdavEntries {
                    url: Some(self.webdav.url.clone()),
                    user: Some(self.webdav.user.clone()),
                },
            )
        };
        Document {
            hotkey: Some(self.hotkey.clone()),
            autostart: Some(self.autostart),
            width: Some(self.width),
            height: Some(self.height),
            api: Some(
                ApiEntries {
                    base_url: Some(self.api.base_url.clone()),
                    api_key: write_text(&self.api.api_key),
                    key: write_text(&self.api.key),
                    model: Some(self.api.model.clone()),
                    reasoning,
                },
            ),
            webdav,
            actions: Some(write_actions(&self.actions)),
        }
    }
}

/// Settings that are written to their file are loaded from it as they were, but for the secrets,
/// which are those of the secrets file: what is left out of the file means what it was.
pub proof fn law_saved_settings_are_loaded_again(c: ConfigView, secrets_text: Option<Seq<char>>)
    ensures
        settings_in(document_of(c)) == file_part(c),
        with_secrets(settings_in(document_of(c)), secrets_text) == (ConfigView {
            secrets: secrets_of(secrets_text),
            ..c
        }),
{
    let d = settings_in(document_of(c));
    assert(d.actions =~= c.actions);
    assert(d.api.api_key =~= c.api.api_key);
    assert(d.api.key =~= c.api.key);
    assert(d.webdav.url =~= c.webdav.url);
    assert(d.webdav.user =~= c.webdav.user);
}

/// The file of stripped settings reads back as those settings: no key, and all else as it was.
pub proof fn law_stripped_settings_read_back(c: ConfigView)
    ensures
        settings_in(document_of(sanitized(c))) == sanitized(c),
{
    law_saved_settings_are_loaded_again(sanitized(c), None);
}

/// Every setting stands in the file under its own name, with its own value.
pub proof fn law_every_setting_has_its_entry(c: ConfigView, i: int)
    ensures
        ({
            let d = document_of(c);
            &&& d.hotkey == Some(c.hotkey)
            &&& d.autostart == Some(c.autostart)
            &&& d.width == Some(c.width)
            &&& d.height == Some(c.height)
            &&& d.api is Some
            &&& d.api->0.base_url == Some(c.api.base_url)
            &&& d.api->0.model == Some(c.api.model)
            &&& c.api.api_key.len() > 0 ==> d.api->0.api_key == Some(c.api.api_key)
            &&& c.api.api_key.len() == 0 ==> d.api->0.api_key is None
            &&& c.api.key.len() > 0 ==> d.api->0.key == Some(c.api.key)
            &&& c.api.key.len() == 0 ==> d.api->0.key is None
            &&& c.api.reasoning ==> d.api->0.reasoning is None
            &&& !c.api.reasoning ==> d.api->0.reasoning == Some(Switch::<Seq<char>>::Flag(false))
            &&& d.webdav is None <==> c.webdav.url.len() == 0 && c.webdav.user.len() == 0
            &&& d.webdav matches Some(w) ==> w.url == Some(c.webdav.url) && w.user == Some(
                c.webdav.user,
            )
            &&& d.actions is Some
            &&& d.actions->0.len() == c.actions.len()
            &&& 0 <= i < c.actions.len() ==> {
                let a = c.actions[i];
                let e = d.actions->0[i];
                &&& e.name == a.name && e.prompt == a.prompt && e.model == a.model
                &&& e.base_url == a.base_url && e.api_key == a.api_key && e.key == a.key
                &&& e.reasoning is Some <==> a.reasoning is Some
                &&& a.reasoning matches Some(b) ==> e.reasoning == Some(
                    Switch::<Seq<char>>::Flag(b),
                )
            }
        }),
{
}

/// Every entry of the file is taken as it is, and a missing one means its default.
pub proof fn law_every_entry_counts(d: DocumentView, i: int)
    ensures
        ({
            let c = settings_in(d);
            &&& c.hotkey == (if d.hotkey is Some {
                d.hotkey->0
            } else {
                "alt+q"@
            })
            &&& c.autostart == (d.autostart is Some && d.autostart->0)
            &&& d.width matches Some(w) ==> c.width == w
            &&& d.width is None ==> c.width == DEFAULT_WIDTH
            &&& d.height matches Some(h) ==> c.height == h
            &&& d.height is None ==> c.height == DEFAULT_HEIGHT
            &&& d.api is None ==> c.api.base_url.len() == 0 && c.api.api_key.len() == 0
                && c.api.key.len() == 0 && c.api.model.len() == 0 && !c.api.reasoning
            &&& d.api matches Some(a) ==> {
                &&& a.base_url matches Some(s) ==> c.api.base_url == s
                &&& a.base_url is None ==> c.api.base_url.len() == 0
                &&& a.api_key matches Some(s) ==> c.api.api_key == s
                &&& a.api_key is None ==> c.api.api_key.len() == 0
                &&& a.key matches Some(s) ==> c.api.key == s
                &&& a.key is None ==> c.api.key.len() == 0
                &&& a.model matches Some(s) ==> c.api.model == s
                &&& a.model is None ==> c.api.model.len() == 0
                &&& a.reasoning is None ==> c.api.reasoning
                &&& a.reasoning matches Some(Switch::Flag(b)) ==> c.api.reasoning == b
                &&& a.reasoning matches Some(Switch::Word(w)) ==> (c.api.reasoning <==> lower(w)
                    != "off"@ && lower(w) != "false"@)
            }
            &&& d.webdav is None ==> c.webdav.url.len() == 0 && c.webdav.user.len() == 0
            &&& d.webdav matches Some(w) ==> {
                &&& w.url matches Some(s) ==> c.webdav.url == s
                &&& w.url is None ==> c.webdav.url.len() == 0
                &&& w.user matches Some(s) ==> c.webdav.user == s
                &&& w.user is None ==> c.webdav.user.len() == 0
            }
            &&& d.actions is None ==> c.actions.len() == 0
            &&& d.actions matches Some(v) ==> {
                &&& c.actions.len() == v.len()
                &&& 0 <= i < v.len() ==> {
                    let a = c.actions[i];
                    let e = v[i];
                    &&& a.name == e.name && a.prompt == e.prompt && a.model == e.model
                    &&& a.base_url == e.base_url && a.api_key == e.api_key && a.key == e.key
                    &&& e.reasoning is None ==> a.reasoning is None
                    &&& e.reasoning matches Some(Switch::Flag(b)) ==> a.reasoning == Some(b)
                    &&& e.reasoning matches Some(Switch::Word(w)) ==> a.reasoning == Some(
                        lower(w) != "off"@ && lower(w) != "false"@,
                    )
                }
            }
            &&& c.secrets.dom() =~= Set::empty()
        }),
{
}

} // verus!
