//! The settings form, and what saving it makes of the settings.
use crate::config::{
    action_views, clamp_length, clamped, global_key_name, Action, ActionView, ApiView, Config,
    ConfigView, WebdavView, MAX_LENGTH, MIN_HEIGHT, MIN_WIDTH,
};
use crate::json::{bool_text, json_array, json_object, json_quoted};
use crate::page::{action_members, opt_quoted, opt_switch, settings_members, settings_payload_text};
use crate::secrets::secret_in;
use crate::text::{opt_view, trim, trimmed};
use vstd::prelude::*;

verus! {

/// Settings form as the page submits it.
#[derive(Debug, PartialEq, Eq)]
pub struct Form {
    pub hotkey: String,
    pub autostart: bool,
    pub width: u32,
    pub height: u32,
    pub base_url: String,
    pub model: String,
    pub reasoning: bool,
    pub secret: String,
    pub dav_url: String,
    pub dav_user: String,
    pub dav_pass: String,
    pub actions: Vec<FormAction>,
}

pub struct FormView {
    pub hotkey: Seq<char>,
    pub autostart: bool,
    pub width: u32,
    pub height: u32,
    pub base_url: Seq<char>,
    pub model: Seq<char>,
    pub reasoning: bool,
    pub secret: Seq<char>,
    pub dav_url: Seq<char>,
    pub dav_user: Seq<char>,
    pub dav_pass: Seq<char>,
    pub actions: Seq<FormActionView>,
}

impl View for Form {
    type V = FormView;

    open spec fn view(&self) -> FormView {
        FormView {
            hotkey: self.hotkey@,
            autostart: self.autostart,
            width: self.width,
            height: self.height,
            base_url: self.base_url@,
            model: self.model@,
            reasoning: self.reasoning,
            secret: self.secret@,
            dav_url: self.dav_url@,
            dav_user: self.dav_user@,
            dav_pass: self.dav_pass@,
            actions: form_action_views(self.actions@),
        }
    }
}

/// An action of the settings form.
#[derive(Debug, PartialEq, Eq)]
pub struct FormAction {
    pub name: String,
    pub prompt: String,
    pub model: String,
    pub reasoning: Option<bool>,
    pub base_url: Option<String>,
    pub api_key: Option<String>,
    pub key: Option<String>,
}

pub struct FormActionView {
    pub name: Seq<char>,
    pub prompt: Seq<char>,
    pub model: Seq<char>,
    pub reasoning: Option<bool>,
    pub base_url: Option<Seq<char>>,
    pub api_key: Option<Seq<char>>,
    pub key: Option<Seq<char>>,
}

impl View for FormAction {
    type V = FormActionView;

    open spec fn view(&self) -> FormActionView {
        FormActionView {
            name: self.name@,
            prompt: self.prompt@,
            model: self.model@,
            reasoning: self.reasoning,
            base_url: opt_view(self.base_url),
            api_key: opt_view(self.api_key),
            key: opt_view(self.key),
        }
    }
}

pub open spec fn form_action_views(v: Seq<FormAction>) -> Seq<FormActionView> {
    v.map_values(|a: FormAction| a@)
}

/// The action has a name.
pub open spec fn named(a: FormActionView) -> bool {
    trimmed(a.name).len() > 0
}

/// What is saved of an action, where `reasoning` is the global switch: an empty model and an
/// override that equals the global switch collapse to inheriting.
pub open spec fn saved_action(a: FormActionView, reasoning: bool) -> ActionView {
    ActionView {
        name: trimmed(a.name),
        prompt: a.prompt,
        model: if trimmed(a.model).len() == 0 {
            None
        } else {
            Some(trimmed(a.model))
        },
        base_url: a.base_url,
        api_key: a.api_key,
        key: a.key,
        reasoning: if a.reasoning == Some(reasoning) {
            None
        } else {
            a.reasoning
        },
    }
}

/// What is saved of the actions, in their order. Actions without a name can't be saved.
pub open spec fn saved_actions(v: Seq<FormActionView>, reasoning: bool) -> Seq<ActionView>
    decreases v.len(),
{
    if v.len() == 0 {
        Seq::empty()
    } else {
        let head = saved_actions(v.drop_last(), reasoning);
        if named(v.last()) {
            head.push(saved_action(v.last(), reasoning))
        } else {
            head
        }
    }
}

/// The form holds an action without a name.
pub open spec fn has_unnamed(v: Seq<FormActionView>) -> bool {
    exists|i: int| 0 <= i < v.len() && !named(#[trigger] v[i])
}

/// The settings after the form was saved.
pub open spec fn saved_config(c: ConfigView, f: FormView) -> ConfigView {
    ConfigView {
        hotkey: trimmed(f.hotkey),
        autostart: f.autostart,
        width: clamped(f.width, MIN_WIDTH, MAX_LENGTH),
        height: clamped(f.height, MIN_HEIGHT, MAX_LENGTH),
        api: ApiView {
            base_url: trimmed(f.base_url),
            model: trimmed(f.model),
            reasoning: f.reasoning,
            ..c.api
        },
        webdav: WebdavView { url: trimmed(f.dav_url), user: trimmed(f.dav_user) },
        actions: saved_actions(f.actions, f.reasoning),
        secrets: c.secrets.insert(global_key_name(c.api), trimmed(f.secret)).insert(
            "webdav"@,
            f.dav_pass,
        ),
    }
}

/// What goes into the secrets file when the form is saved, and whether an action has no name.
#[derive(Debug, PartialEq, Eq)]
pub struct SavePlan {
    pub key_name: String,
    pub secret: String,
    pub dav_name: String,
    pub dav_pass: String,
    pub unnamed: bool,
}

fn same_switch(a: Option<bool>, b: bool) -> (r: bool)
    ensures
        r == (a == Some(b)),
{
    match a {
        Some(x) => x == b,
        None => false,
    }
}

fn save_actions(v: Vec<FormAction>, reasoning: bool) -> (r: (Vec<Action>, bool))
    ensures
        action_views(r.0@) == saved_actions(form_action_views(v@), reasoning),
        r.1 == has_unnamed(form_action_views(v@)),
{
    let mut out: Vec<Action> = Vec::new();
    let mut unnamed = false;
    let ghost all = form_action_views(v@);
    let mut i: usize = 0;
    assert(action_views(out@) =~= saved_actions(all.take(0), reasoning));
    while i < v.len()
        invariant
            i <= v.len(),
            all == form_action_views(v@),
            action_views(out@) == saved_actions(all.take(i as int), reasoning),
            unnamed == exists|k: int| 0 <= k < i && !named(#[trigger] all[k]),
        decreases v.len() - i,
    {
        let a = &v[i];
        let ghost done = action_views(out@);
        assert(all[i as int] == a@);
        assert(all.take(i + 1).drop_last() == all.take(i as int));
        let name = trim(a.name.as_str());
        if name.as_str().is_empty() {
            assert(!named(all[i as int]));
            unnamed = true;
        } else {
            let m = trim(a.model.as_str());
            let saved = Action {
                name,
                prompt: a.prompt.clone(),
                model: if m.as_str().is_empty() {
                    None
                } else {
                    Some(m)
                },
                base_url: a.base_url.clone(),
                api_key: a.api_key.clone(),
                key: a.key.clone(),
                reasoning: if same_switch(a.reasoning, reasoning) {
                    None
                } else {
                    a.reasoning
                },
            };
            assert(saved@ == saved_action(a@, reasoning));
            out.push(saved);
            assert(action_views(out@) =~= done.push(saved_action(a@, reasoning)));
        }
        i += 1;
    }
    assert(all.take(all.len() as int) == all);
    (out, unnamed)
}

/// Puts what the form says into the settings.
pub fn apply_form(cfg: &mut Config, f: Form) -> (r: SavePlan)
    ensures
        final(cfg)@ == saved_config(old(cfg)@, f@),
        r.key_name@ == global_key_name(old(cfg)@.api),
        r.secret@ == trimmed(f.secret@),
        r.dav_name@ == "webdav"@,
        r.dav_pass@ == f.dav_pass@,
        r.unnamed == has_unnamed(f@.actions),
{
    let ghost was = cfg@;
    let (actions, unnamed) = save_actions(f.actions, f.reasoning);
    let key_name = cfg.api.key_name().to_owned();
    let secret = trim(f.secret.as_str());
    cfg.hotkey = trim(f.hotkey.as_str());
    cfg.autostart = f.autostart;
    cfg.width = clamp_length(f.width, MIN_WIDTH, MAX_LENGTH);
    cfg.height = clamp_length(f.height, MIN_HEIGHT, MAX_LENGTH);
    cfg.api.base_url = trim(f.base_url.as_str());
    cfg.api.model = trim(f.model.as_str());
    cfg.api.reasoning = f.reasoning;
    cfg.webdav.url = trim(f.dav_url.as_str());
    cfg.webdav.user = trim(f.dav_user.as_str());
    cfg.actions = actions;
    cfg.secrets.insert(key_name.clone(), secret.clone());
    let dav_name = "webdav".to_owned();
    cfg.secrets.insert(dav_name.clone(), f.dav_pass.clone());
    assert(cfg@.api == saved_config(was, f@).api);
    SavePlan { key_name, secret, dav_name, dav_pass: f.dav_pass, unnamed }
}

/// Every saved action has a name, and none says what the global switch says already.
pub proof fn law_saved_actions_are_named(v: Seq<FormActionView>, reasoning: bool)
    ensures
        saved_actions(v, reasoning).len() <= v.len(),
        !has_unnamed(v) ==> saved_actions(v, reasoning).len() == v.len(),
        forall|i: int|
            0 <= i < saved_actions(v, reasoning).len() ==> {
                let a = #[trigger] saved_actions(v, reasoning)[i];
                &&& a.name.len() > 0
                &&& a.reasoning != Some(reasoning)
                &&& a.model != Some(Seq::<char>::empty())
            },
    decreases v.len(),
{
    if v.len() > 0 {
        law_saved_actions_are_named(v.drop_last(), reasoning);
        let head = saved_actions(v.drop_last(), reasoning);
        if !has_unnamed(v) {
            assert(named(v[v.len() - 1]));
            assert forall|i: int| 0 <= i < v.drop_last().len() implies named(
                #[trigger] v.drop_last()[i],
            ) by {
                assert(named(v[i]));
            }
        }
        assert forall|i: int| 0 <= i < saved_actions(v, reasoning).len() implies {
            let a = #[trigger] saved_actions(v, reasoning)[i];
            &&& a.name.len() > 0
            &&& a.reasoning != Some(reasoning)
            &&& a.model != Some(Seq::<char>::empty())
        } by {
            if i < head.len() {
                assert(saved_actions(v, reasoning)[i] == head[i]);
            }
        }
    }
}

/// Saving the form keeps a reasoning override in effect: an action reasons after saving exactly
/// where the form said so, be it by an override or by the global switch.
pub proof fn law_saved_reasoning_means_the_same(a: FormActionView, reasoning: bool)
    ensures
        ({
            let wanted = match a.reasoning {
                Some(b) => b,
                None => reasoning,
            };
            let kept = match saved_action(a, reasoning).reasoning {
                Some(b) => b,
                None => reasoning,
            };
            wanted == kept
        }),
{
}

/// Saving the form puts its key and its WebDAV password into the settings under the names by which
/// they are looked up. A global key that is itself named like the password gives way to it.
pub proof fn law_saved_secrets_are_found_again(c: ConfigView, f: FormView)
    ensures
        secret_in(saved_config(c, f).secrets, "webdav"@) == f.dav_pass,
        global_key_name(c.api) != "webdav"@ ==> secret_in(
            saved_config(c, f).secrets,
            global_key_name(saved_config(c, f).api),
        ) == trimmed(f.secret),
{
}

/// The members of an action of the form as the page has them.
pub open spec fn form_action_members(a: FormActionView) -> Seq<(Seq<char>, Seq<char>)> {
    seq![
        ("name"@, json_quoted(a.name)),
        ("prompt"@, json_quoted(a.prompt)),
        ("model"@, json_quoted(a.model)),
        ("reasoning"@, opt_switch(a.reasoning)),
        ("base_url"@, opt_quoted(a.base_url)),
        ("api_key"@, opt_quoted(a.api_key)),
        ("key"@, opt_quoted(a.key)),
    ]
}

/// The members of the form as the page has them, with its lengths given as JSON texts.
pub open spec fn form_members(f: FormView, width: Seq<char>, height: Seq<char>) -> Seq<
    (Seq<char>, Seq<char>),
> {
    seq![
        ("hotkey"@, json_quoted(f.hotkey)),
        ("autostart"@, bool_text(f.autostart)),
        ("width"@, width),
        ("height"@, height),
        ("base_url"@, json_quoted(f.base_url)),
        ("model"@, json_quoted(f.model)),
        ("reasoning"@, bool_text(f.reasoning)),
        ("secret"@, json_quoted(f.secret)),
        ("dav_url"@, json_quoted(f.dav_url)),
        ("dav_user"@, json_quoted(f.dav_user)),
        ("dav_pass"@, json_quoted(f.dav_pass)),
        (
            "actions"@,
            json_array(
                f.actions.map_values(|a: FormActionView| json_object(form_action_members(a))),
            ),
        ),
    ]
}

/// Saving the action changes nothing in it.
pub open spec fn tidy_action(a: FormActionView, reasoning: bool) -> bool {
    &&& named(a)
    &&& trimmed(a.name) == a.name
    &&& trimmed(a.model) == a.model
    &&& a.reasoning != Some(reasoning)
}

/// The form has no white space around its texts, its lengths are in range, and its actions are
/// named and differ from the global switch where they have one of their own.
pub open spec fn tidy(f: FormView) -> bool {
    &&& trimmed(f.hotkey) == f.hotkey
    &&& MIN_WIDTH <= f.width <= MAX_LENGTH
    &&& MIN_HEIGHT <= f.height <= MAX_LENGTH
    &&& trimmed(f.base_url) == f.base_url
    &&& trimmed(f.model) == f.model
    &&& trimmed(f.secret) == f.secret
    &&& trimmed(f.dav_url) == f.dav_url
    &&& trimmed(f.dav_user) == f.dav_user
    &&& forall|i: int| 0 <= i < f.actions.len() ==> tidy_action(#[trigger] f.actions[i], f.reasoning)
}

proof fn lemma_all_saved(v: Seq<FormActionView>, reasoning: bool)
    requires
        forall|i: int| 0 <= i < v.len() ==> named(#[trigger] v[i]),
    ensures
        saved_actions(v, reasoning) == v.map_values(|a: FormActionView| saved_action(a, reasoning)),
    decreases v.len(),
{
    let all = v.map_values(|a: FormActionView| saved_action(a, reasoning));
    if v.len() > 0 {
        let front = v.drop_last();
        assert forall|i: int| 0 <= i < front.len() implies named(#[trigger] front[i]) by {
            assert(front[i] == v[i]);
        }
        lemma_all_saved(front, reasoning);
        assert(named(v[v.len() - 1]));
        assert(saved_actions(v, reasoning) =~= all);
    } else {
        assert(saved_actions(v, reasoning) =~= all);
    }
}

/// A tidy form is shown again as it was saved, its lengths and its secrets too. A global key that
/// is itself named like the password is shown as the password.
pub proof fn law_a_tidy_form_is_shown_as_saved(
    c: ConfigView,
    f: FormView,
    width: Seq<char>,
    height: Seq<char>,
)
    requires
        tidy(f),
        global_key_name(c.api) != "webdav"@ || f.secret == f.dav_pass,
    ensures
        saved_config(c, f).width == f.width,
        saved_config(c, f).height == f.height,
        settings_payload_text(saved_config(c, f), None, width, height) == json_object(
            form_members(f, width, height),
        ),
{
    let s = saved_config(c, f);
    assert forall|i: int| 0 <= i < f.actions.len() implies named(#[trigger] f.actions[i]) by {
        assert(tidy_action(f.actions[i], f.reasoning));
    }
    lemma_all_saved(f.actions, f.reasoning);
    let shown = s.actions.map_values(|a: ActionView| json_object(action_members(a)));
    let given = f.actions.map_values(|a: FormActionView| json_object(form_action_members(a)));
    assert forall|i: int| 0 <= i < f.actions.len() implies shown[i] == given[i] by {
        let a = f.actions[i];
        assert(tidy_action(a, f.reasoning));
        assert(s.actions[i] == saved_action(a, f.reasoning));
        assert(a.model.len() == 0 ==> a.model =~= Seq::empty());
        assert(action_members(s.actions[i]) =~= form_action_members(a));
    }
    assert(shown =~= given);
    law_saved_secrets_are_found_again(c, f);
    assert(settings_members(s, None, width, height) =~= form_members(f, width, height));
}

/// What the form says is what the settings are: every text without the white space around it, the
/// switches as they are, the lengths within their bounds; what the form does not show stays.
pub proof fn law_the_form_is_taken_over(c: ConfigView, f: FormView)
    ensures
        ({
            let s = saved_config(c, f);
            &&& s.hotkey == trimmed(f.hotkey)
            &&& s.autostart == f.autostart
            &&& s.width == clamped(f.width, 0x4348_0000, 0x44FA_0000)
            &&& s.height == clamped(f.height, 0x4316_0000, 0x44FA_0000)
            &&& s.api.base_url == trimmed(f.base_url)
            &&& s.api.model == trimmed(f.model)
            &&& s.api.reasoning == f.reasoning
            &&& s.api.api_key == c.api.api_key && s.api.key == c.api.key
            &&& s.webdav.url == trimmed(f.dav_url)
            &&& s.webdav.user == trimmed(f.dav_user)
            &&& forall|n: Seq<char>|
                n != "webdav"@ && n != (if c.api.key.len() == 0 {
                    "default"@
                } else {
                    c.api.key
                }) ==> secret_in(s.secrets, n) == #[trigger] secret_in(c.secrets, n)
        }),
{
}

/// Exactly the actions with a name are saved, in their order: each with its name and model trimmed,
/// its prompt and its overrides as they are. An empty model and a switch that says what the global
/// one says are not saved.
pub proof fn law_named_actions_are_saved_in_order(v: Seq<FormActionView>, reasoning: bool)
    ensures
        ({
            let kept = v.filter(|a: FormActionView| trimmed(a.name).len() > 0);
            let s = saved_actions(v, reasoning);
            &&& s.len() == kept.len()
            &&& forall|i: int|
                0 <= i < s.len() ==> {
                    let a = kept[i];
                    &&& (#[trigger] s[i]).name == trimmed(a.name)
                    &&& s[i].prompt == a.prompt
                    &&& s[i].model == (if trimmed(a.model).len() == 0 {
                        None
                    } else {
                        Some(trimmed(a.model))
                    })
                    &&& s[i].reasoning == (if a.reasoning == Some(reasoning) {
                        None
                    } else {
                        a.reasoning
                    })
                    &&& s[i].base_url == a.base_url && s[i].api_key == a.api_key && s[i].key
                        == a.key
                }
            &&& has_unnamed(v) <==> kept.len() < v.len()
        }),
    decreases v.len(),
{
    reveal(Seq::filter);
    let p = |a: FormActionView| trimmed(a.name).len() > 0;
    let kept = v.filter(p);
    let s = saved_actions(v, reasoning);
    if v.len() > 0 {
        let front = v.drop_last();
        law_named_actions_are_saved_in_order(front, reasoning);
        let fkept = front.filter(p);
        let fs = saved_actions(front, reasoning);
        assert(fkept.len() <= front.len()) by {
            broadcast use Seq::lemma_filter_len;
        }
        assert forall|i: int| 0 <= i < fs.len() implies (#[trigger] s[i]) == fs[i] && kept[i]
            == fkept[i] by {
        }
        if has_unnamed(front) {
            let i = choose|i: int| 0 <= i < front.len() && !named(#[trigger] front[i]);
            assert(!named(v[i]));
        }
        if has_unnamed(v) {
            let i = choose|i: int| 0 <= i < v.len() && !named(#[trigger] v[i]);
            if i < front.len() {
                assert(!named(front[i]));
            }
        }
        if !named(v.last()) {
            assert(!named(v[v.len() - 1]));
        }
    }
}

} // verus!
