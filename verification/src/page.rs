//! Calls into the page, as script text with JSON arguments.
use crate::config::{action_views, Action, ActionView, Config, ConfigView};
use crate::json::{
    array, bool_json, bool_text, json_array, json_object, json_quoted, json_string, member_views,
    object, quote,
};
use crate::secrets::secret_in;
use crate::text::{join, join_strings, opt_view, views};
use vstd::prelude::*;
use vstd::string::StringExecFns;

verus! {

/// The call of a function of the page with these arguments; JSON doubles as JavaScript literals.
pub open spec fn script_text(func: Seq<char>, args: Seq<Seq<char>>) -> Seq<char> {
    func + "("@ + join(args, ","@) + ")"@
}

pub fn call(func: &str, args: &Vec<String>) -> (r: String)
    ensures
        r@ == script_text(func@, views(args@)),
{
    let mut s = func.to_owned();
    s.append("(");
    s.append(join_strings(args, ",").as_str());
    s.append(")");
    s
}

/// A short message to the user.
pub open spec fn notice_text(text: Seq<char>) -> Seq<char> {
    script_text("notice"@, seq![json_quoted(text)])
}

/// The call that shows a message. Its argument reads back as the text.
pub fn notice(text: &str) -> (r: String)
    ensures
        r@ == notice_text(text@),
        json_string(json_quoted(text@)) == Some(text@),
{
    one("notice", quote(text))
}

fn one(func: &str, arg: String) -> (r: String)
    ensures
        r@ == script_text(func@, seq![arg@]),
{
    let ghost a = arg@;
    let mut args: Vec<String> = Vec::new();
    args.push(arg);
    assert(views(args@) =~= seq![a]);
    call(func, &args)
}

fn two(func: &str, a: String, b: String) -> (r: String)
    ensures
        r@ == script_text(func@, seq![a@, b@]),
{
    let ghost both = seq![a@, b@];
    let mut args: Vec<String> = Vec::new();
    args.push(a);
    args.push(b);
    assert(views(args@) =~= both);
    call(func, &args)
}

/// The buttons of the WebDAV operations are disabled while one runs.
pub open spec fn busy_text(busy: bool) -> Seq<char> {
    script_text("davbusy"@, seq![bool_text(busy)])
}

pub fn busy(b: bool) -> (r: String)
    ensures
        r@ == busy_text(b),
{
    one("davbusy", bool_json(b))
}

/// The form was saved.
pub open spec fn saved_text(text: Seq<char>) -> Seq<char> {
    script_text("saved"@, seq![json_quoted(text)])
}

/// The call that says what came of saving. Its argument reads back as the text.
pub fn saved(text: &str) -> (r: String)
    ensures
        r@ == saved_text(text@),
        json_string(json_quoted(text@)) == Some(text@),
{
    one("saved", quote(text))
}

/// The response as HTML, and whether more of it is coming.
pub open spec fn resp_text(html: Seq<char>, streaming: bool) -> Seq<char> {
    script_text("resp"@, seq![json_quoted(html), bool_text(streaming)])
}

/// The call that shows a response. Its first argument reads back as the HTML.
pub fn resp(html: &str, streaming: bool) -> (r: String)
    ensures
        r@ == resp_text(html@, streaming),
        json_string(json_quoted(html@)) == Some(html@),
{
    two("resp", quote(html), bool_json(streaming))
}

pub open spec fn quoted_list(names: Seq<Seq<char>>) -> Seq<char> {
    json_array(names.map_values(|n: Seq<char>| json_quoted(n)))
}

fn quote_list(names: &Vec<String>) -> (r: String)
    ensures
        r@ == quoted_list(views(names@)),
{
    let mut items: Vec<String> = Vec::new();
    let ghost all = views(names@).map_values(|n: Seq<char>| json_quoted(n));
    let mut i: usize = 0;
    while i < names.len()
        invariant
            i <= names.len(),
            all == views(names@).map_values(|n: Seq<char>| json_quoted(n)),
            views(items@) == all.take(i as int),
        decreases names.len() - i,
    {
        let ghost done = views(items@);
        let q = quote(names[i].as_str());
        assert(all[i as int] == q@);
        items.push(q);
        i += 1;
        assert(views(items@) =~= done.push(all[i - 1]));
        assert(all.take(i as int) =~= all.take(i - 1).push(all[i - 1]));
    }
    assert(all.take(all.len() as int) =~= all);
    array(&items)
}

/// The backups to choose from.
pub open spec fn backups_text(names: Seq<Seq<char>>) -> Seq<char> {
    script_text("davlist"@, seq![quoted_list(names)])
}

pub fn backups(names: &Vec<String>) -> (r: String)
    ensures
        r@ == backups_text(views(names@)),
{
    one("davlist", quote_list(names))
}

pub open spec fn action_names(v: Seq<ActionView>) -> Seq<Seq<char>> {
    v.map_values(|a: ActionView| a.name)
}

fn names_of(actions: &Vec<Action>) -> (r: Vec<String>)
    ensures
        views(r@) == action_names(action_views(actions@)),
{
    let mut names: Vec<String> = Vec::new();
    let ghost all = action_names(action_views(actions@));
    let mut i: usize = 0;
    while i < actions.len()
        invariant
            i <= actions.len(),
            all == action_names(action_views(actions@)),
            views(names@) == all.take(i as int),
        decreases actions.len() - i,
    {
        let ghost done = views(names@);
        let n = actions[i].name.clone();
        assert(all[i as int] == n@);
        names.push(n);
        i += 1;
        assert(views(names@) =~= done.push(all[i - 1]));
        assert(all.take(i as int) =~= all.take(i - 1).push(all[i - 1]));
    }
    assert(all.take(all.len() as int) =~= all);
    names
}

/// The assistant with the captured text, the names of the actions, a notice, and the input
/// expanded or not.
pub open spec fn assist_text(
    text: Seq<char>,
    names: Seq<Seq<char>>,
    notice: Seq<char>,
    expand: bool,
) -> Seq<char> {
    script_text(
        "assist"@,
        seq![json_quoted(text), quoted_list(names), json_quoted(notice), bool_text(expand)],
    )
}

pub fn assist(text: &str, actions: &Vec<Action>, notice: &str, expand: bool) -> (r: String)
    ensures
        r@ == assist_text(text@, action_names(action_views(actions@)), notice@, expand),
{
    let mut args: Vec<String> = Vec::new();
    args.push(quote(text));
    args.push(quote_list(&names_of(actions)));
    args.push(quote(notice));
    args.push(bool_json(expand));
    assert(views(args@) =~= seq![
        json_quoted(text@),
        quoted_list(action_names(action_views(actions@))),
        json_quoted(notice@),
        bool_text(expand),
    ]);
    call("assist", &args)
}

pub open spec fn opt_quoted(o: Option<Seq<char>>) -> Seq<char> {
    match o {
        Some(s) => json_quoted(s),
        None => "null"@,
    }
}

fn quote_opt(o: &Option<String>) -> (r: String)
    ensures
        r@ == opt_quoted(opt_view(*o)),
{
    match o {
        Some(s) => quote(s.as_str()),
        None => "null".to_owned(),
    }
}

pub open spec fn opt_switch(o: Option<bool>) -> Seq<char> {
    match o {
        Some(b) => bool_text(b),
        None => "null"@,
    }
}

/// The members of an action in the settings form.
pub open spec fn action_members(a: ActionView) -> Seq<(Seq<char>, Seq<char>)> {
    seq![
        ("name"@, json_quoted(a.name)),
        ("prompt"@, json_quoted(a.prompt)),
        (
            "model"@,
            json_quoted(
                match a.model {
                    Some(m) => m,
                    None => Seq::empty(),
                },
            ),
        ),
        ("reasoning"@, opt_switch(a.reasoning)),
        ("base_url"@, opt_quoted(a.base_url)),
        ("api_key"@, opt_quoted(a.api_key)),
        ("key"@, opt_quoted(a.key)),
    ]
}

/// The members of the settings form. The lengths are given as JSON texts; `dav_pass` is the
/// password to show where it is not the stored one.
pub open spec fn settings_members(
    c: ConfigView,
    dav_pass: Option<Seq<char>>,
    width: Seq<char>,
    height: Seq<char>,
) -> Seq<(Seq<char>, Seq<char>)> {
    seq![
        ("hotkey"@, json_quoted(c.hotkey)),
        ("autostart"@, bool_text(c.autostart)),
        ("width"@, width),
        ("height"@, height),
        ("base_url"@, json_quoted(c.api.base_url)),
        ("model"@, json_quoted(c.api.model)),
        ("reasoning"@, bool_text(c.api.reasoning)),
        (
            "secret"@,
            json_quoted(secret_in(c.secrets, crate::config::global_key_name(c.api))),
        ),
        ("dav_url"@, json_quoted(c.webdav.url)),
        ("dav_user"@, json_quoted(c.webdav.user)),
        (
            "dav_pass"@,
            json_quoted(
                match dav_pass {
                    Some(p) => p,
                    None => secret_in(c.secrets, "webdav"@),
                },
            ),
        ),
        (
            "actions"@,
            json_array(c.actions.map_values(|a: ActionView| json_object(action_members(a)))),
        ),
    ]
}

pub open spec fn settings_payload_text(
    c: ConfigView,
    dav_pass: Option<Seq<char>>,
    width: Seq<char>,
    height: Seq<char>,
) -> Seq<char> {
    json_object(settings_members(c, dav_pass, width, height))
}

fn render_action(a: &Action) -> (r: String)
    ensures
        r@ == json_object(action_members(a@)),
{
    let mut v: Vec<(String, String)> = Vec::new();
    v.push(("name".to_owned(), quote(a.name.as_str())));
    v.push(("prompt".to_owned(), quote(a.prompt.as_str())));
    let model = match &a.model {
        Some(m) => m.clone(),
        None => String::new(),
    };
    v.push(("model".to_owned(), quote(model.as_str())));
    let reasoning = match a.reasoning {
        Some(b) => bool_json(b),
        None => "null".to_owned(),
    };
    v.push(("reasoning".to_owned(), reasoning));
    v.push(("base_url".to_owned(), quote_opt(&a.base_url)));
    v.push(("api_key".to_owned(), quote_opt(&a.api_key)));
    v.push(("key".to_owned(), quote_opt(&a.key)));
    assert(member_views(v@) =~= action_members(a@));
    object(&v)
}

fn render_actions(actions: &Vec<Action>) -> (r: String)
    ensures
        r@ == json_array(
            action_views(actions@).map_values(|a: ActionView| json_object(action_members(a))),
        ),
{
    let mut items: Vec<String> = Vec::new();
    let ghost all = action_views(actions@).map_values(
        |a: ActionView| json_object(action_members(a)),
    );
    let mut i: usize = 0;
    while i < actions.len()
        invariant
            i <= actions.len(),
            all == action_views(actions@).map_values(
                |a: ActionView| json_object(action_members(a)),
            ),
            views(items@) == all.take(i as int),
        decreases actions.len() - i,
    {
        let ghost done = views(items@);
        let t = render_action(&actions[i]);
        assert(all[i as int] == t@);
        items.push(t);
        i += 1;
        assert(views(items@) =~= done.push(all[i - 1]));
        assert(all.take(i as int) =~= all.take(i - 1).push(all[i - 1]));
    }
    assert(all.take(all.len() as int) =~= all);
    array(&items)
}

/// The settings form as JSON, with the lengths given as JSON texts.
pub fn settings_payload(c: &Config, dav_pass: Option<String>, width: String, height: String) -> (r:
    String)
    ensures
        r@ == settings_payload_text(c@, opt_view(dav_pass), width@, height@),
{
    let ghost pass = opt_view(dav_pass);
    let ghost w = width@;
    let ghost h = height@;
    let mut v: Vec<(String, String)> = Vec::new();
    v.push(("hotkey".to_owned(), quote(c.hotkey.as_str())));
    v.push(("autostart".to_owned(), bool_json(c.autostart)));
    v.push(("width".to_owned(), width));
    v.push(("height".to_owned(), height));
    v.push(("base_url".to_owned(), quote(c.api.base_url.as_str())));
    v.push(("model".to_owned(), quote(c.api.model.as_str())));
    v.push(("reasoning".to_owned(), bool_json(c.api.reasoning)));
    let secret = c.secrets.get(c.api.key_name());
    v.push(("secret".to_owned(), quote(secret.as_str())));
    v.push(("dav_url".to_owned(), quote(c.webdav.url.as_str())));
    v.push(("dav_user".to_owned(), quote(c.webdav.user.as_str())));
    let shown = match dav_pass {
        Some(p) => p,
        None => c.secrets.get("webdav"),
    };
    v.push(("dav_pass".to_owned(), quote(shown.as_str())));
    v.push(("actions".to_owned(), render_actions(&c.actions)));
    assert(member_views(v@) =~= settings_members(c@, pass, w, h));
    object(&v)
}

/// The settings form, with its content replaced where `restored`.
pub open spec fn settings_text(payload: Seq<char>, restored: bool) -> Seq<char> {
    script_text("settings"@, seq![payload, bool_text(restored)])
}

pub fn settings(payload: String, restored: bool) -> (r: String)
    ensures
        r@ == settings_text(payload@, restored),
{
    two("settings", payload, bool_json(restored))
}

} // verus!
