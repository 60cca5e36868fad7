//! The assistant: its state, and what each event does to it.
//!
//! The methods of [`App`] change the state and give back the effects that are to be carried out on
//! the desktop, in order. What has to be read from the desktop first is handed to them.
use crate::api::{
    assistant, message_views, stream, stream_request, user, Delta, DeltaView, Endpoint,
    EndpointView, Message, MessageView, Role,
};
use crate::config::{endpoint_for, ActionView, Config, ConfigView, Webdav, WebdavView};
use crate::dav::{Cred, CredView, Done};
use crate::form::{apply_form, has_unnamed, saved_config, Form, SavePlan};
use crate::http::{Request, RequestView};
use crate::hotkey::joined_notes;
use crate::ipc::{Command, CommandView, DavCommand};
use crate::markdown::{md_html, separator, transcript_html};
use crate::page;
use crate::text::{
    join_strings, opt_view, replace_str, replaced, same, starts_with, starts_with_str, trim,
    trimmed, views,
};
use vstd::prelude::*;
use vstd::string::StringExecFns;

verus! {

#[derive(Debug, PartialEq, Eq, Structural, Clone, Copy)]
pub enum Mode {
    Assist,
    Settings,
}

/// Something to carry out on the desktop.
#[derive(Debug, PartialEq, Eq)]
pub enum Effect {
    /// Tell the running stream to give up.
    Abort,
    /// Stop listening to the stream.
    CloseStream,
    /// Send this request, with a fresh abort flag, and listen to what it brings.
    OpenStream(Request),
    /// Evaluate this script in the page.
    Script(String),
    FocusPage,
    HideWindow,
    DragWindow,
    CopyText(String),
    OpenUrl(String),
    SyncAutostart(bool),
    /// Upload this text.
    Backup(Cred, String),
    ListBackups(Cred),
    /// Download the backup with this name.
    Restore(Cred, String),
    Restart,
}

pub enum EffectView {
    Abort,
    CloseStream,
    OpenStream(RequestView),
    Script(Seq<char>),
    FocusPage,
    HideWindow,
    DragWindow,
    CopyText(Seq<char>),
    OpenUrl(Seq<char>),
    SyncAutostart(bool),
    Backup(CredView, Seq<char>),
    ListBackups(CredView),
    Restore(CredView, Seq<char>),
    Restart,
}

impl View for Effect {
    type V = EffectView;

    open spec fn view(&self) -> EffectView {
        match self {
            Effect::Abort => EffectView::Abort,
            Effect::CloseStream => EffectView::CloseStream,
            Effect::OpenStream(r) => EffectView::OpenStream(r@),
            Effect::Script(s) => EffectView::Script(s@),
            Effect::FocusPage => EffectView::FocusPage,
            Effect::HideWindow => EffectView::HideWindow,
            Effect::DragWindow => EffectView::DragWindow,
            Effect::CopyText(s) => EffectView::CopyText(s@),
            Effect::OpenUrl(s) => EffectView::OpenUrl(s@),
            Effect::SyncAutostart(b) => EffectView::SyncAutostart(*b),
            Effect::Backup(c, s) => EffectView::Backup(c@, s@),
            Effect::ListBackups(c) => EffectView::ListBackups(c@),
            Effect::Restore(c, n) => EffectView::Restore(c@, n@),
            Effect::Restart => EffectView::Restart,
        }
    }
}

pub open spec fn effect_views(v: Seq<Effect>) -> Seq<EffectView> {
    v.map_values(|e: Effect| e@)
}

/// The state of the assistant.
#[derive(Debug, PartialEq, Eq)]
pub struct App {
    pub startup_hotkey: String,
    /// welcome/error notes shown once the page reports ready
    pub startup_notice: Option<String>,
    pub cfg: Config,
    pub mode: Mode,
    pub response: String,
    pub transcript: String,
    pub messages: Vec<Message>,
    pub endpoint: Option<Endpoint>,
    pub streaming: bool,
    /// a stream is listened to
    pub receiving: bool,
    /// an operation on the WebDAV server runs
    pub dav_busy: bool,
    /// connection of an in-flight restore, merged into the restored settings
    pub dav_cred: Option<Cred>,
    pub had_focus: bool,
    /// focus the empty input once, on the first tick after the foreground lands
    pub focus_pending: bool,
}

pub struct AppView {
    pub startup_hotkey: Seq<char>,
    pub startup_notice: Option<Seq<char>>,
    pub cfg: ConfigView,
    pub mode: Mode,
    pub response: Seq<char>,
    pub transcript: Seq<char>,
    pub messages: Seq<MessageView>,
    pub endpoint: Option<EndpointView>,
    pub streaming: bool,
    pub receiving: bool,
    pub dav_busy: bool,
    pub dav_cred: Option<CredView>,
    pub had_focus: bool,
    pub focus_pending: bool,
}

impl View for App {
    type V = AppView;

    open spec fn view(&self) -> AppView {
        AppView {
            startup_hotkey: self.startup_hotkey@,
            startup_notice: opt_view(self.startup_notice),
            cfg: self.cfg@,
            mode: self.mode,
            response: self.response@,
            transcript: self.transcript@,
            messages: message_views(self.messages@),
            endpoint: match self.endpoint {
                Some(e) => Some(e@),
                None => None,
            },
            streaming: self.streaming,
            receiving: self.receiving,
            dav_busy: self.dav_busy,
            dav_cred: match self.dav_cred {
                Some(c) => Some(c@),
                None => None,
            },
            had_focus: self.had_focus,
            focus_pending: self.focus_pending,
        }
    }
}

/// What an event makes of the state, and the effects to carry out.
pub struct Outcome {
    pub app: AppView,
    pub effects: Seq<EffectView>,
}

pub open spec fn nothing(a: AppView) -> Outcome {
    Outcome { app: a, effects: Seq::empty() }
}

/// The conversation so far and the running response, as HTML.
pub open spec fn display_html(a: AppView) -> Seq<char> {
    if (a.transcript + a.response).len() == 0 {
        Seq::empty()
    } else {
        transcript_html(a.transcript + a.response)
    }
}

pub open spec fn render(a: AppView) -> EffectView {
    EffectView::Script(page::resp_text(display_html(a), a.streaming))
}

/// Hides the window; a running stream is given up.
pub open spec fn hidden(a: AppView) -> Outcome {
    Outcome {
        app: AppView { streaming: false, receiving: false, focus_pending: false, ..a },
        effects: seq![EffectView::Abort, EffectView::CloseStream, EffectView::HideWindow],
    }
}

/// Closes the window; in the settings this discards the draft.
pub open spec fn closed(a: AppView) -> Outcome {
    if a.mode == Mode::Settings {
        let h = hidden(AppView { mode: Mode::Assist, ..a });
        Outcome { effects: seq![EffectView::Script("dirty=false"@)] + h.effects, ..h }
    } else {
        hidden(a)
    }
}

/// Asks for a response to the conversation, where it is known whom to ask.
pub open spec fn started(a: AppView) -> Outcome {
    match a.endpoint {
        None => nothing(a),
        Some(ep) => {
            let b = AppView { response: Seq::empty(), streaming: true, receiving: true, ..a };
            Outcome {
                app: b,
                effects: seq![
                    EffectView::Abort,
                    EffectView::OpenStream(stream_request(ep, a.messages)),
                    render(b),
                ],
            }
        },
    }
}

/// The prompt of an action for a text.
pub open spec fn prompt_for(action: ActionView, input: Seq<char>) -> Seq<char> {
    replaced(action.prompt, "{{text}}"@, trimmed(input))
}

/// Runs the action `idx` on a text: a new conversation begins.
pub open spec fn action_run(a: AppView, idx: usize, input: Seq<char>) -> Outcome {
    if idx < a.cfg.actions.len() {
        let action = a.cfg.actions[idx as int];
        started(
            AppView {
                endpoint: Some(endpoint_for(a.cfg, action)),
                messages: seq![
                    MessageView { role: Role::User, content: prompt_for(action, input) },
                ],
                transcript: Seq::empty(),
                ..a
            },
        )
    } else {
        nothing(a)
    }
}

/// What a response and the question after it add to the transcript: the question is a line of its
/// own between separators, none of which is left inside it.
pub open spec fn transcript_entry(response: Seq<char>, question: Seq<char>) -> Seq<char> {
    response + "\n\n---\n\n"@ + separator() + replaced(question, separator(), Seq::empty())
        + separator() + "\n\n"@
}

/// A follow-up question counts only where a response is there and complete.
pub open spec fn followed_up(a: AppView, q: Seq<char>) -> Outcome {
    if q.len() == 0 || a.streaming || a.response.len() == 0 {
        nothing(a)
    } else {
        started(
            AppView {
                messages: a.messages.push(
                    MessageView { role: Role::Assistant, content: a.response },
                ).push(MessageView { role: Role::User, content: q }),
                transcript: a.transcript + transcript_entry(a.response, q),
                ..a
            },
        )
    }
}

/// What a stream brings: a delta, or the news that its sender is gone.
#[derive(Debug, PartialEq, Eq)]
pub enum Arrival {
    Delta(Delta),
    Gone,
}

pub enum ArrivalView {
    Delta(DeltaView),
    Gone,
}

impl View for Arrival {
    type V = ArrivalView;

    open spec fn view(&self) -> ArrivalView {
        match self {
            Arrival::Delta(d) => ArrivalView::Delta(d@),
            Arrival::Gone => ArrivalView::Gone,
        }
    }
}

pub open spec fn arrival_views(v: Seq<Arrival>) -> Seq<ArrivalView> {
    v.map_values(|x: Arrival| x@)
}

/// What is there of a response after some arrivals.
pub struct Received {
    pub response: Seq<char>,
    /// more may come
    pub open: bool,
    /// there is something new to show
    pub changed: bool,
}

/// One arrival after those before it; nothing counts after the end.
pub open spec fn receive_one(r: Received, x: ArrivalView) -> Received {
    if !r.open {
        r
    } else {
        match x {
            ArrivalView::Delta(DeltaView::Chunk(s)) => Received {
                response: r.response + s,
                open: true,
                changed: true,
            },
            ArrivalView::Delta(DeltaView::Done) => Received { open: false, changed: true, ..r },
            ArrivalView::Delta(DeltaView::Error(e)) => Received {
                response: r.response + "\n\n**error:** "@ + e,
                open: false,
                changed: true,
            },
            ArrivalView::Gone => Received { open: false, ..r },
        }
    }
}

pub open spec fn receive(r: Received, xs: Seq<ArrivalView>) -> Received
    decreases xs.len(),
{
    if xs.len() == 0 {
        r
    } else {
        receive_one(receive(r, xs.drop_last()), xs.last())
    }
}

/// Takes in what a stream has brought.
pub open spec fn stream_polled(a: AppView, xs: Seq<ArrivalView>) -> Outcome {
    if !a.receiving {
        nothing(a)
    } else {
        let r = receive(Received { response: a.response, open: true, changed: false }, xs);
        let b = AppView {
            response: r.response,
            streaming: r.open && a.streaming,
            receiving: r.open,
            ..a
        };
        Outcome {
            app: b,
            effects: (if r.open {
                Seq::empty()
            } else {
                seq![EffectView::CloseStream]
            }) + (if r.changed {
                seq![render(b)]
            } else {
                Seq::empty()
            }),
        }
    }
}

/// The window was shown with a captured text: a new, empty conversation with fresh settings. The
/// hotkey that is registered stays in force.
pub open spec fn activated(
    a: AppView,
    text: Seq<char>,
    loaded: Result<ConfigView, Seq<char>>,
) -> Outcome {
    let cfg = match loaded {
        Ok(c) => ConfigView { hotkey: a.startup_hotkey, ..c },
        Err(_) => a.cfg,
    };
    let notice = match loaded {
        Ok(c) => if c.hotkey != a.startup_hotkey {
            "hotkey changed - restart cue to apply"@
        } else {
            Seq::empty()
        },
        Err(e) => e,
    };
    let expand = text.len() == 0;
    Outcome {
        app: AppView {
            cfg,
            mode: Mode::Assist,
            response: Seq::empty(),
            transcript: Seq::empty(),
            messages: Seq::empty(),
            streaming: false,
            receiving: false,
            had_focus: false,
            focus_pending: expand,
            ..a
        },
        effects: seq![EffectView::Abort] + (match loaded {
            Ok(c) => seq![EffectView::SyncAutostart(c.autostart)],
            Err(_) => Seq::empty(),
        }) + seq![
            EffectView::CloseStream,
            EffectView::Script(
                page::assist_text(text, page::action_names(cfg.actions), notice, expand),
            ),
        ],
    }
}

/// Takes over freshly loaded settings, where there are any.
pub open spec fn reloaded(a: AppView, loaded: Option<ConfigView>) -> AppView {
    match loaded {
        Some(c) => AppView { cfg: c, ..a },
        None => a,
    }
}

/// Shows the settings; the lengths are given as JSON texts.
pub open spec fn settings_opened(a: AppView, width: Seq<char>, height: Seq<char>) -> Outcome {
    Outcome {
        app: AppView { mode: Mode::Settings, had_focus: false, ..a },
        effects: seq![
            EffectView::Script(
                page::settings_text(
                    page::settings_payload_text(a.cfg, None, width, height),
                    false,
                ),
            ),
            EffectView::FocusPage,
        ],
    }
}

/// The error to show of three results: the last one.
pub open spec fn last_error(
    a: Result<(), Seq<char>>,
    b: Result<(), Seq<char>>,
    c: Result<(), Seq<char>>,
) -> Option<Seq<char>> {
    match c {
        Err(e) => Some(e),
        Ok(_) => match b {
            Err(e) => Some(e),
            Ok(_) => match a {
                Err(e) => Some(e),
                Ok(_) => None,
            },
        },
    }
}

/// The form was saved, with this error or none: a new hotkey takes a restart, else the settings
/// stay open with a message.
pub open spec fn save_finished(a: AppView, unnamed: bool, error: Option<Seq<char>>) -> Seq<
    EffectView,
> {
    let message = match error {
        Some(e) => e,
        None => if unnamed {
            "saved - give the unnamed action a name"@
        } else {
            "saved"@
        },
    };
    seq![
        EffectView::SyncAutostart(a.cfg.autostart),
        if error is None && a.cfg.hotkey != a.startup_hotkey {
            EffectView::Restart
        } else {
            EffectView::Script(page::saved_text(message))
        },
    ]
}

/// Only web pages are opened.
pub open spec fn web_url(url: Seq<char>) -> bool {
    starts_with(url, "https://"@) || starts_with(url, "http://"@)
}

/// A message of the page was handled, or needs more to be done first.
#[derive(Debug, PartialEq, Eq)]
pub enum Step {
    Effects(Vec<Effect>),
    /// Read the form from this JSON text and save it.
    Save(String),
    /// Load the settings and back them up to this connection.
    LoadForBackup(Cred),
}

pub enum StepView {
    Effects(Seq<EffectView>),
    Save(Seq<char>),
    LoadForBackup(CredView),
}

impl View for Step {
    type V = StepView;

    open spec fn view(&self) -> StepView {
        match self {
            Step::Effects(v) => StepView::Effects(effect_views(v@)),
            Step::Save(s) => StepView::Save(s@),
            Step::LoadForBackup(c) => StepView::LoadForBackup(c@),
        }
    }
}

/// Begins an operation on the server, one at a time and only with a url.
pub open spec fn dav_begun(a: AppView, op: DavCommand, cred: CredView, name: Seq<char>) -> (
    AppView,
    StepView,
) {
    if a.dav_busy || cred.url.len() == 0 {
        (a, StepView::Effects(Seq::empty()))
    } else {
        match op {
            DavCommand::Backup => (a, StepView::LoadForBackup(cred)),
            DavCommand::List => (
                AppView { dav_busy: true, ..a },
                StepView::Effects(
                    seq![
                        EffectView::ListBackups(cred),
                        EffectView::Script(page::busy_text(true)),
                    ],
                ),
            ),
            DavCommand::Restore => (
                AppView { dav_busy: true, dav_cred: Some(cred), ..a },
                StepView::Effects(
                    seq![
                        EffectView::Restore(cred, name),
                        EffectView::Script(page::busy_text(true)),
                    ],
                ),
            ),
        }
    }
}

/// The settings to back up are there as text, or could not be had.
pub open spec fn backup_begun(
    a: AppView,
    cred: CredView,
    body: Result<Seq<char>, Seq<char>>,
) -> Outcome {
    match body {
        Ok(text) => Outcome {
            app: AppView { dav_busy: true, ..a },
            effects: seq![
                EffectView::Backup(cred, text),
                EffectView::Script(page::busy_text(true)),
            ],
        },
        Err(e) => Outcome { app: a, effects: seq![EffectView::Script(page::notice_text(e))] },
    }
}

/// What a message of the page does.
pub open spec fn commanded(a: AppView, c: CommandView) -> (AppView, StepView) {
    match c {
        CommandView::Ready => match a.startup_notice {
            Some(n) => (
                AppView { startup_notice: None, ..a },
                StepView::Effects(
                    seq![
                        EffectView::Script(
                            page::assist_text(
                                Seq::empty(),
                                page::action_names(a.cfg.actions),
                                n,
                                true,
                            ),
                        ),
                    ],
                ),
            ),
            None => (a, StepView::Effects(Seq::empty())),
        },
        CommandView::Drag => (a, StepView::Effects(seq![EffectView::DragWindow])),
        CommandView::Close => (closed(a).app, StepView::Effects(closed(a).effects)),
        CommandView::Run { idx, input } => {
            let o = action_run(a, idx as usize, input);
            (o.app, StepView::Effects(o.effects))
        },
        CommandView::Followup(q) => {
            let o = followed_up(a, q);
            (o.app, StepView::Effects(o.effects))
        },
        CommandView::Copy => (
            a,
            StepView::Effects(
                if a.response.len() == 0 {
                    Seq::empty()
                } else {
                    seq![EffectView::CopyText(a.response)]
                },
            ),
        ),
        CommandView::CopyText(o) => (
            a,
            StepView::Effects(
                match o {
                    Some(t) => seq![EffectView::CopyText(t)],
                    None => Seq::empty(),
                },
            ),
        ),
        CommandView::Open(url) => (
            a,
            StepView::Effects(
                if web_url(url) {
                    seq![EffectView::OpenUrl(url)]
                } else {
                    Seq::empty()
                },
            ),
        ),
        CommandView::Save(form) => (a, StepView::Save(form)),
        CommandView::Dav { op, cred, name } => dav_begun(a, op, cred, name),
        CommandView::Ignore => (a, StepView::Effects(Seq::empty())),
    }
}

/// What came of an operation on the server.
#[derive(Debug, PartialEq, Eq)]
pub enum DavArrival {
    Done(Done),
    /// The operation ended without a word.
    Gone,
}

/// An operation on the server is over, or a restored text has to be read first.
#[derive(Debug, PartialEq, Eq)]
pub enum DavStep {
    Effects(Vec<Effect>),
    /// Read the settings from this text.
    Read(String),
}

pub open spec fn dav_finished(message: Seq<char>) -> Seq<EffectView> {
    seq![
        EffectView::Script(page::notice_text(message)),
        EffectView::Script(page::busy_text(false)),
    ]
}

/// What is shown when an operation ended otherwise than with a restored text.
pub open spec fn dav_shown(x: DavArrival) -> Seq<EffectView> {
    match x {
        DavArrival::Gone => seq![EffectView::Script(page::busy_text(false))],
        DavArrival::Done(Done::Backup(Ok(_))) => dav_finished("backup uploaded"@),
        DavArrival::Done(Done::Backup(Err(e))) => dav_finished("backup failed: "@ + e@),
        DavArrival::Done(Done::List(Err(e))) => dav_finished("list failed: "@ + e@),
        DavArrival::Done(Done::Restore(Err(e))) => dav_finished("restore failed: "@ + e@),
        DavArrival::Done(Done::List(Ok(names))) => (if names@.len() == 0 {
            seq![EffectView::Script(page::notice_text("no backups found"@))]
        } else {
            Seq::empty()
        }) + seq![
            EffectView::Script(page::backups_text(views(names@))),
            EffectView::Script(page::busy_text(false)),
        ],
        DavArrival::Done(Done::Restore(Ok(_))) => Seq::empty(),
    }
}

/// Restored settings keep the connection that the restore was performed with. Their own stays only
/// where there is no such connection.
pub open spec fn merged(c: ConfigView, cred: Option<CredView>) -> ConfigView {
    let kept = match cred {
        Some(k) => WebdavView { url: k.url, user: k.user },
        None => WebdavView { url: Seq::empty(), user: Seq::empty() },
    };
    if kept.url.len() > 0 || c.webdav.url.len() == 0 {
        ConfigView { webdav: kept, ..c }
    } else {
        c
    }
}

/// What to do with a restored text.
#[derive(Debug, PartialEq, Eq)]
pub enum RestoreStep {
    Effects(Vec<Effect>),
    /// Write these settings, load them and go on with the password of the restore.
    Write { cfg: Config, pass: String },
}

pub enum RestoreStepView {
    Effects(Seq<EffectView>),
    Write { cfg: ConfigView, pass: Seq<char> },
}

impl View for RestoreStep {
    type V = RestoreStepView;

    open spec fn view(&self) -> RestoreStepView {
        match self {
            RestoreStep::Effects(v) => RestoreStepView::Effects(effect_views(v@)),
            RestoreStep::Write { cfg, pass } => RestoreStepView::Write { cfg: cfg@, pass: pass@ },
        }
    }
}

/// The password of the restore.
pub open spec fn restore_pass(a: AppView) -> Seq<char> {
    match a.dav_cred {
        Some(k) => k.pass,
        None => Seq::empty(),
    }
}

/// What a restored text does that holds these settings, or none: it is checked before anything is
/// overwritten.
pub open spec fn restored(a: AppView, parsed: Result<ConfigView, Seq<char>>) -> (
    AppView,
    RestoreStepView,
) {
    match parsed {
        Ok(c) => (
            AppView { dav_cred: None, ..a },
            RestoreStepView::Write { cfg: merged(c, a.dav_cred), pass: restore_pass(a) },
        ),
        Err(e) => (
            a,
            RestoreStepView::Effects(dav_finished("restore: not a valid config: "@ + e)),
        ),
    }
}

/// What is shown after a restore: in the settings the restored form, with the password that the
/// restore was done with.
pub open spec fn restore_shown(
    a: AppView,
    pass: Seq<char>,
    width: Seq<char>,
    height: Seq<char>,
) -> Seq<EffectView> {
    let shown = if pass.len() == 0 {
        None
    } else {
        Some(pass)
    };
    (if a.mode == Mode::Settings {
        seq![
            EffectView::Script(
                page::settings_text(
                    page::settings_payload_text(a.cfg, shown, width, height),
                    true,
                ),
            ),
        ]
    } else {
        Seq::empty()
    }) + dav_finished("restored from webdav"@)
}

/// How long after a look at the focus the next one is due, in milliseconds.
pub const NEXT_LOOK: u64 = 150;

/// Looks at the focus while the assistant is visible: the first look that finds it here arms the
/// auto-hide and focuses an empty input, a later one that finds it elsewhere hides the window.
/// The settings survive a trip to another program.
pub open spec fn ticked(a: AppView, visible: bool, foreground: bool) -> (Outcome, bool) {
    if a.mode != Mode::Assist || !visible {
        (nothing(a), false)
    } else if !foreground && a.had_focus {
        (hidden(AppView { had_focus: false, ..a }), false)
    } else {
        let had_focus = foreground;
        let focus = a.focus_pending && had_focus;
        (
            Outcome {
                app: AppView { had_focus, focus_pending: a.focus_pending && !focus, ..a },
                effects: if focus {
                    seq![
                        EffectView::FocusPage,
                        EffectView::Script("document.getElementById('inp').focus()"@),
                    ]
                } else {
                    Seq::empty()
                },
            },
            true,
        )
    }
}

pub open spec fn loaded_view(r: Result<Config, String>) -> Result<ConfigView, Seq<char>> {
    match r {
        Ok(c) => Ok(c@),
        Err(e) => Err(e@),
    }
}

/// The step is to carry out these effects.
pub open spec fn dav_step_is(step: DavStep, effects: Seq<EffectView>) -> bool {
    match step {
        DavStep::Effects(v) => effect_views(v@) == effects,
        DavStep::Read(_) => false,
    }
}

/// What the start of the program has of its settings.
#[derive(Debug, PartialEq, Eq)]
pub struct Startup {
    pub cfg: Config,
    pub created: bool,
    pub notes: Vec<String>,
}

/// The settings to start with: the loaded ones, or blank ones and a note on what went wrong.
pub fn startup_config(loaded: Result<(Config, bool), String>) -> (r: Startup)
    ensures
        match loaded {
            Ok((c, created)) => r.cfg@ == c@ && r.created == created && views(r.notes@) == Seq::<
                Seq<char>,
            >::empty(),
            Err(e) => r.cfg@ == crate::config::blank() && !r.created && views(r.notes@) == seq![e@],
        },
{
    let mut notes: Vec<String> = Vec::new();
    match loaded {
        Ok((cfg, created)) => {
            assert(views(notes@) =~= Seq::<Seq<char>>::empty());
            Startup { cfg, created, notes }
        },
        Err(e) => {
            let ghost text = e@;
            notes.push(e);
            assert(views(notes@) =~= seq![text]);
            Startup { cfg: Config::default(), created: false, notes }
        },
    }
}

/// The greeting of a first run.
pub open spec fn welcome_text(hotkey: Seq<char>) -> Seq<char> {
    "welcome - set your api key in settings (tray icon), then press "@ + hotkey
        + " on any selected text"@
}

/// All notes of the start: on the settings, on the hotkey, and the greeting.
pub open spec fn startup_notes(
    notes: Seq<Seq<char>>,
    hotkey_note: Option<Seq<char>>,
    created: bool,
    hotkey: Seq<char>,
) -> Seq<Seq<char>> {
    notes + (match hotkey_note {
        Some(n) => seq![n],
        None => Seq::empty(),
    }) + (if created {
        seq![welcome_text(hotkey)]
    } else {
        Seq::empty()
    })
}

/// The assistant before its first event.
pub open spec fn fresh(cfg: ConfigView, notice: Option<Seq<char>>) -> AppView {
    AppView {
        startup_hotkey: cfg.hotkey,
        startup_notice: notice,
        cfg,
        mode: Mode::Assist,
        response: Seq::empty(),
        transcript: Seq::empty(),
        messages: Seq::empty(),
        endpoint: None,
        streaming: false,
        receiving: false,
        dav_busy: false,
        dav_cred: None,
        had_focus: false,
        focus_pending: false,
    }
}

fn no_effects() -> (r: Vec<Effect>)
    ensures
        effect_views(r@) == Seq::<EffectView>::empty(),
{
    let v: Vec<Effect> = Vec::new();
    assert(effect_views(v@) =~= Seq::<EffectView>::empty());
    v
}

fn one_effect(e: Effect) -> (r: Vec<Effect>)
    ensures
        effect_views(r@) == seq![e@],
{
    let ghost x = e@;
    let mut v: Vec<Effect> = Vec::new();
    v.push(e);
    assert(effect_views(v@) =~= seq![x]);
    v
}

fn two_effects(a: Effect, b: Effect) -> (r: Vec<Effect>)
    ensures
        effect_views(r@) == seq![a@, b@],
{
    let ghost x = seq![a@, b@];
    let mut v: Vec<Effect> = Vec::new();
    v.push(a);
    v.push(b);
    assert(effect_views(v@) =~= x);
    v
}

/// One more effect after the others.
fn add_effect(v: &mut Vec<Effect>, e: Effect)
    ensures
        effect_views(final(v)@) == effect_views(old(v)@).push(e@),
{
    let ghost was = effect_views(v@);
    let ghost x = e@;
    v.push(e);
    assert(effect_views(v@) =~= was.push(x));
}

fn finish_dav(message: &str) -> (r: Vec<Effect>)
    ensures
        effect_views(r@) == dav_finished(message@),
{
    two_effects(Effect::Script(page::notice(message)), Effect::Script(page::busy(false)))
}

fn failed(what: &str, e: &str) -> (r: Vec<Effect>)
    ensures
        effect_views(r@) == dav_finished(what@ + e@),
{
    let mut s = what.to_owned();
    s.append(e);
    finish_dav(s.as_str())
}

fn take_arrival(response: &mut String, open: &mut bool, changed: &mut bool, x: &Arrival)
    ensures
        (Received { response: final(response)@, open: *final(open), changed: *final(changed) })
            == receive_one(
            Received { response: old(response)@, open: *old(open), changed: *old(changed) },
            x@,
        ),
{
    if *open {
        match x {
            Arrival::Delta(Delta::Chunk(s)) => {
                response.append(s.as_str());
                *changed = true;
            },
            Arrival::Delta(Delta::Done) => {
                *open = false;
                *changed = true;
            },
            Arrival::Delta(Delta::Error(e)) => {
                response.append("\n\n**error:** ");
                response.append(e.as_str());
                *open = false;
                *changed = true;
            },
            Arrival::Gone => {
                *open = false;
            },
        }
    }
}

impl App {
    /// The assistant at the start of the program, and the notes for the log. `hotkey_note` is what
    /// the start of the hotkey came to.
    pub fn new(startup: Startup, hotkey_note: Option<String>) -> (r: (App, Option<String>))
        ensures
            ({
                let notes = startup_notes(
                    views(startup.notes@),
                    opt_view(hotkey_note),
                    startup.created,
                    startup.cfg@.hotkey,
                );
                &&& opt_view(r.1) == joined_notes(notes)
                &&& r.0@ == fresh(startup.cfg@, joined_notes(notes))
            }),
    {
        let ghost all = startup_notes(
            views(startup.notes@),
            opt_view(hotkey_note),
            startup.created,
            startup.cfg@.hotkey,
        );
        let ghost first = views(startup.notes@);
        let ghost second = match opt_view(hotkey_note) {
            Some(n) => seq![n],
            None => Seq::empty(),
        };
        let mut notes = startup.notes;
        if let Some(n) = hotkey_note {
            notes.push(n);
        }
        assert(views(notes@) =~= first + second);
        if startup.created {
            let mut s = "welcome - set your api key in settings (tray icon), then press ".to_owned();
            s.append(startup.cfg.hotkey.as_str());
            s.append(" on any selected text");
            notes.push(s);
        }
        assert(views(notes@) =~= all);
        let log = if notes.len() == 0 {
            None
        } else {
            Some(join_strings(&notes, "\n"))
        };
        let app = App {
            startup_hotkey: startup.cfg.hotkey.clone(),
            startup_notice: log.clone(),
            cfg: startup.cfg,
            mode: Mode::Assist,
            response: String::new(),
            transcript: String::new(),
            messages: Vec::new(),
            endpoint: None,
            streaming: false,
            receiving: false,
            dav_busy: false,
            dav_cred: None,
            had_focus: false,
            focus_pending: false,
        };
        assert(app@.messages =~= Seq::<MessageView>::empty());
        (app, log)
    }

    fn render_resp(&self) -> (r: Effect)
        ensures
            r@ == render(self@),
    {
        let mut display = self.transcript.clone();
        display.append(self.response.as_str());
        let html = if display.as_str().is_empty() {
            String::new()
        } else {
            md_html(display.as_str())
        };
        Effect::Script(page::resp(html.as_str(), self.streaming))
    }

    pub fn hide_window(&mut self) -> (r: Vec<Effect>)
        ensures
            final(self)@ == hidden(old(self)@).app,
            effect_views(r@) == hidden(old(self)@).effects,
    {
        self.streaming = false;
        self.receiving = false;
        self.focus_pending = false;
        let mut v = two_effects(Effect::Abort, Effect::CloseStream);
        add_effect(&mut v, Effect::HideWindow);
        assert(effect_views(v@) =~= hidden(old(self)@).effects);
        v
    }

    pub fn close(&mut self) -> (r: Vec<Effect>)
        ensures
            final(self)@ == closed(old(self)@).app,
            effect_views(r@) == closed(old(self)@).effects,
    {
        if self.mode == Mode::Settings {
            self.mode = Mode::Assist;
            let mut v = one_effect(Effect::Script("dirty=false".to_owned()));
            let ghost first = effect_views(v@);
            let mut rest = self.hide_window();
            let ghost a = v@;
            let ghost b = rest@;
            v.append(&mut rest);
            assert(effect_views(a + b) =~= effect_views(a) + effect_views(b));
            v
        } else {
            self.hide_window()
        }
    }

    fn start_stream(&mut self) -> (r: Vec<Effect>)
        ensures
            final(self)@ == started(old(self)@).app,
            effect_views(r@) == started(old(self)@).effects,
    {
        let request = match &self.endpoint {
            None => {
                return no_effects();
            },
            Some(ep) => stream(ep, &self.messages),
        };
        self.response = String::new();
        self.receiving = true;
        self.streaming = true;
        let mut v = two_effects(Effect::Abort, Effect::OpenStream(request));
        add_effect(&mut v, self.render_resp());
        assert(effect_views(v@) =~= started(old(self)@).effects);
        v
    }

    /// Runs an action on a text.
    pub fn run_action(&mut self, idx: usize, input: &str) -> (r: Vec<Effect>)
        ensures
            final(self)@ == action_run(old(self)@, idx, input@).app,
            effect_views(r@) == action_run(old(self)@, idx, input@).effects,
    {
        if idx >= self.cfg.actions.len() {
            return no_effects();
        }
        let ghost before = self@;
        let ghost action = self.cfg.actions@[idx as int]@;
        assert(before.cfg.actions[idx as int] == action);
        proof {
            reveal_strlit("{{text}}");
        }
        let input = trim(input);
        let prompt = replace_str(
            self.cfg.actions[idx].prompt.as_str(),
            "{{text}}",
            input.as_str(),
        );
        let endpoint = self.cfg.endpoint(&self.cfg.actions[idx]);
        self.endpoint = Some(endpoint);
        let mut messages: Vec<Message> = Vec::new();
        messages.push(user(prompt.as_str()));
        self.messages = messages;
        self.transcript = String::new();
        assert(self@.messages =~= seq![MessageView { role: Role::User, content: prompt@ }]);
        self.start_stream()
    }

    /// Sends a follow-up question.
    pub fn send_followup(&mut self, q: String) -> (r: Vec<Effect>)
        ensures
            final(self)@ == followed_up(old(self)@, q@).app,
            effect_views(r@) == followed_up(old(self)@, q@).effects,
    {
        if q.as_str().is_empty() || self.streaming || self.response.as_str().is_empty() {
            return no_effects();
        }
        let ghost before = self@;
        self.messages.push(assistant(self.response.as_str()));
        self.messages.push(user(q.as_str()));
        proof {
            assert(self@.messages =~= before.messages.push(
                MessageView { role: Role::Assistant, content: before.response },
            ).push(MessageView { role: Role::User, content: q@ }));
            reveal_strlit("\u{1e}");
            reveal_strlit("");
            assert(""@ =~= Seq::<char>::empty());
        }
        let line = replace_str(q.as_str(), "\u{1e}", "");
        self.transcript.append(self.response.as_str());
        self.transcript.append("\n\n---\n\n");
        self.transcript.append("\u{1e}");
        self.transcript.append(line.as_str());
        self.transcript.append("\u{1e}");
        self.transcript.append("\n\n");
        assert(self.transcript@ =~= before.transcript + transcript_entry(before.response, q@));
        self.start_stream()
    }

    /// Takes in what the stream has brought.
    pub fn poll_stream(&mut self, arrivals: Vec<Arrival>) -> (r: Vec<Effect>)
        ensures
            final(self)@ == stream_polled(old(self)@, arrival_views(arrivals@)).app,
            effect_views(r@) == stream_polled(old(self)@, arrival_views(arrivals@)).effects,
    {
        if !self.receiving {
            return no_effects();
        }
        let ghost before = self@;
        let ghost all = arrival_views(arrivals@);
        let ghost start = Received { response: self.response@, open: true, changed: false };
        let mut response = self.response.clone();
        let mut open = true;
        let mut changed = false;
        let mut i: usize = 0;
        while i < arrivals.len()
            invariant
                i <= arrivals.len(),
                all == arrival_views(arrivals@),
                (Received { response: response@, open, changed }) == receive(
                    start,
                    all.take(i as int),
                ),
            decreases arrivals.len() - i,
        {
            assert(all.take(i + 1).drop_last() == all.take(i as int));
            assert(all[i as int] == arrivals@[i as int]@);
            take_arrival(&mut response, &mut open, &mut changed, &arrivals[i]);
            i += 1;
        }
        assert(all.take(all.len() as int) == all);
        self.response = response;
        self.streaming = open && self.streaming;
        self.receiving = open;
        let mut v = no_effects();
        if !open {
            add_effect(&mut v, Effect::CloseStream);
        }
        if changed {
            add_effect(&mut v, self.render_resp());
        }
        assert(effect_views(v@) =~= stream_polled(before, all).effects);
        v
    }

    /// The window was shown with a captured text. Unsaved settings edits stay in the page.
    pub fn activate(&mut self, text: String, loaded: Result<Config, String>) -> (r: Vec<Effect>)
        ensures
            ({
                let o = activated(old(self)@, text@, loaded_view(loaded));
                final(self)@ == o.app && effect_views(r@) == o.effects
            }),
    {
        let ghost before = self@;
        let ghost given = loaded_view(loaded);
        let mut v = one_effect(Effect::Abort);
        let mut notice = String::new();
        match loaded {
            Ok(c) => {
                add_effect(&mut v, Effect::SyncAutostart(c.autostart));
                if !same(c.hotkey.as_str(), self.startup_hotkey.as_str()) {
                    notice = "hotkey changed - restart cue to apply".to_owned();
                }
                self.cfg = c;
                self.cfg.hotkey = self.startup_hotkey.clone();
            },
            Err(e) => {
                notice = e;
            },
        }
        self.mode = Mode::Assist;
        self.response = String::new();
        self.transcript = String::new();
        self.messages = Vec::new();
        self.streaming = false;
        self.receiving = false;
        self.had_focus = false;
        let expand = text.as_str().is_empty();
        self.focus_pending = expand;
        assert(self@.messages =~= Seq::<MessageView>::empty());
        add_effect(&mut v, Effect::CloseStream);
        add_effect(
            &mut v,
            Effect::Script(
                page::assist(text.as_str(), &self.cfg.actions, notice.as_str(), expand),
            ),
        );
        assert(effect_views(v@) =~= activated(before, text@, given).effects);
        v
    }

    /// Takes over freshly loaded settings, where there are any.
    pub fn reload(&mut self, loaded: Option<Config>)
        ensures
            final(self)@ == reloaded(
                old(self)@,
                match loaded {
                    Some(c) => Some(c@),
                    None => None,
                },
            ),
    {
        if let Some(c) = loaded {
            self.cfg = c;
        }
    }

    /// Shows the settings; the lengths are given as JSON texts.
    pub fn open_settings(&mut self, width: String, height: String) -> (r: Vec<Effect>)
        ensures
            final(self)@ == settings_opened(old(self)@, width@, height@).app,
            effect_views(r@) == settings_opened(old(self)@, width@, height@).effects,
    {
        self.mode = Mode::Settings;
        self.had_focus = false;
        let payload = page::settings_payload(&self.cfg, None, width, height);
        two_effects(Effect::Script(page::settings(payload, false)), Effect::FocusPage)
    }

    /// Puts the form into the settings, and gives what goes into the secrets file. The settings
    /// and the secrets are to be written then.
    pub fn save(&mut self, f: Form) -> (r: SavePlan)
        ensures
            final(self)@ == (AppView { cfg: saved_config(old(self)@.cfg, f@), ..old(self)@ }),
            r.key_name@ == crate::config::global_key_name(old(self)@.cfg.api),
            r.secret@ == trimmed(f.secret@),
            r.dav_name@ == "webdav"@,
            r.dav_pass@ == f.dav_pass@,
            r.unnamed == has_unnamed(f@.actions),
    {
        apply_form(&mut self.cfg, f)
    }

    /// The form was saved; `key`, `pass` and `settings` say what came of writing the key, the
    /// WebDAV password and the settings.
    pub fn saved(
        &self,
        unnamed: bool,
        key: Result<(), String>,
        pass: Result<(), String>,
        settings: Result<(), String>,
    ) -> (r: Vec<Effect>)
        ensures
            effect_views(r@) == save_finished(
                self@,
                unnamed,
                last_error(
                    crate::config::result_view(key),
                    crate::config::result_view(pass),
                    crate::config::result_view(settings),
                ),
            ),
    {
        let mut error: Option<String> = None;
        if let Err(e) = key {
            error = Some(e);
        }
        if let Err(e) = pass {
            error = Some(e);
        }
        if let Err(e) = settings {
            error = Some(e);
        }
        let sync = Effect::SyncAutostart(self.cfg.autostart);
        match error {
            Some(e) => two_effects(sync, Effect::Script(page::saved(e.as_str()))),
            None => if !same(self.cfg.hotkey.as_str(), self.startup_hotkey.as_str()) {
                two_effects(sync, Effect::Restart)
            } else if unnamed {
                two_effects(
                    sync,
                    Effect::Script(page::saved("saved - give the unnamed action a name")),
                )
            } else {
                two_effects(sync, Effect::Script(page::saved("saved")))
            },
        }
    }

    /// The page sent no valid form.
    pub fn save_failed(&self, e: &str) -> (r: Vec<Effect>)
        ensures
            effect_views(r@) == seq![EffectView::Script(page::notice_text("save failed: "@ + e@))],
    {
        let mut s = "save failed: ".to_owned();
        s.append(e);
        one_effect(Effect::Script(page::notice(s.as_str())))
    }

    /// Begins an operation on the server.
    pub fn dav_op(&mut self, op: DavCommand, cred: Cred, name: String) -> (r: Step)
        ensures
            (final(self)@, r@) == dav_begun(old(self)@, op, cred@, name@),
    {
        if self.dav_busy || cred.url.as_str().is_empty() {
            return Step::Effects(no_effects());
        }
        match op {
            DavCommand::Backup => Step::LoadForBackup(cred),
            DavCommand::List => {
                self.dav_busy = true;
                Step::Effects(
                    two_effects(Effect::ListBackups(cred), Effect::Script(page::busy(true))),
                )
            },
            DavCommand::Restore => {
                self.dav_busy = true;
                self.dav_cred = Some(
                    Cred {
                        url: cred.url.clone(),
                        user: cred.user.clone(),
                        pass: cred.pass.clone(),
                    },
                );
                Step::Effects(
                    two_effects(Effect::Restore(cred, name), Effect::Script(page::busy(true))),
                )
            },
        }
    }

    /// The settings to back up are there as text, or could not be had.
    pub fn begin_backup(&mut self, cred: Cred, body: Result<String, String>) -> (r: Vec<Effect>)
        ensures
            ({
                let o = backup_begun(
                    old(self)@,
                    cred@,
                    match body {
                        Ok(s) => Ok(s@),
                        Err(e) => Err(e@),
                    },
                );
                final(self)@ == o.app && effect_views(r@) == o.effects
            }),
    {
        match body {
            Ok(text) => {
                self.dav_busy = true;
                two_effects(Effect::Backup(cred, text), Effect::Script(page::busy(true)))
            },
            Err(e) => one_effect(Effect::Script(page::notice(e.as_str()))),
        }
    }

    /// Handles a message of the page.
    pub fn on_ipc(&mut self, c: Command) -> (r: Step)
        ensures
            (final(self)@, r@) == commanded(old(self)@, c@),
    {
        match c {
            Command::Ready => match self.startup_notice.take() {
                Some(n) => {
                    proof {
                        reveal_strlit("");
                        assert(""@ =~= Seq::<char>::empty());
                    }
                    Step::Effects(
                        one_effect(
                            Effect::Script(page::assist("", &self.cfg.actions, n.as_str(), true)),
                        ),
                    )
                },
                None => Step::Effects(no_effects()),
            },
            Command::Drag => Step::Effects(one_effect(Effect::DragWindow)),
            Command::Close => Step::Effects(self.close()),
            Command::Run { idx, input } => Step::Effects(
                self.run_action(idx as usize, input.as_str()),
            ),
            Command::Followup(q) => Step::Effects(self.send_followup(q)),
            Command::Copy => if self.response.as_str().is_empty() {
                Step::Effects(no_effects())
            } else {
                Step::Effects(one_effect(Effect::CopyText(self.response.clone())))
            },
            Command::CopyText(o) => match o {
                Some(t) => Step::Effects(one_effect(Effect::CopyText(t))),
                None => Step::Effects(no_effects()),
            },
            Command::Open(url) => if starts_with_str(url.as_str(), "https://") || starts_with_str(
                url.as_str(),
                "http://",
            ) {
                Step::Effects(one_effect(Effect::OpenUrl(url)))
            } else {
                Step::Effects(no_effects())
            },
            Command::Save(form) => Step::Save(form),
            Command::Dav { op, cred, name } => self.dav_op(op, cred, name),
            Command::Ignore => Step::Effects(no_effects()),
        }
    }

    /// Takes in what came of an operation on the server.
    pub fn poll_dav(&mut self, arrival: DavArrival) -> (r: DavStep)
        ensures
            ({
                let was = old(self)@;
                if !was.dav_busy {
                    &&& final(self)@ == was
                    &&& dav_step_is(r, Seq::empty())
                } else {
                    &&& final(self)@ == (AppView { dav_busy: false, ..was })
                    &&& match arrival {
                        DavArrival::Done(Done::Restore(Ok(body))) => r == DavStep::Read(body),
                        _ => dav_step_is(r, dav_shown(arrival)),
                    }
                }
            }),
    {
        if !self.dav_busy {
            return DavStep::Effects(no_effects());
        }
        self.dav_busy = false;
        match arrival {
            DavArrival::Gone => DavStep::Effects(one_effect(Effect::Script(page::busy(false)))),
            DavArrival::Done(Done::Backup(Ok(_))) => DavStep::Effects(
                finish_dav("backup uploaded"),
            ),
            DavArrival::Done(Done::Backup(Err(e))) => DavStep::Effects(
                failed("backup failed: ", e.as_str()),
            ),
            DavArrival::Done(Done::List(Err(e))) => DavStep::Effects(
                failed("list failed: ", e.as_str()),
            ),
            DavArrival::Done(Done::Restore(Err(e))) => DavStep::Effects(
                failed("restore failed: ", e.as_str()),
            ),
            DavArrival::Done(Done::List(Ok(names))) => {
                let mut v = no_effects();
                if names.len() == 0 {
                    add_effect(&mut v, Effect::Script(page::notice("no backups found")));
                }
                add_effect(&mut v, Effect::Script(page::backups(&names)));
                add_effect(&mut v, Effect::Script(page::busy(false)));
                assert(effect_views(v@) =~= dav_shown(arrival));
                DavStep::Effects(v)
            },
            DavArrival::Done(Done::Restore(Ok(body))) => DavStep::Read(body),
        }
    }

    /// The restored text holds no settings.
    pub fn restore_invalid(&self, e: &str) -> (r: Vec<Effect>)
        ensures
            effect_views(r@) == dav_finished("restore: not a valid config: "@ + e@),
    {
        failed("restore: not a valid config: ", e)
    }

    /// The restored settings as they are to be written, and the password that the restore was done
    /// with. A restore must not lose the connection that it was performed with.
    pub fn restore_merged(&mut self, c: Config) -> (r: (Config, String))
        ensures
            r.0@ == merged(c@, old(self)@.dav_cred),
            r.1@ == restore_pass(old(self)@),
            final(self)@ == (AppView { dav_cred: None, ..old(self)@ }),
    {
        let cred = match self.dav_cred.take() {
            Some(k) => k,
            None => Cred { url: String::new(), user: String::new(), pass: String::new() },
        };
        let mut c = c;
        if !cred.url.as_str().is_empty() || c.webdav.url.as_str().is_empty() {
            c.webdav = Webdav { url: cred.url, user: cred.user };
        }
        (c, cred.pass)
    }

    /// The restored text was read as settings, or is not valid.
    pub fn restore_read(&mut self, parsed: Result<Config, String>) -> (r: RestoreStep)
        ensures
            (final(self)@, r@) == restored(old(self)@, loaded_view(parsed)),
    {
        match parsed {
            Ok(c) => {
                let (cfg, pass) = self.restore_merged(c);
                RestoreStep::Write { cfg, pass }
            },
            Err(e) => RestoreStep::Effects(self.restore_invalid(e.as_str())),
        }
    }

    /// The restored settings have been written and loaded; the lengths are given as JSON texts.
    pub fn restore_done(&self, pass: String, width: String, height: String) -> (r: Vec<Effect>)
        ensures
            effect_views(r@) == restore_shown(self@, pass@, width@, height@),
    {
        let ghost shown = restore_shown(self@, pass@, width@, height@);
        let mut v = no_effects();
        if self.mode == Mode::Settings {
            let pass = if pass.as_str().is_empty() {
                None
            } else {
                Some(pass)
            };
            let payload = page::settings_payload(&self.cfg, pass, width, height);
            add_effect(&mut v, Effect::Script(page::settings(payload, true)));
        }
        add_effect(&mut v, Effect::Script(page::notice("restored from webdav")));
        add_effect(&mut v, Effect::Script(page::busy(false)));
        assert(effect_views(v@) =~= shown);
        v
    }

    /// Looks at the focus. The flag asks for another look, [`NEXT_LOOK`] milliseconds later.
    pub fn tick(&mut self, visible: bool, foreground: bool) -> (r: (Vec<Effect>, bool))
        ensures
            ({
                let (o, again) = ticked(old(self)@, visible, foreground);
                final(self)@ == o.app && effect_views(r.0@) == o.effects && r.1 == again
            }),
    {
        if self.mode != Mode::Assist || !visible {
            return (no_effects(), false);
        }
        if foreground {
            self.had_focus = true;
        } else if self.had_focus {
            self.had_focus = false;
            return (self.hide_window(), false);
        }
        let mut v = no_effects();
        if self.focus_pending && self.had_focus {
            self.focus_pending = false;
            v = two_effects(
                Effect::FocusPage,
                Effect::Script("document.getElementById('inp').focus()".to_owned()),
            );
        }
        (v, true)
    }
}

} // verus!
