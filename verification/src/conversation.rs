//! What holds of every conversation, whatever the events were.
use crate::api::{MessageView, Role};
use crate::config::{backed_up, ConfigView, WebdavView};
use crate::dav::CredView;
use crate::form::{saved_config, FormView};
use crate::ipc::{CommandView, DavCommand};
use crate::markdown::separator;
use crate::text::{find, join, lemma_find_from, matches_at, replaced, split};
use crate::ui::{
    activated, backup_begun, closed, commanded, dav_begun, followed_up, fresh, hidden, merged,
    nothing, receive, reloaded, restored, settings_opened, stream_polled, ticked, transcript_entry,
    AppView, ArrivalView, EffectView, Received, StepView,
};
use vstd::prelude::*;

verus! {

/// User and assistant speak in turn, and the user speaks first and last.
pub open spec fn in_turn(messages: Seq<MessageView>) -> bool {
    &&& messages.len() > 0 ==> messages.len() % 2 == 1
    &&& forall|i: int|
        0 <= i < messages.len() ==> (#[trigger] messages[i]).role == if i % 2 == 0 {
            Role::User
        } else {
            Role::Assistant
        }
}

/// The transcript of the answered part of a conversation.
pub open spec fn transcript_of(messages: Seq<MessageView>) -> Seq<char>
    decreases messages.len(),
{
    if messages.len() < 3 {
        Seq::empty()
    } else {
        transcript_of(messages.take(messages.len() - 2)) + transcript_entry(
            messages[messages.len() - 2].content,
            messages[messages.len() - 1].content,
        )
    }
}

/// What holds of the state between any two events.
pub open spec fn valid(a: AppView) -> bool {
    &&& a.streaming == a.receiving
    &&& in_turn(a.messages)
    &&& a.transcript == transcript_of(a.messages)
    &&& a.messages.len() > 0 ==> a.endpoint is Some
    &&& a.messages.len() == 0 ==> !a.receiving && a.response.len() == 0
    &&& a.dav_cred matches Some(k) ==> k.url.len() > 0
}

proof fn lemma_followed_up(a: AppView, q: Seq<char>)
    requires
        valid(a),
    ensures
        valid(followed_up(a, q).app),
{
    if q.len() > 0 && !a.streaming && a.response.len() > 0 {
        let m = followed_up(a, q).app.messages;
        assert(m.take(m.len() - 2) =~= a.messages);
        assert(m[m.len() - 2].content == a.response);
        assert forall|i: int| 0 <= i < m.len() implies (#[trigger] m[i]).role == if i % 2 == 0 {
            Role::User
        } else {
            Role::Assistant
        } by {
            if i < a.messages.len() {
                assert(m[i] == a.messages[i]);
            }
        }
    }
}

/// The program starts with a valid state.
pub proof fn law_a_fresh_state_is_valid(cfg: ConfigView, notice: Option<Seq<char>>)
    ensures
        valid(fresh(cfg, notice)),
{
}

/// A message of the page leaves the state valid.
pub proof fn law_commands_keep_the_state_valid(a: AppView, c: CommandView)
    requires
        valid(a),
    ensures
        valid(commanded(a, c).0),
{
    match c {
        CommandView::Followup(q) => {
            lemma_followed_up(a, q);
        },
        _ => {},
    }
}

/// Every other event leaves the state valid: an activation, the settings, what a stream or the
/// server brings, a look at the focus.
pub proof fn law_events_keep_the_state_valid(
    a: AppView,
    text: Seq<char>,
    loaded: Result<ConfigView, Seq<char>>,
    xs: Seq<ArrivalView>,
    form: FormView,
    cred: CredView,
    visible: bool,
    foreground: bool,
)
    requires
        valid(a),
    ensures
        valid(hidden(a).app),
        valid(closed(a).app),
        valid(activated(a, text, loaded).app),
        valid(reloaded(a, loaded.ok())),
        valid(settings_opened(a, text, text).app),
        valid(stream_polled(a, xs).app),
        valid(AppView { cfg: saved_config(a.cfg, form), ..a }),
        valid(backup_begun(a, cred, Ok(text)).app),
        valid(backup_begun(a, cred, Err(text)).app),
        valid(AppView { dav_busy: false, ..a }),
        valid(AppView { dav_cred: None, ..a }),
        valid(ticked(a, visible, foreground).0.app),
{
}

proof fn lemma_receive_concat(r: Received, xs: Seq<ArrivalView>, ys: Seq<ArrivalView>)
    ensures
        receive(r, xs + ys) == receive(receive(r, xs), ys),
    decreases ys.len(),
{
    if ys.len() == 0 {
        assert(xs + ys =~= xs);
    } else {
        lemma_receive_concat(r, xs, ys.drop_last());
        assert((xs + ys).drop_last() =~= xs + ys.drop_last());
    }
}

proof fn lemma_receive_closed(r: Received, xs: Seq<ArrivalView>)
    requires
        !r.open,
    ensures
        receive(r, xs) == r,
    decreases xs.len(),
{
    if xs.len() > 0 {
        lemma_receive_closed(r, xs.drop_last());
    }
}

proof fn lemma_receive_changed(r: Received, xs: Seq<ArrivalView>)
    ensures
        receive(Received { changed: false, ..r }, xs).response == receive(r, xs).response,
        receive(Received { changed: false, ..r }, xs).open == receive(r, xs).open,
    decreases xs.len(),
{
    if xs.len() > 0 {
        lemma_receive_changed(r, xs.drop_last());
    }
}

/// A response does not depend on how often the stream is looked at: taking in two batches one
/// after the other leaves the state that taking them in together does.
pub proof fn law_a_response_does_not_depend_on_the_polls(
    a: AppView,
    xs: Seq<ArrivalView>,
    ys: Seq<ArrivalView>,
)
    requires
        valid(a),
    ensures
        stream_polled(stream_polled(a, xs).app, ys).app == stream_polled(a, xs + ys).app,
{
    if a.receiving {
        let start = Received { response: a.response, open: true, changed: false };
        let r = receive(start, xs);
        lemma_receive_concat(start, xs, ys);
        if r.open {
            lemma_receive_changed(r, ys);
        } else {
            lemma_receive_closed(r, ys);
        }
    }
}

/// Once the window is hidden or activated again, a stream that was running changes nothing more.
pub proof fn law_a_stream_given_up_changes_nothing(
    a: AppView,
    text: Seq<char>,
    loaded: Result<ConfigView, Seq<char>>,
    xs: Seq<ArrivalView>,
)
    ensures
        stream_polled(hidden(a).app, xs) == nothing(hidden(a).app),
        stream_polled(activated(a, text, loaded).app, xs) == nothing(
            activated(a, text, loaded).app,
        ),
{
}

/// A question asked while a response is still streaming is refused.
pub proof fn law_no_question_while_streaming(a: AppView, q: Seq<char>)
    requires
        a.streaming,
    ensures
        followed_up(a, q) == nothing(a),
{
}

/// An activation that takes over fresh settings keeps the registered hotkey, whatever they say; one
/// that finds none keeps the settings as they are.
pub proof fn law_the_registered_hotkey_stays(
    a: AppView,
    text: Seq<char>,
    loaded: Result<ConfigView, Seq<char>>,
)
    ensures
        loaded is Ok ==> activated(a, text, loaded).app.cfg.hotkey == a.startup_hotkey,
        loaded is Err ==> activated(a, text, loaded).app.cfg == a.cfg,
{
}

/// One operation on the server at a time: while one runs, a request for another does nothing, and
/// an operation that was begun runs.
pub proof fn law_one_operation_at_a_time(
    a: AppView,
    op: DavCommand,
    cred: CredView,
    name: Seq<char>,
)
    ensures
        a.dav_busy ==> commanded(a, CommandView::Dav { op, cred, name }) == (
            a,
            StepView::Effects(Seq::empty()),
        ),
        !a.dav_busy && cred.url.len() > 0 && op != DavCommand::Backup ==> commanded(
            a,
            CommandView::Dav { op, cred, name },
        ).0.dav_busy,
{
}

/// A restore keeps the connection that it was performed with, whatever the restored settings say,
/// and takes over everything else from them.
pub proof fn law_a_restore_keeps_its_connection(
    a: AppView,
    cred: CredView,
    name: Seq<char>,
    c: ConfigView,
)
    requires
        !a.dav_busy,
        cred.url.len() > 0,
    ensures
        ({
            let begun = dav_begun(a, DavCommand::Restore, cred, name).0;
            merged(c, begun.dav_cred) == (ConfigView {
                webdav: WebdavView { url: cred.url, user: cred.user },
                ..c
            })
        }),
{
}

/// A restored text is checked before it overwrites anything: one that holds no valid settings
/// changes nothing and is not written, and one that does is written with its connection.
pub proof fn law_an_invalid_backup_is_not_written(
    a: AppView,
    parsed: Result<ConfigView, Seq<char>>,
)
    ensures
        ({
            let (b, step) = restored(a, parsed);
            &&& step is Write <==> parsed is Ok
            &&& parsed is Err ==> b == a
            &&& parsed is Ok ==> step->cfg == merged(parsed->Ok_0, a.dav_cred)
        }),
{
}

/// A backup that is restored with the connection that made it comes back as it was uploaded.
pub proof fn law_a_backup_comes_back(c: ConfigView, cred: CredView)
    requires
        cred.url.len() > 0,
    ensures
        merged(backed_up(c, cred.url, cred.user), Some(cred)) == backed_up(c, cred.url, cred.user),
{
}

/// The assistant hides when the focus that it had moves elsewhere; before the focus has landed it
/// does not hide.
pub proof fn law_the_window_hides_when_the_focus_leaves(
    a: AppView,
    text: Seq<char>,
    loaded: Result<ConfigView, Seq<char>>,
)
    ensures
        ({
            let shown = activated(a, text, loaded).app;
            let early = ticked(shown, true, false).0;
            let here = ticked(early.app, true, true).0;
            let gone = ticked(here.app, true, false).0;
            &&& early == nothing(shown)
            &&& !here.effects.contains(EffectView::HideWindow)
            &&& gone.effects.contains(EffectView::HideWindow)
        }),
{
    let shown = activated(a, text, loaded).app;
    let early = ticked(shown, true, false).0;
    let here = ticked(early.app, true, true).0;
    let gone = ticked(here.app, true, false).0;
    assert(early.app == shown);
    assert(gone.effects[2] == EffectView::HideWindow);
}

/// An empty input gets the focus exactly once after an activation, when the focus lands.
pub proof fn law_the_empty_input_is_focused_once(
    a: AppView,
    text: Seq<char>,
    loaded: Result<ConfigView, Seq<char>>,
)
    ensures
        ({
            let shown = activated(a, text, loaded).app;
            let first = ticked(shown, true, true).0;
            let second = ticked(first.app, true, true).0;
            &&& first.effects.contains(EffectView::FocusPage) <==> text.len() == 0
            &&& second == nothing(first.app)
        }),
{
    let shown = activated(a, text, loaded).app;
    let first = ticked(shown, true, true).0;
    if text.len() == 0 {
        assert(first.effects[0] == EffectView::FocusPage);
    }
}

/// The settings stay open when the focus moves to another program.
pub proof fn law_the_settings_survive_a_loss_of_focus(
    a: AppView,
    width: Seq<char>,
    height: Seq<char>,
    visible: bool,
    foreground: bool,
)
    ensures
        ({
            let open = settings_opened(a, width, height).app;
            ticked(open, visible, foreground).0 == nothing(open)
        }),
{
}

/// The character that separates questions in a transcript does not stand in `s`.
pub open spec fn no_separator(s: Seq<char>) -> bool {
    !s.contains('\u{1e}')
}

proof fn lemma_separator()
    ensures
        separator() == seq!['\u{1e}'],
{
    reveal_strlit("\u{1e}");
    assert(separator() =~= seq!['\u{1e}']);
}

proof fn lemma_matches(s: Seq<char>, i: int)
    requires
        0 <= i < s.len(),
    ensures
        matches_at(s, separator(), i) <==> s[i] == '\u{1e}',
{
    lemma_separator();
    if s[i] == '\u{1e}' {
        assert(s.subrange(i, i + 1) =~= separator());
    } else {
        assert(s.subrange(i, i + 1)[0] == s[i]);
    }
}

/// Splitting a text without a separator.
proof fn lemma_split_one(s: Seq<char>)
    requires
        no_separator(s),
    ensures
        split(s, separator()) == seq![s],
{
    lemma_separator();
    lemma_find_from(s, separator(), 0);
    if let Some(i) = find(s, separator()) {
        lemma_matches(s, i);
    }
}

/// Splitting off the part before the first separator.
proof fn lemma_split_front(s: Seq<char>, t: Seq<char>)
    requires
        no_separator(s),
    ensures
        split(s + separator() + t, separator()) == seq![s] + split(t, separator()),
{
    let whole = s + separator() + t;
    lemma_separator();
    lemma_find_from(whole, separator(), 0);
    lemma_matches(whole, s.len() as int);
    let i = find(whole, separator()).unwrap();
    lemma_matches(whole, i);
    if i < s.len() {
        assert(whole[i] == s[i]);
    }
    assert(whole.take(i) =~= s);
    assert(whole.skip(i + 1) =~= t);
}

/// No part of a split text holds a separator.
proof fn lemma_split_parts(s: Seq<char>)
    ensures
        forall|k: int|
            0 <= k < split(s, separator()).len() ==> no_separator(
                #[trigger] split(s, separator())[k],
            ),
    decreases s.len(),
{
    lemma_separator();
    lemma_find_from(s, separator(), 0);
    match find(s, separator()) {
        Some(i) => {
            let front = s.take(i);
            if front.contains('\u{1e}') {
                let j = choose|j: int| 0 <= j < front.len() && front[j] == '\u{1e}';
                lemma_matches(s, j);
            }
            lemma_split_parts(s.skip(i + 1));
            let rest = split(s.skip(i + 1), separator());
            assert(split(s, separator()) == seq![front] + rest);
            assert forall|k: int| 0 <= k < split(s, separator()).len() implies no_separator(
                #[trigger] split(s, separator())[k],
            ) by {
                if k > 0 {
                    assert(split(s, separator())[k] == rest[k - 1]);
                }
            }
        },
        None => {
            if s.contains('\u{1e}') {
                let j = choose|j: int| 0 <= j < s.len() && s[j] == '\u{1e}';
                lemma_matches(s, j);
            }
        },
    }
}

proof fn lemma_join_parts(parts: Seq<Seq<char>>)
    requires
        forall|k: int| 0 <= k < parts.len() ==> no_separator(#[trigger] parts[k]),
    ensures
        no_separator(join(parts, Seq::empty())),
    decreases parts.len(),
{
    if parts.len() > 1 {
        let front = parts.drop_last();
        assert forall|k: int| 0 <= k < front.len() implies no_separator(#[trigger] front[k]) by {
            assert(front[k] == parts[k]);
        }
        lemma_join_parts(front);
        let a = join(front, Seq::empty());
        let b = parts.last();
        assert(no_separator(b)) by {
            assert(b == parts[parts.len() - 1]);
        }
        assert(join(parts, Seq::empty()) =~= a + b);
        if (a + b).contains('\u{1e}') {
            let j = choose|j: int| 0 <= j < (a + b).len() && (a + b)[j] == '\u{1e}';
            if j < a.len() {
                assert(a[j] == '\u{1e}');
            } else {
                assert(b[j - a.len()] == '\u{1e}');
            }
        }
    } else if parts.len() == 1 {
        assert(no_separator(parts[0]));
    }
}

/// The line of a question in a transcript.
pub open spec fn question_line(q: Seq<char>) -> Seq<char> {
    replaced(q, separator(), Seq::empty())
}

proof fn lemma_question_line(q: Seq<char>)
    ensures
        no_separator(question_line(q)),
{
    lemma_split_parts(q);
    lemma_join_parts(split(q, separator()));
}

proof fn lemma_no_separator_concat(a: Seq<char>, b: Seq<char>)
    requires
        no_separator(a),
        no_separator(b),
    ensures
        no_separator(a + b),
{
    if (a + b).contains('\u{1e}') {
        let j = choose|j: int| 0 <= j < (a + b).len() && (a + b)[j] == '\u{1e}';
        if j < a.len() {
            assert(a[j] == '\u{1e}');
        } else {
            assert(b[j - a.len()] == '\u{1e}');
        }
    }
}

/// What stands before a response: a blank line, where a question went before it.
pub open spec fn lead(i: int) -> Seq<char> {
    if i == 0 {
        Seq::empty()
    } else {
        "\n\n"@
    }
}

/// The part at position `i` of a conversation as it is shown: at an odd position a question, at an
/// even one a response, the last of which is the running one.
pub open spec fn part(messages: Seq<MessageView>, response: Seq<char>, i: int) -> Seq<char> {
    if i % 2 == 1 {
        question_line(messages[i + 1].content)
    } else if i + 1 < messages.len() {
        lead(i) + messages[i + 1].content + "\n\n---\n\n"@
    } else {
        lead(i) + response
    }
}

pub open spec fn parts(messages: Seq<MessageView>, response: Seq<char>) -> Seq<Seq<char>> {
    Seq::new(
        if messages.len() == 0 {
            1
        } else {
            messages.len()
        },
        |i: int| part(messages, response, i),
    )
}

/// The parts of the answered conversation.
spec fn answered(messages: Seq<MessageView>) -> Seq<Seq<char>> {
    Seq::new((messages.len() - 1) as nat, |i: int| part(messages, Seq::empty(), i))
}

proof fn lemma_answered(messages: Seq<MessageView>, tail: Seq<char>)
    requires
        messages.len() % 2 == 1,
        forall|i: int|
            0 <= i < messages.len() && i % 2 == 1 ==> no_separator(#[trigger] messages[i].content),
    ensures
        split(transcript_of(messages) + tail, separator()) == answered(messages) + split(
            lead(messages.len() - 1) + tail,
            separator(),
        ),
    decreases messages.len(),
{
    let n = messages.len() as int;
    if n < 3 {
        assert(transcript_of(messages) + tail =~= tail);
        assert(lead(n - 1) + tail =~= tail);
        assert(answered(messages) =~= Seq::empty());
        assert(answered(messages) + split(tail, separator()) =~= split(tail, separator()));
    } else {
        let before = messages.take(n - 2);
        let response = messages[n - 2].content;
        let question = question_line(messages[n - 1].content);
        let rule = "\n\n---\n\n"@;
        let after = "\n\n"@ + tail;
        let shown = lead(n - 3) + response + rule;
        let entry = transcript_entry(response, messages[n - 1].content);
        assert forall|i: int| 0 <= i < before.len() && i % 2 == 1 implies no_separator(
            #[trigger] before[i].content,
        ) by {
            assert(before[i] == messages[i]);
        }
        lemma_answered(before, entry + tail);
        assert(transcript_of(messages) + tail =~= transcript_of(before) + (entry + tail));
        assert(lead(n - 3) + (entry + tail) =~= shown + separator() + (question + separator()
            + after));
        reveal_strlit("\n\n---\n\n");
        reveal_strlit("\n\n");
        assert(no_separator(lead(n - 3)));
        assert(no_separator(rule));
        lemma_no_separator_concat(lead(n - 3), response);
        lemma_no_separator_concat(lead(n - 3) + response, rule);
        lemma_split_front(shown, question + separator() + after);
        lemma_question_line(messages[n - 1].content);
        lemma_split_front(question, after);
        assert(answered(messages) =~= answered(before) + seq![shown] + seq![question]);
        let rest = split(after, separator());
        assert(answered(before) + (seq![shown] + (seq![question] + rest)) =~= answered(messages)
            + rest);
    }
}

/// The transcript and the running response fall into the parts of the conversation: every question
/// stands at an odd position, where it is shown as a question, and every response at an even one.
/// No response may hold the separator itself.
pub proof fn law_questions_and_responses_stay_apart(a: AppView)
    requires
        valid(a),
        no_separator(a.response),
        forall|i: int|
            0 <= i < a.messages.len() && i % 2 == 1 ==> no_separator(
                #[trigger] a.messages[i].content,
            ),
    ensures
        split(a.transcript + a.response, separator()) == parts(a.messages, a.response),
{
    if a.messages.len() == 0 {
        assert(a.transcript + a.response =~= a.response);
        lemma_split_one(a.response);
        assert(lead(0) + a.response =~= a.response);
        assert(seq![a.response] =~= parts(a.messages, a.response));
    } else {
        let n = a.messages.len() as int;
        lemma_answered(a.messages, a.response);
        reveal_strlit("\n\n");
        assert(no_separator(lead(n - 1)));
        lemma_no_separator_concat(lead(n - 1), a.response);
        lemma_split_one(lead(n - 1) + a.response);
        assert(answered(a.messages) + seq![lead(n - 1) + a.response] =~= parts(
            a.messages,
            a.response,
        ));
    }
}

} // verus!
