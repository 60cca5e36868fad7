//! What the operations of the assistant are for: what the user gets of each event, stated on the
//! inputs and the outcome alone.
use crate::api::{message_views, stream_request, DeltaView, Endpoint, Message};
use crate::config::{action_views, key_for, Action, ActionView, Config, ConfigView};
use crate::dav::{Cred, CredView, Done};
use crate::hotkey::joined_notes;
use crate::http::Request;
use crate::ipc::{command_for, CommandView, DavCommand};
use crate::json::{
    json_array, json_member, json_object, json_quoted, json_string, json_unsigned, member_views,
};
use crate::markdown::transcript_html;
use crate::page;
use crate::text::{contains, law_joining_goes_by_parts, replaced, starts_with, trimmed, views};
use crate::ui::{
    action_run, activated, arrival_views, backup_begun, closed, commanded, dav_begun, dav_finished,
    dav_shown, effect_views, fresh, hidden, last_error, nothing, receive, reloaded, render,
    restore_shown, restored, save_finished, settings_opened, startup_notes, stream_polled, ticked,
    App, AppView, Arrival, ArrivalView, DavArrival, Effect, EffectView, Mode, Received,
    RestoreStepView, StepView,
};
use vstd::prelude::*;

verus! {

/// A call of a function of the page is written as in JavaScript: the name, and the arguments in
/// round brackets with commas between them.
pub proof fn law_calls_are_written_as_in_javascript(
    f: Seq<char>,
    a: Seq<char>,
    b: Seq<char>,
    c: Seq<char>,
    d: Seq<char>,
)
    ensures
        page::script_text(f, seq![a]) == f + "("@ + a + ")"@,
        page::script_text(f, seq![a, b]) == f + "("@ + (a + ","@ + b) + ")"@,
        page::script_text(f, seq![a, b, c, d]) == f + "("@ + (a + ","@ + b + ","@ + c + ","@ + d)
            + ")"@,
{
    let s = ","@;
    law_joining_goes_by_parts(seq![a], seq![b], s);
    law_joining_goes_by_parts(seq![b], Seq::empty(), s);
    assert(seq![a] + seq![b] =~= seq![a, b]);
    law_joining_goes_by_parts(seq![a, b], seq![c], s);
    law_joining_goes_by_parts(seq![c], Seq::empty(), s);
    assert(seq![a, b] + seq![c] =~= seq![a, b, c]);
    law_joining_goes_by_parts(seq![a, b, c], seq![d], s);
    law_joining_goes_by_parts(seq![d], Seq::empty(), s);
    assert(seq![a, b, c] + seq![d] =~= seq![a, b, c, d]);
}

/// Every short message to the page holds its text, whole and as JSON.
pub proof fn law_messages_to_the_page_hold_their_text(text: Seq<char>, b: bool)
    ensures
        page::notice_text(text) == "notice"@ + "("@ + json_quoted(text) + ")"@,
        page::saved_text(text) == "saved"@ + "("@ + json_quoted(text) + ")"@,
        page::busy_text(b) == "davbusy"@ + "("@ + (if b {
            "true"@
        } else {
            "false"@
        }) + ")"@,
{
    let e = Seq::<char>::empty();
    law_calls_are_written_as_in_javascript("notice"@, json_quoted(text), e, e, e);
    law_calls_are_written_as_in_javascript("saved"@, json_quoted(text), e, e, e);
    law_calls_are_written_as_in_javascript("davbusy"@, crate::json::bool_text(b), e, e, e);
}

/// What is shown of a conversation is all of it: the HTML of the transcript followed by the running
/// response, and whether more is coming.
pub proof fn law_the_whole_conversation_is_shown(a: AppView)
    ensures
        render(a) == EffectView::Script(
            "resp"@ + "("@ + (json_quoted(
                if a.transcript.len() == 0 && a.response.len() == 0 {
                    Seq::empty()
                } else {
                    transcript_html(a.transcript + a.response)
                },
            ) + ","@ + (if a.streaming {
                "true"@
            } else {
                "false"@
            })) + ")"@,
        ),
{
    let html = if a.transcript.len() == 0 && a.response.len() == 0 {
        Seq::empty()
    } else {
        transcript_html(a.transcript + a.response)
    };
    let e = Seq::<char>::empty();
    law_calls_are_written_as_in_javascript(
        "resp"@,
        json_quoted(html),
        crate::json::bool_text(a.streaming),
        e,
        e,
    );
}

/// Each action asks with its own prompt, in which the trimmed text takes the place of every
/// placeholder, at its own endpoint: its own address and model where it has them and the global
/// ones else. A new conversation begins with that one message, and the settings stay.
pub proof fn law_an_action_asks_with_its_own_prompt(a: AppView, idx: usize, input: Seq<char>)
    requires
        idx < a.cfg.actions.len(),
    ensures
        ({
            let action = a.cfg.actions[idx as int];
            let (b, step) = commanded(a, CommandView::Run { idx: idx as u64, input });
            &&& b.messages.len() == 1
            &&& b.messages[0].role is User
            &&& b.messages[0].content == replaced(action.prompt, "{{text}}"@, trimmed(input))
            &&& b.endpoint is Some
            &&& b.endpoint->0.base_url == (match action.base_url {
                Some(u) => u,
                None => a.cfg.api.base_url,
            })
            &&& b.endpoint->0.model == (match action.model {
                Some(m) => m,
                None => a.cfg.api.model,
            })
            &&& b.endpoint->0.reasoning == (match action.reasoning {
                Some(r) => r,
                None => a.cfg.api.reasoning,
            })
            &&& b.endpoint->0.api_key == key_for(a.cfg, action)
            &&& b == (AppView {
                messages: b.messages,
                endpoint: b.endpoint,
                transcript: Seq::empty(),
                response: Seq::empty(),
                streaming: true,
                receiving: true,
                ..a
            })
            &&& step == StepView::Effects(
                seq![
                    EffectView::Abort,
                    EffectView::OpenStream(stream_request(b.endpoint->0, b.messages)),
                    render(b),
                ],
            )
        }),
{
    assert((idx as u64) as usize == idx);
}

/// Actions whose prompts have no placeholder and differ ask different things; the position of the
/// action alone decides which prompt is asked.
pub proof fn law_different_actions_ask_different_things(
    a: AppView,
    i: usize,
    j: usize,
    input: Seq<char>,
)
    requires
        i < a.cfg.actions.len(),
        j < a.cfg.actions.len(),
        !contains(a.cfg.actions[i as int].prompt, "{{text}}"@),
        !contains(a.cfg.actions[j as int].prompt, "{{text}}"@),
    ensures
        action_run(a, i, input).app.messages == action_run(a, j, input).app.messages <==> a.cfg
            .actions[i as int].prompt == a.cfg.actions[j as int].prompt,
{
    reveal_strlit("{{text}}");
    let p = a.cfg.actions[i as int].prompt;
    let q = a.cfg.actions[j as int].prompt;
    let t = "{{text}}"@;
    lemma_without_occurrence(p, t, trimmed(input));
    lemma_without_occurrence(q, t, trimmed(input));
    assert(action_run(a, i, input).app.messages[0].content == p);
    assert(action_run(a, j, input).app.messages[0].content == q);
}

proof fn lemma_without_occurrence(s: Seq<char>, pat: Seq<char>, by: Seq<char>)
    requires
        pat.len() > 0,
        !contains(s, pat),
    ensures
        replaced(s, pat, by) == s,
{
    crate::text::lemma_find_from(s, pat, 0);
    assert(crate::text::split(s, pat) == seq![s]);
    law_joining_goes_by_parts(seq![s], Seq::empty(), by);
}

/// There is no action behind the last one.
pub proof fn law_no_action_behind_the_last_one(a: AppView, idx: usize, input: Seq<char>)
    requires
        idx >= a.cfg.actions.len(),
    ensures
        action_run(a, idx, input) == nothing(a),
{
}

/// A follow-up question continues the conversation: the response so far and the question are added
/// behind all earlier messages, and the same endpoint is asked with all of them.
pub proof fn law_a_followup_continues_the_conversation(a: AppView, q: Seq<char>)
    requires
        q.len() > 0,
        !a.streaming,
        a.response.len() > 0,
        a.endpoint is Some,
    ensures
        ({
            let (b, step) = commanded(a, CommandView::Followup(q));
            let n = a.messages.len() as int;
            &&& b.messages.len() == n + 2
            &&& b.messages.take(n) == a.messages
            &&& b.messages[n].role is Assistant && b.messages[n].content == a.response
            &&& b.messages[n + 1].role is User && b.messages[n + 1].content == q
            &&& b.endpoint == a.endpoint
            &&& b.cfg == a.cfg
            &&& b.response.len() == 0
            &&& b.streaming && b.receiving
            &&& step == StepView::Effects(
                seq![
                    EffectView::Abort,
                    EffectView::OpenStream(stream_request(a.endpoint->0, b.messages)),
                    render(b),
                ],
            )
        }),
{
    let b = commanded(a, CommandView::Followup(q)).0;
    assert(b.messages.take(a.messages.len() as int) =~= a.messages);
}

/// Whenever a message of the page opens a stream, its request carries all messages of the
/// conversation as it then stands, to the endpoint that then counts, and the stream is listened
/// to. Whoever was asked before is told to stop first.
pub proof fn law_a_stream_is_opened_for_the_conversation(a: AppView, c: CommandView)
    ensures
        ({
            let (b, step) = commanded(a, c);
            step matches StepView::Effects(v) ==> forall|i: int|
                0 <= i < v.len() && #[trigger] v[i] is OpenStream ==> {
                    &&& b.endpoint is Some
                    &&& v[i]->OpenStream_0 == stream_request(b.endpoint->0, b.messages)
                    &&& b.streaming && b.receiving
                    &&& i > 0 && v[i - 1] is Abort
                }
        }),
{
}

proof fn lemma_chunks(r: Received, cs: Seq<Seq<char>>)
    requires
        r.open,
    ensures
        receive(r, cs.map_values(|s: Seq<char>| ArrivalView::Delta(DeltaView::Chunk(s)))) == (
        Received {
            response: r.response + cs.flatten(),
            open: true,
            changed: r.changed || cs.len() > 0,
        }),
    decreases cs.len(),
{
    let xs = cs.map_values(|s: Seq<char>| ArrivalView::Delta(DeltaView::Chunk(s)));
    cs.lemma_flatten_and_flatten_alt_are_equivalent();
    if cs.len() == 0 {
        assert(r.response + cs.flatten() =~= r.response);
    } else {
        let front = cs.drop_last();
        lemma_chunks(r, front);
        front.lemma_flatten_and_flatten_alt_are_equivalent();
        assert(xs.drop_last() =~= front.map_values(
            |s: Seq<char>| ArrivalView::Delta(DeltaView::Chunk(s)),
        ));
        assert(xs.last() == ArrivalView::Delta(DeltaView::Chunk(cs.last())));
        assert(r.response + cs.flatten() =~= r.response + front.flatten() + cs.last());
    }
}

proof fn lemma_after_the_end(r: Received, xs: Seq<ArrivalView>, ys: Seq<ArrivalView>)
    requires
        !receive(r, xs).open,
    ensures
        receive(r, xs + ys) == receive(r, xs),
    decreases ys.len(),
{
    if ys.len() == 0 {
        assert(xs + ys =~= xs);
    } else {
        lemma_after_the_end(r, xs, ys.drop_last());
        assert((xs + ys).drop_last() =~= xs + ys.drop_last());
    }
}

/// A response grows by what arrives, all of it and in order, and nothing else changes. What is new
/// is shown.
pub proof fn law_a_response_grows_by_what_arrives(a: AppView, cs: Seq<Seq<char>>)
    requires
        a.receiving,
    ensures
        ({
            let xs = cs.map_values(|s: Seq<char>| ArrivalView::Delta(DeltaView::Chunk(s)));
            let o = stream_polled(a, xs);
            &&& o.app == (AppView { response: a.response + cs.flatten(), ..a })
            &&& o.effects == if cs.len() > 0 {
                seq![render(o.app)]
            } else {
                Seq::empty()
            }
        }),
{
    lemma_chunks(Received { response: a.response, open: true, changed: false }, cs);
    let xs = cs.map_values(|s: Seq<char>| ArrivalView::Delta(DeltaView::Chunk(s)));
    let o = stream_polled(a, xs);
    assert(o.effects =~= if cs.len() > 0 {
        seq![render(o.app)]
    } else {
        Seq::empty()
    });
}

/// A response ends with its stream: what arrived before is kept, an error is added to it, and what
/// comes behind the end does not count.
pub proof fn law_a_response_ends_with_its_stream(
    a: AppView,
    cs: Seq<Seq<char>>,
    end: ArrivalView,
    late: Seq<ArrivalView>,
)
    requires
        a.receiving,
        !(end is Delta && end->Delta_0 is Chunk),
    ensures
        ({
            let xs = cs.map_values(|s: Seq<char>| ArrivalView::Delta(DeltaView::Chunk(s)));
            let o = stream_polled(a, xs + seq![end] + late);
            let added = match end {
                ArrivalView::Delta(DeltaView::Error(e)) => "\n\n**error:** "@ + e,
                _ => Seq::empty(),
            };
            &&& o.app == (AppView {
                response: a.response + cs.flatten() + added,
                streaming: false,
                receiving: false,
                ..a
            })
            &&& o.effects == if cs.len() > 0 || end is Delta {
                seq![EffectView::CloseStream, render(o.app)]
            } else {
                seq![EffectView::CloseStream]
            }
        }),
{
    let start = Received { response: a.response, open: true, changed: false };
    let xs = cs.map_values(|s: Seq<char>| ArrivalView::Delta(DeltaView::Chunk(s)));
    let added = match end {
        ArrivalView::Delta(DeltaView::Error(e)) => "\n\n**error:** "@ + e,
        _ => Seq::empty(),
    };
    lemma_chunks(start, cs);
    assert((xs + seq![end]).drop_last() =~= xs);
    assert((xs + seq![end]).last() == end);
    lemma_after_the_end(start, xs + seq![end], late);
    let o = stream_polled(a, xs + seq![end] + late);
    assert(o.app.response =~= a.response + cs.flatten() + added);
    assert(o.effects =~= if cs.len() > 0 || end is Delta {
        seq![EffectView::CloseStream, render(o.app)]
    } else {
        seq![EffectView::CloseStream]
    });
}

/// An activation shows the captured text, the names of all actions in their order, and a notice
/// where the hotkey changed or the settings could not be read, and begins an empty conversation.
pub proof fn law_an_activation_shows_text_and_actions(
    a: AppView,
    text: Seq<char>,
    loaded: Result<ConfigView, Seq<char>>,
)
    ensures
        ({
            let o = activated(a, text, loaded);
            let actions = o.app.cfg.actions;
            let notice = match loaded {
                Ok(c) => if c.hotkey == a.startup_hotkey {
                    Seq::empty()
                } else {
                    "hotkey changed - restart cue to apply"@
                },
                Err(e) => e,
            };
            &&& actions == (match loaded {
                Ok(c) => c.actions,
                Err(_) => a.cfg.actions,
            })
            &&& loaded matches Ok(c) ==> o.app.cfg == (ConfigView { hotkey: a.startup_hotkey, ..c })
            &&& o.app == (AppView {
                cfg: o.app.cfg,
                mode: Mode::Assist,
                response: Seq::empty(),
                transcript: Seq::empty(),
                messages: Seq::empty(),
                streaming: false,
                receiving: false,
                had_focus: false,
                focus_pending: text.len() == 0,
                ..a
            })
            &&& o.effects.len() > 0
            &&& o.effects[0] is Abort
            &&& o.effects.contains(EffectView::CloseStream)
            &&& loaded matches Ok(c) ==> o.effects.contains(EffectView::SyncAutostart(c.autostart))
            &&& exists|items: Seq<Seq<char>>| #[trigger]
                items.len() == actions.len() && (forall|i: int|
                    0 <= i < items.len() ==> #[trigger] items[i] == json_quoted(actions[i].name))
                    && o.effects.last() == EffectView::Script(
                    "assist"@ + "("@ + (json_quoted(text) + ","@ + json_array(items) + ","@
                        + json_quoted(notice) + ","@ + (if text.len() == 0 {
                        "true"@
                    } else {
                        "false"@
                    })) + ")"@,
                )
        }),
{
    let o = activated(a, text, loaded);
    let actions = o.app.cfg.actions;
    let notice = match loaded {
        Ok(c) => if c.hotkey == a.startup_hotkey {
            Seq::empty()
        } else {
            "hotkey changed - restart cue to apply"@
        },
        Err(e) => e,
    };
    let items = page::action_names(actions).map_values(|n: Seq<char>| json_quoted(n));
    assert(items.len() == actions.len());
    law_calls_are_written_as_in_javascript(
        "assist"@,
        json_quoted(text),
        json_array(items),
        json_quoted(notice),
        crate::json::bool_text(text.len() == 0),
    );
    if loaded is Ok {
        assert(o.effects[1] == EffectView::SyncAutostart(loaded->Ok_0.autostart));
        assert(o.effects[2] == EffectView::CloseStream);
    } else {
        assert(o.effects[1] == EffectView::CloseStream);
    }
}

/// The notes of the start are shown once, when the page is ready, with the names of all actions.
pub proof fn law_the_notes_of_the_start_are_shown_once(a: AppView)
    ensures
        ({
            let (b, step) = commanded(a, CommandView::Ready);
            &&& b == (AppView { startup_notice: None, ..a })
            &&& a.startup_notice is None ==> step == StepView::Effects(Seq::empty())
            &&& a.startup_notice matches Some(n) ==> exists|items: Seq<Seq<char>>| #[trigger]
                items.len() == a.cfg.actions.len() && (forall|i: int|
                    0 <= i < items.len() ==> #[trigger] items[i] == json_quoted(
                        a.cfg.actions[i].name,
                    )) && step == StepView::Effects(
                    seq![
                        EffectView::Script(
                            "assist"@ + "("@ + (json_quoted(Seq::empty()) + ","@ + json_array(items)
                                + ","@ + json_quoted(n) + ","@ + "true"@) + ")"@,
                        ),
                    ],
                )
            &&& commanded(b, CommandView::Ready).1 == StepView::Effects(Seq::empty())
        }),
{
    if let Some(n) = a.startup_notice {
        let items = page::action_names(a.cfg.actions).map_values(|n: Seq<char>| json_quoted(n));
        assert(items.len() == a.cfg.actions.len());
        law_calls_are_written_as_in_javascript(
            "assist"@,
            json_quoted(Seq::empty()),
            json_array(items),
            json_quoted(n),
            "true"@,
        );
    }
}

/// All notes of the start are kept, in their order: those on the settings, that on the hotkey, and
/// on a first run the greeting, which names the hotkey. They are shown a line each.
pub proof fn law_all_notes_of_the_start_are_kept(
    notes: Seq<Seq<char>>,
    note: Seq<char>,
    hotkey: Seq<char>,
)
    ensures
        startup_notes(notes, None, false, hotkey) == notes,
        startup_notes(notes, Some(note), false, hotkey) == notes.push(note),
        startup_notes(notes, None, true, hotkey).drop_last() == notes,
        startup_notes(notes, Some(note), true, hotkey).drop_last() == notes.push(note),
        startup_notes(notes, None, true, hotkey).last()
            == "welcome - set your api key in settings (tray icon), then press "@ + hotkey
            + " on any selected text"@,
        startup_notes(notes, Some(note), true, hotkey).last() == startup_notes(
            notes,
            None,
            true,
            hotkey,
        ).last(),
        joined_notes(notes) is None <==> notes.len() == 0,
        notes.len() == 1 ==> joined_notes(notes) == Some(notes[0]),
        notes.len() > 0 ==> joined_notes(notes.push(note)) == Some(
            joined_notes(notes)->0 + "\n"@ + note,
        ),
{
    assert(startup_notes(notes, None, false, hotkey) =~= notes);
    assert(startup_notes(notes, Some(note), false, hotkey) =~= notes.push(note));
    assert(startup_notes(notes, None, true, hotkey).drop_last() =~= notes);
    assert(startup_notes(notes, Some(note), true, hotkey).drop_last() =~= notes.push(note));
    assert(notes.push(note) =~= notes + seq![note]);
    law_joining_goes_by_parts(notes, seq![note], "\n"@);
    law_joining_goes_by_parts(seq![note], Seq::empty(), "\n"@);
}

/// The program starts with the settings it was given and nothing else: no conversation, no stream,
/// no operation, and the hotkey that was registered remembered.
pub proof fn law_the_program_starts_empty(cfg: ConfigView, notice: Option<Seq<char>>)
    ensures
        ({
            let a = fresh(cfg, notice);
            &&& a.cfg == cfg && a.startup_hotkey == cfg.hotkey && a.startup_notice == notice
            &&& a.mode is Assist
            &&& a.messages.len() == 0 && a.response.len() == 0 && a.transcript.len() == 0
            &&& a.endpoint is None && a.dav_cred is None
            &&& !a.streaming && !a.receiving && !a.dav_busy && !a.had_focus && !a.focus_pending
        }),
{
}

/// Hiding gives up the running stream and hides the window; the conversation stays. Closing does
/// the same, and leaves the settings, whose draft is discarded first.
pub proof fn law_hiding_gives_up_the_stream(a: AppView)
    ensures
        hidden(a).app == (AppView {
            streaming: false,
            receiving: false,
            focus_pending: false,
            ..a
        }),
        hidden(a).effects == seq![
            EffectView::Abort,
            EffectView::CloseStream,
            EffectView::HideWindow,
        ],
        closed(a).app == (AppView { mode: Mode::Assist, ..hidden(a).app }),
        a.mode is Settings ==> closed(a).effects == seq![
            EffectView::Script("dirty=false"@),
            EffectView::Abort,
            EffectView::CloseStream,
            EffectView::HideWindow,
        ],
        a.mode is Assist ==> closed(a).effects == hidden(a).effects,
        commanded(a, CommandView::Close) == (closed(a).app, StepView::Effects(closed(a).effects)),
{
    if a.mode is Settings {
        assert(closed(a).effects =~= seq![
            EffectView::Script("dirty=false"@),
            EffectView::Abort,
            EffectView::CloseStream,
            EffectView::HideWindow,
        ]);
    }
}

/// Copying takes the whole response, or the whole text that the page names; only an address of the
/// web is opened, as it is; dragging drags; a message that says nothing does nothing. None of these
/// changes the state.
pub proof fn law_small_commands(a: AppView, t: Seq<char>)
    ensures
        commanded(a, CommandView::Copy) == (
            a,
            StepView::Effects(
                if a.response.len() == 0 {
                    Seq::empty()
                } else {
                    seq![EffectView::CopyText(a.response)]
                },
            ),
        ),
        commanded(a, CommandView::CopyText(Some(t))) == (
            a,
            StepView::Effects(seq![EffectView::CopyText(t)]),
        ),
        commanded(a, CommandView::CopyText(None)) == (a, StepView::Effects(Seq::empty())),
        commanded(a, CommandView::Open(t)) == (
            a,
            StepView::Effects(
                if starts_with(t, "https://"@) || starts_with(t, "http://"@) {
                    seq![EffectView::OpenUrl(t)]
                } else {
                    Seq::empty()
                },
            ),
        ),
        commanded(a, CommandView::Drag) == (a, StepView::Effects(seq![EffectView::DragWindow])),
        commanded(a, CommandView::Ignore) == (a, StepView::Effects(Seq::empty())),
        commanded(a, CommandView::Save(t)) == (a, StepView::Save(t)),
{
}

/// After saving, the last error is shown, whichever step it came from; without one, a new hotkey
/// takes a restart and else the page is told. Autostart follows the settings in any case.
pub proof fn law_saving_ends_with_its_outcome(
    a: AppView,
    unnamed: bool,
    key: Result<(), Seq<char>>,
    pass: Result<(), Seq<char>>,
    settings: Result<(), Seq<char>>,
    e: Seq<char>,
)
    ensures
        ({
            let v = save_finished(a, unnamed, last_error(key, pass, settings));
            let fine = key is Ok && pass is Ok && settings is Ok;
            &&& v.len() == 2
            &&& v[0] == EffectView::SyncAutostart(a.cfg.autostart)
            &&& settings == Err::<(), Seq<char>>(e) ==> v[1] == EffectView::Script(
                page::saved_text(e),
            )
            &&& settings is Ok && pass == Err::<(), Seq<char>>(e) ==> v[1] == EffectView::Script(
                page::saved_text(e),
            )
            &&& settings is Ok && pass is Ok && key == Err::<(), Seq<char>>(e) ==> v[1]
                == EffectView::Script(page::saved_text(e))
            &&& v[1] is Restart <==> fine && a.cfg.hotkey != a.startup_hotkey
            &&& fine && a.cfg.hotkey == a.startup_hotkey && unnamed ==> v[1] == EffectView::Script(
                page::saved_text("saved - give the unnamed action a name"@),
            )
            &&& fine && a.cfg.hotkey == a.startup_hotkey && !unnamed ==> v[1]
                == EffectView::Script(page::saved_text("saved"@))
        }),
{
}

/// An operation on the server is begun with the connection and the name that were given, and the
/// page is told that it runs; a backup first needs the settings, and then uploads exactly their
/// text. Without an address nothing is begun.
pub proof fn law_an_operation_is_begun_as_asked(
    a: AppView,
    cred: CredView,
    name: Seq<char>,
    text: Seq<char>,
)
    requires
        !a.dav_busy,
    ensures
        cred.url.len() == 0 ==> forall|op: DavCommand| #[trigger]
            dav_begun(a, op, cred, name) == (a, StepView::Effects(Seq::empty())),
        cred.url.len() > 0 ==> {
            &&& dav_begun(a, DavCommand::List, cred, name) == (
                AppView { dav_busy: true, ..a },
                StepView::Effects(
                    seq![
                        EffectView::ListBackups(cred),
                        EffectView::Script(page::busy_text(true)),
                    ],
                ),
            )
            &&& dav_begun(a, DavCommand::Restore, cred, name) == (
                AppView { dav_busy: true, dav_cred: Some(cred), ..a },
                StepView::Effects(
                    seq![
                        EffectView::Restore(cred, name),
                        EffectView::Script(page::busy_text(true)),
                    ],
                ),
            )
            &&& dav_begun(a, DavCommand::Backup, cred, name) == (a, StepView::LoadForBackup(cred))
        },
        forall|op: DavCommand| #[trigger]
            commanded(a, CommandView::Dav { op, cred, name }) == dav_begun(a, op, cred, name),
        backup_begun(a, cred, Ok(text)).app == (AppView { dav_busy: true, ..a }),
        backup_begun(a, cred, Ok(text)).effects == seq![
            EffectView::Backup(cred, text),
            EffectView::Script(page::busy_text(true)),
        ],
        backup_begun(a, cred, Err(text)) == (crate::ui::Outcome {
            app: a,
            effects: seq![EffectView::Script(page::notice_text(text))],
        }),
{
}

/// Every listed backup is offered: the list that the page gets holds each name, all of them and in
/// the same order, and no other. Only where there is none, the user is told so. The page learns
/// last that the operation is over.
pub proof fn law_every_listed_backup_is_offered(names: Vec<String>)
    ensures
        ({
            let v = dav_shown(DavArrival::Done(Done::List(Ok(names))));
            let n = v.len() as int;
            &&& n >= 2
            &&& exists|items: Seq<Seq<char>>| #[trigger]
                items.len() == names@.len() && (forall|i: int|
                    0 <= i < names@.len() ==> #[trigger] items[i] == json_quoted(names@[i]@))
                    && v[n - 2] == EffectView::Script(
                    "davlist"@ + "("@ + json_array(items) + ")"@,
                )
            &&& v[n - 1] == EffectView::Script("davbusy"@ + "("@ + "false"@ + ")"@)
            &&& names@.len() > 0 ==> n == 2
            &&& names@.len() == 0 ==> n == 3 && v[0] == EffectView::Script(
                "notice"@ + "("@ + json_quoted("no backups found"@) + ")"@,
            )
        }),
{
    let v = dav_shown(DavArrival::Done(Done::List(Ok(names))));
    let e = Seq::<char>::empty();
    let items = views(names@).map_values(|n: Seq<char>| json_quoted(n));
    assert(items.len() == names@.len());
    law_calls_are_written_as_in_javascript("davlist"@, json_array(items), e, e, e);
    law_messages_to_the_page_hold_their_text("no backups found"@, false);
    assert(v[v.len() - 2] == EffectView::Script(page::backups_text(views(names@))));
}

/// Every other end of an operation is told in words that hold the reason, and frees the page.
pub proof fn law_the_end_of_an_operation_is_told(e: String, u: ())
    ensures
        ({
            let told = |text: Seq<char>|
                seq![
                    EffectView::Script("notice"@ + "("@ + json_quoted(text) + ")"@),
                    EffectView::Script("davbusy"@ + "("@ + "false"@ + ")"@),
                ];
            &&& dav_shown(DavArrival::Done(Done::Backup(Ok(u)))) == told("backup uploaded"@)
            &&& dav_shown(DavArrival::Done(Done::Backup(Err(e)))) == told("backup failed: "@ + e@)
            &&& dav_shown(DavArrival::Done(Done::List(Err(e)))) == told("list failed: "@ + e@)
            &&& dav_shown(DavArrival::Done(Done::Restore(Err(e)))) == told("restore failed: "@ + e@)
            &&& dav_finished("restore: not a valid config: "@ + e@) == told(
                "restore: not a valid config: "@ + e@,
            )
            &&& dav_shown(DavArrival::Gone) == seq![
                EffectView::Script("davbusy"@ + "("@ + "false"@ + ")"@),
            ]
        }),
{
    law_messages_to_the_page_hold_their_text("backup uploaded"@, false);
    law_messages_to_the_page_hold_their_text("backup failed: "@ + e@, false);
    law_messages_to_the_page_hold_their_text("list failed: "@ + e@, false);
    law_messages_to_the_page_hold_their_text("restore failed: "@ + e@, false);
    law_messages_to_the_page_hold_their_text("restore: not a valid config: "@ + e@, false);
}

/// A valid restored text is written with its settings, and the password of the restore goes with
/// it; an invalid one is told. Afterwards an open settings window shows what was restored, with
/// that password.
pub proof fn law_a_restore_is_written_and_shown(
    a: AppView,
    c: ConfigView,
    k: CredView,
    e: Seq<char>,
    width: Seq<char>,
    height: Seq<char>,
)
    requires
        a.dav_cred == Some(k),
        k.url.len() > 0,
    ensures
        restored(a, Ok(c)).0 == (AppView { dav_cred: None, ..a }),
        restored(a, Ok(c)).1 matches RestoreStepView::Write { cfg, pass } && cfg.webdav.url == k.url
            && cfg.webdav.user == k.user && cfg == (ConfigView { webdav: cfg.webdav, ..c }) && pass
            == k.pass,
        restored(a, Err(e)) == (
            a,
            RestoreStepView::Effects(
                seq![
                    EffectView::Script(page::notice_text("restore: not a valid config: "@ + e)),
                    EffectView::Script(page::busy_text(false)),
                ],
            ),
        ),
        ({
            let v = restore_shown(a, k.pass, width, height);
            let told = seq![
                EffectView::Script(page::notice_text("restored from webdav"@)),
                EffectView::Script(page::busy_text(false)),
            ];
            &&& a.mode is Assist ==> v == told
            &&& a.mode is Settings ==> v == seq![
                EffectView::Script(
                    page::settings_text(
                        page::settings_payload_text(
                            a.cfg,
                            if k.pass.len() == 0 {
                                None
                            } else {
                                Some(k.pass)
                            },
                            width,
                            height,
                        ),
                        true,
                    ),
                ),
            ] + told
        }),
{
    let v = restore_shown(a, k.pass, width, height);
    let told = seq![
        EffectView::Script(page::notice_text("restored from webdav"@)),
        EffectView::Script(page::busy_text(false)),
    ];
    if a.mode is Assist {
        assert(v =~= told);
    }
}

/// The settings window shows the settings that count, and gets the focus; freshly loaded settings
/// count as a whole.
pub proof fn law_the_settings_window_shows_the_settings(
    a: AppView,
    loaded: ConfigView,
    width: Seq<char>,
    height: Seq<char>,
)
    ensures
        settings_opened(a, width, height).app == (AppView {
            mode: Mode::Settings,
            had_focus: false,
            ..a
        }),
        settings_opened(a, width, height).effects == seq![
            EffectView::Script(
                "settings"@ + "("@ + (json_object(
                    page::settings_members(a.cfg, None, width, height),
                ) + ","@ + "false"@) + ")"@,
            ),
            EffectView::FocusPage,
        ],
        reloaded(a, Some(loaded)) == (AppView { cfg: loaded, ..a }),
        reloaded(a, None) == a,
{
    let e = Seq::<char>::empty();
    law_calls_are_written_as_in_javascript(
        "settings"@,
        json_object(page::settings_members(a.cfg, None, width, height)),
        "false"@,
        e,
        e,
    );
}

/// The settings form shows every setting under its own name, and every action, in their order.
pub proof fn law_the_form_shows_every_setting(
    c: ConfigView,
    pass: Option<Seq<char>>,
    width: Seq<char>,
    height: Seq<char>,
)
    ensures
        ({
            let m = page::settings_members(c, pass, width, height);
            let key_name = if c.api.key.len() == 0 {
                "default"@
            } else {
                c.api.key
            };
            let secret = |n: Seq<char>|
                if c.secrets.contains_key(n) {
                    c.secrets[n]
                } else {
                    Seq::empty()
                };
            let switch = |b: bool|
                if b {
                    "true"@
                } else {
                    "false"@
                };
            &&& m.len() == 12
            &&& m[0] == ("hotkey"@, json_quoted(c.hotkey))
            &&& m[1] == ("autostart"@, switch(c.autostart))
            &&& m[2] == ("width"@, width)
            &&& m[3] == ("height"@, height)
            &&& m[4] == ("base_url"@, json_quoted(c.api.base_url))
            &&& m[5] == ("model"@, json_quoted(c.api.model))
            &&& m[6] == ("reasoning"@, switch(c.api.reasoning))
            &&& m[7] == ("secret"@, json_quoted(secret(key_name)))
            &&& m[8] == ("dav_url"@, json_quoted(c.webdav.url))
            &&& m[9] == ("dav_user"@, json_quoted(c.webdav.user))
            &&& m[10] == (
                "dav_pass"@,
                json_quoted(
                    match pass {
                        Some(p) => p,
                        None => secret("webdav"@),
                    },
                ),
            )
            &&& m[11].0 == "actions"@
            &&& exists|items: Seq<Seq<char>>| #[trigger]
                items.len() == c.actions.len() && m[11].1 == json_array(items) && (forall|i: int|
                    0 <= i < items.len() ==> #[trigger] items[i] == json_object(
                        page::action_members(c.actions[i]),
                    ))
        }),
{
    let items = c.actions.map_values(|a: ActionView| json_object(page::action_members(a)));
    assert(items.len() == c.actions.len());
}

/// The settings form shows everything of an action under its own name; what an action has not is
/// null, but for the model, which is then empty.
pub proof fn law_the_form_shows_all_of_an_action(a: ActionView)
    ensures
        ({
            let m = page::action_members(a);
            let text = |o: Option<Seq<char>>|
                match o {
                    Some(s) => json_quoted(s),
                    None => "null"@,
                };
            &&& m.len() == 7
            &&& m[0] == ("name"@, json_quoted(a.name))
            &&& m[1] == ("prompt"@, json_quoted(a.prompt))
            &&& m[2] == (
                "model"@,
                json_quoted(
                    if a.model is Some {
                        a.model->0
                    } else {
                        Seq::empty()
                    },
                ),
            )
            &&& m[3] == (
                "reasoning"@,
                if a.reasoning == Some(true) {
                    "true"@
                } else if a.reasoning == Some(false) {
                    "false"@
                } else {
                    "null"@
                },
            )
            &&& m[4] == ("base_url"@, text(a.base_url))
            &&& m[5] == ("api_key"@, text(a.api_key))
            &&& m[6] == ("key"@, text(a.key))
        }),
{
}

/// The text of a member of a message, or no text at all.
pub open spec fn text_member(message: Seq<char>, key: Seq<char>) -> Seq<char> {
    if json_member(message, key) is Some && json_string(json_member(message, key)->0) is Some {
        json_string(json_member(message, key)->0)->0
    } else {
        Seq::empty()
    }
}

/// A message of the page asks for what its command word says, with the members that belong to it:
/// the number and the text of an action to run, a trimmed question, an address, a form, and for the
/// server a trimmed address and user, a password as it is, and a name.
pub proof fn law_a_message_asks_for_what_it_says(message: Seq<char>, word: Seq<char>)
    ensures
        command_for("ready"@, message) is Ready,
        command_for("drag"@, message) is Drag,
        command_for("close"@, message) is Close,
        command_for("copy"@, message) is Copy,
        command_for("run"@, message) == (CommandView::Run {
            idx: if json_member(message, "idx"@) is Some && json_unsigned(
                json_member(message, "idx"@)->0,
            ) is Some {
                json_unsigned(json_member(message, "idx"@)->0)->0
            } else {
                0
            },
            input: text_member(message, "input"@),
        }),
        command_for("followup"@, message) == CommandView::Followup(
            trimmed(text_member(message, "text"@)),
        ),
        command_for("copytext"@, message) == CommandView::CopyText(
            if json_member(message, "text"@) is Some {
                json_string(json_member(message, "text"@)->0)
            } else {
                None
            },
        ),
        command_for("open"@, message) == CommandView::Open(text_member(message, "url"@)),
        command_for("save"@, message) == CommandView::Save(
            if json_member(message, "form"@) is Some {
                json_member(message, "form"@)->0
            } else {
                "null"@
            },
        ),
        ({
            let dav = json_member(message, "dav"@);
            let text = |key: Seq<char>|
                if dav is Some {
                    text_member(dav->0, key)
                } else {
                    Seq::empty()
                };
            let cred = CredView {
                url: trimmed(text("url"@)),
                user: trimmed(text("user"@)),
                pass: text("pass"@),
            };
            let name = text_member(message, "name"@);
            &&& command_for("backup"@, message) == (CommandView::Dav {
                op: DavCommand::Backup,
                cred,
                name,
            })
            &&& command_for("davlist"@, message) == (CommandView::Dav {
                op: DavCommand::List,
                cred,
                name,
            })
            &&& command_for("restore"@, message) == (CommandView::Dav {
                op: DavCommand::Restore,
                cred,
                name,
            })
        }),
        !(command_for(word, message) is Ignore) ==> seq![
            "ready"@,
            "drag"@,
            "close"@,
            "run"@,
            "followup"@,
            "copy"@,
            "copytext"@,
            "open"@,
            "save"@,
            "backup"@,
            "davlist"@,
            "restore"@,
        ].contains(word),
{
    lemma_words_apart();
    let words = seq![
        "ready"@,
        "drag"@,
        "close"@,
        "run"@,
        "followup"@,
        "copy"@,
        "copytext"@,
        "open"@,
        "save"@,
        "backup"@,
        "davlist"@,
        "restore"@,
    ];
    if !(command_for(word, message) is Ignore) {
        let i: int = if word == "ready"@ {
            0
        } else if word == "drag"@ {
            1
        } else if word == "close"@ {
            2
        } else if word == "run"@ {
            3
        } else if word == "followup"@ {
            4
        } else if word == "copy"@ {
            5
        } else if word == "copytext"@ {
            6
        } else if word == "open"@ {
            7
        } else if word == "save"@ {
            8
        } else if word == "backup"@ {
            9
        } else if word == "davlist"@ {
            10
        } else {
            11
        };
        assert(words[i] == word);
    }
}

/// The command words differ, each in its length or in one of its first two characters.
proof fn lemma_words_apart()
    ensures
        "ready"@.len() == 5 && "ready"@[0] == 'r',
        "drag"@.len() == 4 && "drag"@[0] == 'd',
        "close"@.len() == 5 && "close"@[0] == 'c',
        "run"@.len() == 3,
        "followup"@.len() == 8 && "followup"@[0] == 'f',
        "copy"@.len() == 4 && "copy"@[0] == 'c',
        "copytext"@.len() == 8 && "copytext"@[0] == 'c',
        "open"@.len() == 4 && "open"@[0] == 'o',
        "save"@.len() == 4 && "save"@[0] == 's',
        "backup"@.len() == 6,
        "davlist"@.len() == 7 && "davlist"@[0] == 'd',
        "restore"@.len() == 7 && "restore"@[0] == 'r',
{
    reveal_strlit("ready");
    reveal_strlit("drag");
    reveal_strlit("close");
    reveal_strlit("run");
    reveal_strlit("followup");
    reveal_strlit("copy");
    reveal_strlit("copytext");
    reveal_strlit("open");
    reveal_strlit("save");
    reveal_strlit("backup");
    reveal_strlit("davlist");
    reveal_strlit("restore");
}

/// A look at the focus: the assistant that had the focus and lost it hides, and is not looked at
/// again soon. Otherwise it stays, remembers whether it has the focus, and an input that waits for
/// the focus gets it once it is there. The settings and a hidden window are left alone.
pub proof fn law_a_look_at_the_focus(a: AppView, visible: bool, foreground: bool)
    ensures
        ({
            let (o, again) = ticked(a, visible, foreground);
            let looks = a.mode is Assist && visible;
            let leaves = a.had_focus && !foreground;
            &&& !looks ==> o == nothing(a) && !again
            &&& looks && leaves ==> !again && o.effects == hidden(a).effects && o.app == (AppView {
                had_focus: false,
                ..hidden(a).app
            })
            &&& looks && !leaves ==> again && o.app == (AppView {
                had_focus: foreground,
                focus_pending: a.focus_pending && !foreground,
                ..a
            })
            &&& looks && !leaves && a.focus_pending && foreground ==> o.effects == seq![
                EffectView::FocusPage,
                EffectView::Script("document.getElementById('inp').focus()"@),
            ]
            &&& looks && !leaves && !(a.focus_pending && foreground) ==> o.effects.len() == 0
        }),
{
}

/// Lists are seen whole and in order.
pub proof fn law_lists_are_seen_whole(
    effects: Seq<Effect>,
    messages: Seq<Message>,
    actions: Seq<Action>,
    arrivals: Seq<Arrival>,
    members: Seq<(String, String)>,
    i: int,
)
    ensures
        effect_views(effects).len() == effects.len(),
        0 <= i < effects.len() ==> effect_views(effects)[i] == effects[i]@,
        message_views(messages).len() == messages.len(),
        0 <= i < messages.len() ==> message_views(messages)[i] == messages[i]@,
        action_views(actions).len() == actions.len(),
        0 <= i < actions.len() ==> action_views(actions)[i] == actions[i]@,
        arrival_views(arrivals).len() == arrivals.len(),
        0 <= i < arrivals.len() ==> arrival_views(arrivals)[i] == arrivals[i]@,
        member_views(members).len() == members.len(),
        0 <= i < members.len() ==> member_views(members)[i] == (members[i].0@, members[i].1@),
{
}

/// The state is seen with all that it holds.
pub proof fn law_the_state_is_seen_whole(a: App)
    ensures
        a@.cfg == a.cfg@ && a@.mode == a.mode,
        a@.response == a.response@ && a@.transcript == a.transcript@,
        a@.messages == message_views(a.messages@),
        a@.startup_hotkey == a.startup_hotkey@,
        a@.startup_notice is Some <==> a.startup_notice is Some,
        a.startup_notice matches Some(n) ==> a@.startup_notice == Some(n@),
        a@.endpoint is Some <==> a.endpoint is Some,
        a.endpoint matches Some(e) ==> a@.endpoint == Some(e@),
        a@.dav_cred is Some <==> a.dav_cred is Some,
        a.dav_cred matches Some(k) ==> a@.dav_cred == Some(k@),
        a@.streaming == a.streaming && a@.receiving == a.receiving,
        a@.dav_busy == a.dav_busy,
        a@.had_focus == a.had_focus && a@.focus_pending == a.focus_pending,
{
}

/// Settings, connections, messages and requests are seen with each part in its place.
pub proof fn law_values_are_seen_part_by_part(
    c: Config,
    a: Action,
    k: Cred,
    m: Message,
    e: Endpoint,
    r: Request,
)
    ensures
        c@.hotkey == c.hotkey@ && c@.autostart == c.autostart,
        c@.width == c.width && c@.height == c.height,
        c@.api.base_url == c.api.base_url@ && c@.api.api_key == c.api.api_key@,
        c@.api.key == c.api.key@ && c@.api.model == c.api.model@,
        c@.api.reasoning == c.api.reasoning,
        c@.webdav.url == c.webdav.url@ && c@.webdav.user == c.webdav.user@,
        c@.actions == action_views(c.actions@) && c@.secrets == c.secrets@,
        a@.name == a.name@ && a@.prompt == a.prompt@ && a@.reasoning == a.reasoning,
        a.model matches Some(s) ==> a@.model == Some(s@),
        a.base_url matches Some(s) ==> a@.base_url == Some(s@),
        a.api_key matches Some(s) ==> a@.api_key == Some(s@),
        a.key matches Some(s) ==> a@.key == Some(s@),
        k@.url == k.url@ && k@.user == k.user@ && k@.pass == k.pass@,
        m@.role == m.role && m@.content == m.content@,
        e@.base_url == e.base_url@ && e@.api_key == e.api_key@ && e@.model == e.model@,
        e@.reasoning == e.reasoning,
        r@.method == r.method && r@.url == r.url@ && r@.headers == member_views(r.headers@),
        r.body matches Some(s) ==> r@.body == Some(s@),
        r.body is None ==> r@.body is None,
{
}

/// An effect is seen as what it is, with all that it carries.
pub proof fn law_effects_are_seen_as_they_are(s: String, r: Request, k: Cred, b: bool)
    ensures
        Effect::Script(s)@ == EffectView::Script(s@),
        Effect::OpenStream(r)@ == EffectView::OpenStream(r@),
        Effect::CopyText(s)@ == EffectView::CopyText(s@),
        Effect::OpenUrl(s)@ == EffectView::OpenUrl(s@),
        Effect::SyncAutostart(b)@ == EffectView::SyncAutostart(b),
        Effect::Backup(k, s)@ == EffectView::Backup(k@, s@),
        Effect::ListBackups(k)@ == EffectView::ListBackups(k@),
        Effect::Restore(k, s)@ == EffectView::Restore(k@, s@),
        Effect::Abort@ is Abort,
        Effect::CloseStream@ is CloseStream,
        Effect::FocusPage@ is FocusPage,
        Effect::HideWindow@ is HideWindow,
        Effect::DragWindow@ is DragWindow,
        Effect::Restart@ is Restart,
{
}

} // verus!
