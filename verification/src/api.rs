//! Client side of an OpenAI-compatible streaming chat completion.
use crate::http::{header, Failure, Method, Request, RequestView};
use crate::json::{
    array, element, json_array, json_element, json_member, json_object, json_quoted, json_string,
    member, member_string, member_views, object, quote, string_member,
};
use crate::text::{
    decimal, decimal_str, law_a_run_at_the_end_is_taken_off, law_a_trimmed_text_is_kept_whole,
    opt_view, same, starts_with, starts_with_str, trim, trim_end_char, trim_end_matches, trimmed,
    views, white,
};
use vstd::prelude::*;
use vstd::string::{StrSliceExecFns, StringExecFns};

verus! {

/// A piece of a streamed response.
#[derive(Debug, PartialEq, Eq)]
pub enum Delta {
    Chunk(String),
    Done,
    Error(String),
}

pub enum DeltaView {
    Chunk(Seq<char>),
    Done,
    Error(Seq<char>),
}

impl View for Delta {
    type V = DeltaView;

    open spec fn view(&self) -> DeltaView {
        match self {
            Delta::Chunk(s) => DeltaView::Chunk(s@),
            Delta::Done => DeltaView::Done,
            Delta::Error(e) => DeltaView::Error(e@),
        }
    }
}

/// Where and how to ask for a completion.
#[derive(Debug, PartialEq, Eq)]
pub struct Endpoint {
    pub base_url: String,
    pub api_key: String,
    pub model: String,
    /// true = model default, false = disabled
    pub reasoning: bool,
}

pub struct EndpointView {
    pub base_url: Seq<char>,
    pub api_key: Seq<char>,
    pub model: Seq<char>,
    pub reasoning: bool,
}

impl View for Endpoint {
    type V = EndpointView;

    open spec fn view(&self) -> EndpointView {
        EndpointView {
            base_url: self.base_url@,
            api_key: self.api_key@,
            model: self.model@,
            reasoning: self.reasoning,
        }
    }
}

impl Clone for Endpoint {
    fn clone(&self) -> (r: Self)
        ensures
            r@ == self@,
    {
        Endpoint {
            base_url: self.base_url.clone(),
            api_key: self.api_key.clone(),
            model: self.model.clone(),
            reasoning: self.reasoning,
        }
    }
}

#[derive(Debug, PartialEq, Eq, Clone, Copy)]
pub enum Role {
    User,
    Assistant,
}

/// One message of a conversation.
#[derive(Debug, PartialEq, Eq)]
pub struct Message {
    pub role: Role,
    pub content: String,
}

pub struct MessageView {
    pub role: Role,
    pub content: Seq<char>,
}

impl View for Message {
    type V = MessageView;

    open spec fn view(&self) -> MessageView {
        MessageView { role: self.role, content: self.content@ }
    }
}

impl Clone for Message {
    fn clone(&self) -> (r: Self)
        ensures
            r@ == self@,
    {
        Message { role: self.role, content: self.content.clone() }
    }
}

pub open spec fn message_views(v: Seq<Message>) -> Seq<MessageView> {
    v.map_values(|m: Message| m@)
}

pub fn user(text: &str) -> (r: Message)
    ensures
        r@ == (MessageView { role: Role::User, content: text@ }),
{
    Message { role: Role::User, content: text.to_owned() }
}

pub fn assistant(text: &str) -> (r: Message)
    ensures
        r@ == (MessageView { role: Role::Assistant, content: text@ }),
{
    Message { role: Role::Assistant, content: text.to_owned() }
}

pub open spec fn role_text(r: Role) -> Seq<char> {
    match r {
        Role::User => "user"@,
        Role::Assistant => "assistant"@,
    }
}

/// The members of the JSON object of a message.
pub open spec fn message_members(m: MessageView) -> Seq<(Seq<char>, Seq<char>)> {
    seq![("role"@, json_quoted(role_text(m.role))), ("content"@, json_quoted(m.content))]
}

pub open spec fn message_json(m: MessageView) -> Seq<char> {
    json_object(message_members(m))
}

/// The members of the JSON object of a request. Reasoning is switched off by a member of its own;
/// where it is on, the provider's default is left in place.
pub open spec fn request_members(ep: EndpointView, messages: Seq<MessageView>) -> Seq<
    (Seq<char>, Seq<char>),
> {
    let common = seq![
        ("model"@, json_quoted(ep.model)),
        ("messages"@, json_array(messages.map_values(|m: MessageView| message_json(m)))),
        ("stream"@, "true"@),
    ];
    if ep.reasoning {
        common
    } else {
        common.push(("reasoning"@, json_object(seq![("enabled"@, "false"@)])))
    }
}

pub open spec fn stream_request(ep: EndpointView, messages: Seq<MessageView>) -> RequestView {
    RequestView {
        method: Method::Post,
        url: trim_end_char(ep.base_url, '/') + "/chat/completions"@,
        headers: seq![
            ("Authorization"@, "Bearer "@ + ep.api_key),
            ("Content-Type"@, "application/json"@),
        ],
        body: Some(json_object(request_members(ep, messages))),
    }
}

fn render_message(m: &Message) -> (r: String)
    ensures
        r@ == message_json(m@),
{
    let role: &str = match m.role {
        Role::User => "user",
        Role::Assistant => "assistant",
    };
    let mut v: Vec<(String, String)> = Vec::new();
    v.push(("role".to_owned(), quote(role)));
    v.push(("content".to_owned(), quote(m.content.as_str())));
    assert(member_views(v@) =~= message_members(m@));
    object(&v)
}

fn render_messages(messages: &Vec<Message>) -> (r: String)
    ensures
        r@ == json_array(message_views(messages@).map_values(|m: MessageView| message_json(m))),
{
    let mut items: Vec<String> = Vec::new();
    let mut i: usize = 0;
    let ghost all = message_views(messages@).map_values(|m: MessageView| message_json(m));
    while i < messages.len()
        invariant
            i <= messages.len(),
            all == message_views(messages@).map_values(|m: MessageView| message_json(m)),
            views(items@) == all.take(i as int),
        decreases messages.len() - i,
    {
        let ghost done = views(items@);
        let text = render_message(&messages[i]);
        assert(all[i as int] == text@);
        items.push(text);
        i += 1;
        assert(views(items@) =~= done.push(all[i - 1]));
        assert(all.take(i as int) =~= all.take(i - 1).push(all[i - 1]));
    }
    assert(all.take(all.len() as int) =~= all);
    array(&items)
}

/// The request that asks for a streamed completion of a conversation.
pub fn stream(ep: &Endpoint, messages: &Vec<Message>) -> (r: Request)
    ensures
        r@ == stream_request(ep@, message_views(messages@)),
{
    let mut url = trim_end_matches(ep.base_url.as_str(), '/');
    url.append("/chat/completions");
    let mut key = "Bearer ".to_owned();
    key.append(ep.api_key.as_str());
    let mut headers: Vec<(String, String)> = Vec::new();
    headers.push(header("Authorization", key));
    headers.push(header("Content-Type", "application/json".to_owned()));
    let mut members: Vec<(String, String)> = Vec::new();
    members.push(("model".to_owned(), quote(ep.model.as_str())));
    members.push(("messages".to_owned(), render_messages(messages)));
    members.push(("stream".to_owned(), "true".to_owned()));
    let ghost ms = message_views(messages@);
    let ghost on = EndpointView { reasoning: true, ..ep@ };
    assert(member_views(members@) =~= request_members(on, ms));
    if !ep.reasoning {
        let ghost common = member_views(members@);
        let mut off: Vec<(String, String)> = Vec::new();
        off.push(("enabled".to_owned(), "false".to_owned()));
        assert(member_views(off@) =~= seq![("enabled"@, "false"@)]);
        let text = object(&off);
        let ghost last = ("reasoning"@, text@);
        members.push(("reasoning".to_owned(), text));
        assert(member_views(members@) =~= common.push(last));
    }
    let r = Request { method: Method::Post, url, headers, body: Some(object(&members)) };
    assert(r@.headers =~= stream_request(ep@, ms).headers);
    r
}

/// The text of a failed request.
pub open spec fn failed_text(f: Failure) -> Seq<char> {
    match f {
        Failure::Status(code, detail) => "HTTP "@ + decimal(code as nat) + ": "@ + detail@,
        Failure::Transport(e) => e@,
    }
}

/// What a failed request comes to.
pub fn stream_failure(f: Failure) -> (r: Delta)
    ensures
        r@ == DeltaView::Error(failed_text(f)),
{
    match f {
        Failure::Status(code, detail) => {
            let mut s = "HTTP ".to_owned();
            s.append(decimal_str(code as u64).as_str());
            s.append(": ");
            s.append(detail.as_str());
            Delta::Error(s)
        },
        Failure::Transport(e) => Delta::Error(e),
    }
}

/// What a stream tells the window.
#[derive(Debug, PartialEq, Eq)]
pub enum Signal {
    Delta(Delta),
    /// Look at what has arrived.
    Wake,
}

pub enum SignalView {
    Delta(DeltaView),
    Wake,
}

impl View for Signal {
    type V = SignalView;

    open spec fn view(&self) -> SignalView {
        match self {
            Signal::Delta(d) => SignalView::Delta(d@),
            Signal::Wake => SignalView::Wake,
        }
    }
}

pub open spec fn signal_views(v: Seq<Signal>) -> Seq<SignalView> {
    v.map_values(|s: Signal| s@)
}

/// How a delta is passed on: the window is woken after it.
pub open spec fn signals(d: DeltaView) -> Seq<SignalView> {
    seq![SignalView::Delta(d), SignalView::Wake]
}

/// How a delta is passed on.
pub fn pass_on(d: Delta) -> (r: Vec<Signal>)
    ensures
        signal_views(r@) == signals(d@),
{
    let ghost wanted = signals(d@);
    let mut v: Vec<Signal> = Vec::new();
    v.push(Signal::Delta(d));
    v.push(Signal::Wake);
    assert(signal_views(v@) =~= wanted);
    v
}

/// What the connection brings next.
#[derive(Debug, PartialEq, Eq)]
pub enum Incoming<T> {
    /// The stream was given up meanwhile.
    Aborted,
    Line(T),
    /// The connection broke.
    Broken(T),
    /// The answer is complete.
    End,
}

impl View for Incoming<String> {
    type V = Incoming<Seq<char>>;

    open spec fn view(&self) -> Incoming<Seq<char>> {
        match self {
            Incoming::Aborted => Incoming::Aborted,
            Incoming::Line(l) => Incoming::Line(l@),
            Incoming::Broken(e) => Incoming::Broken(e@),
            Incoming::End => Incoming::End,
        }
    }
}

/// What to pass on, and whether to read on.
#[derive(Debug, PartialEq, Eq)]
pub struct StreamStep {
    pub emit: Option<Delta>,
    pub more: bool,
}

pub struct StreamStepView {
    pub emit: Option<DeltaView>,
    pub more: bool,
}

impl View for StreamStep {
    type V = StreamStepView;

    open spec fn view(&self) -> StreamStepView {
        StreamStepView {
            emit: match self.emit {
                Some(d) => Some(d@),
                None => None,
            },
            more: self.more,
        }
    }
}

/// The message of the error that an event reports.
pub open spec fn event_error(data: Seq<char>) -> Option<Seq<char>> {
    match json_member(data, "error"@) {
        Some(e) => string_member(e, "message"@),
        None => None,
    }
}

/// The piece of text that an event carries, at `choices[0].delta.content`.
pub open spec fn event_content(data: Seq<char>) -> Option<Seq<char>> {
    match json_member(data, "choices"@) {
        None => None,
        Some(choices) => match json_element(choices, 0) {
            None => None,
            Some(choice) => match json_member(choice, "delta"@) {
                None => None,
                Some(delta) => string_member(delta, "content"@),
            },
        },
    }
}

/// What an event with this error and this content comes to: an error ends the stream, a piece of
/// text is passed on unless it is empty.
pub open spec fn event_outcome(
    error: Option<Seq<char>>,
    content: Option<Seq<char>>,
) -> StreamStepView {
    match error {
        Some(e) => StreamStepView { emit: Some(DeltaView::Error(e)), more: false },
        None => StreamStepView {
            emit: match content {
                Some(s) => if s.len() > 0 {
                    Some(DeltaView::Chunk(s))
                } else {
                    None
                },
                None => None,
            },
            more: true,
        },
    }
}

/// The data of a line of the event stream.
pub open spec fn line_data(line: Seq<char>) -> Option<Seq<char>> {
    if starts_with(line, "data:"@) {
        Some(trimmed(line.skip("data:"@.len() as int)))
    } else {
        None
    }
}

pub open spec fn incoming_outcome(i: Incoming<Seq<char>>) -> StreamStepView {
    match i {
        Incoming::Aborted => StreamStepView { emit: None, more: false },
        Incoming::Broken(e) => StreamStepView { emit: Some(DeltaView::Error(e)), more: false },
        Incoming::End => StreamStepView { emit: Some(DeltaView::Done), more: false },
        Incoming::Line(l) => match line_data(l) {
            None => StreamStepView { emit: None, more: true },
            Some(data) => if data == "[DONE]"@ {
                StreamStepView { emit: Some(DeltaView::Done), more: false }
            } else {
                event_outcome(event_error(data), event_content(data))
            },
        },
    }
}

fn read_error(data: &str) -> (r: Option<String>)
    ensures
        opt_view(r) == event_error(data@),
{
    match member(data, "error") {
        Some(e) => member_string(e.as_str(), "message"),
        None => None,
    }
}

fn read_content(data: &str) -> (r: Option<String>)
    ensures
        opt_view(r) == event_content(data@),
{
    match member(data, "choices") {
        None => None,
        Some(choices) => match element(choices.as_str(), 0) {
            None => None,
            Some(choice) => match member(choice.as_str(), "delta") {
                None => None,
                Some(delta) => member_string(delta.as_str(), "content"),
            },
        },
    }
}

/// What an event comes to, once its error and its content have been read.
pub fn event_step(error: Option<String>, content: Option<String>) -> (r: StreamStep)
    ensures
        r@ == event_outcome(opt_view(error), opt_view(content)),
{
    match error {
        Some(e) => StreamStep { emit: Some(Delta::Error(e)), more: false },
        None => match content {
            Some(s) => if s.as_str().is_empty() {
                StreamStep { emit: None, more: true }
            } else {
                StreamStep { emit: Some(Delta::Chunk(s)), more: true }
            },
            None => StreamStep { emit: None, more: true },
        },
    }
}

/// What comes of the next thing that the connection brings.
pub fn stream_step(incoming: Incoming<String>) -> (r: StreamStep)
    ensures
        r@ == incoming_outcome(incoming@),
{
    match incoming {
        Incoming::Aborted => StreamStep { emit: None, more: false },
        Incoming::Broken(e) => StreamStep { emit: Some(Delta::Error(e)), more: false },
        Incoming::End => StreamStep { emit: Some(Delta::Done), more: false },
        Incoming::Line(l) => {
            if !starts_with_str(l.as_str(), "data:") {
                return StreamStep { emit: None, more: true };
            }
            proof {
                reveal_strlit("data:");
                assert(l@.subrange(5, l@.len() as int) =~= l@.skip(5));
            }
            let n: usize = l.as_str().unicode_len();
            let data = trim(l.as_str().substring_char(5, n));
            if same(data.as_str(), "[DONE]") {
                return StreamStep { emit: Some(Delta::Done), more: false };
            }
            event_step(read_error(data.as_str()), read_content(data.as_str()))
        },
    }
}

/// All that is passed on of what the connection brings, until reading stops.
pub open spec fn deltas(incoming: Seq<Incoming<Seq<char>>>) -> Seq<DeltaView>
    decreases incoming.len(),
{
    if incoming.len() == 0 {
        Seq::empty()
    } else {
        let s = incoming_outcome(incoming[0]);
        let first = match s.emit {
            Some(d) => seq![d],
            None => Seq::empty(),
        };
        if s.more {
            first + deltas(incoming.drop_first())
        } else {
            first
        }
    }
}

/// All that arrives before the last delta is pieces of text: whatever ends a stream ends it for
/// good. No piece of text is empty.
pub proof fn law_only_the_last_delta_ends_a_stream(incoming: Seq<Incoming<Seq<char>>>)
    ensures
        forall|i: int|
            0 <= i < deltas(incoming).len() - 1 ==> #[trigger] deltas(incoming)[i] is Chunk,
        forall|i: int|
            0 <= i < deltas(incoming).len() ==> (#[trigger] deltas(incoming)[i] matches
                DeltaView::Chunk(s) ==> s.len() > 0),
    decreases incoming.len(),
{
    if incoming.len() > 0 {
        law_only_the_last_delta_ends_a_stream(incoming.drop_first());
        let rest = deltas(incoming.drop_first());
        let step = incoming_outcome(incoming[0]);
        match step.emit {
            Some(d) => {
                assert(deltas(incoming) =~= if step.more {
                    seq![d] + rest
                } else {
                    seq![d]
                });
            },
            None => {
                assert(deltas(incoming) =~= if step.more {
                    rest
                } else {
                    Seq::empty()
                });
            },
        }
    }
}

/// A stream that is read to its end, be it that the answer is complete or that the connection
/// broke, and never given up tells how it ended: its last delta is the end or an error.
pub proof fn law_a_finished_stream_says_how_it_ended(incoming: Seq<Incoming<Seq<char>>>)
    requires
        incoming.len() > 0,
        incoming.last() is End || incoming.last() is Broken,
        forall|i: int| 0 <= i < incoming.len() ==> !(#[trigger] incoming[i] is Aborted),
    ensures
        deltas(incoming).len() > 0,
        !(deltas(incoming).last() is Chunk),
    decreases incoming.len(),
{
    let s = incoming_outcome(incoming[0]);
    if s.more {
        let rest = incoming.drop_first();
        assert(incoming.len() > 1);
        assert(rest.last() == incoming.last());
        law_a_finished_stream_says_how_it_ended(rest);
        match s.emit {
            Some(d) => {
                assert((seq![d] + deltas(rest)).last() == deltas(rest).last());
            },
            None => {
                assert(deltas(incoming) =~= deltas(rest));
            },
        }
    } else {
        assert(!(incoming[0] is Aborted));
    }
}

/// Once a stream is given up nothing more is passed on, whatever the connection still brings.
pub proof fn law_nothing_follows_an_abort(incoming: Seq<Incoming<Seq<char>>>, i: int)
    requires
        0 <= i < incoming.len(),
        incoming[i] is Aborted,
    ensures
        deltas(incoming) == deltas(incoming.take(i)),
    decreases incoming.len(),
{
    let cut = incoming.take(i);
    if i > 0 {
        law_nothing_follows_an_abort(incoming.drop_first(), i - 1);
        assert(incoming.drop_first().take(i - 1) =~= cut.drop_first());
        assert(cut[0] == incoming[0]);
    } else {
        assert(deltas(incoming) =~= deltas(cut));
    }
}

/// What a whole stream passes on: what the answer brings, or why there is no answer.
pub open spec fn stream_deltas(answer: Result<Seq<Incoming<Seq<char>>>, Failure>) -> Seq<DeltaView> {
    match answer {
        Ok(incoming) => deltas(incoming),
        Err(f) => seq![DeltaView::Error(failed_text(f))],
    }
}

/// The signals of some deltas, one delta after the other.
pub open spec fn all_signals(v: Seq<DeltaView>) -> Seq<SignalView>
    decreases v.len(),
{
    if v.len() == 0 {
        Seq::empty()
    } else {
        all_signals(v.drop_last()) + signals(v.last())
    }
}

proof fn lemma_all_signals(v: Seq<DeltaView>)
    ensures
        all_signals(v).len() == 2 * v.len(),
        forall|i: int|
            0 <= i < v.len() ==> all_signals(v)[2 * i] == SignalView::Delta(#[trigger] v[i])
                && all_signals(v)[2 * i + 1] == SignalView::Wake,
    decreases v.len(),
{
    if v.len() > 0 {
        let front = v.drop_last();
        lemma_all_signals(front);
        assert forall|i: int| 0 <= i < v.len() implies all_signals(v)[2 * i] == SignalView::Delta(
            #[trigger] v[i],
        ) && all_signals(v)[2 * i + 1] == SignalView::Wake by {
            if i < front.len() {
                assert(front[i] == v[i]);
            }
        }
    }
}

/// What a stream sends, whatever the server does: pieces of text, none of them empty, and then at
/// most one end or error, which is missing only where the stream was given up. Every delta is
/// followed by one wake, and nothing else is sent.
pub proof fn law_what_a_stream_sends(answer: Result<Seq<Incoming<Seq<char>>>, Failure>)
    requires
        answer matches Ok(incoming) ==> incoming.len() > 0 && (incoming.last() is End
            || incoming.last() is Broken || incoming.last() is Aborted),
    ensures
        ({
            let d = stream_deltas(answer);
            let s = all_signals(d);
            &&& forall|i: int| 0 <= i < d.len() - 1 ==> #[trigger] d[i] is Chunk
            &&& forall|i: int|
                0 <= i < d.len() ==> (#[trigger] d[i] matches DeltaView::Chunk(t) ==> t.len() > 0)
            &&& d.len() > 0 && !(d.last() is Chunk) || (answer matches Ok(incoming) && exists|i: int|
                0 <= i < incoming.len() && #[trigger] incoming[i] is Aborted)
            &&& s.len() == 2 * d.len()
            &&& forall|i: int|
                0 <= i < d.len() ==> s[2 * i] == SignalView::Delta(#[trigger] d[i]) && s[2 * i + 1]
                    == SignalView::Wake
        }),
{
    lemma_all_signals(stream_deltas(answer));
    if let Ok(incoming) = answer {
        law_only_the_last_delta_ends_a_stream(incoming);
        if forall|i: int| 0 <= i < incoming.len() ==> !(#[trigger] incoming[i] is Aborted) {
            assert(!(incoming[incoming.len() - 1] is Aborted));
            law_a_finished_stream_says_how_it_ended(incoming);
        }
    }
}

/// The piece of text that the data of an event holds, at `choices[0].delta.content`.
pub open spec fn holds_text(data: Seq<char>, text: Seq<char>) -> bool {
    json_member(data, "choices"@) matches Some(choices) && (json_element(choices, 0) matches Some(
        choice,
    ) && (json_member(choice, "delta"@) matches Some(delta) && (json_member(delta, "content"@)
        matches Some(content) && json_string(content) == Some(text))))
}

/// The error that the data of an event holds, at `error.message`.
pub open spec fn holds_error(data: Seq<char>, text: Seq<char>) -> bool {
    json_member(data, "error"@) matches Some(error) && (json_member(error, "message"@) matches Some(
        message,
    ) && json_string(message) == Some(text))
}

/// The line carries this data of an event, with white space around it.
pub open spec fn carries(line: Seq<char>, data: Seq<char>) -> bool {
    &&& data.len() > 0 ==> !white(data[0]) && !white(data.last())
    &&& exists|a: Seq<char>, b: Seq<char>|
        line == #[trigger] ("data:"@ + a + data + b) && (forall|k: int|
            0 <= k < a.len() ==> white(#[trigger] a[k])) && (forall|k: int|
            0 <= k < b.len() ==> white(#[trigger] b[k]))
}

proof fn lemma_carried(line: Seq<char>, data: Seq<char>)
    requires
        carries(line, data),
    ensures
        line_data(line) == Some(data),
{
    let (a, b) = choose|a: Seq<char>, b: Seq<char>|
        line == #[trigger] ("data:"@ + a + data + b) && (forall|k: int|
            0 <= k < a.len() ==> white(#[trigger] a[k])) && (forall|k: int|
            0 <= k < b.len() ==> white(#[trigger] b[k]));
    let n = "data:"@.len() as int;
    assert(line.subrange(0, n) =~= "data:"@);
    assert(line.skip(n) =~= a + data + b);
    law_a_trimmed_text_is_kept_whole(a, data, b);
}

/// What a line of the stream comes to: an event with an error passes that error on and ends the
/// stream; one with a piece of text passes that very text on, whatever it is, unless it is empty;
/// any other passes nothing on; `[DONE]` ends the stream.
pub proof fn law_an_event_is_passed_on_as_it_is(line: Seq<char>, data: Seq<char>, text: Seq<char>)
    requires
        carries(line, data),
    ensures
        ({
            let step = incoming_outcome(Incoming::Line(line));
            let done = data == "[DONE]"@;
            let failed = exists|e: Seq<char>| #[trigger] holds_error(data, e);
            &&& done ==> step.emit == Some(DeltaView::Done) && !step.more
            &&& !done && holds_error(data, text) ==> step.emit == Some(DeltaView::Error(text))
                && !step.more
            &&& !done && !failed ==> step.more
            &&& !done && !failed && holds_text(data, text) && text.len() > 0 ==> step.emit == Some(
                DeltaView::Chunk(text),
            )
            &&& !done && !failed && holds_text(data, text) && text.len() == 0 ==> step.emit is None
            &&& !done && !failed && !(exists|s: Seq<char>| #[trigger] holds_text(data, s))
                ==> step.emit is None
        }),
{
    lemma_carried(line, data);
    if let Some(e) = event_error(data) {
        assert(holds_error(data, e));
    }
    if let Some(s) = event_content(data) {
        assert(holds_text(data, s));
    }
}

/// A line that is no event is passed over; a broken connection passes its error on and the end of
/// the answer ends the stream.
pub proof fn law_other_news_of_a_stream(line: Seq<char>, e: Seq<char>)
    requires
        line.len() < 5 || line.take(5) != "data:"@,
    ensures
        incoming_outcome(Incoming::Line(line)) == (StreamStepView { emit: None, more: true }),
        incoming_outcome(Incoming::Broken(e)) == (StreamStepView {
            emit: Some(DeltaView::Error(e)),
            more: false,
        }),
        incoming_outcome(Incoming::End) == (StreamStepView {
            emit: Some(DeltaView::Done),
            more: false,
        }),
        incoming_outcome(Incoming::Aborted) == (StreamStepView { emit: None, more: false }),
{
    reveal_strlit("data:");
    if line.len() >= 5 {
        assert(line.subrange(0, 5) =~= line.take(5));
    }
}

/// The texts of the pieces among some deltas, one after another.
pub open spec fn text_of(v: Seq<DeltaView>) -> Seq<char>
    decreases v.len(),
{
    if v.len() == 0 {
        Seq::empty()
    } else {
        (match v[0] {
            DeltaView::Chunk(s) => s,
            _ => Seq::empty(),
        }) + text_of(v.drop_first())
    }
}

/// The response is the answer: where each line carries an event with a piece of text, and then the
/// answer ends, what is passed on are those texts, all of them, whole and in order, and the end.
pub proof fn law_the_response_is_the_whole_answer(
    lines: Seq<Seq<char>>,
    data: Seq<Seq<char>>,
    texts: Seq<Seq<char>>,
)
    requires
        lines.len() == data.len() == texts.len(),
        forall|i: int|
            0 <= i < lines.len() ==> #[trigger] carries(lines[i], data[i]) && data[i] != "[DONE]"@
                && holds_text(data[i], texts[i]) && !(exists|e: Seq<char>| #[trigger]
                holds_error(data[i], e)),
    ensures
        ({
            let incoming = lines.map_values(|l: Seq<char>| Incoming::Line(l)).push(Incoming::End);
            &&& text_of(deltas(incoming)) == texts.flatten()
            &&& deltas(incoming).len() > 0
            &&& deltas(incoming).last() == DeltaView::Done
        }),
    decreases lines.len(),
{
    let incoming = lines.map_values(|l: Seq<char>| Incoming::Line(l)).push(Incoming::End);
    if lines.len() == 0 {
        assert(deltas(incoming) == seq![DeltaView::Done]);
        assert(deltas(incoming).drop_first() =~= Seq::empty());
        assert(text_of(Seq::empty()) == Seq::<char>::empty());
        assert(text_of(deltas(incoming)) =~= texts.flatten());
    } else {
        let rest = lines.drop_first().map_values(|l: Seq<char>| Incoming::Line(l)).push(
            Incoming::End,
        );
        assert(incoming.drop_first() =~= rest);
        assert(carries(lines[0], data[0]));
        law_an_event_is_passed_on_as_it_is(lines[0], data[0], texts[0]);
        assert forall|i: int| 0 <= i < lines.len() - 1 implies #[trigger] carries(
            lines.drop_first()[i],
            data.drop_first()[i],
        ) && data.drop_first()[i] != "[DONE]"@ && holds_text(
            data.drop_first()[i],
            texts.drop_first()[i],
        ) && !(exists|e: Seq<char>| #[trigger] holds_error(data.drop_first()[i], e)) by {
            assert(carries(lines[i + 1], data[i + 1]));
        }
        law_the_response_is_the_whole_answer(
            lines.drop_first(),
            data.drop_first(),
            texts.drop_first(),
        );
        let step = incoming_outcome(incoming[0]);
        assert(incoming[0] == Incoming::Line(lines[0]));
        match step.emit {
            Some(d) => {
                assert(deltas(incoming) == seq![d] + deltas(rest));
                assert(deltas(incoming).drop_first() =~= deltas(rest));
                assert(deltas(incoming).last() == deltas(rest).last());
            },
            None => {
                assert(deltas(incoming) =~= deltas(rest));
            },
        }
        assert(text_of(deltas(incoming)) =~= texts[0] + text_of(deltas(rest)));
    }
}

/// A request carries the whole conversation: its body holds one entry for each message, in their
/// order and with role and content, next to the model and the wish for a stream. Reasoning is
/// mentioned exactly where it is off.
pub proof fn law_a_request_carries_the_whole_conversation(
    ep: EndpointView,
    messages: Seq<MessageView>,
)
    ensures
        exists|items: Seq<Seq<char>>| #[trigger]
            items.len() == messages.len() && (forall|i: int|
                0 <= i < messages.len() ==> #[trigger] items[i] == json_object(
                    seq![
                        (
                            "role"@,
                            json_quoted(
                                if messages[i].role is User {
                                    "user"@
                                } else {
                                    "assistant"@
                                },
                            ),
                        ),
                        ("content"@, json_quoted(messages[i].content)),
                    ],
                )) && stream_request(ep, messages).body == Some(
                json_object(
                    if ep.reasoning {
                        seq![
                            ("model"@, json_quoted(ep.model)),
                            ("messages"@, json_array(items)),
                            ("stream"@, "true"@),
                        ]
                    } else {
                        seq![
                            ("model"@, json_quoted(ep.model)),
                            ("messages"@, json_array(items)),
                            ("stream"@, "true"@),
                            ("reasoning"@, json_object(seq![("enabled"@, "false"@)])),
                        ]
                    },
                ),
            ),
{
    let items = messages.map_values(|m: MessageView| message_json(m));
    assert(items.len() == messages.len());
    if !ep.reasoning {
        assert(request_members(ep, messages) =~= seq![
            ("model"@, json_quoted(ep.model)),
            ("messages"@, json_array(items)),
            ("stream"@, "true"@),
            ("reasoning"@, json_object(seq![("enabled"@, "false"@)])),
        ]);
    }
}

/// A request goes to the endpoint, with the endpoint's key: the address is the base without slashes
/// at its end, followed by the path of completions.
pub proof fn law_a_request_goes_to_its_endpoint(ep: EndpointView, messages: Seq<MessageView>)
    ensures
        ({
            let r = stream_request(ep, messages);
            &&& r.method is Post
            &&& r.headers == seq![
                ("Authorization"@, "Bearer "@ + ep.api_key),
                ("Content-Type"@, "application/json"@),
            ]
            &&& exists|n: int|
                0 <= n <= ep.base_url.len() && r.url == #[trigger] ep.base_url.take(n)
                    + "/chat/completions"@ && (n > 0 ==> ep.base_url[n - 1] != '/') && (forall|k: int|
                    n <= k < ep.base_url.len() ==> #[trigger] ep.base_url[k] == '/')
        }),
{
    law_a_run_at_the_end_is_taken_off(ep.base_url, '/');
    let n = trim_end_char(ep.base_url, '/').len() as int;
    assert(ep.base_url.take(n) == trim_end_char(ep.base_url, '/'));
}

/// A failed request says why: the status and what the server answered, or what went wrong.
pub proof fn law_a_failure_says_why(code: u16, detail: String)
    ensures
        failed_text(Failure::Status(code, detail)) == "HTTP "@ + decimal(code as nat) + ": "@
            + detail@,
        failed_text(Failure::Transport(detail)) == detail@,
{
}

} // verus!
