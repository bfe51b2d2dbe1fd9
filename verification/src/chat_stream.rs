//! The chat completions stream: each chunk the server sends moves a small
//! state machine, which answers with response events.
use vstd::prelude::*;
use crate::json::{JsonValue, get_str, json_get_str};
use crate::responses::{
    ApiError, ContentItem, ContentView, EventView, ItemView, ResponseEvent, ResponseItem,
    TokenUsage, event_view, events_view, opt_text, push_event, stream_error,
};
use crate::text::{chars_of, push_str, starts_with, starts_with_chars, str_equal, string_of,
    strings_view, sub_chars};

verus! {

/// Token counts as the chat wire format reports them.
#[derive(Clone, Copy, PartialEq, Eq, Structural, Debug)]
pub struct ChatCompletionUsage {
    pub prompt_tokens: i64,
    pub completion_tokens: i64,
    pub total_tokens: i64,
}

/// The token usage that a chat usage report stands for.
pub open spec fn usage_of(u: ChatCompletionUsage) -> TokenUsage {
    TokenUsage {
        input_tokens: u.prompt_tokens,
        cached_input_tokens: 0,
        output_tokens: u.completion_tokens,
        reasoning_output_tokens: 0,
        total_tokens: u.total_tokens,
    }
}

impl From<ChatCompletionUsage> for TokenUsage {
    fn from(value: ChatCompletionUsage) -> (r: TokenUsage) {
        TokenUsage {
            input_tokens: value.prompt_tokens,
            cached_input_tokens: 0,
            output_tokens: value.completion_tokens,
            reasoning_output_tokens: 0,
            total_tokens: value.total_tokens,
        }
    }
}

impl vstd::std_specs::convert::FromSpecImpl<ChatCompletionUsage> for TokenUsage {
    open spec fn obeys_from_spec() -> bool {
        true
    }

    open spec fn from_spec(v: ChatCompletionUsage) -> TokenUsage {
        usage_of(v)
    }
}

/// The error a chunk can carry.
pub struct ChatCompletionError {
    pub message: Option<String>,
}

/// A piece of a streamed function call.
pub struct ChatFunctionDelta {
    pub name: Option<String>,
    pub arguments: Option<String>,
}

/// A piece of a streamed tool call, for the call at `index`.
pub struct ChatToolCallDelta {
    pub index: usize,
    pub id: Option<String>,
    pub function: Option<ChatFunctionDelta>,
}

/// What a choice adds: text, and pieces of tool calls.
pub struct ChatCompletionDelta {
    pub content: Option<JsonValue>,
    pub tool_calls: Option<Vec<ChatToolCallDelta>>,
}

/// One choice of a chunk.
pub struct ChatCompletionChoice {
    pub delta: ChatCompletionDelta,
    pub finish_reason: Option<String>,
}

/// One chunk of the stream.
pub struct ChatCompletionChunk {
    pub id: Option<String>,
    pub model: Option<String>,
    pub choices: Vec<ChatCompletionChoice>,
    pub usage: Option<ChatCompletionUsage>,
    pub error: Option<ChatCompletionError>,
}

/// A tool call being assembled from its pieces.
pub struct ToolCallState {
    pub index: usize,
    pub id: Option<String>,
    pub name: Option<String>,
    pub arguments: String,
}

/// What the stream has seen so far. `tool_calls` is kept ordered by index,
/// with no index twice.
pub struct ChatStreamState {
    pub response_id: Option<String>,
    pub assistant_message_open: bool,
    pub assistant_text: String,
    pub tool_calls: Vec<ToolCallState>,
    pub token_usage: Option<TokenUsage>,
    pub saw_created: bool,
    pub saw_server_model: Option<String>,
    pub saw_terminal_finish_reason: bool,
}

/// A tool call as the contracts speak of it.
#[verifier::ext_equal]
pub struct CallView {
    pub index: usize,
    pub id: Option<Seq<char>>,
    pub name: Option<Seq<char>>,
    pub arguments: Seq<char>,
}

/// The stream's state as the contracts speak of it.
#[verifier::ext_equal]
pub struct StreamView {
    pub response_id: Option<Seq<char>>,
    pub open: bool,
    pub text: Seq<char>,
    pub calls: Seq<CallView>,
    pub usage: Option<TokenUsage>,
    pub saw_created: bool,
    pub server_model: Option<Seq<char>>,
    pub terminal: bool,
}

/// A state, the events sent so far, and the error that stopped the stream.
#[verifier::ext_equal]
pub struct Progress {
    pub state: StreamView,
    pub events: Seq<EventView>,
    pub error: Option<Seq<char>>,
}

pub open spec fn call_view(c: ToolCallState) -> CallView {
    CallView { index: c.index, id: opt_text(c.id), name: opt_text(c.name), arguments: c.arguments@ }
}

pub open spec fn calls_view(s: Seq<ToolCallState>) -> Seq<CallView> {
    s.map_values(|c: ToolCallState| call_view(c))
}

impl View for ChatStreamState {
    type V = StreamView;

    open spec fn view(&self) -> StreamView {
        StreamView {
            response_id: opt_text(self.response_id),
            open: self.assistant_message_open,
            text: self.assistant_text@,
            calls: calls_view(self.tool_calls@),
            usage: self.token_usage,
            saw_created: self.saw_created,
            server_model: opt_text(self.saw_server_model),
            terminal: self.saw_terminal_finish_reason,
        }
    }
}

/// Tool calls ordered by index, each index once.
pub open spec fn calls_sorted(calls: Seq<CallView>) -> bool {
    forall|i: int, j: int| 0 <= i < j < calls.len() ==> calls[i].index < calls[j].index
}

impl StreamView {
    /// The tool calls are ordered by index, and no text waits outside an
    /// open message.
    pub open spec fn wf(self) -> bool {
        &&& calls_sorted(self.calls)
        &&& !self.open ==> self.text.len() == 0
    }
}

/// The progress of a state with the events sent so far, before any error.
pub open spec fn at(s: ChatStreamState, evs: Seq<ResponseEvent>) -> Progress {
    Progress { state: s@, events: events_view(evs), error: None }
}

/// The progress of a state with the events sent so far and the outcome of a step.
pub open spec fn after(s: ChatStreamState, evs: Seq<ResponseEvent>, r: Result<(), ApiError>) -> Progress {
    Progress {
        state: s@,
        events: events_view(evs),
        error: match r {
            Ok(_) => None,
            Err(e) => Some(e.message()),
        },
    }
}

/// The item that opens the assistant's message.
pub open spec fn assistant_opened() -> EventView {
    EventView::OutputItemAdded(ItemView::Message { id: None, role: "assistant"@, content: Seq::empty() })
}

/// The item that closes the assistant's message with its text.
pub open spec fn assistant_done(text: Seq<char>) -> EventView {
    EventView::OutputItemDone(
        ItemView::Message { id: None, role: "assistant"@, content: seq![ContentView::OutputText(text)] },
    )
}

/// Opens the assistant's message, unless it is open.
pub open spec fn open_message(p: Progress) -> Progress {
    if p.state.open {
        p
    } else {
        Progress { state: StreamView { open: true, ..p.state }, events: p.events.push(assistant_opened()), ..p }
    }
}

/// A piece of text: the message is opened, the text grows by it, and the
/// piece is sent on. An empty piece changes nothing.
pub open spec fn add_text(p: Progress, delta: Seq<char>) -> Progress {
    if delta.len() == 0 {
        p
    } else {
        let q = open_message(p);
        Progress {
            state: StreamView { text: q.state.text + delta, ..q.state },
            events: q.events.push(EventView::OutputTextDelta(delta)),
            ..q
        }
    }
}

/// Pieces of text, in order.
pub open spec fn add_texts(p: Progress, ds: Seq<Seq<char>>) -> Progress
    decreases ds.len(),
{
    if ds.len() == 0 {
        p
    } else {
        add_text(add_texts(p, ds.drop_last()), ds.last())
    }
}

/// Closes the assistant's message, if it is open, sending it with its text.
pub open spec fn flush_message(p: Progress) -> Progress {
    if !p.state.open {
        p
    } else {
        Progress {
            state: StreamView { open: false, text: Seq::empty(), ..p.state },
            events: p.events.push(assistant_done(p.state.text)),
            ..p
        }
    }
}

/// There are two underscores at `i`.
pub open spec fn separator_at(s: Seq<char>, i: int) -> bool {
    0 <= i && i + 1 < s.len() && s[i] == '_' && s[i + 1] == '_'
}

/// The last place before `j` where two underscores stand.
pub open spec fn last_separator_before(s: Seq<char>, j: int) -> Option<int>
    decreases j,
{
    if j <= 0 {
        None
    } else if separator_at(s, j - 1) {
        Some(j - 1)
    } else {
        last_separator_before(s, j - 1)
    }
}

/// A namespace that tool names carry in front of them.
pub open spec fn known_namespace(ns: Seq<char>) -> bool {
    ||| starts_with(ns, "mcp__"@)
    ||| ns == "codex_app"@
    ||| ns == "image_gen"@
    ||| ns == "multi_agent_v1"@
    ||| ns == "web"@
}

/// A tool name split at its last `__` into a known namespace and the name
/// within it; a name without one stays whole.
pub open spec fn split_function_name(name: Seq<char>) -> (Option<Seq<char>>, Seq<char>) {
    match last_separator_before(name, name.len() as int) {
        None => (None, name),
        Some(i) => {
            let ns = name.subrange(0, i);
            let tool = name.subrange(i + 2, name.len() as int);
            if ns.len() > 0 && tool.len() > 0 && known_namespace(ns) {
                (Some(ns), tool)
            } else {
                (None, name)
            }
        },
    }
}

/// The function call item a finished tool call becomes.
pub open spec fn call_item(c: CallView) -> ItemView {
    let split = split_function_name(c.name.unwrap());
    ItemView::FunctionCall {
        id: None,
        name: split.1,
        namespace: split.0,
        arguments: c.arguments,
        call_id: match c.id {
            Some(i) => i,
            None => "chat-compat-call"@,
        },
    }
}

/// Sends one finished tool call, or stops where it has no name.
pub open spec fn emit_call(p: Progress, c: CallView) -> Progress {
    match c.name {
        None => Progress { error: Some("tool call missing name"@), ..p },
        Some(_) => Progress { events: p.events.push(EventView::OutputItemDone(call_item(c))), ..p },
    }
}

/// Sends finished tool calls in order, up to the first without a name.
pub open spec fn emit_calls(p: Progress, calls: Seq<CallView>) -> Progress
    decreases calls.len(),
{
    if calls.len() == 0 {
        p
    } else {
        let q = emit_calls(p, calls.drop_last());
        if q.error is Some {
            q
        } else {
            emit_call(q, calls.last())
        }
    }
}

/// Clears the tool calls and sends them.
pub open spec fn flush_calls(p: Progress) -> Progress {
    emit_calls(Progress { state: StreamView { calls: Seq::empty(), ..p.state }, ..p }, p.state.calls)
}

/// Marks that the model finished its turn.
pub open spec fn mark_terminal(p: Progress) -> Progress {
    Progress { state: StreamView { terminal: true, ..p.state }, ..p }
}

/// A finish reason: `tool_calls` sends the message and the tool calls;
/// `stop`, `length` and `content_filter` send the message; each of these
/// marks the turn finished. Any other reason changes nothing.
pub open spec fn finish(p: Progress, reason: Seq<char>) -> Progress {
    if reason == "tool_calls"@ {
        let q = flush_calls(flush_message(p));
        if q.error is Some {
            q
        } else {
            mark_terminal(q)
        }
    } else if reason == "stop"@ || reason == "length"@ || reason == "content_filter"@ {
        mark_terminal(flush_message(p))
    } else {
        p
    }
}

/// A piece of a tool call as the contracts speak of it.
pub struct CallDeltaView {
    pub index: usize,
    pub id: Option<Seq<char>>,
    pub function: Option<(Option<Seq<char>>, Option<Seq<char>>)>,
}

pub open spec fn delta_view(d: ChatToolCallDelta) -> CallDeltaView {
    CallDeltaView {
        index: d.index,
        id: opt_text(d.id),
        function: match d.function {
            Some(f) => Some((opt_text(f.name), opt_text(f.arguments))),
            None => None,
        },
    }
}

/// `p` is where a call with `index` stands or would stand.
pub open spec fn insertion_point(calls: Seq<CallView>, index: usize, p: int) -> bool {
    &&& 0 <= p <= calls.len()
    &&& forall|j: int| 0 <= j < p ==> (#[trigger] calls[j]).index < index
    &&& forall|j: int| p <= j < calls.len() ==> (#[trigger] calls[j]).index >= index
}

pub open spec fn slot_of(calls: Seq<CallView>, index: usize) -> int {
    choose|p: int| insertion_point(calls, index, p)
}

/// A call with the piece folded in: a new id or name replaces the old one,
/// new arguments are appended.
pub open spec fn apply_call_delta(c: CallView, d: CallDeltaView) -> CallView {
    CallView {
        index: c.index,
        id: if d.id is Some { d.id } else { c.id },
        name: match d.function {
            Some(f) => if f.0 is Some { f.0 } else { c.name },
            None => c.name,
        },
        arguments: match d.function {
            Some(f) => match f.1 {
                Some(a) => c.arguments + a,
                None => c.arguments,
            },
            None => c.arguments,
        },
    }
}

/// A call at `index` with nothing yet.
pub open spec fn fresh_call(index: usize) -> CallView {
    CallView { index, id: None, name: None, arguments: Seq::empty() }
}

/// Folds a piece into the call of its index, starting that call if there is none.
pub open spec fn merge_call(calls: Seq<CallView>, d: CallDeltaView) -> Seq<CallView> {
    let p = slot_of(calls, d.index);
    if p < calls.len() && calls[p].index == d.index {
        calls.update(p, apply_call_delta(calls[p], d))
    } else {
        calls.insert(p, apply_call_delta(fresh_call(d.index), d))
    }
}

/// Folds pieces in, in order.
pub open spec fn merge_calls(calls: Seq<CallView>, ds: Seq<CallDeltaView>) -> Seq<CallView>
    decreases ds.len(),
{
    if ds.len() == 0 {
        calls
    } else {
        merge_call(merge_calls(calls, ds.drop_last()), ds.last())
    }
}

/// A part of an array content that carries text.
pub open spec fn is_text_part(v: JsonValue) -> bool {
    get_str(v, "type"@) == Some("text"@) && get_str(v, "text"@) is Some
}

/// The texts of the text parts, in order.
pub open spec fn part_texts(parts: Seq<JsonValue>) -> Seq<Seq<char>>
    decreases parts.len(),
{
    if parts.len() == 0 {
        Seq::empty()
    } else {
        let prev = part_texts(parts.drop_last());
        if is_text_part(parts.last()) {
            prev.push(get_str(parts.last(), "text"@).unwrap())
        } else {
            prev
        }
    }
}

/// The pieces of text a content holds: a string is one piece; an array
/// gives the text of each part of type `text`; anything else gives none.
pub open spec fn delta_texts(content: JsonValue) -> Seq<Seq<char>> {
    match content {
        JsonValue::Str(t) => seq![t@],
        JsonValue::Array(xs) => part_texts(xs@),
        _ => Seq::empty(),
    }
}

/// A choice as the contracts speak of it.
pub struct ChoiceView {
    pub content: Option<JsonValue>,
    pub tool_calls: Option<Seq<CallDeltaView>>,
    pub finish_reason: Option<Seq<char>>,
}

pub open spec fn deltas_view(s: Seq<ChatToolCallDelta>) -> Seq<CallDeltaView> {
    s.map_values(|d: ChatToolCallDelta| delta_view(d))
}

pub open spec fn choice_view(c: ChatCompletionChoice) -> ChoiceView {
    ChoiceView {
        content: c.delta.content,
        tool_calls: match c.delta.tool_calls {
            Some(v) => Some(deltas_view(v@)),
            None => None,
        },
        finish_reason: opt_text(c.finish_reason),
    }
}

pub open spec fn choices_view(s: Seq<ChatCompletionChoice>) -> Seq<ChoiceView> {
    s.map_values(|c: ChatCompletionChoice| choice_view(c))
}

/// The tool call pieces of a choice folded in.
pub open spec fn merge_choice_calls(p: Progress, ds: Option<Seq<CallDeltaView>>) -> Progress {
    match ds {
        Some(ds) => Progress { state: StreamView { calls: merge_calls(p.state.calls, ds), ..p.state }, ..p },
        None => p,
    }
}

/// One choice: its text, then its tool call pieces, then its finish reason.
pub open spec fn apply_choice(p: Progress, c: ChoiceView) -> Progress {
    let p1 = match c.content {
        Some(v) => add_texts(p, delta_texts(v)),
        None => p,
    };
    let p2 = merge_choice_calls(p1, c.tool_calls);
    match c.finish_reason {
        Some(r) => finish(p2, r),
        None => p2,
    }
}

/// Choices in order, up to the first that stops the stream.
pub open spec fn apply_choices(p: Progress, cs: Seq<ChoiceView>) -> Progress
    decreases cs.len(),
{
    if cs.len() == 0 {
        p
    } else {
        let q = apply_choices(p, cs.drop_last());
        if q.error is Some {
            q
        } else {
            apply_choice(q, cs.last())
        }
    }
}

/// A chunk as the contracts speak of it.
pub struct ChunkView {
    pub id: Option<Seq<char>>,
    pub model: Option<Seq<char>>,
    pub choices: Seq<ChoiceView>,
    pub usage: Option<ChatCompletionUsage>,
    pub error: Option<Option<Seq<char>>>,
}

pub open spec fn chunk_view(c: ChatCompletionChunk) -> ChunkView {
    ChunkView {
        id: opt_text(c.id),
        model: opt_text(c.model),
        choices: choices_view(c.choices@),
        usage: c.usage,
        error: match c.error {
            Some(e) => Some(opt_text(e.message)),
            None => None,
        },
    }
}

/// The first chunk announces the response.
pub open spec fn note_created(p: Progress) -> Progress {
    if p.state.saw_created {
        p
    } else {
        Progress {
            state: StreamView { saw_created: true, ..p.state },
            events: p.events.push(EventView::Created),
            ..p
        }
    }
}

/// A chunk's id becomes the response's id.
pub open spec fn note_id(p: Progress, id: Option<Seq<char>>) -> Progress {
    match id {
        Some(i) => Progress { state: StreamView { response_id: Some(i), ..p.state }, ..p },
        None => p,
    }
}

/// A model other than the last one announced is announced.
pub open spec fn note_model(p: Progress, model: Option<Seq<char>>) -> Progress {
    match model {
        Some(m) => if p.state.server_model == Some(m) {
            p
        } else {
            Progress {
                state: StreamView { server_model: Some(m), ..p.state },
                events: p.events.push(EventView::ServerModel(m)),
                ..p
            }
        },
        None => p,
    }
}

/// A usage report replaces the last one.
pub open spec fn note_usage(p: Progress, usage: Option<ChatCompletionUsage>) -> Progress {
    match usage {
        Some(u) => Progress { state: StreamView { usage: Some(usage_of(u)), ..p.state }, ..p },
        None => p,
    }
}

/// The message of a chunk's error.
pub open spec fn chunk_error_message(m: Option<Seq<char>>) -> Seq<char> {
    match m {
        Some(m) => m,
        None => "chat completions stream returned an error"@,
    }
}

/// One chunk: it is announced, its id, model and usage are noted; an error
/// in it stops the stream; else its choices are taken in order.
pub open spec fn apply_chunk(p: Progress, c: ChunkView) -> Progress {
    let q = note_usage(note_model(note_id(note_created(p), c.id), c.model), c.usage);
    match c.error {
        Some(m) => Progress { error: Some(chunk_error_message(m)), ..q },
        None => apply_choices(q, c.choices),
    }
}

/// The end of the response: the message and tool calls are sent, then the
/// completion with the response's id and usage.
pub open spec fn complete(p: Progress) -> Progress {
    let q = flush_calls(flush_message(p));
    if q.error is Some {
        q
    } else {
        Progress {
            events: q.events.push(
                EventView::Completed {
                    response_id: match q.state.response_id {
                        Some(i) => i,
                        None => "chat-compat"@,
                    },
                    token_usage: q.state.usage,
                },
            ),
            ..q
        }
    }
}

impl ChatStreamState {
    /// The state of a stream that has seen nothing.
    pub fn new() -> (s: ChatStreamState)
        ensures
            s@ == (StreamView {
                response_id: None,
                open: false,
                text: Seq::empty(),
                calls: Seq::empty(),
                usage: None,
                saw_created: false,
                server_model: None,
                terminal: false,
            }),
            s@.wf(),
    {
        let s = ChatStreamState {
            response_id: None,
            assistant_message_open: false,
            assistant_text: String::new(),
            tool_calls: Vec::new(),
            token_usage: None,
            saw_created: false,
            saw_server_model: None,
            saw_terminal_finish_reason: false,
        };
        assert(s@.calls =~= Seq::empty());
        s
    }
}

impl Default for ChatStreamState {
    fn default() -> (s: ChatStreamState)
        ensures
            s@.wf(),
            !s@.open && !s@.saw_created && !s@.terminal && s@.calls.len() == 0,
    {
        ChatStreamState::new()
    }
}

/// Opens the assistant's message unless it is open.
pub fn ensure_assistant_message_started(state: &mut ChatStreamState, events: &mut Vec<ResponseEvent>)
    ensures
        at(*final(state), final(events)@) == open_message(at(*old(state), old(events)@)),
{
    if state.assistant_message_open {
        return;
    }
    push_event(
        events,
        ResponseEvent::OutputItemAdded(
            ResponseItem::Message { id: None, role: String::from_str("assistant"), content: Vec::new() },
        ),
    );
    state.assistant_message_open = true;
    assert(at(*state, events@).state =~~= open_message(at(*old(state), old(events)@)).state);
    assert(at(*state, events@).events =~~= open_message(at(*old(state), old(events)@)).events);
}

/// Closes the assistant's message, if it is open, sending it with its text.
pub fn flush_assistant_message(state: &mut ChatStreamState, events: &mut Vec<ResponseEvent>)
    ensures
        at(*final(state), final(events)@) == flush_message(at(*old(state), old(events)@)),
{
    if !state.assistant_message_open {
        return;
    }
    let mut text = String::new();
    std::mem::swap(&mut text, &mut state.assistant_text);
    let mut content: Vec<ContentItem> = Vec::new();
    content.push(ContentItem::OutputText { text });
    let item = ResponseItem::Message { id: None, role: String::from_str("assistant"), content };
    state.assistant_message_open = false;
    push_event(events, ResponseEvent::OutputItemDone(item));
    assert(at(*state, events@).state =~~= flush_message(at(*old(state), old(events)@)).state);
    assert(at(*state, events@).events =~~= flush_message(at(*old(state), old(events)@)).events);
}


proof fn lemma_last_separator_found(s: Seq<char>, j: int)
    requires
        j > 0,
        separator_at(s, j - 1),
    ensures
        last_separator_before(s, j) == Some(j - 1),
{
}

/// Splits a tool name at its last `__` into a known namespace and the name
/// within it; a name without a known namespace stays whole.
pub fn split_chat_function_name(name: &str) -> (r: (Option<String>, String))
    ensures
        opt_text(r.0) == split_function_name(name@).0,
        r.1@ == split_function_name(name@).1,
{
    let v = chars_of(name);
    let mut j: usize = v.len();
    let mut found = false;
    while j > 0 && !found
        invariant
            v@ == name@,
            j <= v@.len(),
            !found ==> last_separator_before(v@, v@.len() as int) == last_separator_before(v@, j as int),
            found ==> j > 0 && last_separator_before(v@, v@.len() as int) == Some(j as int - 1),
            found ==> separator_at(v@, j as int - 1),
        decreases j + (if found { 0int } else { 1int }),
    {
        let i = j - 1;
        if i + 1 < v.len() && v[i] == '_' && v[i + 1] == '_' {
            proof {
                lemma_last_separator_found(v@, j as int);
            }
            found = true;
        } else {
            j = i;
        }
    }
    if !found {
        return (None, String::from_str(name));
    }
    let i = j - 1;
    let ns = sub_chars(&v, 0, i);
    let tool = sub_chars(&v, i + 2, v.len());
    if ns.len() == 0 || tool.len() == 0 {
        return (None, String::from_str(name));
    }
    let ns_text = string_of(&ns);
    let mcp = chars_of("mcp__");
    let known = starts_with_chars(&ns, &mcp) || str_equal(ns_text.as_str(), "codex_app") || str_equal(
        ns_text.as_str(),
        "image_gen",
    ) || str_equal(ns_text.as_str(), "multi_agent_v1") || str_equal(ns_text.as_str(), "web");
    if known {
        (Some(ns_text), string_of(&tool))
    } else {
        (None, String::from_str(name))
    }
}

/// The pieces of text a message content holds.
pub fn chat_delta_strings(content: &JsonValue) -> (r: Vec<String>)
    ensures
        strings_view(r@) == delta_texts(*content),
{
    match content {
        JsonValue::Str(t) => {
            let mut r: Vec<String> = Vec::new();
            r.push(t.clone());
            assert(strings_view(r@) =~= seq![t@]);
            r
        },
        JsonValue::Array(parts) => {
            let mut r: Vec<String> = Vec::new();
            let mut i: usize = 0;
            while i < parts.len()
                invariant
                    i <= parts@.len(),
                    strings_view(r@) == part_texts(parts@.take(i as int)),
                decreases parts@.len() - i,
            {
                let part = &parts[i];
                let is_text = match json_get_str(part, "type") {
                    Some(t) => str_equal(t, "text"),
                    None => false,
                };
                let ghost before = r@;
                if is_text {
                    match json_get_str(part, "text") {
                        Some(text) => {
                            r.push(String::from_str(text));
                        },
                        None => {},
                    }
                }
                assert(parts@.take(i + 1).drop_last() =~= parts@.take(i as int));
                assert(parts@.take(i + 1).last() == parts@[i as int]);
                assert(strings_view(r@) =~= part_texts(parts@.take(i + 1)));
                i += 1;
            }
            assert(parts@.take(parts@.len() as int) =~= parts@);
            r
        },
        _ => {
            let r: Vec<String> = Vec::new();
            assert(strings_view(r@) =~= Seq::<Seq<char>>::empty());
            r
        },
    }
}

/// A call with a piece folded in.
fn apply_tool_call_delta(c: ToolCallState, d: &ChatToolCallDelta) -> (r: ToolCallState)
    ensures
        call_view(r) == apply_call_delta(call_view(c), delta_view(*d)),
{
    let mut c = c;
    match &d.id {
        Some(id) => {
            c.id = Some(id.clone());
        },
        None => {},
    }
    match &d.function {
        Some(f) => {
            match &f.name {
                Some(n) => {
                    c.name = Some(n.clone());
                },
                None => {},
            }
            match &f.arguments {
                Some(a) => {
                    push_str(&mut c.arguments, a.as_str());
                },
                None => {},
            }
        },
        None => {},
    }
    c
}

proof fn lemma_slot_unique(cs: Seq<CallView>, index: usize, p: int)
    requires
        insertion_point(cs, index, p),
    ensures
        slot_of(cs, index) == p,
{
    let q = slot_of(cs, index);
    assert(insertion_point(cs, index, q));
    if q < p {
        assert(cs[q].index < index);
    } else if q > p {
        assert(cs[p].index < index);
    }
}

/// Folds a piece of a tool call into the call of its index, starting that
/// call if there is none; the calls stay ordered by index.
pub fn merge_tool_call(calls: &mut Vec<ToolCallState>, d: &ChatToolCallDelta)
    requires
        calls_sorted(calls_view(old(calls)@)),
    ensures
        calls_view(final(calls)@) == merge_call(calls_view(old(calls)@), delta_view(*d)),
        calls_sorted(calls_view(final(calls)@)),
{
    let ghost cs = calls_view(calls@);
    let mut p: usize = 0;
    while p < calls.len() && calls[p].index < d.index
        invariant
            p <= calls@.len(),
            cs == calls_view(calls@),
            forall|j: int| 0 <= j < p ==> (#[trigger] cs[j]).index < d.index,
        decreases calls@.len() - p,
    {
        p += 1;
    }
    assert(insertion_point(cs, d.index, p as int)) by {
        assert forall|j: int| p <= j < cs.len() implies (#[trigger] cs[j]).index >= d.index by {
            assert(cs[p as int].index >= d.index);
            if j > p {
                assert(cs[p as int].index < cs[j].index);
            }
        }
    }
    proof {
        lemma_slot_unique(cs, d.index, p as int);
    }
    let ghost dv = delta_view(*d);
    if p < calls.len() && calls[p].index == d.index {
        let c = calls.remove(p);
        let n = apply_tool_call_delta(c, d);
        calls.insert(p, n);
        assert(calls_view(calls@) =~= cs.update(p as int, apply_call_delta(cs[p as int], dv)));
    } else {
        let fresh = ToolCallState { index: d.index, id: None, name: None, arguments: String::new() };
        assert(call_view(fresh) =~= fresh_call(d.index));
        let n = apply_tool_call_delta(fresh, d);
        calls.insert(p, n);
        assert(calls_view(calls@) =~= cs.insert(p as int, apply_call_delta(fresh_call(d.index), dv)));
        assert forall|i: int, j: int| 0 <= i < j < calls_view(calls@).len() implies calls_view(
            calls@,
        )[i].index < calls_view(calls@)[j].index by {
            let ns = calls_view(calls@);
            if j < p {
            } else if j == p {
            } else if i < p {
                assert(ns[j] == cs[j - 1]);
            } else if i == p {
                assert(ns[j] == cs[j - 1]);
                assert(cs[p as int].index >= d.index);
                assert(cs[p as int].index != d.index);
                if j - 1 > p {
                    assert(cs[p as int].index < cs[j - 1].index);
                }
            } else {
                assert(ns[i] == cs[i - 1]);
                assert(ns[j] == cs[j - 1]);
            }
        }
    }
}

proof fn lemma_emit_calls_stop(p: Progress, cs: Seq<CallView>, k: int)
    requires
        0 <= k <= cs.len(),
        emit_calls(p, cs.take(k)).error is Some,
    ensures
        emit_calls(p, cs) == emit_calls(p, cs.take(k)),
    decreases cs.len() - k,
{
    if k < cs.len() {
        assert(cs.take(k + 1).drop_last() =~= cs.take(k));
        lemma_emit_calls_stop(p, cs, k + 1);
    } else {
        assert(cs.take(k) =~= cs);
    }
}

/// Clears the tool calls and sends each as a function call, in order of
/// index; a call without a name stops the stream.
pub fn flush_tool_calls(state: &mut ChatStreamState, events: &mut Vec<ResponseEvent>) -> (r: Result<(), ApiError>)
    ensures
        after(*final(state), final(events)@, r) == flush_calls(at(*old(state), old(events)@)),
        final(state)@ == (StreamView { calls: Seq::empty(), ..old(state)@ }),
        r matches Err(e) ==> e.is_stream(),
{
    let mut calls: Vec<ToolCallState> = Vec::new();
    std::mem::swap(&mut calls, &mut state.tool_calls);
    let ghost cs = calls_view(calls@);
    let ghost p0 = Progress {
        state: StreamView { calls: Seq::empty(), ..old(state)@ },
        events: events_view(old(events)@),
        error: None,
    };
    assert(at(*state, events@) =~~= p0);
    assert(cs.take(0) =~= Seq::<CallView>::empty());
    let mut i: usize = 0;
    let mut failed = false;
    while i < calls.len() && !failed
        invariant
            i <= calls@.len(),
            cs == calls_view(calls@),
            state@ == p0.state,
            !failed ==> at(*state, events@) == emit_calls(p0, cs.take(i as int)),
            !failed ==> emit_calls(p0, cs.take(i as int)).error is None,
            failed ==> i < calls@.len() && emit_calls(p0, cs.take(i + 1)) == (Progress {
                error: Some("tool call missing name"@),
                ..at(*state, events@)
            }),
        decreases calls@.len() - i + (if failed { 0int } else { 1int }),
    {
        assert(cs.take(i + 1).drop_last() =~= cs.take(i as int));
        assert(cs.take(i + 1).last() == cs[i as int]);
        match &calls[i].name {
            None => {
                failed = true;
            },
            Some(name) => {
                let (namespace, tool_name) = split_chat_function_name(name.as_str());
                let call_id = match &calls[i].id {
                    Some(id) => id.clone(),
                    None => String::from_str("chat-compat-call"),
                };
                let item = ResponseItem::FunctionCall {
                    id: None,
                    name: tool_name,
                    namespace,
                    arguments: calls[i].arguments.clone(),
                    call_id,
                };
                let ghost before = at(*state, events@);
                push_event(events, ResponseEvent::OutputItemDone(item));
                assert(event_view(ResponseEvent::OutputItemDone(item)) =~~= EventView::OutputItemDone(
                    call_item(cs[i as int]),
                ));
                assert(at(*state, events@) =~~= emit_call(before, cs[i as int]));
                i += 1;
            },
        }
    }
    if failed {
        proof {
            lemma_emit_calls_stop(p0, cs, i + 1);
        }
        let e = stream_error("tool call missing name");
        assert(after(*state, events@, Err(e)) =~~= emit_calls(p0, cs));
        return Err(e);
    }
    assert(cs.take(i as int) =~= cs);
    Ok(())
}


/// A finish reason: `tool_calls` sends the message and the tool calls;
/// `stop`, `length` and `content_filter` send the message; each of these
/// marks the turn finished. Any other reason changes nothing.
pub fn flush_for_finish_reason(
    state: &mut ChatStreamState,
    events: &mut Vec<ResponseEvent>,
    finish_reason: &str,
) -> (r: Result<(), ApiError>)
    requires
        old(state)@.wf(),
    ensures
        after(*final(state), final(events)@, r) == finish(at(*old(state), old(events)@), finish_reason@),
        final(state)@.wf(),
        r matches Err(e) ==> e.is_stream(),
{
    if str_equal(finish_reason, "tool_calls") {
        flush_assistant_message(state, events);
        match flush_tool_calls(state, events) {
            Err(e) => {
                return Err(e);
            },
            Ok(()) => {},
        }
        state.saw_terminal_finish_reason = true;
        Ok(())
    } else if str_equal(finish_reason, "stop") || str_equal(finish_reason, "length") || str_equal(
        finish_reason,
        "content_filter",
    ) {
        flush_assistant_message(state, events);
        state.saw_terminal_finish_reason = true;
        Ok(())
    } else {
        Ok(())
    }
}

/// Ends the response: sends the message and the tool calls, then the
/// completion with the response's id (`chat-compat` where the server gave
/// none) and its usage.
pub fn flush_and_complete(state: &mut ChatStreamState, events: &mut Vec<ResponseEvent>) -> (r: Result<(), ApiError>)
    requires
        old(state)@.wf(),
    ensures
        after(*final(state), final(events)@, r) == complete(at(*old(state), old(events)@)),
        final(state)@.wf(),
        r matches Err(e) ==> e.is_stream(),
{
    flush_assistant_message(state, events);
    match flush_tool_calls(state, events) {
        Err(e) => {
            return Err(e);
        },
        Ok(()) => {},
    }
    let response_id = match &state.response_id {
        Some(i) => i.clone(),
        None => String::from_str("chat-compat"),
    };
    let ghost before = at(*state, events@);
    push_event(events, ResponseEvent::Completed { response_id, token_usage: state.token_usage });
    assert(at(*state, events@).events =~~= complete(at(*old(state), old(events)@)).events);
    Ok(())
}

/// One choice of a chunk: its text, then its tool call pieces, then its
/// finish reason.
fn process_choice(
    choice: &ChatCompletionChoice,
    state: &mut ChatStreamState,
    events: &mut Vec<ResponseEvent>,
) -> (r: Result<(), ApiError>)
    requires
        old(state)@.wf(),
    ensures
        after(*final(state), final(events)@, r) == apply_choice(at(*old(state), old(events)@), choice_view(*choice)),
        final(state)@.wf(),
        r matches Err(e) ==> e.is_stream(),
{
    let ghost p0 = at(*state, events@);
    let ghost cv = choice_view(*choice);
    match &choice.delta.content {
        Some(content) => {
            let deltas = chat_delta_strings(content);
            let ghost ds = strings_view(deltas@);
            assert(ds.take(0) =~= Seq::<Seq<char>>::empty());
            let mut k: usize = 0;
            while k < deltas.len()
                invariant
                    k <= deltas@.len(),
                    ds == strings_view(deltas@),
                    at(*state, events@) == add_texts(p0, ds.take(k as int)),
                    state@.wf(),
                decreases deltas@.len() - k,
            {
                assert(ds.take(k + 1).drop_last() =~= ds.take(k as int));
                assert(ds.take(k + 1).last() == deltas@[k as int]@);
                let delta = &deltas[k];
                if !delta.as_str().is_empty() {
                    let ghost before = at(*state, events@);
                    ensure_assistant_message_started(state, events);
                    push_str(&mut state.assistant_text, delta.as_str());
                    push_event(events, ResponseEvent::OutputTextDelta(delta.clone()));
                    assert(at(*state, events@) =~~= add_text(before, delta@));
                }
                k += 1;
            }
            assert(ds.take(deltas@.len() as int) =~= ds);
        },
        None => {},
    }
    let ghost p1 = at(*state, events@);
    assert(p1 == (match cv.content {
        Some(v) => add_texts(p0, delta_texts(v)),
        None => p0,
    }));
    match &choice.delta.tool_calls {
        Some(tool_calls) => {
            let ghost ds = deltas_view(tool_calls@);
            assert(ds.take(0) =~= Seq::<CallDeltaView>::empty());
            let mut k: usize = 0;
            while k < tool_calls.len()
                invariant
                    k <= tool_calls@.len(),
                    ds == deltas_view(tool_calls@),
                    at(*state, events@) == (Progress {
                        state: StreamView { calls: merge_calls(p1.state.calls, ds.take(k as int)), ..p1.state },
                        ..p1
                    }),
                    state@.wf(),
                decreases tool_calls@.len() - k,
            {
                assert(ds.take(k + 1).drop_last() =~= ds.take(k as int));
                assert(ds.take(k + 1).last() == delta_view(tool_calls@[k as int]));
                merge_tool_call(&mut state.tool_calls, &tool_calls[k]);
                assert(at(*state, events@) =~~= (Progress {
                    state: StreamView { calls: merge_calls(p1.state.calls, ds.take(k + 1)), ..p1.state },
                    ..p1
                }));
                k += 1;
            }
            assert(ds.take(tool_calls@.len() as int) =~= ds);
        },
        None => {
            assert(at(*state, events@) =~~= merge_choice_calls(p1, cv.tool_calls));
        },
    }
    match &choice.finish_reason {
        Some(reason) => flush_for_finish_reason(state, events, reason.as_str()),
        None => Ok(()),
    }
}

proof fn lemma_choices_stop(p: Progress, cs: Seq<ChoiceView>, k: int)
    requires
        0 <= k <= cs.len(),
        apply_choices(p, cs.take(k)).error is Some,
    ensures
        apply_choices(p, cs) == apply_choices(p, cs.take(k)),
    decreases cs.len() - k,
{
    if k < cs.len() {
        assert(cs.take(k + 1).drop_last() =~= cs.take(k));
        lemma_choices_stop(p, cs, k + 1);
    } else {
        assert(cs.take(k) =~= cs);
    }
}

/// One chunk of the stream. The first chunk announces the response; a
/// chunk's id, a model not yet announced and a usage report are noted; an
/// error in the chunk stops the stream with its message (a fixed one where it
/// has none); else the choices are taken in order, up to the first that fails.
pub fn process_chat_chunk(
    chunk: ChatCompletionChunk,
    state: &mut ChatStreamState,
    events: &mut Vec<ResponseEvent>,
) -> (r: Result<(), ApiError>)
    requires
        old(state)@.wf(),
    ensures
        after(*final(state), final(events)@, r) == apply_chunk(at(*old(state), old(events)@), chunk_view(chunk)),
        final(state)@.wf(),
        r matches Err(e) ==> e.is_stream(),
{
    let ghost cv = chunk_view(chunk);
    let ghost p0 = at(*state, events@);
    let ChatCompletionChunk { id, model, choices, usage, error } = chunk;
    if !state.saw_created {
        push_event(events, ResponseEvent::Created);
        state.saw_created = true;
    }
    assert(at(*state, events@) =~~= note_created(p0));
    let ghost p1 = at(*state, events@);
    match id {
        Some(response_id) => {
            state.response_id = Some(response_id);
        },
        None => {},
    }
    assert(at(*state, events@) =~~= note_id(p1, cv.id));
    let ghost p2 = at(*state, events@);
    match model {
        Some(model) => {
            let same = match &state.saw_server_model {
                Some(m) => str_equal(m.as_str(), model.as_str()),
                None => false,
            };
            if !same {
                push_event(events, ResponseEvent::ServerModel(model.clone()));
                state.saw_server_model = Some(model);
            }
        },
        None => {},
    }
    assert(at(*state, events@) =~~= note_model(p2, cv.model));
    let ghost p3 = at(*state, events@);
    match usage {
        Some(u) => {
            state.token_usage = Some(TokenUsage::from(u));
        },
        None => {},
    }
    assert(at(*state, events@) =~~= note_usage(p3, cv.usage));
    let ghost q = at(*state, events@);
    match error {
        Some(e) => {
            let msg = match e.message {
                Some(m) => m,
                None => String::from_str("chat completions stream returned an error"),
            };
            let err = ApiError::Stream(msg);
            assert(after(*state, events@, Err(err)) =~~= apply_chunk(p0, cv));
            return Err(err);
        },
        None => {},
    }
    let ghost cs = choices_view(choices@);
    assert(cs.take(0) =~= Seq::<ChoiceView>::empty());
    let mut i: usize = 0;
    let mut err: Option<ApiError> = None;
    while i < choices.len() && err.is_none()
        invariant
            i <= choices@.len(),
            cs == choices_view(choices@),
            err is None ==> at(*state, events@) == apply_choices(q, cs.take(i as int)),
            err is None ==> apply_choices(q, cs.take(i as int)).error is None,
            err matches Some(e) ==> after(*state, events@, Err(e)) == apply_choices(q, cs.take(i as int)),
            err matches Some(e) ==> e.is_stream(),
            err is Some ==> apply_choices(q, cs.take(i as int)).error is Some,
            state@.wf(),
        decreases choices@.len() - i,
    {
        assert(cs.take(i + 1).drop_last() =~= cs.take(i as int));
        assert(cs.take(i + 1).last() == choice_view(choices@[i as int]));
        let r = process_choice(&choices[i], state, events);
        match r {
            Err(e) => {
                err = Some(e);
            },
            Ok(()) => {},
        }
        i += 1;
    }
    match err {
        Some(e) => {
            proof {
                lemma_choices_stop(q, cs, i as int);
            }
            Err(e)
        },
        None => {
            assert(cs.take(i as int) =~= cs);
            Ok(())
        },
    }
}


/// What the stream delivered next.
pub enum SseInput {
    /// An event's data, with the chunk it parses to, where it parses.
    Data { data: String, chunk: Option<ChatCompletionChunk> },
    /// The stream ended.
    Closed,
    /// The stream failed with this message.
    Failed(String),
    /// Nothing came within the idle timeout.
    IdleTimeout,
}

/// What follows an input: read on, or stop, done or with an error.
pub enum SseStep {
    Continue,
    Finished,
    Stopped(ApiError),
}

/// The progress after a step of the stream.
pub open spec fn after_step(s: ChatStreamState, evs: Seq<ResponseEvent>, r: SseStep) -> Progress {
    Progress {
        state: s@,
        events: events_view(evs),
        error: match r {
            SseStep::Stopped(e) => Some(e.message()),
            _ => None,
        },
    }
}

/// The step ends the response as `complete` does: done, or stopped with its error.
pub open spec fn completes(s: ChatStreamState, evs: Seq<ResponseEvent>, r: SseStep, p: Progress) -> bool {
    &&& after_step(s, evs, r) == complete(p)
    &&& !(r is Continue)
    &&& (r is Finished <==> complete(p).error is None)
}

/// The step stops with a stream error `msg` and changes nothing.
pub open spec fn stops_with(s: ChatStreamState, evs: Seq<ResponseEvent>, r: SseStep, p: Progress, msg: Seq<char>) -> bool {
    &&& r matches SseStep::Stopped(e) && e.message() == msg
    &&& at(s, evs) == p
}

fn completion_step(state: &mut ChatStreamState, events: &mut Vec<ResponseEvent>) -> (r: SseStep)
    requires
        old(state)@.wf(),
    ensures
        completes(*final(state), final(events)@, r, at(*old(state), old(events)@)),
        final(state)@.wf(),
        r matches SseStep::Stopped(e) ==> e.is_stream(),
{
    match flush_and_complete(state, events) {
        Ok(()) => SseStep::Finished,
        Err(e) => SseStep::Stopped(e),
    }
}

/// Decides on what the stream delivered. `[DONE]` ends the response; data
/// that does not parse is skipped; a chunk moves the state; the end of the
/// stream ends the response if the model finished its turn, and is an error
/// otherwise; a failure or an idle timeout stops the stream.
pub fn process_sse_input(
    input: SseInput,
    state: &mut ChatStreamState,
    events: &mut Vec<ResponseEvent>,
) -> (r: SseStep)
    requires
        old(state)@.wf(),
    ensures
        final(state)@.wf(),
        r matches SseStep::Stopped(e) ==> e.is_stream(),
        match input {
            SseInput::Data { data, chunk } => if data@ == "[DONE]"@ {
                completes(*final(state), final(events)@, r, at(*old(state), old(events)@))
            } else {
                match chunk {
                    None => r is Continue && at(*final(state), final(events)@) == at(*old(state), old(events)@),
                    Some(c) => {
                        &&& after_step(*final(state), final(events)@, r) == apply_chunk(
                            at(*old(state), old(events)@),
                            chunk_view(c),
                        )
                        &&& !(r is Finished)
                        &&& (r is Continue <==> apply_chunk(at(*old(state), old(events)@), chunk_view(c)).error is None)
                    },
                }
            },
            SseInput::Closed => if old(state)@.terminal {
                completes(*final(state), final(events)@, r, at(*old(state), old(events)@))
            } else {
                stops_with(*final(state), final(events)@, r, at(*old(state), old(events)@), "stream closed before completion"@)
            },
            SseInput::Failed(m) => stops_with(*final(state), final(events)@, r, at(*old(state), old(events)@), m@),
            SseInput::IdleTimeout => stops_with(
                *final(state),
                final(events)@,
                r,
                at(*old(state), old(events)@),
                "idle timeout waiting for SSE"@,
            ),
        },
{
    match input {
        SseInput::Data { data, chunk } => {
            if str_equal(data.as_str(), "[DONE]") {
                return completion_step(state, events);
            }
            match chunk {
                None => SseStep::Continue,
                Some(c) => match process_chat_chunk(c, state, events) {
                    Ok(()) => SseStep::Continue,
                    Err(e) => SseStep::Stopped(e),
                },
            }
        },
        SseInput::Closed => {
            if state.saw_terminal_finish_reason {
                completion_step(state, events)
            } else {
                SseStep::Stopped(stream_error("stream closed before completion"))
            }
        },
        SseInput::Failed(m) => SseStep::Stopped(ApiError::Stream(m)),
        SseInput::IdleTimeout => SseStep::Stopped(stream_error("idle timeout waiting for SSE")),
    }
}

/// Pieces of text joined in order.
pub open spec fn joined(ds: Seq<Seq<char>>) -> Seq<char>
    decreases ds.len(),
{
    if ds.len() == 0 {
        Seq::empty()
    } else {
        joined(ds.drop_last()) + ds.last()
    }
}

/// The assistant's text is what it was, followed by every piece of text
/// streamed, in order; the message is open once a non-empty piece came.
pub proof fn lemma_text_is_joined_deltas(p: Progress, ds: Seq<Seq<char>>)
    ensures
        add_texts(p, ds).state.text == p.state.text + joined(ds),
        add_texts(p, ds).state.calls == p.state.calls,
        add_texts(p, ds).error == p.error,
        joined(ds).len() > 0 ==> add_texts(p, ds).state.open,
    decreases ds.len(),
{
    if ds.len() == 0 {
        assert(p.state.text + joined(ds) =~= p.state.text);
    } else {
        lemma_text_is_joined_deltas(p, ds.drop_last());
        assert(p.state.text + joined(ds.drop_last()) + ds.last() =~= p.state.text + joined(ds));
    }
}

/// A name split into a namespace and a tool name joins back, with `__`
/// between them, into the name it came from; a name left whole is the name.
pub proof fn lemma_split_name_rejoins(name: Seq<char>)
    ensures
        split_function_name(name).0 matches Some(ns) ==> ns + "__"@ + split_function_name(name).1 == name,
        split_function_name(name).0 is None ==> split_function_name(name).1 == name,
{
    reveal_strlit("__");
    match last_separator_before(name, name.len() as int) {
        None => {},
        Some(i) => {
            lemma_last_separator_in_range(name, name.len() as int);
            let ns = name.subrange(0, i);
            let tool = name.subrange(i + 2, name.len() as int);
            assert(ns + "__"@ + tool =~= name);
        },
    }
}

/// A name made of one of the documented namespaces (`codex_app`,
/// `image_gen`, `multi_agent_v1`, `web`) or an MCP server's (`mcp__` and a
/// server name), `__`, and a tool name (not empty, not starting with `_`,
/// without `__`) splits back into that namespace and that tool name.
pub proof fn lemma_documented_namespaces_split(ns: Seq<char>, tool: Seq<char>)
    requires
        ns == "codex_app"@ || ns == "image_gen"@ || ns == "multi_agent_v1"@ || ns == "web"@ || (starts_with(
            ns,
            "mcp__"@,
        ) && ns.last() != '_'),
        tool.len() > 0,
        tool[0] != '_',
        forall|k: int| !separator_at(tool, k),
    ensures
        split_function_name(ns + "__"@ + tool) == (Some(ns), tool),
{
    reveal_strlit("__");
    reveal_strlit("codex_app");
    reveal_strlit("image_gen");
    reveal_strlit("multi_agent_v1");
    reveal_strlit("web");
    reveal_strlit("mcp__");
    let name = ns + "__"@ + tool;
    let m = ns.len() as int;
    assert(ns.len() > 0);
    assert(ns.last() != '_');
    assert forall|k: int| m + 1 <= k < name.len() implies !separator_at(name, k) by {
        if k == m + 1 {
            assert(name[k + 1] == tool[0]);
        } else if separator_at(name, k) {
            assert(name[k] == tool[k - m - 2] && name[k + 1] == tool[k - m - 1]);
            assert(separator_at(tool, k - m - 2));
        }
    }
    lemma_last_separator_from_top(name, m, name.len() as int);
    assert(separator_at(name, m));
    assert(name.subrange(0, m) =~= ns);
    assert(name.subrange(m + 2, name.len() as int) =~= tool);
}

/// With no separator from `m + 1` on, the last separator before `j` is the
/// last one before `m + 1`.
proof fn lemma_last_separator_from_top(s: Seq<char>, m: int, j: int)
    requires
        0 <= m,
        m + 1 <= j,
        forall|k: int| m + 1 <= k < s.len() ==> !separator_at(s, k),
        separator_at(s, m),
    ensures
        last_separator_before(s, j) == Some(m),
    decreases j,
{
    if j > m + 1 {
        if j - 1 < s.len() {
            assert(!separator_at(s, j - 1));
        } else {
            assert(!separator_at(s, j - 1));
        }
        lemma_last_separator_from_top(s, m, j - 1);
    }
}

proof fn lemma_last_separator_in_range(s: Seq<char>, j: int)
    ensures
        last_separator_before(s, j) matches Some(i) ==> separator_at(s, i) && i < j,
    decreases j,
{
    if j > 0 && !separator_at(s, j - 1) {
        lemma_last_separator_in_range(s, j - 1);
    }
}


/// The events of `q` begin with those of `p`.
pub open spec fn extends(p: Progress, q: Progress) -> bool {
    &&& q.events.len() >= p.events.len()
    &&& q.events.take(p.events.len() as int) == p.events
}

proof fn lemma_extends_trans(a: Progress, b: Progress, c: Progress)
    requires
        extends(a, b),
        extends(b, c),
    ensures
        extends(a, c),
{
    assert(c.events.take(a.events.len() as int) =~= c.events.take(b.events.len() as int).take(a.events.len() as int));
}

proof fn lemma_push_extends(p: Progress, q: Progress, e: EventView)
    requires
        q.events == p.events.push(e),
    ensures
        extends(p, q),
{
    assert(q.events.take(p.events.len() as int) =~= p.events);
}

proof fn lemma_same_extends(p: Progress, q: Progress)
    requires
        q.events == p.events,
    ensures
        extends(p, q),
{
    assert(q.events.take(p.events.len() as int) =~= p.events);
}

proof fn lemma_open_message_extends(p: Progress)
    ensures
        extends(p, open_message(p)),
{
    if p.state.open {
        lemma_same_extends(p, open_message(p));
    } else {
        lemma_push_extends(p, open_message(p), assistant_opened());
    }
}

proof fn lemma_add_texts_extends(p: Progress, ds: Seq<Seq<char>>)
    ensures
        extends(p, add_texts(p, ds)),
    decreases ds.len(),
{
    if ds.len() == 0 {
        lemma_same_extends(p, p);
    } else {
        let q = add_texts(p, ds.drop_last());
        lemma_add_texts_extends(p, ds.drop_last());
        let d = ds.last();
        if d.len() == 0 {
            lemma_same_extends(q, add_text(q, d));
        } else {
            let o = open_message(q);
            lemma_open_message_extends(q);
            lemma_push_extends(o, add_text(q, d), EventView::OutputTextDelta(d));
            lemma_extends_trans(q, o, add_text(q, d));
        }
        lemma_extends_trans(p, q, add_texts(p, ds));
    }
}

proof fn lemma_flush_message_extends(p: Progress)
    ensures
        extends(p, flush_message(p)),
{
    if !p.state.open {
        lemma_same_extends(p, flush_message(p));
    } else {
        lemma_push_extends(p, flush_message(p), assistant_done(p.state.text));
    }
}

proof fn lemma_emit_calls_extends(p: Progress, cs: Seq<CallView>)
    ensures
        extends(p, emit_calls(p, cs)),
    decreases cs.len(),
{
    if cs.len() == 0 {
        lemma_same_extends(p, p);
    } else {
        let q = emit_calls(p, cs.drop_last());
        lemma_emit_calls_extends(p, cs.drop_last());
        if q.error is None {
            let c = cs.last();
            match c.name {
                None => lemma_same_extends(q, emit_call(q, c)),
                Some(_) => lemma_push_extends(q, emit_call(q, c), EventView::OutputItemDone(call_item(c))),
            }
            lemma_extends_trans(p, q, emit_calls(p, cs));
        }
    }
}

proof fn lemma_flush_calls_extends(p: Progress)
    ensures
        extends(p, flush_calls(p)),
{
    let p0 = Progress { state: StreamView { calls: Seq::empty(), ..p.state }, ..p };
    lemma_emit_calls_extends(p0, p.state.calls);
    assert(p0.events == p.events);
}

proof fn lemma_finish_extends(p: Progress, reason: Seq<char>)
    ensures
        extends(p, finish(p, reason)),
{
    let m = flush_message(p);
    lemma_flush_message_extends(p);
    lemma_flush_calls_extends(m);
    lemma_extends_trans(p, m, flush_calls(m));
    lemma_same_extends(flush_calls(m), mark_terminal(flush_calls(m)));
    lemma_extends_trans(p, flush_calls(m), mark_terminal(flush_calls(m)));
    lemma_same_extends(m, mark_terminal(m));
    lemma_extends_trans(p, m, mark_terminal(m));
    lemma_same_extends(p, p);
}

proof fn lemma_apply_choice_extends(p: Progress, c: ChoiceView)
    ensures
        extends(p, apply_choice(p, c)),
{
    let p1 = match c.content {
        Some(v) => add_texts(p, delta_texts(v)),
        None => p,
    };
    match c.content {
        Some(v) => lemma_add_texts_extends(p, delta_texts(v)),
        None => lemma_same_extends(p, p),
    }
    let p2 = merge_choice_calls(p1, c.tool_calls);
    lemma_same_extends(p1, p2);
    lemma_extends_trans(p, p1, p2);
    match c.finish_reason {
        Some(r) => {
            lemma_finish_extends(p2, r);
            lemma_extends_trans(p, p2, finish(p2, r));
        },
        None => {},
    }
}

proof fn lemma_apply_choices_extends(p: Progress, cs: Seq<ChoiceView>)
    ensures
        extends(p, apply_choices(p, cs)),
    decreases cs.len(),
{
    if cs.len() == 0 {
        lemma_same_extends(p, p);
    } else {
        let q = apply_choices(p, cs.drop_last());
        lemma_apply_choices_extends(p, cs.drop_last());
        if q.error is None {
            lemma_apply_choice_extends(q, cs.last());
            lemma_extends_trans(p, q, apply_choices(p, cs));
        }
    }
}

/// The stream only ever adds events: after a chunk, or at the end of the
/// response, the events sent before come first, unchanged.
pub proof fn lemma_events_only_grow(p: Progress, c: ChunkView)
    ensures
        extends(p, apply_chunk(p, c)),
        extends(p, complete(p)),
{
    let a = note_created(p);
    if p.state.saw_created {
        lemma_same_extends(p, a);
    } else {
        lemma_push_extends(p, a, EventView::Created);
    }
    let b = note_id(a, c.id);
    lemma_same_extends(a, b);
    let m = note_model(b, c.model);
    match c.model {
        Some(x) => if b.state.server_model == Some(x) {
            lemma_same_extends(b, m);
        } else {
            lemma_push_extends(b, m, EventView::ServerModel(x));
        },
        None => lemma_same_extends(b, m),
    }
    let q = note_usage(m, c.usage);
    lemma_same_extends(m, q);
    lemma_extends_trans(p, a, b);
    lemma_extends_trans(p, b, m);
    lemma_extends_trans(p, m, q);
    match c.error {
        Some(e) => lemma_same_extends(q, apply_chunk(p, c)),
        None => lemma_apply_choices_extends(q, c.choices),
    }
    lemma_extends_trans(p, q, apply_chunk(p, c));
    let fm = flush_message(p);
    lemma_flush_message_extends(p);
    lemma_flush_calls_extends(fm);
    lemma_extends_trans(p, fm, flush_calls(fm));
    let fc = flush_calls(fm);
    if fc.error is None {
        lemma_push_extends(
            fc,
            complete(p),
            EventView::Completed {
                response_id: match fc.state.response_id {
                    Some(i) => i,
                    None => "chat-compat"@,
                },
                token_usage: fc.state.usage,
            },
        );
        lemma_extends_trans(p, fc, complete(p));
    }
}

} // verus!
