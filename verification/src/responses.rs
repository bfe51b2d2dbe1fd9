//! Conversation items, stream events and errors of the model API, as the
//! chat compatibility layer reads and writes them.
use vstd::prelude::*;

verus! {

/// Token counts of a response.
#[derive(Clone, Copy, PartialEq, Eq, Structural, Debug)]
pub struct TokenUsage {
    pub input_tokens: i64,
    pub cached_input_tokens: i64,
    pub output_tokens: i64,
    pub reasoning_output_tokens: i64,
    pub total_tokens: i64,
}

/// A piece of a message.
pub enum ContentItem {
    InputText { text: String },
    InputImage { image_url: String },
    OutputText { text: String },
}

/// An item of a conversation. `Other` stands for the kinds that the chat
/// wire format has no place for (reasoning, web search and image generation
/// calls, snapshots, compactions).
pub enum ResponseItem {
    Message { id: Option<String>, role: String, content: Vec<ContentItem> },
    FunctionCall {
        id: Option<String>,
        name: String,
        namespace: Option<String>,
        arguments: String,
        call_id: String,
    },
    CustomToolCall { name: String, input: String, call_id: String },
    /// A local shell call; `action_json` is its action, already encoded as JSON text.
    LocalShellCall { id: Option<String>, call_id: Option<String>, action_json: String },
    /// A tool's output; `output_text` is its body as text, where it has one.
    FunctionCallOutput { call_id: String, output_text: Option<String> },
    CustomToolCallOutput { call_id: String, output_text: Option<String> },
    Other,
}

/// An event of a response stream.
pub enum ResponseEvent {
    Created,
    ServerModel(String),
    OutputItemAdded(ResponseItem),
    OutputTextDelta(String),
    OutputItemDone(ResponseItem),
    Completed { response_id: String, token_usage: Option<TokenUsage> },
}

/// An error of the model API.
pub enum ApiError {
    Stream(String),
    InvalidRequest { message: String },
}

impl ApiError {
    /// The message the error carries.
    pub open spec fn message(self) -> Seq<char> {
        match self {
            ApiError::Stream(m) => m@,
            ApiError::InvalidRequest { message } => message@,
        }
    }

    /// Whether this is a stream error.
    pub open spec fn is_stream(self) -> bool {
        self is Stream
    }
}

/// An optional text as the contracts speak of it.
pub open spec fn opt_text(o: Option<String>) -> Option<Seq<char>> {
    match o {
        Some(s) => Some(s@),
        None => None,
    }
}

/// A piece of a message as the contracts speak of it.
#[verifier::ext_equal]
pub enum ContentView {
    InputText(Seq<char>),
    InputImage(Seq<char>),
    OutputText(Seq<char>),
}

/// An item as the contracts speak of it.
#[verifier::ext_equal]
pub enum ItemView {
    Message { id: Option<Seq<char>>, role: Seq<char>, content: Seq<ContentView> },
    FunctionCall {
        id: Option<Seq<char>>,
        name: Seq<char>,
        namespace: Option<Seq<char>>,
        arguments: Seq<char>,
        call_id: Seq<char>,
    },
    CustomToolCall { name: Seq<char>, input: Seq<char>, call_id: Seq<char> },
    LocalShellCall { id: Option<Seq<char>>, call_id: Option<Seq<char>>, action_json: Seq<char> },
    FunctionCallOutput { call_id: Seq<char>, output_text: Option<Seq<char>> },
    CustomToolCallOutput { call_id: Seq<char>, output_text: Option<Seq<char>> },
    Other,
}

/// An event as the contracts speak of it.
#[verifier::ext_equal]
pub enum EventView {
    Created,
    ServerModel(Seq<char>),
    OutputItemAdded(ItemView),
    OutputTextDelta(Seq<char>),
    OutputItemDone(ItemView),
    Completed { response_id: Seq<char>, token_usage: Option<TokenUsage> },
}

pub open spec fn content_view(c: ContentItem) -> ContentView {
    match c {
        ContentItem::InputText { text } => ContentView::InputText(text@),
        ContentItem::InputImage { image_url } => ContentView::InputImage(image_url@),
        ContentItem::OutputText { text } => ContentView::OutputText(text@),
    }
}

pub open spec fn contents_view(s: Seq<ContentItem>) -> Seq<ContentView> {
    s.map_values(|c: ContentItem| content_view(c))
}

pub open spec fn item_view(i: ResponseItem) -> ItemView {
    match i {
        ResponseItem::Message { id, role, content } => ItemView::Message {
            id: opt_text(id),
            role: role@,
            content: contents_view(content@),
        },
        ResponseItem::FunctionCall { id, name, namespace, arguments, call_id } => ItemView::FunctionCall {
            id: opt_text(id),
            name: name@,
            namespace: opt_text(namespace),
            arguments: arguments@,
            call_id: call_id@,
        },
        ResponseItem::CustomToolCall { name, input, call_id } => ItemView::CustomToolCall {
            name: name@,
            input: input@,
            call_id: call_id@,
        },
        ResponseItem::LocalShellCall { id, call_id, action_json } => ItemView::LocalShellCall {
            id: opt_text(id),
            call_id: opt_text(call_id),
            action_json: action_json@,
        },
        ResponseItem::FunctionCallOutput { call_id, output_text } => ItemView::FunctionCallOutput {
            call_id: call_id@,
            output_text: opt_text(output_text),
        },
        ResponseItem::CustomToolCallOutput { call_id, output_text } => ItemView::CustomToolCallOutput {
            call_id: call_id@,
            output_text: opt_text(output_text),
        },
        ResponseItem::Other => ItemView::Other,
    }
}

pub open spec fn event_view(e: ResponseEvent) -> EventView {
    match e {
        ResponseEvent::Created => EventView::Created,
        ResponseEvent::ServerModel(m) => EventView::ServerModel(m@),
        ResponseEvent::OutputItemAdded(i) => EventView::OutputItemAdded(item_view(i)),
        ResponseEvent::OutputTextDelta(d) => EventView::OutputTextDelta(d@),
        ResponseEvent::OutputItemDone(i) => EventView::OutputItemDone(item_view(i)),
        ResponseEvent::Completed { response_id, token_usage } => EventView::Completed {
            response_id: response_id@,
            token_usage,
        },
    }
}

pub open spec fn events_view(s: Seq<ResponseEvent>) -> Seq<EventView> {
    s.map_values(|e: ResponseEvent| event_view(e))
}

/// Appends an event to a list of events.
pub fn push_event(v: &mut Vec<ResponseEvent>, e: ResponseEvent)
    ensures
        events_view(final(v)@) == events_view(old(v)@).push(event_view(e)),
{
    let ghost before = events_view(v@);
    v.push(e);
    assert(events_view(v@) =~= before.push(event_view(e)));
}

/// A stream error with the message `msg`.
pub fn stream_error(msg: &str) -> (e: ApiError)
    ensures
        e.is_stream(),
        e.message() == msg@,
{
    ApiError::Stream(String::from_str(msg))
}

/// An invalid-request error with the message `msg`.
pub fn invalid_request(msg: String) -> (e: ApiError)
    ensures
        !e.is_stream(),
        e.message() == msg@,
{
    ApiError::InvalidRequest { message: msg }
}

} // verus!
