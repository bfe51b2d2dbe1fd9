use rolodex_core::chat_request::{
    ResponsesApiRequest, translate_input_to_chat_messages, translate_responses_request_to_chat_body,
    translate_tool_to_chat_tool,
};
use rolodex_core::chat_stream::{
    ChatCompletionChoice, ChatCompletionChunk, ChatCompletionDelta, ChatCompletionError, ChatCompletionUsage,
    ChatFunctionDelta, ChatStreamState, ChatToolCallDelta, SseInput, SseStep, chat_delta_strings,
    process_sse_input, split_chat_function_name,
};
use rolodex_core::json::{JsonMember, JsonValue, json_get, json_get_str};
use rolodex_core::responses::{ApiError, ContentItem, ResponseEvent, ResponseItem, TokenUsage};

fn s(text: &str) -> JsonValue {
    JsonValue::Str(text.to_string())
}

fn obj(members: Vec<(&str, JsonValue)>) -> JsonValue {
    JsonValue::Object(
        members
            .into_iter()
            .map(|(k, v)| JsonMember { key: k.to_string(), value: v })
            .collect(),
    )
}

fn text_choice(text: &str, finish: Option<&str>) -> ChatCompletionChoice {
    ChatCompletionChoice {
        delta: ChatCompletionDelta { content: Some(s(text)), tool_calls: None },
        finish_reason: finish.map(str::to_string),
    }
}

fn chunk(id: &str, model: Option<&str>, choices: Vec<ChatCompletionChoice>) -> ChatCompletionChunk {
    ChatCompletionChunk {
        id: Some(id.to_string()),
        model: model.map(str::to_string),
        choices,
        usage: None,
        error: None,
    }
}

fn data(c: ChatCompletionChunk) -> SseInput {
    SseInput::Data { data: "{}".to_string(), chunk: Some(c) }
}

fn done() -> SseInput {
    SseInput::Data { data: "[DONE]".to_string(), chunk: None }
}

fn run(inputs: Vec<SseInput>) -> (Vec<ResponseEvent>, Option<SseStep>) {
    let mut state = ChatStreamState::new();
    let mut events = Vec::new();
    let mut last = None;
    for input in inputs {
        let step = process_sse_input(input, &mut state, &mut events);
        let stop = !matches!(step, SseStep::Continue);
        last = Some(step);
        if stop {
            break;
        }
    }
    (events, last)
}

fn message_text(item: &ResponseItem) -> Option<String> {
    match item {
        ResponseItem::Message { role, content, .. } if role == "assistant" => match content.as_slice() {
            [ContentItem::OutputText { text }] => Some(text.clone()),
            _ => None,
        },
        _ => None,
    }
}

#[test]
fn chat_text_stream_maps_to_response_events() {
    let (events, last) = run(vec![
        data(chunk("chatcmpl-1", Some("compat-model"), vec![text_choice("Hel", None)])),
        data(chunk("chatcmpl-1", None, vec![text_choice("lo", Some("stop"))])),
        done(),
    ]);
    assert!(matches!(last, Some(SseStep::Finished)));
    assert_eq!(events.len(), 7);
    assert!(matches!(events[0], ResponseEvent::Created));
    assert!(matches!(&events[1], ResponseEvent::ServerModel(m) if m == "compat-model"));
    assert!(matches!(
        &events[2],
        ResponseEvent::OutputItemAdded(ResponseItem::Message { role, content, .. })
            if role == "assistant" && content.is_empty()
    ));
    assert!(matches!(&events[3], ResponseEvent::OutputTextDelta(d) if d == "Hel"));
    assert!(matches!(&events[4], ResponseEvent::OutputTextDelta(d) if d == "lo"));
    match &events[5] {
        ResponseEvent::OutputItemDone(item) => assert_eq!(message_text(item).as_deref(), Some("Hello")),
        _ => panic!("expected the finished message"),
    }
    assert!(matches!(
        &events[6],
        ResponseEvent::Completed { response_id, token_usage: None } if response_id == "chatcmpl-1"
    ));
}

#[test]
fn chat_tool_call_stream_maps_to_function_call() {
    let first = ChatCompletionChunk {
        id: Some("chatcmpl-2".to_string()),
        model: None,
        choices: vec![ChatCompletionChoice {
            delta: ChatCompletionDelta {
                content: None,
                tool_calls: Some(vec![ChatToolCallDelta {
                    index: 0,
                    id: Some("call_1".to_string()),
                    function: Some(ChatFunctionDelta {
                        name: Some("exec_command".to_string()),
                        arguments: Some("{\"cmd\":\"echo".to_string()),
                    }),
                }]),
            },
            finish_reason: None,
        }],
        usage: None,
        error: None,
    };
    let second = ChatCompletionChunk {
        id: Some("chatcmpl-2".to_string()),
        model: None,
        choices: vec![ChatCompletionChoice {
            delta: ChatCompletionDelta {
                content: Some(s("")),
                tool_calls: Some(vec![ChatToolCallDelta {
                    index: 0,
                    id: None,
                    function: Some(ChatFunctionDelta { name: None, arguments: Some(" hi\"}".to_string()) }),
                }]),
            },
            finish_reason: Some("tool_calls".to_string()),
        }],
        usage: Some(ChatCompletionUsage { prompt_tokens: 10, completion_tokens: 2, total_tokens: 12 }),
        error: None,
    };
    let (events, last) = run(vec![data(first), data(second), done()]);
    assert!(matches!(last, Some(SseStep::Finished)));
    assert_eq!(events.len(), 3);
    assert!(matches!(events[0], ResponseEvent::Created));
    assert!(matches!(
        &events[1],
        ResponseEvent::OutputItemDone(ResponseItem::FunctionCall { id, name, namespace, arguments, call_id })
            if id.is_none() && name == "exec_command" && namespace.is_none()
                && arguments == "{\"cmd\":\"echo hi\"}" && call_id == "call_1"
    ));
    assert!(matches!(
        &events[2],
        ResponseEvent::Completed {
            response_id,
            token_usage: Some(TokenUsage {
                input_tokens: 10,
                cached_input_tokens: 0,
                output_tokens: 2,
                reasoning_output_tokens: 0,
                total_tokens: 12,
            }),
        } if response_id == "chatcmpl-2"
    ));
}

#[test]
fn chat_namespaced_tool_call_restores_namespace() {
    let c = ChatCompletionChunk {
        id: Some("chatcmpl-namespace".to_string()),
        model: None,
        choices: vec![ChatCompletionChoice {
            delta: ChatCompletionDelta {
                content: None,
                tool_calls: Some(vec![ChatToolCallDelta {
                    index: 0,
                    id: Some("call_1".to_string()),
                    function: Some(ChatFunctionDelta {
                        name: Some("mcp__demo__lookup".to_string()),
                        arguments: Some("{}".to_string()),
                    }),
                }]),
            },
            finish_reason: Some("tool_calls".to_string()),
        }],
        usage: None,
        error: None,
    };
    let (events, _) = run(vec![data(c), done()]);
    assert!(matches!(
        &events[1],
        ResponseEvent::OutputItemDone(ResponseItem::FunctionCall { namespace, name, arguments, call_id, .. })
            if namespace.as_deref() == Some("mcp__demo") && name == "lookup" && arguments == "{}"
                && call_id == "call_1"
    ));
}

#[test]
fn chat_stream_without_done_after_stop_completes() {
    let (events, last) = run(vec![
        data(chunk("chatcmpl-3", None, vec![text_choice("Hello", Some("stop"))])),
        SseInput::Closed,
    ]);
    assert!(matches!(last, Some(SseStep::Finished)));
    assert_eq!(events.len(), 5);
    assert!(matches!(events[0], ResponseEvent::Created));
    assert!(matches!(&events[1], ResponseEvent::OutputItemAdded(_)));
    assert!(matches!(&events[2], ResponseEvent::OutputTextDelta(d) if d == "Hello"));
    match &events[3] {
        ResponseEvent::OutputItemDone(item) => assert_eq!(message_text(item).as_deref(), Some("Hello")),
        _ => panic!("expected the finished message"),
    }
    assert!(matches!(&events[4], ResponseEvent::Completed { response_id, .. } if response_id == "chatcmpl-3"));
}

#[test]
fn chat_stream_closed_before_finish_is_an_error() {
    let (events, last) = run(vec![data(chunk("c", None, vec![text_choice("partial", None)])), SseInput::Closed]);
    assert_eq!(events.len(), 3);
    match last {
        Some(SseStep::Stopped(ApiError::Stream(m))) => assert_eq!(m, "stream closed before completion"),
        _ => panic!("expected a stream error"),
    }
}

#[test]
fn chat_stream_idle_timeout_and_failure_stop() {
    let (_, last) = run(vec![SseInput::IdleTimeout]);
    assert!(matches!(last, Some(SseStep::Stopped(ApiError::Stream(m))) if m == "idle timeout waiting for SSE"));
    let (_, last) = run(vec![SseInput::Failed("boom".to_string())]);
    assert!(matches!(last, Some(SseStep::Stopped(ApiError::Stream(m))) if m == "boom"));
}

#[test]
fn chat_stream_skips_unparsed_data() {
    let (events, last) = run(vec![
        SseInput::Data { data: "not json".to_string(), chunk: None },
        data(chunk("c", None, vec![text_choice("x", Some("length"))])),
        done(),
    ]);
    assert!(matches!(last, Some(SseStep::Finished)));
    assert_eq!(events.len(), 5);
}

#[test]
fn chat_chunk_error_stops_with_its_message() {
    let mut c = chunk("c", None, vec![]);
    c.error = Some(ChatCompletionError { message: None });
    let (events, last) = run(vec![data(c)]);
    assert_eq!(events.len(), 1);
    assert!(matches!(
        last,
        Some(SseStep::Stopped(ApiError::Stream(m))) if m == "chat completions stream returned an error"
    ));
    let mut c = chunk("c", None, vec![]);
    c.error = Some(ChatCompletionError { message: Some("overloaded".to_string()) });
    let (_, last) = run(vec![data(c)]);
    assert!(matches!(last, Some(SseStep::Stopped(ApiError::Stream(m))) if m == "overloaded"));
}

#[test]
fn chat_tool_call_without_name_is_an_error() {
    let c = ChatCompletionChunk {
        id: None,
        model: None,
        choices: vec![ChatCompletionChoice {
            delta: ChatCompletionDelta {
                content: None,
                tool_calls: Some(vec![ChatToolCallDelta { index: 3, id: None, function: None }]),
            },
            finish_reason: Some("tool_calls".to_string()),
        }],
        usage: None,
        error: None,
    };
    let (_, last) = run(vec![data(c)]);
    assert!(matches!(last, Some(SseStep::Stopped(ApiError::Stream(m))) if m == "tool call missing name"));
}

#[test]
fn chat_tool_calls_are_sent_in_index_order_with_default_ids() {
    let call = |index: usize, name: &str| ChatToolCallDelta {
        index,
        id: None,
        function: Some(ChatFunctionDelta { name: Some(name.to_string()), arguments: Some("{}".to_string()) }),
    };
    let c = ChatCompletionChunk {
        id: None,
        model: None,
        choices: vec![ChatCompletionChoice {
            delta: ChatCompletionDelta { content: None, tool_calls: Some(vec![call(2, "second"), call(1, "first")]) },
            finish_reason: Some("tool_calls".to_string()),
        }],
        usage: None,
        error: None,
    };
    let (events, last) = run(vec![data(c), done()]);
    assert!(matches!(last, Some(SseStep::Finished)));
    let names: Vec<String> = events
        .iter()
        .filter_map(|e| match e {
            ResponseEvent::OutputItemDone(ResponseItem::FunctionCall { name, call_id, .. }) => {
                assert_eq!(call_id, "chat-compat-call");
                Some(name.clone())
            }
            _ => None,
        })
        .collect();
    assert_eq!(names, vec!["first".to_string(), "second".to_string()]);
    assert!(matches!(events.last(), Some(ResponseEvent::Completed { response_id, .. }) if response_id == "chat-compat"));
}

#[test]
fn chat_server_model_is_announced_once_per_change() {
    let (events, _) = run(vec![
        data(chunk("c", Some("a"), vec![])),
        data(chunk("c", Some("a"), vec![])),
        data(chunk("c", Some("b"), vec![])),
    ]);
    let models: Vec<&str> = events
        .iter()
        .filter_map(|e| match e {
            ResponseEvent::ServerModel(m) => Some(m.as_str()),
            _ => None,
        })
        .collect();
    assert_eq!(models, vec!["a", "b"]);
    assert_eq!(events.iter().filter(|e| matches!(e, ResponseEvent::Created)).count(), 1);
}

#[test]
fn split_chat_function_name_cases() {
    assert_eq!(split_chat_function_name("mcp__demo__lookup"), (Some("mcp__demo".to_string()), "lookup".to_string()));
    assert_eq!(split_chat_function_name("web__search"), (Some("web".to_string()), "search".to_string()));
    assert_eq!(split_chat_function_name("codex_app__open"), (Some("codex_app".to_string()), "open".to_string()));
    assert_eq!(split_chat_function_name("unknown__tool"), (None, "unknown__tool".to_string()));
    assert_eq!(split_chat_function_name("__tool"), (None, "__tool".to_string()));
    assert_eq!(split_chat_function_name("web__"), (None, "web__".to_string()));
    assert_eq!(split_chat_function_name("plain"), (None, "plain".to_string()));
    assert_eq!(split_chat_function_name("a___b"), (None, "a___b".to_string()));
}

#[test]
fn chat_delta_strings_reads_text_parts() {
    let content = JsonValue::Array(vec![
        obj(vec![("type", s("text")), ("text", s("one"))]),
        obj(vec![("type", s("image_url")), ("text", s("skip"))]),
        obj(vec![("type", s("text")), ("text", JsonValue::Bool(true))]),
        obj(vec![("type", s("text")), ("text", s("two"))]),
    ]);
    assert_eq!(chat_delta_strings(&content), vec!["one".to_string(), "two".to_string()]);
    assert_eq!(chat_delta_strings(&s("whole")), vec!["whole".to_string()]);
    assert!(chat_delta_strings(&JsonValue::Null).is_empty());
}

fn request(tools: Vec<JsonValue>, tool_choice: &str, instructions: &str) -> ResponsesApiRequest {
    ResponsesApiRequest {
        model: "chat-model".to_string(),
        instructions: instructions.to_string(),
        input: Vec::new(),
        tools,
        tool_choice: tool_choice.to_string(),
        parallel_tool_calls: true,
        service_tier: None,
        text: None,
    }
}

#[test]
fn chat_compatibility_drops_responses_native_tools() {
    let tools = vec![
        obj(vec![("type", s("web_search")), ("external_web_access", JsonValue::Bool(true))]),
        obj(vec![("type", s("image_generation")), ("output_format", s("png"))]),
        obj(vec![
            ("type", s("function")),
            ("name", s("echo")),
            ("description", s("Echoes back text.")),
            (
                "parameters",
                obj(vec![
                    ("type", s("object")),
                    ("properties", obj(vec![("value", obj(vec![("type", s("string"))]))])),
                    ("required", JsonValue::Array(vec![s("value")])),
                    ("additionalProperties", JsonValue::Bool(false)),
                ]),
            ),
            ("strict", JsonValue::Bool(true)),
        ]),
    ];
    let body = translate_responses_request_to_chat_body(request(tools, "auto", "system")).ok().expect("request translates");
    let tools = match json_get(&body, "tools") {
        Some(JsonValue::Array(xs)) => xs,
        _ => panic!("tools array"),
    };
    assert_eq!(tools.len(), 1);
    let function = json_get(&tools[0], "function").expect("function");
    assert_eq!(json_get_str(function, "name"), Some("echo"));
    assert_eq!(json_get_str(&body, "tool_choice"), Some("auto"));
    assert!(matches!(json_get(&body, "parallel_tool_calls"), Some(JsonValue::Bool(true))));
}

#[test]
fn chat_compatibility_omits_tool_controls_when_no_tools_survive() {
    let tools = vec![obj(vec![("type", s("web_search")), ("external_web_access", JsonValue::Bool(false))])];
    let body = translate_responses_request_to_chat_body(request(tools, "required", "")).ok().expect("request translates");
    assert!(json_get(&body, "tools").is_none());
    assert!(json_get(&body, "tool_choice").is_none());
    assert!(json_get(&body, "parallel_tool_calls").is_none());
    let messages = match json_get(&body, "messages") {
        Some(JsonValue::Array(xs)) => xs,
        _ => panic!("messages array"),
    };
    assert!(messages.is_empty());
}

#[test]
fn chat_tool_translation_refusals() {
    let no_type = translate_tool_to_chat_tool(obj(vec![("name", s("x"))]));
    assert!(matches!(no_type, Err(ApiError::InvalidRequest { message })
        if message == "chat compatibility could not translate a tool without a type"));
    let no_name = translate_tool_to_chat_tool(obj(vec![("type", s("custom"))]));
    assert!(matches!(no_name, Err(ApiError::InvalidRequest { message })
        if message == "chat compatibility could not translate a custom tool without a name"));
    let other = translate_tool_to_chat_tool(obj(vec![("type", s("file_search"))]));
    assert!(matches!(other, Err(ApiError::InvalidRequest { message })
        if message == "wire_api=\"chat\" cannot translate Responses tool type `file_search` yet"));
}

#[test]
fn chat_custom_tool_describes_its_format() {
    let tool = obj(vec![
        ("type", s("custom")),
        ("name", s("apply_patch")),
        ("description", s("Patch files.")),
        ("format", obj(vec![("syntax", s("lark")), ("definition", s("start: x"))])),
    ]);
    let out = translate_tool_to_chat_tool(tool).ok().flatten().expect("a tool");
    let function = json_get(&out, "function").expect("function");
    assert_eq!(json_get_str(function, "name"), Some("apply_patch"));
    assert_eq!(
        json_get_str(function, "description"),
        Some("Patch files.\n\nProvide the full tool payload in the JSON string field `input`.\nSyntax: lark\nDefinition: start: x")
    );
    let params = json_get(function, "parameters").expect("parameters");
    let input = json_get(json_get(params, "properties").expect("properties"), "input").expect("input");
    assert_eq!(json_get_str(input, "type"), Some("string"));
}

#[test]
fn chat_function_tool_defaults() {
    let out = translate_tool_to_chat_tool(obj(vec![("type", s("function"))])).ok().flatten().expect("a tool");
    let function = json_get(&out, "function").expect("function");
    assert!(matches!(json_get(function, "name"), Some(JsonValue::Null)));
    assert!(matches!(json_get(function, "strict"), Some(JsonValue::Bool(false))));
    let params = json_get(function, "parameters").expect("parameters");
    assert_eq!(json_get_str(params, "type"), Some("object"));
    let local = translate_tool_to_chat_tool(obj(vec![("type", s("local_shell"))])).ok().flatten().expect("a tool");
    assert_eq!(json_get_str(json_get(&local, "function").expect("function"), "name"), Some("local_shell"));
}

#[test]
fn chat_messages_translate_conversation_items() {
    let input = vec![
        ResponseItem::Message {
            id: None,
            role: "user".to_string(),
            content: vec![
                ContentItem::InputText { text: "a".to_string() },
                ContentItem::InputText { text: "b".to_string() },
            ],
        },
        ResponseItem::Other,
        ResponseItem::CustomToolCall {
            name: "apply_patch".to_string(),
            input: "say \"hi\"\n".to_string(),
            call_id: "c1".to_string(),
        },
        ResponseItem::FunctionCallOutput { call_id: "c1".to_string(), output_text: None },
    ];
    let ms = translate_input_to_chat_messages("be brief", &input).ok().expect("messages");
    assert_eq!(ms.len(), 4);
    assert_eq!(json_get_str(&ms[0], "role"), Some("system"));
    assert_eq!(json_get_str(&ms[1], "content"), Some("ab"));
    let call = match json_get(&ms[2], "tool_calls") {
        Some(JsonValue::Array(xs)) => &xs[0],
        _ => panic!("tool calls"),
    };
    let function = json_get(call, "function").expect("function");
    assert_eq!(json_get_str(function, "arguments"), Some("{\"input\":\"say \\\"hi\\\"\\n\"}"));
    assert_eq!(json_get_str(&ms[3], "role"), Some("tool"));
    assert_eq!(json_get_str(&ms[3], "content"), Some(""));
    let blank = translate_input_to_chat_messages("  \n", &[]).ok().expect("messages");
    assert!(blank.is_empty());
}

#[test]
fn chat_local_shell_call_needs_an_id() {
    let input = vec![ResponseItem::LocalShellCall { id: None, call_id: None, action_json: "{}".to_string() }];
    let r = translate_input_to_chat_messages("", &input);
    assert!(matches!(r, Err(ApiError::InvalidRequest { message })
        if message == "chat compatibility requires local shell calls to have an id"));
    let input = vec![ResponseItem::LocalShellCall {
        id: Some("x".to_string()),
        call_id: None,
        action_json: "{\"cmd\":1}".to_string(),
    }];
    let ms = translate_input_to_chat_messages("", &input).ok().expect("messages");
    let call = match json_get(&ms[0], "tool_calls") {
        Some(JsonValue::Array(xs)) => &xs[0],
        _ => panic!("tool calls"),
    };
    assert_eq!(json_get_str(call, "id"), Some("x"));
}

#[test]
fn chat_message_with_image_becomes_parts() {
    let input = vec![ResponseItem::Message {
        id: None,
        role: "user".to_string(),
        content: vec![
            ContentItem::InputText { text: "look".to_string() },
            ContentItem::InputImage { image_url: "data:x".to_string() },
        ],
    }];
    let ms = translate_input_to_chat_messages("", &input).ok().expect("messages");
    let parts = match json_get(&ms[0], "content") {
        Some(JsonValue::Array(xs)) => xs,
        _ => panic!("parts"),
    };
    assert_eq!(parts.len(), 2);
    assert_eq!(json_get_str(&parts[0], "text"), Some("look"));
    assert_eq!(json_get_str(json_get(&parts[1], "image_url").expect("url"), "url"), Some("data:x"));
}
