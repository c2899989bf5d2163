use keel_dsh::chat::{
    CallPurpose, ContentBlock, GenerateOptions, LlmError, Message, Role, ToolSchema,
};
use keel_dsh::json::Json;
use keel_dsh::serialize::{serialize_messages, serialize_request, RequestDefaults};
use keel_dsh::wire::{WireFunctionCall, WireMessage, WireToolCall};

fn s(text: &str) -> String {
    text.to_string()
}

fn text(t: &str) -> ContentBlock {
    ContentBlock::Text { text: s(t) }
}

fn message(role: Role, content: Vec<ContentBlock>) -> Message {
    Message { id: s("m"), role, content, has_image: false }
}

fn options() -> GenerateOptions {
    GenerateOptions {
        model: s("deepseek-chat"),
        system: None,
        messages: vec![],
        tools: None,
        reasoning_effort: None,
        temperature_bits: None,
        max_tokens: None,
        stop: None,
        purpose: None,
        session_id: None,
    }
}

fn defaults(thinking: Option<&str>, effort: Option<&str>) -> RequestDefaults {
    RequestDefaults {
        thinking: thinking.map(str::to_string),
        reasoning_effort: effort.map(str::to_string),
    }
}

#[test]
fn messages_keep_their_order_and_roles() {
    let call = ContentBlock::ToolCall { id: s("c"), name: s("bash"), arguments: s("{}") };
    let wire = serialize_messages(&vec![
        message(Role::System, vec![text("be"), text(" brief")]),
        message(Role::User, vec![text("hi")]),
        message(
            Role::Assistant,
            vec![ContentBlock::Reasoning { text: s("hm") }, text("ok"), call],
        ),
        message(
            Role::User,
            vec![
                ContentBlock::ToolResult {
                    tool_call_id: s("c"),
                    is_error: None,
                    content: vec![],
                },
                text("and"),
                ContentBlock::ToolResult {
                    tool_call_id: s("d"),
                    is_error: Some(true),
                    content: vec![text("out")],
                },
            ],
        ),
    ])
    .unwrap();
    assert_eq!(
        wire,
        vec![
            WireMessage::System { content: s("be brief") },
            WireMessage::User { content: s("hi") },
            WireMessage::Assistant {
                content: s("ok"),
                reasoning_content: Some(s("hm")),
                tool_calls: Some(vec![WireToolCall {
                    id: s("c"),
                    kind: s("function"),
                    function: WireFunctionCall { name: s("bash"), arguments: s("{}") },
                }]),
            },
            WireMessage::User { content: s("and") },
            WireMessage::Tool { tool_call_id: s("c"), content: s("(no output)") },
            WireMessage::Tool { tool_call_id: s("d"), content: s("out") },
        ]
    );
}

#[test]
fn reasoning_rides_tool_calls_alone() {
    let wire = serialize_messages(&vec![message(
        Role::Assistant,
        vec![ContentBlock::Reasoning { text: s("hm") }, text("ok")],
    )])
    .unwrap();
    assert_eq!(
        wire,
        vec![WireMessage::Assistant {
            content: s("ok"),
            reasoning_content: None,
            tool_calls: None,
        }]
    );
}

#[test]
fn an_empty_user_message_is_still_sent() {
    let wire = serialize_messages(&vec![message(Role::User, vec![])]).unwrap();
    assert_eq!(wire, vec![WireMessage::User { content: s("") }]);
}

#[test]
fn images_are_refused() {
    let mut m = message(Role::User, vec![text("see"), ContentBlock::Other]);
    m.has_image = true;
    assert_eq!(
        serialize_messages(&vec![m]),
        Err(LlmError {
            message: s("The DeepSeek chat-completions adapter does not support image content."),
            code: s("UNSUPPORTED_CONTENT"),
        })
    );
}

#[test]
fn requests_stream_with_usage() {
    let mut o = options();
    o.system = Some(s("sys"));
    o.messages = vec![message(Role::User, vec![text("hi")])];
    o.tools = Some(vec![ToolSchema {
        name: s("bash"),
        description: s("run"),
        parameters: vec![(s("type"), Json::Text(s("object")))],
    }]);
    o.temperature_bits = Some(0.5f64.to_bits());
    o.max_tokens = Some(9);
    o.stop = Some(vec![s("END")]);
    let r = serialize_request(&o, &RequestDefaults::default()).unwrap();
    assert_eq!(r.model, "deepseek-chat");
    assert!(r.stream);
    assert!(r.stream_options.include_usage);
    assert_eq!(
        r.messages,
        vec![
            WireMessage::System { content: s("sys") },
            WireMessage::User { content: s("hi") },
        ]
    );
    let tools = r.tools.unwrap();
    assert_eq!(tools.len(), 1);
    assert_eq!(tools[0].kind, "function");
    assert_eq!(tools[0].function.parameters, vec![(s("type"), Json::Text(s("object")))]);
    assert_eq!(r.temperature_bits, Some(0.5f64.to_bits()));
    assert_eq!(r.max_tokens, Some(9));
    assert_eq!(r.stop, Some(vec![s("END")]));
    assert!(r.thinking.is_none());
    assert_eq!(r.verify_tee, None);
    o.tools = Some(vec![]);
    assert!(serialize_request(&o, &RequestDefaults::default()).unwrap().tools.is_none());
}

fn thinking(
    o: &GenerateOptions,
    d: &RequestDefaults,
) -> Result<(Option<String>, Option<String>), LlmError> {
    serialize_request(o, d).map(|r| (r.thinking.map(|t| t.kind), r.reasoning_effort))
}

#[test]
fn titles_do_not_think() {
    let mut o = options();
    o.purpose = Some(CallPurpose::SessionTitle);
    o.reasoning_effort = Some(s("max"));
    assert_eq!(
        thinking(&o, &defaults(Some("enabled"), None)),
        Ok((Some(s("disabled")), None))
    );
}

#[test]
fn efforts_resolve_to_one_legal_pair() {
    let mut o = options();
    assert_eq!(thinking(&o, &defaults(None, None)), Ok((None, None)));
    assert_eq!(
        thinking(&o, &defaults(Some("enabled"), None)),
        Ok((Some(s("enabled")), None))
    );
    assert_eq!(
        thinking(&o, &defaults(None, Some("max"))),
        Ok((Some(s("enabled")), Some(s("max"))))
    );
    o.reasoning_effort = Some(s("off"));
    assert_eq!(
        thinking(&o, &defaults(Some("enabled"), Some("max"))),
        Ok((Some(s("disabled")), None))
    );
    o.reasoning_effort = Some(s("high"));
    assert_eq!(
        thinking(&o, &defaults(None, None)),
        Ok((Some(s("enabled")), Some(s("high"))))
    );
}

#[test]
fn unsupported_efforts_are_errors() {
    let mut o = options();
    o.reasoning_effort = Some(s("low"));
    assert_eq!(
        thinking(&o, &defaults(None, None)),
        Err(LlmError {
            message: s("DeepSeek does not support reasoning effort \"low\""),
            code: s("UNSUPPORTED_REASONING_EFFORT"),
        })
    );
    o.reasoning_effort = Some(s("high"));
    assert_eq!(
        thinking(&o, &defaults(Some("disabled"), None)),
        Err(LlmError {
            message: s("DeepSeek deployment does not support reasoning effort \"high\""),
            code: s("UNSUPPORTED_REASONING_EFFORT"),
        })
    );
    o.reasoning_effort = None;
    assert_eq!(
        thinking(&o, &defaults(Some("disabled"), Some("off"))),
        Ok((Some(s("disabled")), None))
    );
}
