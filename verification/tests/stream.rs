use keel_dsh::chat::{
    BlockType, ContentBlock, FinishReason, LlmError, LlmFailure, StreamChunk, TokenUsage,
};
use keel_dsh::translate::{finish_under, map_finish_reason, map_usage, Translator};
use keel_dsh::wire::{
    WireChoice, WireChunk, WireCompletionDetails, WireDelta, WireFunctionDelta, WirePromptDetails,
    WireToolCallDelta, WireUsage,
};

fn s(text: &str) -> String {
    text.to_string()
}

fn payload(delta: WireDelta, finish_reason: Option<&str>) -> WireChunk {
    WireChunk {
        choices: vec![WireChoice {
            delta: Some(delta),
            finish_reason: finish_reason.map(str::to_string),
        }],
        usage: None,
    }
}

fn content(text: &str) -> WireDelta {
    WireDelta { content: Some(s(text)), ..WireDelta::default() }
}

fn reasoning(text: &str) -> WireDelta {
    WireDelta { reasoning_content: Some(s(text)), ..WireDelta::default() }
}

fn call(index: u64, id: Option<&str>, name: Option<&str>, arguments: &str) -> WireDelta {
    WireDelta {
        tool_calls: vec![WireToolCallDelta {
            index,
            id: id.map(str::to_string),
            function: Some(WireFunctionDelta {
                name: name.map(str::to_string),
                arguments: Some(s(arguments)),
            }),
        }],
        ..WireDelta::default()
    }
}

#[test]
fn content_counts_as_terminal_progress() {
    let mut translator = Translator::new();
    assert!(!translator.has_terminal_progress());
    translator
        .feed(
            r#"{"choices":[{"delta":{"content":"hi"}}]}"#,
            Some(&payload(content("hi"), None)),
        )
        .unwrap();
    assert!(translator.has_terminal_progress());
}

#[test]
fn an_empty_first_reasoning_delta_opens_nothing() {
    let mut t = Translator::default();
    assert_eq!(t.feed("", Some(&payload(reasoning(""), None))).unwrap(), vec![]);
    assert!(!t.has_terminal_progress());
    t.feed("", Some(&payload(WireDelta::default(), Some("stop")))).unwrap();
    assert!(t.has_terminal_progress());
}

#[test]
fn blocks_are_numbered_in_order_and_end_with_their_deltas() {
    let mut t = Translator::new();
    let mut out = vec![];
    out.extend(t.feed("", Some(&payload(reasoning("think"), None))).unwrap());
    out.extend(t.feed("", Some(&payload(content("he"), None))).unwrap());
    out.extend(t.feed("", Some(&payload(content("llo"), None))).unwrap());
    out.extend(t.feed("", Some(&payload(call(0, Some("c1"), Some("bash"), "{\"a\""), None))).unwrap());
    out.extend(t.feed("", Some(&payload(call(0, None, None, ":1}"), Some("tool_calls")))).unwrap());
    assert_eq!(
        out,
        vec![
            StreamChunk::BlockStart { index: 0, block_type: BlockType::Reasoning },
            StreamChunk::ReasoningDelta { index: 0, text: s("think") },
            StreamChunk::BlockStart { index: 1, block_type: BlockType::Text },
            StreamChunk::TextDelta { index: 1, text: s("he") },
            StreamChunk::TextDelta { index: 1, text: s("llo") },
            StreamChunk::BlockStart { index: 2, block_type: BlockType::ToolCall },
            StreamChunk::ToolCallDelta {
                index: 2,
                id: s("c1"),
                name: Some(s("bash")),
                arguments_delta: s("{\"a\""),
            },
            StreamChunk::ToolCallDelta {
                index: 2,
                id: s("c1"),
                name: Some(s("bash")),
                arguments_delta: s(":1}"),
            },
        ]
    );
    assert_eq!(
        t.done(),
        vec![
            StreamChunk::BlockEnd {
                index: 0,
                block: ContentBlock::Reasoning { text: s("think") },
            },
            StreamChunk::BlockEnd { index: 1, block: ContentBlock::Text { text: s("hello") } },
            StreamChunk::BlockEnd {
                index: 2,
                block: ContentBlock::ToolCall {
                    id: s("c1"),
                    name: s("bash"),
                    arguments: s("{\"a\":1}"),
                },
            },
            StreamChunk::Finish { reason: FinishReason::ToolCalls },
        ]
    );
}

#[test]
fn the_latest_usage_rides_before_the_finish() {
    let mut t = Translator::new();
    t.feed("", Some(&payload(content("x"), Some("length")))).unwrap();
    let usage = |n| WireChunk {
        choices: vec![],
        usage: Some(WireUsage { prompt_tokens: n, completion_tokens: 1, ..WireUsage::default() }),
    };
    t.feed("", Some(&usage(5))).unwrap();
    t.feed("", Some(&usage(9))).unwrap();
    let out = t.done();
    assert_eq!(out.len(), 3);
    assert!(matches!(&out[1], StreamChunk::Usage { usage } if usage.input_tokens == 9));
    assert_eq!(out[2], StreamChunk::Finish { reason: FinishReason::MaxTokens });
}

#[test]
fn an_empty_answer_is_an_error() {
    let empty = StreamChunk::Finish {
        reason: FinishReason::Error {
            failure: LlmFailure {
                message: s("model returned a completed response with no content"),
                code: s("EMPTY_RESPONSE"),
            },
        },
    };
    assert_eq!(Translator::new().done(), vec![empty]);
    let mut t = Translator::new();
    t.feed("", Some(&payload(content("x"), None))).unwrap();
    assert_eq!(
        t.done().pop(),
        Some(StreamChunk::Finish { reason: FinishReason::Stop })
    );
}

#[test]
fn malformed_payloads_are_quoted_in_part() {
    let mut t = Translator::new();
    let long = "é".repeat(200);
    assert_eq!(
        t.feed(&long, None),
        Err(LlmError {
            message: format!("malformed SSE payload: {}", "é".repeat(120)),
            code: s("MALFORMED_RESPONSE"),
        })
    );
    assert!(!t.has_terminal_progress());
}

#[test]
fn finish_reasons_map_and_unknown_ones_are_errors() {
    assert_eq!(map_finish_reason("stop"), FinishReason::Stop);
    assert_eq!(map_finish_reason("tool_calls"), FinishReason::ToolCalls);
    assert_eq!(map_finish_reason("length"), FinishReason::MaxTokens);
    assert_eq!(
        map_finish_reason("content_filter"),
        FinishReason::Error {
            failure: LlmFailure {
                message: s("model stopped: content_filter"),
                code: s("CONTENT_FILTER"),
            },
        }
    );
    assert_eq!(
        finish_under("x", s("Y")),
        FinishReason::Error {
            failure: LlmFailure { message: s("model stopped: x"), code: s("Y") },
        }
    );
}

#[test]
fn cache_hits_are_taken_out_of_the_input() {
    let mut usage = WireUsage {
        prompt_tokens: 10,
        completion_tokens: 4,
        prompt_cache_hit_tokens: Some(3),
        prompt_tokens_details: None,
        completion_tokens_details: Some(WireCompletionDetails { reasoning_tokens: Some(2) }),
    };
    assert_eq!(
        map_usage(&usage),
        TokenUsage {
            input_tokens: 7,
            output_tokens: 4,
            cache_read_tokens: Some(3),
            cache_write_tokens: None,
            reasoning_tokens: Some(2),
        }
    );
    usage.prompt_tokens_details = Some(WirePromptDetails { cached_tokens: Some(25) });
    assert_eq!(map_usage(&usage).input_tokens, 0);
    assert_eq!(map_usage(&usage).cache_read_tokens, Some(25));
}

#[test]
fn each_wire_index_has_its_own_block_and_keeps_the_last_id_and_name() {
    let mut t = Translator::new();
    let mut out = vec![];
    out.extend(t.feed("", Some(&payload(call(4, Some("a"), Some("read"), "1"), None))).unwrap());
    out.extend(t.feed("", Some(&payload(call(2, Some("b"), None, "2"), Some("stop")))).unwrap());
    out.extend(t.feed("", Some(&payload(call(4, Some("c"), Some("bash"), "3"), None))).unwrap());
    out.extend(t.feed("", Some(&payload(WireDelta::default(), Some("tool_calls")))).unwrap());
    let begun: Vec<u64> = out
        .iter()
        .filter_map(|c| match c {
            StreamChunk::BlockStart { index, block_type: BlockType::ToolCall } => Some(*index),
            _ => None,
        })
        .collect();
    assert_eq!(begun, vec![0, 1]);
    assert_eq!(
        t.done(),
        vec![
            StreamChunk::BlockEnd {
                index: 0,
                block: ContentBlock::ToolCall { id: s("c"), name: s("bash"), arguments: s("13") },
            },
            StreamChunk::BlockEnd {
                index: 1,
                block: ContentBlock::ToolCall { id: s("b"), name: s(""), arguments: s("2") },
            },
            StreamChunk::Finish { reason: FinishReason::ToolCalls },
        ]
    );
}

#[test]
fn reasoning_starts_before_text_within_a_choice() {
    let mut t = Translator::new();
    let both = WireDelta {
        content: Some(s("answer")),
        reasoning_content: Some(s("thought")),
        tool_calls: vec![],
    };
    assert_eq!(
        t.feed("", Some(&payload(both, None))).unwrap(),
        vec![
            StreamChunk::BlockStart { index: 0, block_type: BlockType::Reasoning },
            StreamChunk::ReasoningDelta { index: 0, text: s("thought") },
            StreamChunk::BlockStart { index: 1, block_type: BlockType::Text },
            StreamChunk::TextDelta { index: 1, text: s("answer") },
        ]
    );
}
