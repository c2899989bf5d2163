use keel_dsh::bridge::{flatten_text_capped, map_tool_call, tool_card};
use keel_dsh::chat::ContentBlock;
use keel_dsh::json::{parse_json, Json};
use keel_dsh::proto::ToolCall;

#[test]
fn dsh_tool_names_map_to_typed_cards() {
    assert!(matches!(
        map_tool_call("bash", r#"{"command":"ls -la"}"#),
        ToolCall::Exec { command } if command == "ls -la"
    ));
    assert!(matches!(
        map_tool_call("read", r#"{"file_path":"/tmp/a.rs"}"#),
        ToolCall::ReadFile { path } if path == "/tmp/a.rs"
    ));
    assert!(matches!(
        map_tool_call("write", r#"{"file_path":"/tmp/a.rs","content":"x"}"#),
        ToolCall::WriteFile { path, content } if path == "/tmp/a.rs" && content.as_deref() == Some("x")
    ));
    assert!(matches!(
        map_tool_call("edit", r#"{"file_path":"/tmp/a.rs","old_string":"a","new_string":"b"}"#),
        ToolCall::EditFile { path, old_string, new_string }
            if path == "/tmp/a.rs" && old_string.as_deref() == Some("a")
                && new_string.as_deref() == Some("b")
    ));
    assert!(matches!(
        map_tool_call("read_file", r#"{"path":"/tmp/b.rs"}"#),
        ToolCall::ReadFile { path } if path == "/tmp/b.rs"
    ));
    assert!(matches!(
        map_tool_call("glob", r#"{"pattern":"**/*.rs"}"#),
        ToolCall::Glob { pattern } if pattern == "**/*.rs"
    ));
    assert!(matches!(
        map_tool_call("grep", r#"{"pattern":"fn main","path":"src"}"#),
        ToolCall::Search { pattern, path }
            if pattern == "fn main" && path.as_deref() == Some("src")
    ));
}

#[test]
fn unknown_names_and_malformed_arguments_degrade_safely() {
    assert!(matches!(
        map_tool_call("some_plugin_tool", r#"{"a":1}"#),
        ToolCall::Unknown { name, .. } if name == "some_plugin_tool"
    ));
    assert!(matches!(
        map_tool_call("bash", "not json"),
        ToolCall::Exec { command } if command == "not json"
    ));
}

#[test]
fn unknown_tools_show_their_decoded_input() {
    assert_eq!(
        map_tool_call("plugin", r#"{"a":1}"#),
        ToolCall::Unknown {
            name: "plugin".to_string(),
            input: Some(Json::Object(vec![("a".to_string(), Json::Number("1".to_string()))])),
        }
    );
    assert_eq!(
        map_tool_call("plugin", "null"),
        ToolCall::Unknown { name: "plugin".to_string(), input: None }
    );
    assert_eq!(
        map_tool_call("plugin", "{"),
        ToolCall::Unknown { name: "plugin".to_string(), input: None }
    );
}

#[test]
fn file_path_goes_before_path() {
    let args = parse_json(r#"{"path":"/b","file_path":"/a"}"#).unwrap();
    assert_eq!(
        tool_card("read", "ignored", &args),
        ToolCall::ReadFile { path: "/a".to_string() }
    );
    let args = parse_json(r#"{"path":"/b","file_path":7}"#).unwrap();
    assert_eq!(
        tool_card("write_file", "ignored", &args),
        ToolCall::WriteFile { path: "/b".to_string(), content: None }
    );
    assert_eq!(
        tool_card("str_replace_editor", "ignored", &Json::Null),
        ToolCall::EditFile { path: String::new(), old_string: None, new_string: None }
    );
}

#[test]
fn shells_without_a_command_show_the_raw_arguments() {
    assert_eq!(
        map_tool_call("shell", r#"{"cmd":"ls"}"#),
        ToolCall::Exec { command: r#"{"cmd":"ls"}"#.to_string() }
    );
}

#[test]
fn documents_decode_to_plain_values() {
    assert_eq!(parse_json("  true "), Some(Json::Bool(true)));
    assert_eq!(
        parse_json(r#"[1.5,"x",null,{"b":false,"a":-2}]"#),
        Some(Json::Array(vec![
            Json::Number("1.5".to_string()),
            Json::Text("x".to_string()),
            Json::Null,
            Json::Object(vec![
                ("a".to_string(), Json::Number("-2".to_string())),
                ("b".to_string(), Json::Bool(false)),
            ]),
        ]))
    );
    assert_eq!(parse_json("{"), None);
    assert_eq!(parse_json(""), None);
}

fn text(s: &str) -> ContentBlock {
    ContentBlock::Text { text: s.to_string() }
}

#[test]
fn tool_output_is_cut_by_bytes_and_characters() {
    assert_eq!(flatten_text_capped(&vec![], 4), None);
    assert_eq!(flatten_text_capped(&vec![ContentBlock::Other, text("")], 4), None);
    assert_eq!(
        flatten_text_capped(&vec![text("ab"), ContentBlock::Other, text("cd")], 4),
        Some("abcd".to_string())
    );
    assert_eq!(flatten_text_capped(&vec![text("abcde")], 4), Some("abcd…".to_string()));
    // Three characters of two bytes each are over a cap of four bytes, yet under four
    // characters: nothing is cut and the mark is still put.
    assert_eq!(flatten_text_capped(&vec![text("ééé")], 4), Some("ééé…".to_string()));
    assert_eq!(flatten_text_capped(&vec![text("éé")], 4), Some("éé".to_string()));
}
