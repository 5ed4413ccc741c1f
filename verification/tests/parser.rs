use backend::domain::{RenderedEntry, RenderedEntryKind};
use backend::jsonl::{parse_bytes, parse_str};
use serde_json::Value;

fn object(fields: Vec<(&str, Value)>) -> Value {
    let mut map = serde_json::Map::new();
    for (key, value) in fields {
        map.insert(key.to_owned(), value);
    }
    Value::Object(map)
}

fn text(s: &str) -> Value {
    Value::String(s.to_owned())
}

fn event_user_message_line(message: &str) -> String {
    object(vec![
        ("type", text("event_msg")),
        (
            "payload",
            object(vec![("type", text("user_message")), ("message", text(message))]),
        ),
    ])
    .to_string()
}

fn response_user_message_line(content: &str) -> String {
    response_message_line("user", content)
}

fn event_agent_message_line(message: &str) -> String {
    object(vec![
        ("type", text("event_msg")),
        (
            "payload",
            object(vec![("type", text("agent_message")), ("message", text(message))]),
        ),
    ])
    .to_string()
}

fn response_message_line(role: &str, content: &str) -> String {
    object(vec![
        ("type", text("response_item")),
        (
            "payload",
            object(vec![
                ("type", text("message")),
                ("role", text(role)),
                ("content", text(content)),
            ]),
        ),
    ])
    .to_string()
}

fn response_item_line(payload_type: &str, fields: Vec<(&str, Value)>) -> String {
    let mut payload = vec![("type", text(payload_type))];
    payload.extend(fields);
    object(vec![("type", text("response_item")), ("payload", object(payload))]).to_string()
}

fn entry(kind: RenderedEntryKind, content: &str) -> RenderedEntry {
    RenderedEntry {
        kind,
        content: content.to_owned(),
    }
}

#[test]
fn parses_event_msg_user_message_from_string() {
    let parsed = parse_str(
        r#"{"type":"event_msg","payload":{"type":"user_message","message":"hello"}}"#,
    );

    assert_eq!(parsed.malformed_lines, 0);
    assert_eq!(parsed.ignored_lines, 0);
    assert_eq!(parsed.parsed_candidates, 1);
    assert_eq!(parsed.entries, vec![entry(RenderedEntryKind::You, "hello")]);
}

#[test]
fn parses_response_item_assistant_message_from_reader() {
    let input = r#"{"type":"response_item","payload":{"type":"message","role":"assistant","content":[{"type":"output_text","text":"hi from codex"}]}}"#;

    let parsed = parse_bytes(input.as_bytes());

    assert_eq!(parsed.parsed_candidates, 1);
    assert_eq!(parsed.entries, vec![entry(RenderedEntryKind::Codex, "hi from codex")]);
}

#[test]
fn event_msg_agent_message_is_codex() {
    let parsed = parse_str(&event_agent_message_line("I can help with that."));

    assert_eq!(
        parsed.entries,
        vec![entry(RenderedEntryKind::Codex, "I can help with that.")]
    );
}

#[test]
fn response_item_assistant_message_is_codex() {
    let parsed = parse_str(&response_message_line("assistant", "Assistant response"));

    assert_eq!(
        parsed.entries,
        vec![entry(RenderedEntryKind::Codex, "Assistant response")]
    );
}

#[test]
fn response_item_model_message_is_codex() {
    let parsed = parse_str(&response_message_line("model", "Model response"));

    assert_eq!(parsed.entries, vec![entry(RenderedEntryKind::Codex, "Model response")]);
}

#[test]
fn response_item_system_message_is_system() {
    let parsed = parse_str(&response_message_line("system", "System message"));

    assert_eq!(parsed.entries, vec![entry(RenderedEntryKind::System, "System message")]);
}

#[test]
fn developer_messages_remain_ignored() {
    let parsed = parse_str(&response_message_line("developer", "Developer instruction"));

    assert_eq!(parsed.ignored_lines, 1);
    assert_eq!(parsed.parsed_candidates, 0);
    assert!(parsed.entries.is_empty());
}

#[test]
fn response_item_function_call_is_tool_call() {
    let parsed = parse_str(&response_item_line(
        "function_call",
        vec![
            ("name", text("read_file")),
            ("arguments", text("{\"path\":\"README.md\"}")),
        ],
    ));

    assert_eq!(parsed.entries.len(), 1);
    assert_eq!(parsed.entries[0].kind, RenderedEntryKind::ToolCall);
    assert_eq!(
        parsed.entries[0].content,
        "Function call: read_file\n{\"path\":\"README.md\"}"
    );
}

#[test]
fn response_item_custom_tool_call_is_tool_call() {
    let parsed = parse_str(&response_item_line(
        "custom_tool_call",
        vec![("name", text("shell_command")), ("input", text("cargo test"))],
    ));

    assert_eq!(
        parsed.entries,
        vec![entry(
            RenderedEntryKind::ToolCall,
            "Custom tool call: shell_command\ncargo test"
        )]
    );
}

#[test]
fn response_item_function_call_output_is_tool_result() {
    let parsed = parse_str(&response_item_line(
        "function_call_output",
        vec![("call_id", text("call_1")), ("output", text("file contents"))],
    ));

    assert_eq!(
        parsed.entries,
        vec![entry(RenderedEntryKind::ToolResult, "file contents")]
    );
}

#[test]
fn response_item_custom_tool_call_output_is_tool_result() {
    let parsed = parse_str(&response_item_line(
        "custom_tool_call_output",
        vec![
            ("call_id", text("call_2")),
            (
                "content",
                Value::Array(vec![object(vec![("text", text("command output"))])]),
            ),
        ],
    ));

    assert_eq!(
        parsed.entries,
        vec![entry(RenderedEntryKind::ToolResult, "command output")]
    );
}

#[test]
fn observed_event_counts_include_tool_lines() {
    let parsed = parse_str(
        &[
            response_item_line("function_call", vec![("name", text("read_file"))]),
            response_item_line("custom_tool_call_output", vec![("output", text("done"))]),
        ]
        .join("\n"),
    );

    assert_eq!(parsed.observed_event_counts["response_item/function_call"], 1);
    assert_eq!(
        parsed.observed_event_counts["response_item/custom_tool_call_output"],
        1
    );
}

#[test]
fn incomplete_or_unsupported_tool_payloads_are_ignored_safely() {
    let parsed = parse_str(
        &[
            response_item_line("function_call", vec![("arguments", text("{}"))]),
            response_item_line("custom_tool_call_output", vec![]),
            response_item_line("unsupported_tool", vec![("name", text("noop"))]),
        ]
        .join("\n"),
    );

    assert_eq!(parsed.malformed_lines, 0);
    assert_eq!(parsed.ignored_lines, 3);
    assert_eq!(parsed.parsed_candidates, 0);
    assert!(parsed.entries.is_empty());
}

#[test]
fn counts_malformed_non_empty_lines_and_continues() {
    let parsed = parse_str(
        "\nnot json\n{\"type\":\"event_msg\",\"payload\":{\"type\":\"user_message\",\"message\":\"still parsed\"}}\n{",
    );

    assert_eq!(parsed.malformed_lines, 2);
    assert_eq!(parsed.ignored_lines, 0);
    assert_eq!(parsed.parsed_candidates, 1);
    assert_eq!(parsed.entries[0].content, "still parsed");
}

#[test]
fn counts_ignored_valid_json_lines_once() {
    let parsed = parse_str(
        "{\"type\":\"event_msg\",\"payload\":{\"type\":\"unknown\",\"message\":\"ignored\"}}\n{\"type\":\"response_item\",\"payload\":{\"type\":\"message\",\"role\":\"developer\",\"content\":\"ignored\"}}",
    );

    assert_eq!(parsed.malformed_lines, 0);
    assert_eq!(parsed.ignored_lines, 2);
    assert_eq!(parsed.parsed_candidates, 0);
    assert!(parsed.entries.is_empty());
}

#[test]
fn collects_observed_event_counts_for_valid_json_only() {
    let parsed = parse_str(
        "{\"type\":\"event_msg\",\"payload\":{\"type\":\"user_message\",\"message\":\"one\"}}\n{\"type\":\"event_msg\",\"payload\":{\"type\":\"user_message\",\"message\":\"two\"}}\n{\"payload\":{\"type\":\"payload_only\"}}\n{\"type\":\"top_only\",\"payload\":{}}\n{\"payload\":{}}\nnot json",
    );

    assert_eq!(parsed.malformed_lines, 1);
    assert_eq!(parsed.observed_event_counts["event_msg/user_message"], 2);
    assert_eq!(parsed.observed_event_counts["payload_only"], 1);
    assert_eq!(parsed.observed_event_counts["top_only"], 1);
    assert_eq!(parsed.observed_event_counts["unknown"], 1);
}

#[test]
fn empty_trimmed_lines_are_not_ignored_or_malformed() {
    let parsed = parse_str("\n  \n\t\n");

    assert_eq!(parsed.malformed_lines, 0);
    assert_eq!(parsed.ignored_lines, 0);
    assert_eq!(parsed.parsed_candidates, 0);
    assert!(parsed.entries.is_empty());
    assert!(parsed.observed_event_counts.is_empty());
}

#[test]
fn classifies_agents_instructions_as_context_summary() {
    let parsed = parse_str(&event_user_message_line(
        "# AGENTS.md instructions\n<INSTRUCTIONS>observe</INSTRUCTIONS>",
    ));

    assert_eq!(
        parsed.entries,
        vec![entry(
            RenderedEntryKind::Context,
            "AGENTS.md project instructions loaded"
        )]
    );
}

#[test]
fn classifies_structured_task_body_as_task_summary() {
    let parsed = parse_str(&response_user_message_line(
        "<environment_context>local</environment_context>\nBuild this",
    ));

    assert_eq!(
        parsed.entries,
        vec![entry(
            RenderedEntryKind::Task,
            "Task or prompt instructions loaded"
        )]
    );
}

#[test]
fn classifies_ordinary_human_prompt_as_you() {
    let parsed = parse_str(&event_user_message_line(
        "Can you explain how this parser handles malformed JSONL?",
    ));

    assert_eq!(
        parsed.entries,
        vec![entry(
            RenderedEntryKind::You,
            "Can you explain how this parser handles malformed JSONL?"
        )]
    );
}

#[test]
fn long_ordinary_human_prompt_stays_you() {
    let prompt = "Please review this parser behavior carefully. ".repeat(80);
    let parsed = parse_str(&response_user_message_line(&prompt));

    assert_eq!(parsed.entries.len(), 1);
    assert_eq!(parsed.entries[0].kind, RenderedEntryKind::You);
    assert_eq!(parsed.entries[0].content, prompt.trim());
}

#[test]
fn korean_utf8_user_message_stays_intact() {
    let message = "\u{c548}\u{b155}\u{d558}\u{c138}\u{c694}. JSONL \u{d30c}\u{c11c}\u{b97c} \u{d655}\u{c778}\u{d574} \u{c8fc}\u{c138}\u{c694}.";
    let parsed = parse_str(&event_user_message_line(message));

    assert_eq!(parsed.entries, vec![entry(RenderedEntryKind::You, message)]);
}

#[test]
fn preserves_unicode_message_content() {
    let parsed = parse_str(&response_message_line(
        "assistant",
        "\u{c548}\u{b155}\u{d558}\u{c138}\u{c694}",
    ));

    assert_eq!(
        parsed.entries[0],
        entry(RenderedEntryKind::Codex, "\u{c548}\u{b155}\u{d558}\u{c138}\u{c694}")
    );
}

#[test]
fn lossy_reader_replaces_invalid_utf8_without_counting_as_io_error() {
    let input = vec![
        b'{', b'"', b't', b'y', b'p', b'e', b'"', b':', b'"', b'e', b'v', b'e', b'n', b't',
        b'_', b'm', b's', b'g', b'"', b',', b'"', b'p', b'a', b'y', b'l', b'o', b'a', b'd',
        b'"', b':', b'{', b'"', b't', b'y', b'p', b'e', b'"', b':', b'"', b'u', b's', b'e',
        b'r', b'_', b'm', b'e', b's', b's', b'a', b'g', b'e', b'"', b',', b'"', b'm', b'e',
        b's', b's', b'a', b'g', b'e', b'"', b':', b'"', 0xff, b'"', b'}', b'}',
    ];

    let parsed = parse_bytes(&input);

    assert_eq!(parsed.malformed_lines, 0);
    assert_eq!(parsed.entries[0].content, "\u{fffd}");
}
