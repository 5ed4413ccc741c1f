//! Edge cases of reading logs, projecting them and answering requests.

use std::io;

use backend::api::{
    parse_for_transport, parse_read, parse_selected_file, EntryKindDto, FilterDto, LoadedFileMetadataDto,
    ParseBoundaryRequest, ParseRequestDto,
};
use backend::domain::{ChatEntryFilter, ParsedChatLog, RenderedEntry, RenderedEntryKind};
use backend::jsonl::parse_str;
use backend::session::detect_session_id;
use backend::start_dir::{initial_directory_candidates, pick_initial_directory};

fn tool_line(payload_type: &str, fields: &str) -> String {
    format!("{{\"type\":\"response_item\",\"payload\":{{\"type\":\"{payload_type}\"{fields}}}}}")
}

fn only_entry(input: &str) -> RenderedEntry {
    let parsed = parse_str(input);
    assert_eq!(parsed.entries.len(), 1, "one entry expected from {input}");
    parsed.entries[0].clone()
}

#[test]
fn object_arguments_are_shown_as_compact_json() {
    let e = only_entry(&tool_line(
        "function_call",
        ",\"name\":\"f\",\"arguments\":{ \"path\" : \"a.txt\" }",
    ));
    assert_eq!(e.kind, RenderedEntryKind::ToolCall);
    assert_eq!(e.content, "Function call: f\n{\"path\":\"a.txt\"}");
}

#[test]
fn array_arguments_are_shown_as_compact_json() {
    let e = only_entry(&tool_line("function_call", ",\"name\":\"f\",\"arguments\":[1, \"x\"]"));
    assert_eq!(e.content, "Function call: f\n[1,\"x\"]");
}

#[test]
fn nested_arguments_are_rendered_from_one_reading_of_the_line() {
    let e = only_entry(&tool_line(
        "function_call",
        ",\"name\":\"f\",\"arguments\":{ \"xs\" : [ 1 , 2.5e0 , -0.125 , { \"y\" : null } ] }",
    ));
    assert_eq!(e.content, "Function call: f\n{\"xs\":[1,2.5,-0.125,{\"y\":null}]}");
}

#[test]
fn blank_or_scalar_arguments_add_nothing() {
    let blank = only_entry(&tool_line("function_call", ",\"name\":\"f\",\"arguments\":\"   \""));
    assert_eq!(blank.content, "Function call: f");
    let number = only_entry(&tool_line(
        "function_call",
        ",\"name\":\"f\",\"arguments\":7,\"input\":\"ignored\"",
    ));
    assert_eq!(number.content, "Function call: f");
}

#[test]
fn tool_call_name_falls_back_to_call_id_then_id() {
    let by_call_id = only_entry(&tool_line("custom_tool_call", ",\"call_id\":\"c1\",\"id\":\"i1\""));
    assert_eq!(by_call_id.content, "Custom tool call: c1");
    let by_id = only_entry(&tool_line("custom_tool_call", ",\"name\":3,\"id\":\"i1\""));
    assert_eq!(by_id.content, "Custom tool call: i1");
}

#[test]
fn tool_call_without_input_uses_payload_text() {
    let e = only_entry(&tool_line(
        "custom_tool_call",
        ",\"name\":\"n\",\"input\":\"  \",\"content\":\" body \"",
    ));
    assert_eq!(e.content, "Custom tool call: n\n body ");
}

#[test]
fn tool_result_without_text_names_the_call() {
    let e = only_entry(&tool_line("custom_tool_call_output", ",\"call_id\":\"c9\""));
    assert_eq!(e.kind, RenderedEntryKind::ToolResult);
    assert_eq!(e.content, "Custom tool call output: c9");
}

#[test]
fn blank_tool_output_is_ignored() {
    let parsed = parse_str(&tool_line("function_call_output", ",\"output\":\" \\n \""));
    assert!(parsed.entries.is_empty());
    assert_eq!(parsed.ignored_lines, 1);
}

#[test]
fn tool_role_message_is_tool_result() {
    let e = only_entry("{\"type\":\"response_item\",\"payload\":{\"type\":\"message\",\"role\":\"tool\",\"content\":\" done \"}}");
    assert_eq!(e.kind, RenderedEntryKind::ToolResult);
    assert_eq!(e.content, "done");
}

#[test]
fn nested_text_is_joined_by_newlines() {
    let e = only_entry("{\"type\":\"response_item\",\"payload\":{\"type\":\"message\",\"role\":\"assistant\",\"content\":[{\"content\":[{\"text\":\"a\"},{\"value\":\"b\"}]},5,{\"other\":1},\"c\"]}}");
    assert_eq!(e.content, "a\nb\nc");
}

#[test]
fn object_text_prefers_text_member() {
    let e = only_entry("{\"type\":\"response_item\",\"payload\":{\"type\":\"message\",\"role\":\"assistant\",\"content\":{\"value\":\"v\",\"text\":\"t\"}}}");
    assert_eq!(e.content, "t");
}

#[test]
fn payload_text_prefers_content_over_output() {
    let e = only_entry(&tool_line(
        "function_call_output",
        ",\"output\":\"out\",\"content\":\"first\"",
    ));
    assert_eq!(e.content, "first");
}

#[test]
fn non_object_json_is_tallied_as_unknown() {
    let parsed = parse_str("42\n\"text\"\n[1]");
    assert_eq!(parsed.ignored_lines, 3);
    assert_eq!(parsed.malformed_lines, 0);
    assert_eq!(parsed.observed_event_counts["unknown"], 3);
}

#[test]
fn non_object_payload_is_tallied_by_top_type() {
    let parsed = parse_str("{\"type\":\"event_msg\",\"payload\":\"x\"}");
    assert_eq!(parsed.ignored_lines, 1);
    assert_eq!(parsed.observed_event_counts["event_msg"], 1);
}

#[test]
fn crlf_lines_are_read() {
    let parsed = parse_str("{\"type\":\"event_msg\",\"payload\":{\"type\":\"agent_message\",\"message\":\"x\"}}\r\n\r\nnot json\r\n");
    assert_eq!(parsed.entries.len(), 1);
    assert_eq!(parsed.malformed_lines, 1);
}

#[test]
fn agents_marker_wins_over_task_marker() {
    let e = only_entry("{\"type\":\"event_msg\",\"payload\":{\"type\":\"user_message\",\"message\":\"<task>t</task> <INSTRUCTIONS>\"}}");
    assert_eq!(e.kind, RenderedEntryKind::Context);
}

#[test]
fn blank_user_message_is_ignored() {
    let parsed = parse_str("{\"type\":\"event_msg\",\"payload\":{\"type\":\"user_message\",\"message\":\"\\t \"}}");
    assert!(parsed.entries.is_empty());
    assert_eq!(parsed.ignored_lines, 1);
}

#[test]
fn session_id_needs_word_boundaries() {
    assert_eq!(
        detect_session_id("E:\\logs\\x11111111-2222-3333-4444-555555555555.jsonl"),
        None
    );
    assert_eq!(
        detect_session_id("E:\\logs\\run-11111111-2222-3333-4444-555555555555_x.jsonl"),
        None
    );
    assert_eq!(
        detect_session_id("/home/u/.codex/sessions/AAAAAAAA-bbbb-CCCC-dddd-EEEEEEEEEEEE/log.jsonl")
            .as_deref(),
        Some("AAAAAAAA-bbbb-CCCC-dddd-EEEEEEEEEEEE")
    );
}

#[test]
fn parent_directory_component_has_no_file_name() {
    let m = LoadedFileMetadataDto::from_path(
        "E:\\x\\11111111-2222-3333-4444-555555555555\\..",
        Ok("E:\\x".to_owned()),
        Err(missing()),
    )
    .expect("resolved");
    assert_eq!(m.file_name, None);
    assert_eq!(
        m.session_id.as_deref(),
        Some("11111111-2222-3333-4444-555555555555")
    );
    assert_eq!(m.absolute_path, "E:\\x");
}

#[test]
fn drive_designator_is_not_a_file_name() {
    let m = metadata("E:");
    assert_eq!(m.file_name, None);
    let n = metadata("E:log.jsonl");
    assert_eq!(n.file_name.as_deref(), Some("log.jsonl"));
    let dotted = metadata("a/./b/.");
    assert_eq!(dotted.file_name.as_deref(), Some("b"));
}

fn request(filter: FilterDto) -> ParseRequestDto {
    ParseRequestDto {
        path: "E:\\sessions\\codex.jsonl".to_owned(),
        filter,
    }
}

/// What canonicalizing a file that does not exist reports.
fn missing() -> io::Error {
    io::Error::new(io::ErrorKind::NotFound, "not found")
}

/// The metadata of a path that cannot be canonicalized, under `C:\work`.
fn metadata(path: &str) -> LoadedFileMetadataDto {
    LoadedFileMetadataDto::from_path(path, Err(missing()), Ok("C:\\work".to_owned()))
        .expect("resolved")
}

#[test]
fn share_and_verbatim_prefixes_are_not_directories() {
    let uuid = "11111111-2222-3333-4444-555555555555";
    assert_eq!(detect_session_id(&format!("\\\\server\\{uuid}\\codex.jsonl")), None);
    assert_eq!(detect_session_id(&format!("//{uuid}/share/codex.jsonl")), None);
    assert_eq!(detect_session_id(&format!("\\\\?\\UNC\\srv\\{uuid}\\codex.jsonl")), None);
    assert_eq!(detect_session_id(&format!("\\\\?\\{uuid}\\codex.jsonl")), None);
    assert_eq!(detect_session_id(&format!("\\\\.\\{uuid}\\codex.jsonl")), None);
    assert_eq!(
        detect_session_id(&format!("\\\\?\\C:\\s\\{uuid}\\codex.jsonl")).as_deref(),
        Some(uuid)
    );
    assert_eq!(
        detect_session_id(&format!("\\\\server\\share\\{uuid}\\codex.jsonl")).as_deref(),
        Some(uuid)
    );
    // A leading pair of separators with no share after the server is no
    // prefix.
    assert_eq!(detect_session_id(&format!("\\\\{uuid}")).as_deref(), Some(uuid));
}

#[test]
fn verbatim_paths_keep_dots_and_slashes() {
    assert_eq!(metadata("\\\\?\\C:\\a\\.").file_name, None);
    assert_eq!(metadata("C:\\a\\.").file_name.as_deref(), Some("a"));
    assert_eq!(metadata("\\\\?\\C:\\a/b").file_name.as_deref(), Some("a/b"));
    assert_eq!(metadata("C:\\a/b").file_name.as_deref(), Some("b"));
}

#[test]
fn unresolved_paths_are_joined_onto_the_current_directory() {
    assert_eq!(metadata("logs\\x.jsonl").absolute_path, "C:\\work\\logs\\x.jsonl");
    assert_eq!(metadata("\\logs\\x.jsonl").absolute_path, "C:\\logs\\x.jsonl");
    assert_eq!(metadata("D:x.jsonl").absolute_path, "D:x.jsonl");
    assert_eq!(metadata("E:\\x.jsonl").absolute_path, "E:\\x.jsonl");
    let under = |cwd: &str, path: &str| {
        LoadedFileMetadataDto::from_path(path, Err(missing()), Ok(cwd.to_owned()))
            .expect("resolved")
            .absolute_path
    };
    assert_eq!(under("C:\\work\\", "x"), "C:\\work\\x");
    assert_eq!(under("C:", "x"), "C:x");
    assert_eq!(under("", "x"), "x");
    assert_eq!(under("\\\\?\\C:\\work", "a\\..\\b/c"), "\\\\?\\C:\\work\\b\\c");
    assert_eq!(under("\\\\?\\C:\\work", "\\top"), "\\\\?\\C:\\top");
}

#[test]
fn canonical_path_wins_and_a_missing_current_directory_is_an_error() {
    let m = LoadedFileMetadataDto::from_path(
        "x.jsonl",
        Ok("C:\\real\\x.jsonl".to_owned()),
        Err(missing()),
    )
    .expect("resolved");
    assert_eq!(m.absolute_path, "C:\\real\\x.jsonl");
    let e = LoadedFileMetadataDto::from_path(
        "x.jsonl",
        Err(missing()),
        Err(io::Error::new(io::ErrorKind::Other, "no current directory")),
    )
    .expect_err("unresolved");
    assert_eq!(e.to_string(), "no current directory");
}

#[test]
fn failed_path_resolution_is_an_error_answer() {
    let answer = parse_selected_file(
        ParseRequestDto {
            path: "codex.jsonl".to_owned(),
            filter: FilterDto::default(),
        },
        Err(missing()),
        Err(io::Error::new(io::ErrorKind::NotFound, "no current directory")),
        Ok(None),
    );
    let error = answer.expect_err("resolution failed");
    assert_eq!(error.error.code, "parse_file_failed");
    assert_eq!(error.error.message, "no current directory");
}

#[test]
fn failed_read_is_an_error_answer() {
    let answer = parse_selected_file(
        request(FilterDto::default()),
        Ok("E:\\sessions\\codex.jsonl".to_owned()),
        Err(missing()),
        Err(io::Error::new(io::ErrorKind::PermissionDenied, "denied")),
    );
    assert_eq!(answer.expect_err("read failed").error.message, "denied");
}

#[test]
fn missing_file_reads_as_empty_log() {
    let answer = parse_selected_file(
        request(FilterDto::default()),
        Ok("E:\\sessions\\codex.jsonl".to_owned()),
        Err(missing()),
        Ok(None),
    )
    .expect("answered");
    assert!(answer.parsed_chat_log.entries.is_empty());
    assert_eq!(answer.parsed_chat_log.counters.total_entries, 0);
    assert_eq!(answer.source.file_name.as_deref(), Some("codex.jsonl"));
}

#[test]
fn file_contents_are_read_and_filtered() {
    let bytes = b"{\"type\":\"event_msg\",\"payload\":{\"type\":\"user_message\",\"message\":\"hi\"}}\n{\"type\":\"event_msg\",\"payload\":{\"type\":\"agent_message\",\"message\":\"yo\"}}".to_vec();
    let answer = parse_selected_file(
        request(FilterDto {
            show_you: false,
            ..FilterDto::default()
        }),
        Ok("E:\\sessions\\codex.jsonl".to_owned()),
        Err(missing()),
        Ok(Some(bytes.clone())),
    )
    .expect("answered");
    assert_eq!(answer.parsed_chat_log.counters.total_entries, 2);
    assert_eq!(answer.parsed_chat_log.counters.visible_entries, 1);
    assert_eq!(answer.parsed_chat_log.entries[0].kind, EntryKindDto::Codex);
    assert_eq!(answer.parsed_chat_log.observed_event_counts[0].count, 1);

    let transported = parse_for_transport(
        ParseBoundaryRequest {
            path: "E:\\sessions\\codex.jsonl".to_owned(),
            filter: None,
        },
        Ok("E:\\sessions\\codex.jsonl".to_owned()),
        Err(missing()),
        Ok(Some(bytes)),
    )
    .expect("answered");
    assert_eq!(transported.parsed_chat_log.counters.visible_entries, 2);
}

#[test]
fn kinds_have_stable_names_and_labels() {
    let kinds = [
        (RenderedEntryKind::Context, EntryKindDto::Context, "context", "[CONTEXT]"),
        (RenderedEntryKind::Task, EntryKindDto::Task, "task", "[TASK]"),
        (RenderedEntryKind::You, EntryKindDto::You, "you", "[YOU]"),
        (RenderedEntryKind::Codex, EntryKindDto::Codex, "codex", "[CODEX]"),
        (RenderedEntryKind::ToolCall, EntryKindDto::ToolCall, "tool_call", "[TOOL CALL]"),
        (
            RenderedEntryKind::ToolResult,
            EntryKindDto::ToolResult,
            "tool_result",
            "[TOOL RESULT]",
        ),
        (RenderedEntryKind::System, EntryKindDto::System, "system", "[SYSTEM]"),
    ];
    for (kind, dto, name, label) in kinds {
        assert_eq!(EntryKindDto::from(kind), dto);
        assert_eq!(dto.as_str(), name);
        assert_eq!(kind.label(), label);
    }
}

#[test]
fn defaults_show_everything() {
    assert_eq!(ChatEntryFilter::default(), ChatEntryFilter::all());
    assert_eq!(FilterDto::default(), FilterDto::from(ChatEntryFilter::all()));
    let empty = ParsedChatLog::empty();
    assert!(empty.entries.is_empty());
    assert!(empty.observed_event_counts.is_empty());
    assert_eq!(empty.parsed_candidates + empty.ignored_lines + empty.malformed_lines, 0);
}

#[test]
fn picker_candidates_follow_remembered_codex_home_and_user_home() {
    let c = initial_directory_candidates(
        Some("D:\\logs".to_owned()),
        Some("C:\\codex".to_owned()),
        None,
        Some("C:\\Users\\me".to_owned()),
    );
    assert_eq!(
        c,
        vec![
            "D:\\logs".to_owned(),
            "C:\\codex\\sessions".to_owned(),
            "C:\\Users\\me\\.codex\\sessions".to_owned(),
            "C:\\Users\\me".to_owned(),
        ]
    );
    let blank = initial_directory_candidates(
        Some("  ".to_owned()),
        Some(String::new()),
        Some(String::new()),
        Some("C:\\home".to_owned()),
    );
    assert!(blank.is_empty(), "an empty USERPROFILE hides HOME: {blank:?}");
    let home_only = initial_directory_candidates(None, None, None, Some("/home/me/".to_owned()));
    assert_eq!(home_only, vec!["/home/me/.codex\\sessions".to_owned(), "/home/me/".to_owned()]);
}

#[test]
fn picker_opens_the_first_existing_directory_else_the_fallback() {
    let c = vec!["a".to_owned(), "b".to_owned(), "c".to_owned()];
    assert_eq!(
        pick_initial_directory(c.clone(), vec![false, true, true], ".".to_owned()),
        "b"
    );
    assert_eq!(
        pick_initial_directory(c, vec![false, false, false], "C:\\cwd".to_owned()),
        "C:\\cwd"
    );
    assert_eq!(pick_initial_directory(Vec::new(), Vec::new(), ".".to_owned()), ".");
    let three = vec!["a".to_owned(), "b".to_owned(), "c".to_owned()];
    assert_eq!(pick_initial_directory(three, vec![false], ".".to_owned()), ".");
}

#[test]
fn a_read_gives_the_empty_log_its_contents_log_or_its_error() {
    let empty = parse_read(Ok(None)).expect("not a file");
    assert_eq!(empty, ParsedChatLog::empty());
    let line = b"{\"type\":\"event_msg\",\"payload\":{\"type\":\"agent_message\",\"message\":\"yo\"}}\nnot json".to_vec();
    let log = parse_read(Ok(Some(line))).expect("read");
    assert_eq!(log.entries.len(), 1);
    assert_eq!(log.malformed_lines, 1);
    let err = parse_read(Err(io::Error::new(io::ErrorKind::PermissionDenied, "denied")))
        .expect_err("failed read");
    assert_eq!(err.kind(), io::ErrorKind::PermissionDenied);
}
