use std::io;

use backend::api::{
    project_parsed_chat_log, EntryKindDto,
    ErrorResponseDto, FilterDto, LoadedFileMetadataDto, ObservedEventCountDto,
    ParseBoundaryRequest, ParseRequestDto, ParseResponseDto, ParsedChatLogDto,
};
use backend::domain::{ChatEntryFilter, ParsedChatLog, RenderedEntry, RenderedEntryKind};
use indexmap::IndexMap;

fn parsed_log() -> ParsedChatLog {
    let mut observed_event_counts = IndexMap::new();
    observed_event_counts.insert("event_msg/user_message".to_owned(), 2);
    observed_event_counts.insert("response_item/message".to_owned(), 1);

    ParsedChatLog {
        entries: vec![
            RenderedEntry {
                kind: RenderedEntryKind::You,
                content: "hello".to_owned(),
            },
            RenderedEntry {
                kind: RenderedEntryKind::Codex,
                content: "hi".to_owned(),
            },
            RenderedEntry {
                kind: RenderedEntryKind::ToolCall,
                content: "run tests".to_owned(),
            },
            RenderedEntry {
                kind: RenderedEntryKind::Task,
                content: "task".to_owned(),
            },
            RenderedEntry {
                kind: RenderedEntryKind::System,
                content: "session".to_owned(),
            },
        ],
        parsed_candidates: 5,
        ignored_lines: 3,
        malformed_lines: 1,
        observed_event_counts,
    }
}

fn kinds(dto: &ParsedChatLogDto) -> Vec<EntryKindDto> {
    dto.entries.iter().map(|entry| entry.kind).collect()
}

#[test]
fn parsed_chat_log_dto_preserves_domain_counts_and_visible_count() {
    let dto = ParsedChatLogDto::from_domain(
        &parsed_log(),
        &ChatEntryFilter {
            show_tool_call: false,
            show_meta: false,
            ..ChatEntryFilter::all()
        },
    );

    assert_eq!(dto.counters.parsed_candidates, 5);
    assert_eq!(dto.counters.total_entries, 5);
    assert_eq!(dto.counters.visible_entries, 2);
    assert_eq!(dto.counters.ignored_lines, 3);
    assert_eq!(dto.counters.malformed_lines, 1);
    assert_eq!(kinds(&dto), vec![EntryKindDto::You, EntryKindDto::Codex]);
    assert_eq!(dto.entries[0].label, "[YOU]");
    assert_eq!(dto.transcript_blocks[1].title, "[CODEX]");
    assert_eq!(
        dto.observed_event_counts,
        vec![
            ObservedEventCountDto {
                event: "event_msg/user_message".to_owned(),
                count: 2,
            },
            ObservedEventCountDto {
                event: "response_item/message".to_owned(),
                count: 1,
            }
        ]
    );
}

#[test]
fn api_filter_treats_task_as_meta_for_source_app_parity() {
    let dto = ParsedChatLogDto::from_domain(
        &parsed_log(),
        &ChatEntryFilter {
            show_you: false,
            show_meta: true,
            ..ChatEntryFilter::all()
        },
    );

    assert_eq!(
        kinds(&dto),
        vec![
            EntryKindDto::Codex,
            EntryKindDto::ToolCall,
            EntryKindDto::Task,
            EntryKindDto::System,
        ]
    );
}

#[test]
fn serialized_contract_uses_stable_field_names_and_entry_kinds() {
    let response = ParseResponseDto {
        source: LoadedFileMetadataDto {
            file_name: Some("session.jsonl".to_owned()),
            absolute_path: "C:\\sessions\\session.jsonl".to_owned(),
            session_id: Some("11111111-2222-3333-4444-555555555555".to_owned()),
            resume_command: Some("codex resume 11111111-2222-3333-4444-555555555555".to_owned()),
        },
        parsed_chat_log: ParsedChatLogDto::from_domain(&parsed_log(), &ChatEntryFilter::all()),
    };

    assert_eq!(response.source.file_name.as_deref(), Some("session.jsonl"));
    assert_eq!(response.source.absolute_path, "C:\\sessions\\session.jsonl");
    assert_eq!(
        response.source.session_id.as_deref(),
        Some("11111111-2222-3333-4444-555555555555")
    );
    assert_eq!(
        response.source.resume_command.as_deref(),
        Some("codex resume 11111111-2222-3333-4444-555555555555")
    );
    assert_eq!(response.parsed_chat_log.entries[0].kind.as_str(), "you");
    assert_eq!(response.parsed_chat_log.entries[0].label, "[YOU]");
    assert_eq!(
        response.parsed_chat_log.counters.visible_entries,
        response.parsed_chat_log.entries.len()
    );
    assert_eq!(
        response.parsed_chat_log.observed_event_counts[0].event,
        "event_msg/user_message"
    );
}

/// What canonicalizing a file that does not exist reports.
fn missing() -> io::Error {
    io::Error::new(io::ErrorKind::NotFound, "not found")
}

#[test]
fn loaded_file_metadata_detects_session_id_from_file_stem_first() {
    let path = "E:\\sessions\\aaaaaaaa-bbbb-cccc-dddd-eeeeeeeeeeee\\11111111-2222-3333-4444-555555555555.jsonl";

    let metadata = LoadedFileMetadataDto::from_path(path, Err(missing()), Ok("C:\\work".to_owned()))
        .expect("metadata builds");

    assert_eq!(
        metadata.file_name,
        Some("11111111-2222-3333-4444-555555555555.jsonl".to_owned())
    );
    assert_eq!(
        metadata.session_id,
        Some("11111111-2222-3333-4444-555555555555".to_owned())
    );
    assert_eq!(
        metadata.resume_command,
        Some("codex resume 11111111-2222-3333-4444-555555555555".to_owned())
    );
}

#[test]
fn loaded_file_metadata_detects_session_id_from_parent_when_file_has_none() {
    let path = "E:\\sessions\\aaaaaaaa-bbbb-cccc-dddd-eeeeeeeeeeee\\codex.jsonl";

    let metadata = LoadedFileMetadataDto::from_path(path, Err(missing()), Ok("C:\\work".to_owned()))
        .expect("metadata builds");

    assert_eq!(
        metadata.session_id,
        Some("aaaaaaaa-bbbb-cccc-dddd-eeeeeeeeeeee".to_owned())
    );
    assert_eq!(
        metadata.resume_command,
        Some("codex resume aaaaaaaa-bbbb-cccc-dddd-eeeeeeeeeeee".to_owned())
    );
}

#[test]
fn loaded_file_metadata_omits_resume_command_without_session_id() {
    let path = "E:\\sessions\\codex.jsonl";

    let metadata = LoadedFileMetadataDto::from_path(path, Err(missing()), Ok("C:\\work".to_owned()))
        .expect("metadata builds");

    assert_eq!(metadata.session_id, None);
    assert_eq!(metadata.resume_command, None);
}

#[test]
fn error_response_shape_is_serializable_for_frontend_display() {
    let response = ErrorResponseDto::from_io(io::Error::new(
        io::ErrorKind::PermissionDenied,
        "permission denied",
    ));

    assert_eq!(response.error.code, "parse_file_failed");
    assert_eq!(response.error.message, "permission denied");
}

#[test]
fn transport_boundary_defaults_to_all_filters() {
    let dto = project_parsed_chat_log(&parsed_log(), None);

    assert_eq!(dto.counters.total_entries, 5);
    assert_eq!(dto.counters.visible_entries, 5);
    assert_eq!(
        kinds(&dto),
        vec![
            EntryKindDto::You,
            EntryKindDto::Codex,
            EntryKindDto::ToolCall,
            EntryKindDto::Task,
            EntryKindDto::System,
        ]
    );
}

#[test]
fn transport_boundary_projects_explicit_filter_without_reparse() {
    let dto = project_parsed_chat_log(
        &parsed_log(),
        Some(FilterDto {
            show_you: false,
            show_codex: true,
            show_tool_call: false,
            show_tool_result: true,
            show_meta: true,
        }),
    );

    assert_eq!(dto.counters.parsed_candidates, 5);
    assert_eq!(dto.counters.ignored_lines, 3);
    assert_eq!(dto.counters.malformed_lines, 1);
    assert_eq!(dto.counters.total_entries, 5);
    assert_eq!(dto.counters.visible_entries, 3);
    assert_eq!(
        kinds(&dto),
        vec![EntryKindDto::Codex, EntryKindDto::Task, EntryKindDto::System]
    );
}

#[test]
fn transport_boundary_request_defaults_filter_before_parse() {
    let request = ParseBoundaryRequest {
        path: "E:\\sessions\\codex.jsonl".to_owned(),
        filter: None,
    };

    let selected = ParseRequestDto {
        path: request.path.clone(),
        filter: request.filter.unwrap_or_default(),
    };

    assert_eq!(selected.filter, FilterDto::default());
    assert_eq!(selected.filter, FilterDto::from(ChatEntryFilter::all()));
}

#[test]
fn transport_boundary_json_shape_stays_dto_compatible() {
    let response = ParseResponseDto {
        source: LoadedFileMetadataDto {
            file_name: Some("codex.jsonl".to_owned()),
            absolute_path: "E:\\sessions\\codex.jsonl".to_owned(),
            session_id: None,
            resume_command: None,
        },
        parsed_chat_log: project_parsed_chat_log(&parsed_log(), None),
    };

    assert_eq!(response.source.file_name.as_deref(), Some("codex.jsonl"));
    assert!(response.source.session_id.is_none());
    assert!(response.source.resume_command.is_none());
    assert_eq!(response.parsed_chat_log.counters.total_entries, 5);
    assert_eq!(response.parsed_chat_log.counters.visible_entries, 5);
    assert_eq!(response.parsed_chat_log.entries[3].kind.as_str(), "task");
}
