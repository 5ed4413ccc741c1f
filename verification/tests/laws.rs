//! Laws of the library, checked on concrete values.

use backend::api::{FilterDto, ParsedChatLogDto};
use backend::domain::{ChatEntryFilter, RenderedEntryKind};
use backend::jsonl::{parse_bytes, parse_str};
use backend::session::detect_session_id;

const USER_LINE: &str =
    "{\"type\":\"event_msg\",\"payload\":{\"type\":\"user_message\",\"message\":\"first\"}}";
const AGENT_LINE: &str =
    "{\"type\":\"event_msg\",\"payload\":{\"type\":\"agent_message\",\"message\":\"second\"}}";
const DEVELOPER_LINE: &str = "{\"type\":\"response_item\",\"payload\":{\"type\":\"message\",\"role\":\"developer\",\"content\":\"x\"}}";

#[test]
fn lines_are_read_independently() {
    let a = format!("{USER_LINE}\nnot json");
    let b = format!("{DEVELOPER_LINE}\n{AGENT_LINE}");
    let joined = parse_str(&format!("{a}\n{b}"));
    let first = parse_str(&a);
    let second = parse_str(&b);

    let mut entries = first.entries.clone();
    entries.extend(second.entries.clone());
    assert_eq!(joined.entries, entries);
    assert_eq!(joined.malformed_lines, first.malformed_lines + second.malformed_lines);
    assert_eq!(joined.ignored_lines, first.ignored_lines + second.ignored_lines);
    assert_eq!(
        joined.parsed_candidates,
        first.parsed_candidates + second.parsed_candidates
    );
    assert_eq!(joined.entries.len(), 2);
}

#[test]
fn tallies_of_joined_texts_merge_key_by_key() {
    let a = format!("{USER_LINE}\n{DEVELOPER_LINE}");
    let b = format!("{AGENT_LINE}\n{USER_LINE}\n{USER_LINE}");
    let joined = parse_str(&format!("{a}\n{b}"));
    let counts: Vec<(String, usize)> = joined
        .observed_event_counts
        .iter()
        .map(|(k, v)| (k.clone(), *v))
        .collect();
    assert_eq!(
        counts,
        vec![
            ("event_msg/user_message".to_owned(), 3),
            ("response_item/message".to_owned(), 1),
            ("event_msg/agent_message".to_owned(), 1),
        ]
    );
}

#[test]
fn every_non_blank_line_is_counted_once() {
    let input = format!("{USER_LINE}\n\n  \nnot json\n{DEVELOPER_LINE}\n{{\n{AGENT_LINE}\n");
    let parsed = parse_str(&input);

    assert_eq!(parsed.malformed_lines + parsed.ignored_lines + parsed.entries.len(), 5);
    assert_eq!(parsed.malformed_lines, 2);
    assert_eq!(parsed.ignored_lines, 1);
    assert_eq!(parsed.parsed_candidates, parsed.entries.len());
}

#[test]
fn tally_counts_the_json_lines() {
    let input = format!("{USER_LINE}\n{USER_LINE}\nnot json\n{DEVELOPER_LINE}\n42");
    let parsed = parse_str(&input);
    let total: usize = parsed.observed_event_counts.values().sum();

    assert_eq!(total, parsed.entries.len() + parsed.ignored_lines);
    assert_eq!(total, 4);
    let keys: Vec<&String> = parsed.observed_event_counts.keys().collect();
    assert_eq!(
        keys,
        vec!["event_msg/user_message", "response_item/message", "unknown"]
    );
}

#[test]
fn entries_always_have_text() {
    let input = format!(
        "{USER_LINE}\n{{\"type\":\"response_item\",\"payload\":{{\"type\":\"function_call_output\",\"call_id\":\"c\"}}}}"
    );
    let parsed = parse_str(&input);

    assert_eq!(parsed.entries.len(), 2);
    assert!(parsed.entries.iter().all(|entry| !entry.content.is_empty()));
    assert_eq!(parsed.entries[1].content, "Function call output: c");
}

#[test]
fn valid_utf8_bytes_read_as_their_text() {
    let input = format!("{USER_LINE}\n{AGENT_LINE}");
    assert_eq!(parse_bytes(input.as_bytes()), parse_str(&input));
}

#[test]
fn all_filter_shows_every_entry_with_mirrored_blocks() {
    let parsed = parse_str(&format!("{USER_LINE}\n{AGENT_LINE}"));
    let dto = ParsedChatLogDto::from_domain(&parsed, &ChatEntryFilter::all());

    assert_eq!(dto.counters.visible_entries, dto.counters.total_entries);
    assert_eq!(dto.entries.len(), parsed.entries.len());
    assert_eq!(dto.transcript_blocks.len(), dto.entries.len());
    for (entry, block) in dto.entries.iter().zip(dto.transcript_blocks.iter()) {
        assert_eq!(block.entry_type, entry.kind);
        assert_eq!(block.label, entry.label);
        assert_eq!(block.title, entry.label);
        assert_eq!(block.content, entry.content);
    }
}

#[test]
fn filters_round_trip() {
    let dto = FilterDto {
        show_you: true,
        show_codex: false,
        show_tool_call: true,
        show_tool_result: false,
        show_meta: true,
    };
    assert_eq!(FilterDto::from(ChatEntryFilter::from(dto.clone())), dto);
    let filter = ChatEntryFilter {
        show_you: false,
        ..ChatEntryFilter::all()
    };
    assert_eq!(ChatEntryFilter::from(FilterDto::from(filter)), filter);
}

#[test]
fn meta_filter_governs_context_task_and_system() {
    let parsed = parse_str(&format!(
        "{}\n{}",
        "{\"type\":\"event_msg\",\"payload\":{\"type\":\"user_message\",\"message\":\"<task>x</task>\"}}",
        "{\"type\":\"response_item\",\"payload\":{\"type\":\"message\",\"role\":\"system\",\"content\":\"s\"}}"
    ));
    let hidden = ParsedChatLogDto::from_domain(
        &parsed,
        &ChatEntryFilter {
            show_meta: false,
            ..ChatEntryFilter::all()
        },
    );
    assert!(hidden.entries.is_empty());
    assert_eq!(parsed.entries[0].kind, RenderedEntryKind::Task);
}

#[test]
fn session_ids_are_uuid_shaped() {
    let id = detect_session_id("C:/logs/rollout-2025-01-01T00-00-00-0199aabb-ccdd-eeff-0011-223344556677.jsonl")
        .expect("id found");
    assert_eq!(id, "0199aabb-ccdd-eeff-0011-223344556677");
    assert_eq!(id.len(), 36);
    for (i, c) in id.chars().enumerate() {
        if [8, 13, 18, 23].contains(&i) {
            assert_eq!(c, '-');
        } else {
            assert!(c.is_ascii_hexdigit());
        }
    }
}

#[test]
fn malformed_lines_are_the_undecodable_ones_and_counts_are_positive() {
    let input = format!("{USER_LINE}\nnot json\n   \n{{\n  {DEVELOPER_LINE}  \n{USER_LINE}\n");
    let parsed = parse_str(&input);
    assert_eq!(parsed.malformed_lines, 2);
    let total: usize = parsed.observed_event_counts.values().sum();
    assert_eq!(total + parsed.malformed_lines, 5);
    assert!(parsed.observed_event_counts.values().all(|c| *c >= 1));
}

#[test]
fn entries_have_their_shapes() {
    let call = "{\"type\":\"response_item\",\"payload\":{\"type\":\"custom_tool_call\",\"name\":\"sh\",\"input\":\"  ls  \"}}";
    let agents = "{\"type\":\"event_msg\",\"payload\":{\"type\":\"user_message\",\"message\":\"  # AGENTS.md\\nrules  \"}}";
    let task = "{\"type\":\"event_msg\",\"payload\":{\"type\":\"user_message\",\"message\":\"<task>x</task>\"}}";
    let spaced = "{\"type\":\"event_msg\",\"payload\":{\"type\":\"agent_message\",\"message\":\"\\n  hi  \\t\"}}";
    let parsed = parse_str(&format!("{call}\n{agents}\n{task}\n{spaced}"));
    assert_eq!(parsed.entries.len(), 4);
    for e in &parsed.entries {
        assert!(!e.content.is_empty());
        match e.kind {
            RenderedEntryKind::ToolCall => assert!(
                e.content.starts_with("Function call: ")
                    || e.content.starts_with("Custom tool call: ")
            ),
            RenderedEntryKind::Context => {
                assert_eq!(e.content, "AGENTS.md project instructions loaded")
            }
            RenderedEntryKind::Task => assert_eq!(e.content, "Task or prompt instructions loaded"),
            _ => assert_eq!(e.content, e.content.trim()),
        }
    }
    assert_eq!(parsed.entries[0].content, "Custom tool call: sh\nls");
    assert_eq!(parsed.entries[3].content, "hi");
}

#[test]
fn a_wider_filter_shows_more_and_keeps_the_counters() {
    let parsed = parse_str(&format!("{USER_LINE}\n{AGENT_LINE}\nnot json\n{DEVELOPER_LINE}"));
    let narrow = ChatEntryFilter {
        show_you: false,
        show_codex: true,
        show_tool_call: false,
        show_tool_result: false,
        show_meta: false,
    };
    let wide = ChatEntryFilter {
        show_you: true,
        ..narrow.clone()
    };
    let a = ParsedChatLogDto::from_domain(&parsed, &narrow);
    let b = ParsedChatLogDto::from_domain(&parsed, &wide);
    assert_eq!(a.entries.len(), 1);
    assert_eq!(b.entries.len(), 2);
    assert_eq!(a.entries[0].content, b.entries[1].content);
    assert_eq!(a.counters.total_entries, b.counters.total_entries);
    assert_eq!(a.counters.ignored_lines, b.counters.ignored_lines);
    assert_eq!(a.counters.malformed_lines, b.counters.malformed_lines);
    assert_eq!(a.counters.parsed_candidates, b.counters.parsed_candidates);
    assert_eq!(a.observed_event_counts.len(), b.observed_event_counts.len());
    for (x, y) in a.observed_event_counts.iter().zip(b.observed_event_counts.iter()) {
        assert_eq!((&x.event, x.count), (&y.event, y.count));
    }
}
