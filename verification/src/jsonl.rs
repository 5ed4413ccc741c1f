//! Reading Codex CLI JSONL session logs: each non-blank line is a JSON
//! event; events of known shapes become rendered entries, every event is
//! tallied by type, and lines that are not JSON are counted as malformed.

use vstd::prelude::*;
use vstd::utf8::{decode_utf8, valid_utf8};

use crate::domain::{empty_log, ChatLogView, EntryView, ParsedChatLog, RenderedEntry, RenderedEntryKind};
use crate::event_counts::{
    counts_as_nat, key_index, lemma_key_index, lemma_key_index_as_nat, lemma_with_value_as_nat, tally_entries,
    tally_get, tally_insert, value_of, with_value,
};
use crate::json::{
    child, child_node, decode_json, field_node, field_string, field_text, items_view, json_decode, opt_chars,
    string_field, JsonNode, JsonView,
};
use crate::text::{
    chars_eq_str, chars_of, contains, contains_str, push_all, push_str, string_of, trim, trimmed,
};

verus! {

/// How deep the text of a JSON value is looked for inside nested arrays and
/// objects. `serde_json` refuses texts nested deeper than this, so on any
/// value that decodes the budget is never used up.
pub const TEXT_DEPTH: u32 = 128;

/// The view of an optional character vector.
pub open spec fn opt_seq(o: Option<Vec<char>>) -> Option<Seq<char>> {
    match o {
        Some(v) => Some(v@),
        None => None,
    }
}

/// The first of two options that is present.
pub open spec fn first_some(a: Option<Seq<char>>, b: Option<Seq<char>>) -> Option<Seq<char>> {
    if a is Some {
        a
    } else {
        b
    }
}

/// The parts joined with a newline between each two.
pub open spec fn join_lines(parts: Seq<Seq<char>>) -> Seq<char>
    decreases parts.len(),
{
    if parts.len() == 0 {
        Seq::empty()
    } else if parts.len() == 1 {
        parts[0]
    } else {
        join_lines(parts.drop_last()) + seq!['\n'] + parts.last()
    }
}

/// The readable text of a JSON value: a string as it is; an array as the
/// texts of its elements joined by newlines and trimmed (absent when that is
/// empty); an object as the text of its first member among `text`, `value`,
/// `content`, `message` that has one.
pub open spec fn text_from_value(text: Seq<char>, fuel: nat) -> Option<Seq<char>>
    decreases fuel, 0nat,
{
    match json_decode(text) {
        Some(JsonView::Str(s)) => Some(s),
        Some(JsonView::Array(_, items)) => {
            if fuel == 0 {
                None
            } else {
                let joined = trim(join_lines(texts_of_items(items, (fuel - 1) as nat)));
                if joined.len() > 0 {
                    Some(joined)
                } else {
                    None
                }
            }
        },
        Some(JsonView::Object(r, fields)) => {
            if fuel == 0 {
                None
            } else {
                let node = JsonView::Object(r, fields);
                let f = (fuel - 1) as nat;
                first_some(
                    member_text(node, "text"@, f),
                    first_some(
                        member_text(node, "value"@, f),
                        first_some(member_text(node, "content"@, f), member_text(node, "message"@, f)),
                    ),
                )
            }
        },
        _ => None,
    }
}

/// The texts of the elements that have one, in order.
pub open spec fn texts_of_items(items: Seq<Seq<char>>, fuel: nat) -> Seq<Seq<char>>
    decreases fuel, items.len() + 1,
{
    if items.len() == 0 {
        Seq::empty()
    } else {
        let rest = texts_of_items(items.drop_last(), fuel);
        match text_from_value(items.last(), fuel) {
            Some(t) => rest.push(t),
            None => rest,
        }
    }
}

/// The text of the member `name` of an object.
pub open spec fn member_text(node: JsonView, name: Seq<char>, fuel: nat) -> Option<Seq<char>>
    decreases fuel, 1nat,
{
    match child(node, name) {
        Some(t) => text_from_value(t, fuel),
        None => None,
    }
}

/// Joins the parts with newlines into `out`.
fn join_into(parts: &Vec<Vec<char>>) -> (r: Vec<char>)
    ensures
        r@ == join_lines(parts@.map_values(|p: Vec<char>| p@)),
{
    let ghost pv = parts@.map_values(|p: Vec<char>| p@);
    let mut r: Vec<char> = Vec::new();
    let mut k: usize = 0;
    while k < parts.len()
        invariant
            k <= parts@.len(),
            pv == parts@.map_values(|p: Vec<char>| p@),
            r@ == join_lines(pv.take(k as int)),
        decreases parts.len() - k,
    {
        if k > 0 {
            r.push('\n');
        }
        push_all(&mut r, parts[k].as_slice());
        proof {
            let t = pv.take(k + 1);
            assert(t.drop_last() =~= pv.take(k as int));
            assert(t.last() == pv[k as int]);
            if k == 0 {
                assert(r@ =~= pv[0]);
            } else {
                assert(r@ =~= join_lines(pv.take(k as int)) + seq!['\n'] + pv[k as int]);
            }
        }
        k = k + 1;
    }
    assert(pv.take(parts@.len() as int) =~= pv);
    r
}

/// The text of the JSON value written as `text`.
pub fn text_of_value(text: &str, fuel: u32) -> (r: Option<Vec<char>>)
    ensures
        opt_seq(r) == text_from_value(text@, fuel as nat),
    decreases fuel, 0nat,
{
    match decode_json(text) {
        Some(JsonNode::Str(s)) => Some(chars_of(s.as_str())),
        Some(JsonNode::Array(_, items)) => {
            if fuel == 0 {
                None
            } else {
                let parts = texts_of_elements(&items, fuel - 1);
                let joined = join_into(&parts);
                let t = trimmed(joined.as_slice());
                if t.len() > 0 {
                    Some(t)
                } else {
                    None
                }
            }
        },
        Some(JsonNode::Object(r, fields)) => {
            if fuel == 0 {
                None
            } else {
                let node = JsonNode::Object(r, fields);
                let f = fuel - 1;
                let a = text_of_member(&node, "text", f);
                if a.is_some() {
                    return a;
                }
                let b = text_of_member(&node, "value", f);
                if b.is_some() {
                    return b;
                }
                let c = text_of_member(&node, "content", f);
                if c.is_some() {
                    return c;
                }
                text_of_member(&node, "message", f)
            }
        },
        _ => None,
    }
}

/// The texts of the elements that have one, in order.
fn texts_of_elements(items: &Vec<String>, fuel: u32) -> (r: Vec<Vec<char>>)
    ensures
        r@.map_values(|p: Vec<char>| p@) == texts_of_items(items_view(items@), fuel as nat),
    decreases fuel, items@.len() + 1,
{
    let ghost iv = items_view(items@);
    let mut r: Vec<Vec<char>> = Vec::new();
    let mut k: usize = 0;
    while k < items.len()
        invariant
            k <= items@.len(),
            iv == items_view(items@),
            r@.map_values(|p: Vec<char>| p@) == texts_of_items(iv.take(k as int), fuel as nat),
        decreases items.len() - k,
    {
        let ghost before = r@.map_values(|p: Vec<char>| p@);
        let t = text_of_value(items[k].as_str(), fuel);
        proof {
            let tk = iv.take(k + 1);
            assert(tk.drop_last() =~= iv.take(k as int));
            assert(tk.last() == items@[k as int]@);
        }
        match t {
            Some(v) => {
                r.push(v);
                assert(r@.map_values(|p: Vec<char>| p@) =~= before.push(v@));
            },
            None => {},
        }
        k = k + 1;
    }
    assert(iv.take(items@.len() as int) =~= iv);
    r
}

/// The text of the member `name` of an object node.
fn text_of_member(node: &JsonNode, name: &str, fuel: u32) -> (r: Option<Vec<char>>)
    ensures
        opt_seq(r) == member_text(node@, name@, fuel as nat),
    decreases fuel, 1nat,
{
    match field_text(node, name) {
        Some(t) => text_of_value(t.as_str(), fuel),
        None => None,
    }
}

/// `extract_text`: the text of the first of the members `content`, `text`,
/// `message`, `output`, `result`, `summary` that has one.
pub open spec fn extract_text(payload: JsonView) -> Option<Seq<char>> {
    let f = TEXT_DEPTH as nat;
    first_some(
        member_text(payload, "content"@, f),
        first_some(
            member_text(payload, "text"@, f),
            first_some(
                member_text(payload, "message"@, f),
                first_some(
                    member_text(payload, "output"@, f),
                    first_some(member_text(payload, "result"@, f), member_text(payload, "summary"@, f)),
                ),
            ),
        ),
    )
}

/// The trimmed text when it is not empty.
pub open spec fn non_blank(s: Seq<char>) -> Option<Seq<char>> {
    if trim(s).len() > 0 {
        Some(trim(s))
    } else {
        None
    }
}

/// The arguments of a tool call: a string `arguments` member trimmed (absent
/// when blank), an array or object `arguments` member as its compact JSON
/// text, nothing for another `arguments` member; without `arguments`, the
/// non-blank trimmed `input` string, else the payload's text.
pub open spec fn tool_arguments(payload: JsonView) -> Option<Seq<char>> {
    match child(payload, "arguments"@) {
        Some(t) => match json_decode(t) {
            Some(JsonView::Str(s)) => non_blank(s),
            Some(JsonView::Array(r, _)) => Some(r),
            Some(JsonView::Object(r, _)) => Some(r),
            _ => None,
        },
        None => match string_field(payload, "input"@) {
            Some(s) => first_some(non_blank(s), extract_text(payload)),
            None => extract_text(payload),
        },
    }
}

/// A tool call entry: `"<label>: <name>"`, then a newline and the arguments
/// when there are any; the name is the `name`, else `call_id`, else `id`
/// string member, and without one there is no entry.
pub open spec fn tool_call(payload: JsonView, label: Seq<char>) -> Option<EntryView> {
    let name = first_some(
        string_field(payload, "name"@),
        first_some(string_field(payload, "call_id"@), string_field(payload, "id"@)),
    );
    match name {
        Some(n) => {
            let head = label + ": "@ + n;
            let content = match tool_arguments(payload) {
                Some(a) => head + seq!['\n'] + a,
                None => head,
            };
            Some(EntryView { kind: RenderedEntryKind::ToolCall, content })
        },
        None => None,
    }
}

/// A tool result entry: the payload's text, else `"<label>: <call_id>"`,
/// trimmed; no entry when that is blank or missing.
pub open spec fn tool_result(payload: JsonView, label: Seq<char>) -> Option<EntryView> {
    let raw = match extract_text(payload) {
        Some(t) => Some(t),
        None => match string_field(payload, "call_id"@) {
            Some(c) => Some(label + ": "@ + c),
            None => None,
        },
    };
    match raw {
        Some(r) => match non_blank(r) {
            Some(c) => Some(EntryView { kind: RenderedEntryKind::ToolResult, content: c }),
            None => None,
        },
        None => None,
    }
}

/// Markers of AGENTS.md project instructions.
pub open spec fn is_agents_instructions(c: Seq<char>) -> bool {
    contains(c, "# AGENTS.md"@) || contains(c, "AGENTS.md instructions"@) || contains(
        c,
        "<INSTRUCTIONS>"@,
    )
}

/// Markers of structured task or prompt bodies.
pub open spec fn is_structured_task_or_prompt(c: Seq<char>) -> bool {
    contains(c, "<environment_context>"@) || contains(c, "<user_instructions>"@) || contains(
        c,
        "<developer_context>"@,
    ) || contains(c, "<task>"@) || contains(c, "<prompt>"@)
}

/// What a message written by the user is.
pub open spec fn user_message_kind(c: Seq<char>) -> RenderedEntryKind {
    if is_agents_instructions(c) {
        RenderedEntryKind::Context
    } else if is_structured_task_or_prompt(c) {
        RenderedEntryKind::Task
    } else {
        RenderedEntryKind::You
    }
}

/// A message written by the user: instructions and structured bodies are
/// summarised, anything else is shown trimmed.
pub open spec fn classify_user_message(content: Seq<char>) -> EntryView {
    let t = trim(content);
    let kind = user_message_kind(t);
    EntryView {
        kind,
        content: match kind {
            RenderedEntryKind::Context => "AGENTS.md project instructions loaded"@,
            RenderedEntryKind::Task => "Task or prompt instructions loaded"@,
            _ => t,
        },
    }
}

/// The kind of a `response_item` message by its role, for roles other than
/// `user`.
pub open spec fn role_kind(role: Seq<char>) -> Option<RenderedEntryKind> {
    if role == "assistant"@ || role == "model"@ {
        Some(RenderedEntryKind::Codex)
    } else if role == "tool"@ {
        Some(RenderedEntryKind::ToolResult)
    } else if role == "system"@ {
        Some(RenderedEntryKind::System)
    } else {
        None
    }
}

/// A `response_item` message: its role and non-blank text decide it.
pub open spec fn response_message(payload: JsonView) -> Option<EntryView> {
    match string_field(payload, "role"@) {
        Some(role) => match extract_text(payload) {
            Some(t) => match non_blank(t) {
                Some(c) => if role == "user"@ {
                    Some(classify_user_message(c))
                } else {
                    match role_kind(role) {
                        Some(kind) => Some(EntryView { kind, content: c }),
                        None => None,
                    }
                },
                None => None,
            },
            None => None,
        },
        None => None,
    }
}

/// The rendered entry of an event, if it has a known shape.
pub open spec fn extract_entry(value: JsonView) -> Option<EntryView> {
    match string_field(value, "type"@) {
        Some(top) => match child_node(value, "payload"@) {
            Some(payload) => {
                let pt = string_field(payload, "type"@);
                if top == "event_msg"@ && pt == Some("user_message"@) {
                    match string_field(payload, "message"@) {
                        Some(m) => match non_blank(m) {
                            Some(c) => Some(classify_user_message(c)),
                            None => None,
                        },
                        None => None,
                    }
                } else if top == "event_msg"@ && pt == Some("agent_message"@) {
                    match string_field(payload, "message"@) {
                        Some(m) => match non_blank(m) {
                            Some(c) => Some(EntryView { kind: RenderedEntryKind::Codex, content: c }),
                            None => None,
                        },
                        None => None,
                    }
                } else if top == "response_item"@ && pt == Some("message"@) {
                    response_message(payload)
                } else if top == "response_item"@ && pt == Some("function_call"@) {
                    tool_call(payload, "Function call"@)
                } else if top == "response_item"@ && pt == Some("custom_tool_call"@) {
                    tool_call(payload, "Custom tool call"@)
                } else if top == "response_item"@ && pt == Some("function_call_output"@) {
                    tool_result(payload, "Function call output"@)
                } else if top == "response_item"@ && pt == Some("custom_tool_call_output"@) {
                    tool_result(payload, "Custom tool call output"@)
                } else {
                    None
                }
            },
            None => None,
        },
        None => None,
    }
}

/// The key under which an event is tallied: `"<type>/<payload type>"`, or
/// whichever of the two is a string, or `"unknown"`.
pub open spec fn event_key(value: JsonView) -> Seq<char> {
    let top = string_field(value, "type"@);
    let pt = match child_node(value, "payload"@) {
        Some(payload) => string_field(payload, "type"@),
        None => None,
    };
    match (top, pt) {
        (Some(a), Some(b)) => a + "/"@ + b,
        (None, Some(b)) => b,
        (Some(a), None) => a,
        (None, None) => "unknown"@,
    }
}

/// The view of an optional entry.
pub open spec fn opt_entry(o: Option<RenderedEntry>) -> Option<EntryView> {
    match o {
        Some(e) => Some(e@),
        None => None,
    }
}

/// The text of a payload (see `extract_text`).
fn payload_text(payload: &JsonNode) -> (r: Option<Vec<char>>)
    ensures
        opt_seq(r) == extract_text(payload@),
{
    let a = text_of_member(payload, "content", TEXT_DEPTH);
    if a.is_some() {
        return a;
    }
    let b = text_of_member(payload, "text", TEXT_DEPTH);
    if b.is_some() {
        return b;
    }
    let c = text_of_member(payload, "message", TEXT_DEPTH);
    if c.is_some() {
        return c;
    }
    let d = text_of_member(payload, "output", TEXT_DEPTH);
    if d.is_some() {
        return d;
    }
    let e = text_of_member(payload, "result", TEXT_DEPTH);
    if e.is_some() {
        return e;
    }
    text_of_member(payload, "summary", TEXT_DEPTH)
}

/// The trimmed characters when they are not all whitespace.
fn non_blank_chars(v: &[char]) -> (r: Option<Vec<char>>)
    ensures
        opt_seq(r) == non_blank(v@),
{
    let t = trimmed(v);
    if t.len() > 0 {
        Some(t)
    } else {
        None
    }
}

/// The arguments of a tool call (see `tool_arguments`).
fn extract_tool_arguments(payload: &JsonNode) -> (r: Option<Vec<char>>)
    ensures
        opt_seq(r) == tool_arguments(payload@),
{
    match field_text(payload, "arguments") {
        Some(t) => match decode_json(t.as_str()) {
            Some(JsonNode::Str(s)) => {
                let c = chars_of(s.as_str());
                non_blank_chars(c.as_slice())
            },
            Some(JsonNode::Array(r, _)) => Some(chars_of(r.as_str())),
            Some(JsonNode::Object(r, _)) => Some(chars_of(r.as_str())),
            _ => None,
        },
        None => match field_string(payload, "input") {
            Some(s) => {
                let c = chars_of(s.as_str());
                let n = non_blank_chars(c.as_slice());
                if n.is_some() {
                    n
                } else {
                    payload_text(payload)
                }
            },
            None => payload_text(payload),
        },
    }
}

/// The first present string among three.
fn first_string(a: Option<String>, b: Option<String>, c: Option<String>) -> (r: Option<String>)
    ensures
        opt_chars(r) == first_some(opt_chars(a), first_some(opt_chars(b), opt_chars(c))),
{
    if a.is_some() {
        a
    } else if b.is_some() {
        b
    } else {
        c
    }
}

/// A tool call entry (see `tool_call`).
fn extract_tool_call(payload: &JsonNode, label: &str) -> (r: Option<RenderedEntry>)
    ensures
        opt_entry(r) == tool_call(payload@, label@),
{
    let name = first_string(
        field_string(payload, "name"),
        field_string(payload, "call_id"),
        field_string(payload, "id"),
    );
    match name {
        Some(n) => {
            let mut content: Vec<char> = Vec::new();
            push_str(&mut content, label);
            push_str(&mut content, ": ");
            push_str(&mut content, n.as_str());
            let ghost head = content@;
            assert(head =~= label@ + ": "@ + n@);
            match extract_tool_arguments(payload) {
                Some(a) => {
                    content.push('\n');
                    push_all(&mut content, a.as_slice());
                    assert(content@ =~= head + seq!['\n'] + a@);
                },
                None => {},
            }
            Some(RenderedEntry { kind: RenderedEntryKind::ToolCall, content: string_of(content.as_slice()) })
        },
        None => None,
    }
}

/// A tool result entry (see `tool_result`).
fn extract_tool_result(payload: &JsonNode, label: &str) -> (r: Option<RenderedEntry>)
    ensures
        opt_entry(r) == tool_result(payload@, label@),
{
    let raw = match payload_text(payload) {
        Some(t) => Some(t),
        None => match field_string(payload, "call_id") {
            Some(c) => {
                let mut v: Vec<char> = Vec::new();
                push_str(&mut v, label);
                push_str(&mut v, ": ");
                push_str(&mut v, c.as_str());
                assert(v@ =~= label@ + ": "@ + c@);
                Some(v)
            },
            None => None,
        },
    };
    match raw {
        Some(r) => match non_blank_chars(r.as_slice()) {
            Some(c) => Some(RenderedEntry { kind: RenderedEntryKind::ToolResult, content: string_of(c.as_slice()) }),
            None => None,
        },
        None => None,
    }
}

/// Whether a user message carries AGENTS.md project instructions.
fn agents_instructions(c: &[char]) -> (r: bool)
    ensures
        r == is_agents_instructions(c@),
{
    contains_str(c, "# AGENTS.md") || contains_str(c, "AGENTS.md instructions") || contains_str(
        c,
        "<INSTRUCTIONS>",
    )
}

/// Whether a user message is a structured task or prompt body.
fn structured_task_or_prompt(c: &[char]) -> (r: bool)
    ensures
        r == is_structured_task_or_prompt(c@),
{
    contains_str(c, "<environment_context>") || contains_str(c, "<user_instructions>")
        || contains_str(c, "<developer_context>") || contains_str(c, "<task>") || contains_str(
        c,
        "<prompt>",
    )
}

/// What a user message is (see `user_message_kind`).
fn classify_user_message_kind(c: &[char]) -> (r: RenderedEntryKind)
    ensures
        r == user_message_kind(c@),
{
    if agents_instructions(c) {
        RenderedEntryKind::Context
    } else if structured_task_or_prompt(c) {
        RenderedEntryKind::Task
    } else {
        RenderedEntryKind::You
    }
}

/// The entry for a message written by the user (see
/// `classify_user_message`).
fn user_message_entry(content: &[char]) -> (r: RenderedEntry)
    ensures
        r@ == classify_user_message(content@),
{
    let t = trimmed(content);
    let kind = classify_user_message_kind(t.as_slice());
    let text = match kind {
        RenderedEntryKind::Context => "AGENTS.md project instructions loaded".to_owned(),
        RenderedEntryKind::Task => "Task or prompt instructions loaded".to_owned(),
        _ => string_of(t.as_slice()),
    };
    RenderedEntry { kind, content: text }
}

/// The kind of a message by its role (see `role_kind`).
fn kind_of_role(role: &[char]) -> (r: Option<RenderedEntryKind>)
    ensures
        r == role_kind(role@),
{
    if chars_eq_str(role, "assistant") || chars_eq_str(role, "model") {
        Some(RenderedEntryKind::Codex)
    } else if chars_eq_str(role, "tool") {
        Some(RenderedEntryKind::ToolResult)
    } else if chars_eq_str(role, "system") {
        Some(RenderedEntryKind::System)
    } else {
        None
    }
}

/// A `response_item` message entry (see `response_message`).
fn extract_response_message(payload: &JsonNode) -> (r: Option<RenderedEntry>)
    ensures
        opt_entry(r) == response_message(payload@),
{
    let role = match field_string(payload, "role") {
        Some(role) => chars_of(role.as_str()),
        None => return None,
    };
    let text = match payload_text(payload) {
        Some(t) => t,
        None => return None,
    };
    let c = match non_blank_chars(text.as_slice()) {
        Some(c) => c,
        None => return None,
    };
    if chars_eq_str(role.as_slice(), "user") {
        return Some(user_message_entry(c.as_slice()));
    }
    match kind_of_role(role.as_slice()) {
        Some(kind) => Some(RenderedEntry { kind, content: string_of(c.as_slice()) }),
        None => None,
    }
}

/// Whether an optional payload type is the given one.
fn type_is(pt: &Option<Vec<char>>, name: &str) -> (r: bool)
    ensures
        r == (opt_seq(*pt) == Some(name@)),
{
    match pt {
        Some(p) => chars_eq_str(p.as_slice(), name),
        None => false,
    }
}

/// An `event_msg` message entry: from the user when `from_user`, else from
/// the agent.
fn event_message_entry(payload: &JsonNode, from_user: bool) -> (r: Option<RenderedEntry>)
    ensures
        opt_entry(r) == match string_field(payload@, "message"@) {
            Some(m) => match non_blank(m) {
                Some(c) => if from_user {
                    Some(classify_user_message(c))
                } else {
                    Some(EntryView { kind: RenderedEntryKind::Codex, content: c })
                },
                None => None,
            },
            None => None,
        },
{
    let m = match field_string(payload, "message") {
        Some(m) => chars_of(m.as_str()),
        None => return None,
    };
    let c = match non_blank_chars(m.as_slice()) {
        Some(c) => c,
        None => return None,
    };
    if from_user {
        Some(user_message_entry(c.as_slice()))
    } else {
        Some(RenderedEntry { kind: RenderedEntryKind::Codex, content: string_of(c.as_slice()) })
    }
}

/// The rendered entry of an event (see the spec function `extract_entry`).
pub fn entry_of_event(value: &JsonNode) -> (r: Option<RenderedEntry>)
    ensures
        opt_entry(r) == extract_entry(value@),
{
    let top = match field_string(value, "type") {
        Some(t) => chars_of(t.as_str()),
        None => return None,
    };
    let payload = match field_node(value, "payload") {
        Some(p) => p,
        None => return None,
    };
    let pt = match field_string(&payload, "type") {
        Some(p) => Some(chars_of(p.as_str())),
        None => None,
    };
    let event_msg = chars_eq_str(top.as_slice(), "event_msg");
    let response_item = chars_eq_str(top.as_slice(), "response_item");
    if event_msg && type_is(&pt, "user_message") {
        event_message_entry(&payload, true)
    } else if event_msg && type_is(&pt, "agent_message") {
        event_message_entry(&payload, false)
    } else if response_item && type_is(&pt, "message") {
        extract_response_message(&payload)
    } else if response_item && type_is(&pt, "function_call") {
        extract_tool_call(&payload, "Function call")
    } else if response_item && type_is(&pt, "custom_tool_call") {
        extract_tool_call(&payload, "Custom tool call")
    } else if response_item && type_is(&pt, "function_call_output") {
        extract_tool_result(&payload, "Function call output")
    } else if response_item && type_is(&pt, "custom_tool_call_output") {
        extract_tool_result(&payload, "Custom tool call output")
    } else {
        None
    }
}

/// The key under which an event is tallied (see the spec function
/// `event_key`).
pub fn event_key_of(value: &JsonNode) -> (r: String)
    ensures
        r@ == event_key(value@),
{
    let top = field_string(value, "type");
    let pt = match field_node(value, "payload") {
        Some(payload) => field_string(&payload, "type"),
        None => None,
    };
    match (top, pt) {
        (Some(a), Some(b)) => {
            let mut k: Vec<char> = Vec::new();
            push_str(&mut k, a.as_str());
            push_str(&mut k, "/");
            push_str(&mut k, b.as_str());
            assert(k@ =~= a@ + "/"@ + b@);
            string_of(k.as_slice())
        },
        (None, Some(b)) => b,
        (Some(a), None) => a,
        (None, None) => "unknown".to_owned(),
    }
}

/// The tally with one more event under `key`.
pub open spec fn bump(counts: Seq<(Seq<char>, nat)>, key: Seq<char>) -> Seq<(Seq<char>, nat)> {
    with_value(
        counts,
        key,
        match value_of(counts, key) {
            Some(c) => c + 1,
            None => 1nat,
        },
    )
}

/// What one line does to the log: a blank line nothing; a line that is not
/// JSON counts as malformed; a JSON event is tallied under its key and then
/// either adds its entry or counts as ignored.
pub open spec fn take_line(log: ChatLogView, line: Seq<char>) -> ChatLogView {
    let t = trim(line);
    if t.len() == 0 {
        log
    } else {
        match json_decode(t) {
            None => ChatLogView { malformed_lines: log.malformed_lines + 1, ..log },
            Some(v) => {
                let counts = bump(log.observed_event_counts, event_key(v));
                match extract_entry(v) {
                    Some(e) => ChatLogView {
                        entries: log.entries.push(e),
                        parsed_candidates: log.parsed_candidates + 1,
                        observed_event_counts: counts,
                        ..log
                    },
                    None => ChatLogView {
                        ignored_lines: log.ignored_lines + 1,
                        observed_event_counts: counts,
                        ..log
                    },
                }
            },
        }
    }
}

/// The lines of `s` from position `i` on, the current one having begun with
/// `cur`: the text split at each newline.
pub open spec fn lines_scan(cur: Seq<char>, s: Seq<char>, i: int) -> Seq<Seq<char>>
    decreases s.len() - i,
{
    if i >= s.len() {
        seq![cur]
    } else if s[i] == '\n' {
        seq![cur] + lines_scan(Seq::empty(), s, i + 1)
    } else {
        lines_scan(cur.push(s[i]), s, i + 1)
    }
}

/// The text split at each newline (`str::lines` keeps the same non-blank
/// lines up to surrounding whitespace, which every line loses to trimming).
pub open spec fn lines_of(s: Seq<char>) -> Seq<Seq<char>> {
    lines_scan(Seq::empty(), s, 0)
}

/// The log after taking each line in order.
pub open spec fn fold_lines(log: ChatLogView, lines: Seq<Seq<char>>) -> ChatLogView
    decreases lines.len(),
{
    if lines.len() == 0 {
        log
    } else {
        fold_lines(take_line(log, lines[0]), lines.drop_first())
    }
}

/// The log that a text yields.
pub open spec fn parse_log(s: Seq<char>) -> ChatLogView {
    fold_lines(empty_log(), lines_of(s))
}

/// Lines taken so far.
pub open spec fn taken(log: ChatLogView) -> nat {
    log.entries.len() + log.ignored_lines + log.malformed_lines
}

/// No event count exceeds the number of events.
pub open spec fn counts_within(log: ChatLogView) -> bool {
    forall|k: int|
        0 <= k < log.observed_event_counts.len() ==> #[trigger] log.observed_event_counts[k].1
            <= log.entries.len() + log.ignored_lines
}

proof fn lemma_bump_within(log: ChatLogView, key: Seq<char>)
    requires
        counts_within(log),
    ensures
        forall|k: int|
            0 <= k < bump(log.observed_event_counts, key).len() ==> #[trigger] bump(
                log.observed_event_counts,
                key,
            )[k].1 <= log.entries.len() + log.ignored_lines + 1,
{
    let c = log.observed_event_counts;
    match key_index(c, key) {
        Some(i) => {
            lemma_key_index(c, key);
        },
        None => {},
    }
}

/// Takes one line into the log (see the spec function `take_line`).
fn take_line_into(log: &mut ParsedChatLog, line: &[char])
    requires
        taken(old(log)@) < usize::MAX,
        counts_within(old(log)@),
        old(log).parsed_candidates == old(log).entries.len(),
    ensures
        final(log)@ == take_line(old(log)@, line@),
        counts_within(final(log)@),
        final(log).parsed_candidates == final(log).entries.len(),
        taken(final(log)@) <= taken(old(log)@) + 1,
        trim(line@).len() == 0 ==> taken(final(log)@) == taken(old(log)@),
{
    let t = trimmed(line);
    if t.len() == 0 {
        return;
    }
    let text = string_of(t.as_slice());
    let value = match decode_json(text.as_str()) {
        Some(v) => v,
        None => {
            log.malformed_lines = log.malformed_lines + 1;
            return;
        },
    };
    let key = event_key_of(&value);
    let ghost before = tally_entries(log.observed_event_counts);
    proof {
        lemma_key_index_as_nat(before, key@);
        lemma_bump_within(old(log)@, key@);
    }
    let count = match tally_get(&log.observed_event_counts, &key) {
        Some(c) => {
            proof {
                let i = key_index(before, key@)->0;
                assert(counts_as_nat(before) == old(log)@.observed_event_counts);
                assert(counts_as_nat(before)[i].1 == c as nat);
                assert(old(log)@.observed_event_counts[i].1 <= old(log)@.entries.len()
                    + old(log)@.ignored_lines);
            }
            c + 1
        },
        None => 1,
    };
    proof {
        lemma_with_value_as_nat(before, key@, count);
    }
    tally_insert(&mut log.observed_event_counts, key, count);
    match entry_of_event(&value) {
        Some(e) => {
            log.entries.push(e);
            log.parsed_candidates = log.parsed_candidates + 1;
            assert(log@.entries =~= old(log)@.entries.push(e@));
        },
        None => {
            log.ignored_lines = log.ignored_lines + 1;
        },
    }
}

/// Reads a session log from text: every line is taken in order (see the
/// spec function `parse_log`), and the number of parsed candidates is the
/// number of entries.
pub fn parse_str(input: &str) -> (r: ParsedChatLog)
    ensures
        r@ == parse_log(input@),
        r.parsed_candidates == r.entries.len(),
{
    let chars = chars_of(input);
    let n = chars.len();
    let mut log = ParsedChatLog::empty();
    let mut cur: Vec<char> = Vec::new();
    let mut i: usize = 0;
    assert(cur@ =~= Seq::<char>::empty());
    while i < n
        invariant
            n == chars@.len(),
            chars@ == input@,
            i <= n,
            fold_lines(log@, lines_scan(cur@, chars@, i as int)) == parse_log(chars@),
            taken(log@) + cur@.len() <= i,
            counts_within(log@),
            log.parsed_candidates == log.entries.len(),
        decreases n - i,
    {
        if chars[i] == '\n' {
            proof {
                let rest = lines_scan(Seq::empty(), chars@, i + 1);
                let all = seq![cur@] + rest;
                assert(all[0] == cur@);
                assert(all.drop_first() =~= rest);
                if cur@.len() == 0 {
                    assert(trim(cur@).len() == 0);
                }
            }
            take_line_into(&mut log, cur.as_slice());
            cur = Vec::new();
            assert(cur@ =~= Seq::<char>::empty());
        } else {
            cur.push(chars[i]);
        }
        i = i + 1;
    }
    let ghost before = log@;
    proof {
        let last = seq![cur@];
        assert(last[0] == cur@);
        assert(last.drop_first() =~= Seq::<Seq<char>>::empty());
        assert(lines_scan(cur@, chars@, n as int) == last);
        assert(fold_lines(before, last) == fold_lines(take_line(before, cur@), Seq::empty()));
    }
    if cur.len() > 0 {
        take_line_into(&mut log, cur.as_slice());
    } else {
        assert(trim(cur@).len() == 0);
    }
    log
}

/// What `String::from_utf8_lossy` makes of some bytes.
pub uninterp spec fn utf8_lossy(bytes: Seq<u8>) -> Seq<char>;

/// Decodes bytes with `String::from_utf8_lossy`. The contract claims that
/// the result is `utf8_lossy` of the bytes, and, as the documentation says,
/// the decoded text itself when the bytes are valid UTF-8. How invalid
/// sequences are replaced is not stated.
#[verifier::external_body]
fn decode_lossy(bytes: &[u8]) -> (r: String)
    ensures
        r@ == utf8_lossy(bytes@),
        valid_utf8(bytes@) ==> r@ == decode_utf8(bytes@),
{
    String::from_utf8_lossy(bytes).into_owned()
}

/// Reads a session log from bytes, replacing invalid UTF-8 sequences
/// rather than failing.
pub fn parse_bytes(bytes: &[u8]) -> (r: ParsedChatLog)
    ensures
        r@ == parse_log(utf8_lossy(bytes@)),
        valid_utf8(bytes@) ==> r@ == parse_log(decode_utf8(bytes@)),
        r.parsed_candidates == r.entries.len(),
{
    let text = decode_lossy(bytes);
    parse_str(text.as_str())
}

} // verus!
