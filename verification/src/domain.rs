//! The observations that a session log yields, and the filter over them.

use indexmap::IndexMap;
use vstd::prelude::*;

use crate::event_counts::{new_tally, tally_view};

verus! {

/// What kind of observation a rendered entry is.
#[derive(Clone, Copy, Debug, Eq, PartialEq, Structural)]
pub enum RenderedEntryKind {
    Context,
    Task,
    You,
    Codex,
    ToolCall,
    ToolResult,
    System,
}

/// The label under which an entry kind is shown.
pub open spec fn kind_label(kind: RenderedEntryKind) -> Seq<char> {
    match kind {
        RenderedEntryKind::Context => "[CONTEXT]"@,
        RenderedEntryKind::Task => "[TASK]"@,
        RenderedEntryKind::You => "[YOU]"@,
        RenderedEntryKind::Codex => "[CODEX]"@,
        RenderedEntryKind::ToolCall => "[TOOL CALL]"@,
        RenderedEntryKind::ToolResult => "[TOOL RESULT]"@,
        RenderedEntryKind::System => "[SYSTEM]"@,
    }
}

impl RenderedEntryKind {
    /// The label under which entries of this kind are shown.
    pub fn label(self) -> (r: &'static str)
        ensures
            r@ == kind_label(self),
    {
        match self {
            RenderedEntryKind::Context => "[CONTEXT]",
            RenderedEntryKind::Task => "[TASK]",
            RenderedEntryKind::You => "[YOU]",
            RenderedEntryKind::Codex => "[CODEX]",
            RenderedEntryKind::ToolCall => "[TOOL CALL]",
            RenderedEntryKind::ToolResult => "[TOOL RESULT]",
            RenderedEntryKind::System => "[SYSTEM]",
        }
    }
}

/// One observation: its kind and the text shown for it.
#[derive(Clone, Debug, Eq, PartialEq)]
pub struct RenderedEntry {
    pub kind: RenderedEntryKind,
    pub content: String,
}

/// A rendered entry as a value.
pub struct EntryView {
    pub kind: RenderedEntryKind,
    pub content: Seq<char>,
}

impl View for RenderedEntry {
    type V = EntryView;

    open spec fn view(&self) -> EntryView {
        EntryView { kind: self.kind, content: self.content@ }
    }
}

/// The rendered entries of a sequence, as values.
pub open spec fn entries_view(entries: Seq<RenderedEntry>) -> Seq<EntryView> {
    entries.map_values(|e: RenderedEntry| e@)
}

/// Which kinds of entries are shown.
#[derive(Clone, Copy, Debug, Eq, PartialEq, Structural)]
pub struct ChatEntryFilter {
    pub show_you: bool,
    pub show_codex: bool,
    pub show_tool_call: bool,
    pub show_tool_result: bool,
    pub show_meta: bool,
}

/// The filter that shows every kind.
pub open spec fn filter_all() -> ChatEntryFilter {
    ChatEntryFilter {
        show_you: true,
        show_codex: true,
        show_tool_call: true,
        show_tool_result: true,
        show_meta: true,
    }
}

impl ChatEntryFilter {
    /// The filter that shows every kind.
    pub fn all() -> (r: Self)
        ensures
            r == filter_all(),
    {
        ChatEntryFilter {
            show_you: true,
            show_codex: true,
            show_tool_call: true,
            show_tool_result: true,
            show_meta: true,
        }
    }
}

impl Default for ChatEntryFilter {
    fn default() -> (r: Self)
        ensures
            r == filter_all(),
    {
        Self::all()
    }
}

/// The result of reading a session log.
#[derive(Clone, Debug, Eq, PartialEq)]
pub struct ParsedChatLog {
    pub entries: Vec<RenderedEntry>,
    pub parsed_candidates: usize,
    pub ignored_lines: usize,
    pub malformed_lines: usize,
    pub observed_event_counts: IndexMap<String, usize>,
}

/// A parsed log as a value.
pub struct ChatLogView {
    pub entries: Seq<EntryView>,
    pub parsed_candidates: nat,
    pub ignored_lines: nat,
    pub malformed_lines: nat,
    pub observed_event_counts: Seq<(Seq<char>, nat)>,
}

impl View for ParsedChatLog {
    type V = ChatLogView;

    open spec fn view(&self) -> ChatLogView {
        ChatLogView {
            entries: entries_view(self.entries@),
            parsed_candidates: self.parsed_candidates as nat,
            ignored_lines: self.ignored_lines as nat,
            malformed_lines: self.malformed_lines as nat,
            observed_event_counts: tally_view(self.observed_event_counts),
        }
    }
}

/// The log of an empty input.
pub open spec fn empty_log() -> ChatLogView {
    ChatLogView {
        entries: Seq::empty(),
        parsed_candidates: 0,
        ignored_lines: 0,
        malformed_lines: 0,
        observed_event_counts: Seq::empty(),
    }
}

impl ParsedChatLog {
    /// A log with no entries and no counts.
    pub fn empty() -> (r: Self)
        ensures
            r@ == empty_log(),
            r.entries.len() == 0,
            r.parsed_candidates == 0,
    {
        let r = Self {
            entries: Vec::new(),
            parsed_candidates: 0,
            ignored_lines: 0,
            malformed_lines: 0,
            observed_event_counts: new_tally(),
        };
        assert(r@.entries =~= Seq::<EntryView>::empty());
        assert(r@.observed_event_counts =~= Seq::<(Seq<char>, nat)>::empty());
        r
    }
}

} // verus!
