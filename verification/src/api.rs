//! The transport boundary: what the viewer asks for and what it is sent
//! back, as plain data transfer objects.

use vstd::prelude::*;
use vstd::std_specs::convert::FromSpecImpl;
use vstd::string::to_string_from_display_ensures;

use crate::domain::{
    empty_log, filter_all, kind_label, ChatEntryFilter, ChatLogView, EntryView, ParsedChatLog,
    RenderedEntryKind,
};
use crate::event_counts::{tally_entries, tally_list, tally_view};
use crate::jsonl::{parse_bytes, parse_log, utf8_lossy};
use crate::paths::{is_absolute, join, join_path, path_is_absolute};
use crate::session::{detect_session_id, file_name, opt_string_view, session_id_of};
use crate::text::{chars_of, push_str, string_of};

verus! {

#[verifier::external_type_specification]
#[verifier::external_body]
pub struct ExIoError(std::io::Error);

/// A request to read the log at `path` and show what `filter` allows.
#[derive(Clone, Debug, Eq, PartialEq)]
pub struct ParseRequestDto {
    pub path: String,
    pub filter: FilterDto,
}

/// Which kinds of entries to show, as the viewer sends it.
#[derive(Clone, Debug, Eq, PartialEq, Structural)]
pub struct FilterDto {
    pub show_you: bool,
    pub show_codex: bool,
    pub show_tool_call: bool,
    pub show_tool_result: bool,
    pub show_meta: bool,
}

/// The filter that a request's filter stands for.
pub open spec fn filter_of(f: FilterDto) -> ChatEntryFilter {
    ChatEntryFilter {
        show_you: f.show_you,
        show_codex: f.show_codex,
        show_tool_call: f.show_tool_call,
        show_tool_result: f.show_tool_result,
        show_meta: f.show_meta,
    }
}

/// The request filter that stands for a filter.
pub open spec fn filter_dto_of(f: ChatEntryFilter) -> FilterDto {
    FilterDto {
        show_you: f.show_you,
        show_codex: f.show_codex,
        show_tool_call: f.show_tool_call,
        show_tool_result: f.show_tool_result,
        show_meta: f.show_meta,
    }
}

impl Default for FilterDto {
    /// The filter that shows everything.
    fn default() -> (r: Self)
        ensures
            r == filter_dto_of(filter_all()),
    {
        FilterDto::from(ChatEntryFilter::all())
    }
}

impl From<FilterDto> for ChatEntryFilter {
    fn from(filter: FilterDto) -> (r: Self) {
        ChatEntryFilter {
            show_you: filter.show_you,
            show_codex: filter.show_codex,
            show_tool_call: filter.show_tool_call,
            show_tool_result: filter.show_tool_result,
            show_meta: filter.show_meta,
        }
    }
}

impl FromSpecImpl<FilterDto> for ChatEntryFilter {
    open spec fn obeys_from_spec() -> bool {
        true
    }

    open spec fn from_spec(filter: FilterDto) -> Self {
        filter_of(filter)
    }
}

impl From<ChatEntryFilter> for FilterDto {
    fn from(filter: ChatEntryFilter) -> (r: Self) {
        FilterDto {
            show_you: filter.show_you,
            show_codex: filter.show_codex,
            show_tool_call: filter.show_tool_call,
            show_tool_result: filter.show_tool_result,
            show_meta: filter.show_meta,
        }
    }
}

impl FromSpecImpl<ChatEntryFilter> for FilterDto {
    open spec fn obeys_from_spec() -> bool {
        true
    }

    open spec fn from_spec(filter: ChatEntryFilter) -> Self {
        filter_dto_of(filter)
    }
}

/// The kind of an entry, as the viewer is sent it.
#[derive(Clone, Copy, Debug, Eq, PartialEq, Structural)]
pub enum EntryKindDto {
    Context,
    Task,
    You,
    Codex,
    ToolCall,
    ToolResult,
    System,
}

/// The transfer kind of an entry kind.
pub open spec fn kind_dto(kind: RenderedEntryKind) -> EntryKindDto {
    match kind {
        RenderedEntryKind::Context => EntryKindDto::Context,
        RenderedEntryKind::Task => EntryKindDto::Task,
        RenderedEntryKind::You => EntryKindDto::You,
        RenderedEntryKind::Codex => EntryKindDto::Codex,
        RenderedEntryKind::ToolCall => EntryKindDto::ToolCall,
        RenderedEntryKind::ToolResult => EntryKindDto::ToolResult,
        RenderedEntryKind::System => EntryKindDto::System,
    }
}

impl From<RenderedEntryKind> for EntryKindDto {
    fn from(kind: RenderedEntryKind) -> (r: Self) {
        match kind {
            RenderedEntryKind::Context => EntryKindDto::Context,
            RenderedEntryKind::Task => EntryKindDto::Task,
            RenderedEntryKind::You => EntryKindDto::You,
            RenderedEntryKind::Codex => EntryKindDto::Codex,
            RenderedEntryKind::ToolCall => EntryKindDto::ToolCall,
            RenderedEntryKind::ToolResult => EntryKindDto::ToolResult,
            RenderedEntryKind::System => EntryKindDto::System,
        }
    }
}

impl FromSpecImpl<RenderedEntryKind> for EntryKindDto {
    open spec fn obeys_from_spec() -> bool {
        true
    }

    open spec fn from_spec(kind: RenderedEntryKind) -> Self {
        kind_dto(kind)
    }
}

/// The name of a transfer kind.
pub open spec fn kind_name(kind: EntryKindDto) -> Seq<char> {
    match kind {
        EntryKindDto::Context => "context"@,
        EntryKindDto::Task => "task"@,
        EntryKindDto::You => "you"@,
        EntryKindDto::Codex => "codex"@,
        EntryKindDto::ToolCall => "tool_call"@,
        EntryKindDto::ToolResult => "tool_result"@,
        EntryKindDto::System => "system"@,
    }
}

impl EntryKindDto {
    /// The name under which the kind is sent.
    pub fn as_str(self) -> (r: &'static str)
        ensures
            r@ == kind_name(self),
    {
        match self {
            EntryKindDto::Context => "context",
            EntryKindDto::Task => "task",
            EntryKindDto::You => "you",
            EntryKindDto::Codex => "codex",
            EntryKindDto::ToolCall => "tool_call",
            EntryKindDto::ToolResult => "tool_result",
            EntryKindDto::System => "system",
        }
    }
}

/// What the viewer is sent for a read log.
#[derive(Clone, Debug, Eq, PartialEq)]
pub struct ParseResponseDto {
    pub source: LoadedFileMetadataDto,
    pub parsed_chat_log: ParsedChatLogDto,
}

/// Where a log was read from.
#[derive(Clone, Debug, Eq, PartialEq)]
pub struct LoadedFileMetadataDto {
    pub file_name: Option<String>,
    pub absolute_path: String,
    pub session_id: Option<String>,
    pub resume_command: Option<String>,
}

/// The entries, blocks, counters and event tally of a read log.
#[derive(Clone, Debug, Eq, PartialEq)]
pub struct ParsedChatLogDto {
    pub entries: Vec<RenderedEntryDto>,
    pub transcript_blocks: Vec<TranscriptBlockDto>,
    pub counters: ParseCountersDto,
    pub observed_event_counts: Vec<ObservedEventCountDto>,
}

/// One shown entry.
#[derive(Clone, Debug, Eq, PartialEq)]
pub struct RenderedEntryDto {
    pub kind: EntryKindDto,
    pub label: &'static str,
    pub content: String,
}

/// One shown entry as a transcript block.
#[derive(Clone, Debug, Eq, PartialEq)]
pub struct TranscriptBlockDto {
    pub entry_type: EntryKindDto,
    pub label: &'static str,
    pub title: &'static str,
    pub content: String,
}

/// The counters of a read log.
#[derive(Clone, Debug, Eq, PartialEq, Structural)]
pub struct ParseCountersDto {
    pub parsed_candidates: usize,
    pub total_entries: usize,
    pub visible_entries: usize,
    pub ignored_lines: usize,
    pub malformed_lines: usize,
}

/// How often one kind of event was seen.
#[derive(Clone, Debug, Eq, PartialEq)]
pub struct ObservedEventCountDto {
    pub event: String,
    pub count: usize,
}

/// An error answer.
#[derive(Clone, Debug, Eq, PartialEq)]
pub struct ErrorResponseDto {
    pub error: ApiErrorDto,
}

/// The code and message of an error answer.
#[derive(Clone, Debug, Eq, PartialEq)]
pub struct ApiErrorDto {
    pub code: String,
    pub message: String,
}

/// An answer of the transport boundary.
pub type ApiResult<T> = Result<T, ErrorResponseDto>;

/// A request as it crosses the transport boundary: the filter may be left
/// out.
#[derive(Clone, Debug, Eq, PartialEq)]
pub struct ParseBoundaryRequest {
    pub path: String,
    pub filter: Option<FilterDto>,
}

/// Whether the filter shows entries of a kind: context, task and system
/// entries are meta entries.
pub open spec fn allows(filter: ChatEntryFilter, kind: RenderedEntryKind) -> bool {
    match kind {
        RenderedEntryKind::Context | RenderedEntryKind::Task | RenderedEntryKind::System => filter.show_meta,
        RenderedEntryKind::You => filter.show_you,
        RenderedEntryKind::Codex => filter.show_codex,
        RenderedEntryKind::ToolCall => filter.show_tool_call,
        RenderedEntryKind::ToolResult => filter.show_tool_result,
    }
}

/// Whether the filter shows entries of a kind.
pub fn api_filter_allows_kind(filter: &ChatEntryFilter, kind: RenderedEntryKind) -> (r: bool)
    ensures
        r == allows(*filter, kind),
{
    match kind {
        RenderedEntryKind::Context | RenderedEntryKind::Task | RenderedEntryKind::System => filter.show_meta,
        RenderedEntryKind::You => filter.show_you,
        RenderedEntryKind::Codex => filter.show_codex,
        RenderedEntryKind::ToolCall => filter.show_tool_call,
        RenderedEntryKind::ToolResult => filter.show_tool_result,
    }
}

/// The entries that the filter shows, in order.
pub open spec fn visible_entries(entries: Seq<EntryView>, filter: ChatEntryFilter) -> Seq<EntryView> {
    entries.filter(|e: EntryView| allows(filter, e.kind))
}

/// A shown entry as a value.
pub struct EntryDtoView {
    pub kind: EntryKindDto,
    pub label: Seq<char>,
    pub content: Seq<char>,
}

impl View for RenderedEntryDto {
    type V = EntryDtoView;

    open spec fn view(&self) -> EntryDtoView {
        EntryDtoView { kind: self.kind, label: self.label@, content: self.content@ }
    }
}

/// A transcript block as a value.
pub struct BlockView {
    pub entry_type: EntryKindDto,
    pub label: Seq<char>,
    pub title: Seq<char>,
    pub content: Seq<char>,
}

impl View for TranscriptBlockDto {
    type V = BlockView;

    open spec fn view(&self) -> BlockView {
        BlockView {
            entry_type: self.entry_type,
            label: self.label@,
            title: self.title@,
            content: self.content@,
        }
    }
}

/// The counters as a value.
pub struct CountersView {
    pub parsed_candidates: nat,
    pub total_entries: nat,
    pub visible_entries: nat,
    pub ignored_lines: nat,
    pub malformed_lines: nat,
}

impl View for ParseCountersDto {
    type V = CountersView;

    open spec fn view(&self) -> CountersView {
        CountersView {
            parsed_candidates: self.parsed_candidates as nat,
            total_entries: self.total_entries as nat,
            visible_entries: self.visible_entries as nat,
            ignored_lines: self.ignored_lines as nat,
            malformed_lines: self.malformed_lines as nat,
        }
    }
}

/// A projected log as a value.
pub struct ChatLogDtoView {
    pub entries: Seq<EntryDtoView>,
    pub transcript_blocks: Seq<BlockView>,
    pub counters: CountersView,
    pub observed_event_counts: Seq<(Seq<char>, nat)>,
}

/// Shown entries as values.
pub open spec fn entry_dtos_view(s: Seq<RenderedEntryDto>) -> Seq<EntryDtoView> {
    s.map_values(|d: RenderedEntryDto| d@)
}

/// Transcript blocks as values.
pub open spec fn blocks_view(s: Seq<TranscriptBlockDto>) -> Seq<BlockView> {
    s.map_values(|b: TranscriptBlockDto| b@)
}

/// Event counts as values.
pub open spec fn event_counts_view(s: Seq<ObservedEventCountDto>) -> Seq<(Seq<char>, nat)> {
    s.map_values(|c: ObservedEventCountDto| (c.event@, c.count as nat))
}

impl View for ParsedChatLogDto {
    type V = ChatLogDtoView;

    open spec fn view(&self) -> ChatLogDtoView {
        ChatLogDtoView {
            entries: entry_dtos_view(self.entries@),
            transcript_blocks: blocks_view(self.transcript_blocks@),
            counters: self.counters@,
            observed_event_counts: event_counts_view(self.observed_event_counts@),
        }
    }
}

/// How an entry is shown: its transfer kind, its label and its text.
pub open spec fn entry_dto_of(e: EntryView) -> EntryDtoView {
    EntryDtoView { kind: kind_dto(e.kind), label: kind_label(e.kind), content: e.content }
}

/// How an entry is shown as a transcript block, titled by its label.
pub open spec fn block_of(e: EntryView) -> BlockView {
    BlockView {
        entry_type: kind_dto(e.kind),
        label: kind_label(e.kind),
        title: kind_label(e.kind),
        content: e.content,
    }
}

/// Each entry as it is shown.
pub open spec fn entry_dtos_of(s: Seq<EntryView>) -> Seq<EntryDtoView> {
    s.map_values(|e: EntryView| entry_dto_of(e))
}

/// Each entry as a transcript block.
pub open spec fn blocks_of(s: Seq<EntryView>) -> Seq<BlockView> {
    s.map_values(|e: EntryView| block_of(e))
}

/// A log projected through a filter: the shown entries and their blocks, the
/// log's counters with the number of entries and of shown entries, and the
/// event tally in order.
pub open spec fn project(log: ChatLogView, filter: ChatEntryFilter) -> ChatLogDtoView {
    let vis = visible_entries(log.entries, filter);
    ChatLogDtoView {
        entries: entry_dtos_of(vis),
        transcript_blocks: blocks_of(vis),
        counters: CountersView {
            parsed_candidates: log.parsed_candidates,
            total_entries: log.entries.len(),
            visible_entries: vis.len(),
            ignored_lines: log.ignored_lines,
            malformed_lines: log.malformed_lines,
        },
        observed_event_counts: log.observed_event_counts,
    }
}

proof fn lemma_visible_len(entries: Seq<EntryView>, filter: ChatEntryFilter)
    ensures
        visible_entries(entries, filter).len() <= entries.len(),
{
    entries.lemma_filter_len(|e: EntryView| allows(filter, e.kind));
}

impl ParsedChatLogDto {
    /// Projects a log through a filter (see `project`).
    pub fn from_domain(parsed: &ParsedChatLog, filter: &ChatEntryFilter) -> (r: Self)
        ensures
            r@ == project(parsed@, *filter),
    {
        let ghost all = parsed@.entries;
        let mut entries: Vec<RenderedEntryDto> = Vec::new();
        let mut blocks: Vec<TranscriptBlockDto> = Vec::new();
        let mut k: usize = 0;
        while k < parsed.entries.len()
            invariant
                k <= parsed.entries@.len(),
                all == parsed@.entries,
                all.len() == parsed.entries@.len(),
                entry_dtos_view(entries@) == entry_dtos_of(
                    visible_entries(all.take(k as int), *filter),
                ),
                blocks_view(blocks@) == blocks_of(visible_entries(all.take(k as int), *filter)),
                entries@.len() == visible_entries(all.take(k as int), *filter).len(),
            decreases parsed.entries.len() - k,
        {
            let entry = &parsed.entries[k];
            let ghost vis = visible_entries(all.take(k as int), *filter);
            proof {
                let t = all.take(k + 1);
                assert(t.drop_last() =~= all.take(k as int));
                assert(t.last() == all[k as int]);
                assert(all[k as int] == entry@);
                reveal_with_fuel(Seq::<EntryView>::filter, 1);
                assert(visible_entries(t, *filter) == if allows(*filter, entry@.kind) {
                    vis.push(entry@)
                } else {
                    vis
                });
            }
            if api_filter_allows_kind(filter, entry.kind) {
                let label = entry.kind.label();
                let kind = EntryKindDto::from(entry.kind);
                let d = RenderedEntryDto { kind, label, content: entry.content.clone() };
                let b = TranscriptBlockDto {
                    entry_type: kind,
                    label,
                    title: label,
                    content: entry.content.clone(),
                };
                assert(d@ == entry_dto_of(entry@));
                assert(b@ == block_of(entry@));
                let ghost old_e = entries@;
                let ghost old_b = blocks@;
                entries.push(d);
                blocks.push(b);
                assert(entry_dtos_view(entries@) =~= entry_dtos_view(old_e).push(d@));
                assert(entry_dtos_of(vis.push(entry@)) =~= entry_dtos_of(vis).push(entry_dto_of(entry@)));
                assert(blocks_view(blocks@) =~= blocks_view(old_b).push(b@));
                assert(blocks_of(vis.push(entry@)) =~= blocks_of(vis).push(block_of(entry@)));
            }
            k = k + 1;
        }
        assert(all.take(parsed.entries@.len() as int) =~= all);
        let listed = tally_list(&parsed.observed_event_counts);
        let mut counts: Vec<ObservedEventCountDto> = Vec::new();
        let mut j: usize = 0;
        while j < listed.len()
            invariant
                j <= listed@.len(),
                listed@.map_values(|e: (String, usize)| (e.0@, e.1)) == tally_entries(
                    parsed.observed_event_counts,
                ),
                event_counts_view(counts@) == tally_view(parsed.observed_event_counts).take(
                    j as int,
                ),
            decreases listed.len() - j,
        {
            let ghost lv = listed@.map_values(|e: (String, usize)| (e.0@, e.1));
            assert(lv[j as int] == (listed@[j as int].0@, listed@[j as int].1));
            assert(tally_view(parsed.observed_event_counts)[j as int] == (
                listed@[j as int].0@,
                listed@[j as int].1 as nat,
            ));
            let c = ObservedEventCountDto { event: listed[j].0.clone(), count: listed[j].1 };
            let ghost old_c = counts@;
            counts.push(c);
            assert(event_counts_view(counts@) =~= event_counts_view(old_c).push(
                (c.event@, c.count as nat),
            ));
            j = j + 1;
            assert(event_counts_view(counts@) =~= tally_view(parsed.observed_event_counts).take(
                j as int,
            ));
        }
        assert(tally_view(parsed.observed_event_counts).take(listed@.len() as int) =~= tally_view(
            parsed.observed_event_counts,
        ));
        proof {
            lemma_visible_len(all, *filter);
        }
        let visible = entries.len();
        ParsedChatLogDto {
            entries,
            transcript_blocks: blocks,
            counters: ParseCountersDto {
                parsed_candidates: parsed.parsed_candidates,
                total_entries: parsed.entries.len(),
                visible_entries: visible,
                ignored_lines: parsed.ignored_lines,
                malformed_lines: parsed.malformed_lines,
            },
            observed_event_counts: counts,
        }
    }
}

/// Projects a log through the request's filter, or through the filter that
/// shows everything when there is none.
pub fn project_parsed_chat_log(parsed: &ParsedChatLog, filter: Option<FilterDto>) -> (r:
    ParsedChatLogDto)
    ensures
        r@ == project(
            parsed@,
            match filter {
                Some(f) => filter_of(f),
                None => filter_all(),
            },
        ),
{
    let filter = match filter {
        Some(f) => f,
        None => FilterDto::default(),
    };
    ParsedChatLogDto::from_domain(parsed, &ChatEntryFilter::from(filter))
}

/// Where a log was read from, as a value.
pub struct MetadataView {
    pub file_name: Option<Seq<char>>,
    pub absolute_path: Seq<char>,
    pub session_id: Option<Seq<char>>,
    pub resume_command: Option<Seq<char>>,
}

impl View for LoadedFileMetadataDto {
    type V = MetadataView;

    open spec fn view(&self) -> MetadataView {
        MetadataView {
            file_name: opt_string_view(self.file_name),
            absolute_path: self.absolute_path@,
            session_id: opt_string_view(self.session_id),
            resume_command: opt_string_view(self.resume_command),
        }
    }
}

/// What is reported of a log's path: its file name, the absolute path it
/// resolved to, its session id and the command that resumes that session.
pub open spec fn metadata_of(path: Seq<char>, absolute_path: Seq<char>) -> MetadataView {
    MetadataView {
        file_name: file_name(path),
        absolute_path,
        session_id: session_id_of(path),
        resume_command: match session_id_of(path) {
            Some(id) => Some("codex resume "@ + id),
            None => None,
        },
    }
}

/// Where a path resolves to: its canonical form when that could be had;
/// else the path itself when it is absolute; else the path joined onto the
/// current directory, or the error of reading the current directory.
pub open spec fn resolved_path(
    path: Seq<char>,
    canonical: Result<String, std::io::Error>,
    current_dir: Result<String, std::io::Error>,
) -> Result<Seq<char>, std::io::Error> {
    match canonical {
        Ok(c) => Ok(c@),
        Err(_) => if is_absolute(path) {
            Ok(path)
        } else {
            match current_dir {
                Ok(d) => Ok(join_path(d@, path)),
                Err(e) => Err(e),
            }
        },
    }
}

/// The absolute path of a log (see the spec function `resolved_path`).
pub fn resolve_absolute_path(
    path: &str,
    canonical: Result<String, std::io::Error>,
    current_dir: Result<String, std::io::Error>,
) -> (r: Result<String, std::io::Error>)
    ensures
        match resolved_path(path@, canonical, current_dir) {
            Ok(a) => r matches Ok(s) && s@ == a,
            Err(e) => r == Err::<String, std::io::Error>(e),
        },
{
    match canonical {
        Ok(c) => Ok(c),
        Err(_) => {
            let p = chars_of(path);
            if path_is_absolute(p.as_slice()) {
                Ok(path.to_owned())
            } else {
                match current_dir {
                    Ok(d) => {
                        let dc = chars_of(d.as_str());
                        let j = join(dc.as_slice(), p.as_slice());
                        Ok(string_of(j.as_slice()))
                    },
                    Err(e) => Err(e),
                }
            }
        },
    }
}

impl LoadedFileMetadataDto {
    /// Describes the log at `path`, given what canonicalizing the path and
    /// reading the current directory gave: an error exactly when the path
    /// cannot be resolved (see `resolved_path`).
    pub fn from_path(
        path: &str,
        canonical: Result<String, std::io::Error>,
        current_dir: Result<String, std::io::Error>,
    ) -> (r: Result<Self, std::io::Error>)
        ensures
            match resolved_path(path@, canonical, current_dir) {
                Ok(a) => r matches Ok(m) && m@ == metadata_of(path@, a),
                Err(e) => r == Err::<Self, std::io::Error>(e),
            },
    {
        let absolute_path = match resolve_absolute_path(path, canonical, current_dir) {
            Ok(a) => a,
            Err(e) => return Err(e),
        };
        let p = chars_of(path);
        let comps = crate::session::components(p.as_slice());
        let n = comps.len();
        let file_name = if n > 0 && !crate::text::chars_eq_str(comps[n - 1].as_slice(), "..")
            && !crate::text::chars_eq_str(comps[n - 1].as_slice(), ".") {
            assert(crate::session::seqs_view(comps@).last() == comps@[n - 1]@);
            Some(string_of(comps[n - 1].as_slice()))
        } else {
            None
        };
        let session_id = detect_session_id(path);
        let resume_command = match &session_id {
            Some(id) => {
                let mut c: Vec<char> = Vec::new();
                push_str(&mut c, "codex resume ");
                push_str(&mut c, id.as_str());
                assert(c@ =~= "codex resume "@ + id@);
                Some(string_of(c.as_slice()))
            },
            None => None,
        };
        Ok(LoadedFileMetadataDto { file_name, absolute_path, session_id, resume_command })
    }
}

/// The code of a failed read.
pub open spec fn parse_failed_code() -> Seq<char> {
    "parse_file_failed"@
}

/// An error answer for a failed read, carrying the error's message.
pub open spec fn is_io_error_response(r: ErrorResponseDto, error: std::io::Error) -> bool {
    r.error.code@ == parse_failed_code() && to_string_from_display_ensures::<std::io::Error>(
        &error,
        r.error.message,
    )
}

impl ErrorResponseDto {
    /// The error answer for a failed read.
    pub fn from_io(error: std::io::Error) -> (r: Self)
        ensures
            is_io_error_response(r, error),
    {
        let message = error.to_string();
        ErrorResponseDto { error: ApiErrorDto { code: "parse_file_failed".to_owned(), message } }
    }
}

/// The log that a file's contents yield: nothing when there is no regular
/// file, else its bytes read as a session log.
pub open spec fn log_of_contents(contents: Option<Vec<u8>>) -> ChatLogView {
    match contents {
        Some(bytes) => parse_log(utf8_lossy(bytes@)),
        None => empty_log(),
    }
}

/// Reads a log from what reading its file gave: the contents' log (an
/// empty log when the path is not a regular file), or the read's error.
pub fn parse_read(contents: Result<Option<Vec<u8>>, std::io::Error>) -> (r: Result<
    ParsedChatLog,
    std::io::Error,
>)
    ensures
        match contents {
            Ok(c) => r matches Ok(log) && log@ == log_of_contents(c),
            Err(e) => r == Err::<ParsedChatLog, std::io::Error>(e),
        },
{
    match contents {
        Ok(Some(bytes)) => Ok(parse_bytes(bytes.as_slice())),
        Ok(None) => Ok(ParsedChatLog::empty()),
        Err(e) => Err(e),
    }
}

/// The answer to a request: an error answer for the first failed read (the
/// path's resolution, then the file's contents); otherwise where the log was
/// read from and the log projected through the request's filter.
pub open spec fn answers(
    request: ParseRequestDto,
    canonical: Result<String, std::io::Error>,
    current_dir: Result<String, std::io::Error>,
    contents: Result<Option<Vec<u8>>, std::io::Error>,
    r: ApiResult<ParseResponseDto>,
) -> bool {
    match resolved_path(request.path@, canonical, current_dir) {
        Err(e) => r matches Err(err) && is_io_error_response(err, e),
        Ok(abs) => match contents {
            Err(e) => r matches Err(err) && is_io_error_response(err, e),
            Ok(c) => r matches Ok(resp) && resp.source@ == metadata_of(request.path@, abs)
                && resp.parsed_chat_log@ == project(log_of_contents(c), filter_of(request.filter)),
        },
    }
}

/// Answers a request to read a log, given what reading it found: the
/// canonical form of the request's path, the current directory, and the
/// file's bytes (`None` when the path is not a regular file).
pub fn parse_selected_file(
    request: ParseRequestDto,
    canonical: Result<String, std::io::Error>,
    current_dir: Result<String, std::io::Error>,
    contents: Result<Option<Vec<u8>>, std::io::Error>,
) -> (r: ApiResult<ParseResponseDto>)
    ensures
        answers(request, canonical, current_dir, contents, r),
{
    let source = match LoadedFileMetadataDto::from_path(request.path.as_str(), canonical, current_dir) {
        Ok(m) => m,
        Err(e) => return Err(ErrorResponseDto::from_io(e)),
    };
    let parsed = match parse_read(contents) {
        Ok(log) => log,
        Err(e) => return Err(ErrorResponseDto::from_io(e)),
    };
    let filter = ChatEntryFilter::from(request.filter);
    Ok(ParseResponseDto { source, parsed_chat_log: ParsedChatLogDto::from_domain(&parsed, &filter) })
}

/// The request that a boundary request stands for: its filter, or the
/// filter that shows everything.
pub open spec fn selected_request(request: ParseBoundaryRequest) -> ParseRequestDto {
    ParseRequestDto {
        path: request.path,
        filter: match request.filter {
            Some(f) => f,
            None => filter_dto_of(filter_all()),
        },
    }
}

/// Answers a boundary request as `parse_selected_file` answers the request
/// it stands for.
pub fn parse_for_transport(
    request: ParseBoundaryRequest,
    canonical: Result<String, std::io::Error>,
    current_dir: Result<String, std::io::Error>,
    contents: Result<Option<Vec<u8>>, std::io::Error>,
) -> (r: ApiResult<ParseResponseDto>)
    ensures
        answers(selected_request(request), canonical, current_dir, contents, r),
{
    let filter = match request.filter {
        Some(f) => f,
        None => FilterDto::default(),
    };
    parse_selected_file(ParseRequestDto { path: request.path, filter }, canonical, current_dir, contents)
}

} // verus!
