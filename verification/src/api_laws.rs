//! What holds of every projection of a log, of request filters, and of the
//! session ids found in paths.

use vstd::prelude::*;

use crate::api::{
    allows, entry_dtos_of, filter_dto_of, filter_of, project, visible_entries, FilterDto,
};
use crate::domain::{filter_all, ChatEntryFilter, ChatLogView, EntryView, RenderedEntryKind};
use crate::session::{
    file_name, file_stem, first_uuid, first_uuid_from, path_components, session_id_of,
    uuid_in_parents, uuid_shaped,
};

verus! {

proof fn lemma_all_visible(entries: Seq<EntryView>)
    ensures
        visible_entries(entries, filter_all()) == entries,
    decreases entries.len(),
{
    reveal_with_fuel(Seq::<EntryView>::filter, 1);
    if entries.len() > 0 {
        lemma_all_visible(entries.drop_last());
        assert(entries.drop_last().push(entries.last()) =~= entries);
    }
}

/// The filter that shows everything shows every entry, in order, so that as
/// many entries are shown as the log has.
pub proof fn law_all_filter_shows_everything(log: ChatLogView)
    ensures
        visible_entries(log.entries, filter_all()) == log.entries,
        project(log, filter_all()).entries == entry_dtos_of(log.entries),
        project(log, filter_all()).counters.visible_entries == project(
            log,
            filter_all(),
        ).counters.total_entries,
{
    lemma_all_visible(log.entries);
}

/// A projection shows exactly the entries whose kind the filter allows, in
/// their order: every shown entry is allowed, and every allowed entry is
/// shown.
pub proof fn law_shows_exactly_allowed(entries: Seq<EntryView>, filter: ChatEntryFilter)
    ensures
        forall|i: int|
            0 <= i < visible_entries(entries, filter).len() ==> allows(
                filter,
                #[trigger] visible_entries(entries, filter)[i].kind,
            ),
        forall|i: int|
            0 <= i < entries.len() && allows(filter, #[trigger] entries[i].kind)
                ==> visible_entries(entries, filter).contains(entries[i]),
{
    let pred = |e: EntryView| allows(filter, e.kind);
    assert forall|i: int| 0 <= i < visible_entries(entries, filter).len() implies allows(
        filter,
        #[trigger] visible_entries(entries, filter)[i].kind,
    ) by {
        entries.lemma_filter_pred(pred, i);
    }
    assert forall|i: int| 0 <= i < entries.len() && allows(filter, #[trigger] entries[i].kind)
        implies visible_entries(entries, filter).contains(entries[i]) by {
        entries.lemma_filter_contains(pred, i);
    }
}

/// In every projection the number of shown entries is the number of entries
/// and of transcript blocks sent, and each block repeats its entry: same
/// kind, same text, titled and labelled with the entry's label.
pub proof fn law_blocks_mirror_entries(log: ChatLogView, filter: ChatEntryFilter)
    ensures
        project(log, filter).counters.visible_entries == project(log, filter).entries.len(),
        project(log, filter).transcript_blocks.len() == project(log, filter).entries.len(),
        forall|i: int|
            0 <= i < project(log, filter).entries.len() ==> {
                let e = #[trigger] project(log, filter).entries[i];
                let b = project(log, filter).transcript_blocks[i];
                &&& b.entry_type == e.kind
                &&& b.label == e.label
                &&& b.title == e.label
                &&& b.content == e.content
            },
{
}

/// `narrow` shows no kind of entry that `wide` hides.
pub open spec fn narrower(narrow: ChatEntryFilter, wide: ChatEntryFilter) -> bool {
    &&& narrow.show_you ==> wide.show_you
    &&& narrow.show_codex ==> wide.show_codex
    &&& narrow.show_tool_call ==> wide.show_tool_call
    &&& narrow.show_tool_result ==> wide.show_tool_result
    &&& narrow.show_meta ==> wide.show_meta
}

/// `a` is `b` with some of its items left out, the others kept in order.
pub open spec fn is_subsequence<A>(a: Seq<A>, b: Seq<A>) -> bool {
    exists|idx: Seq<int>|
        #![trigger idx.len()]
        idx.len() == a.len() && (forall|i: int, j: int|
            0 <= i < j < idx.len() ==> #[trigger] idx[i] < #[trigger] idx[j]) && (forall|i: int|
            0 <= i < idx.len() ==> 0 <= #[trigger] idx[i] < b.len() && a[i] == b[idx[i]])
}

proof fn lemma_filter_twice(entries: Seq<EntryView>, narrow: ChatEntryFilter, wide: ChatEntryFilter)
    requires
        narrower(narrow, wide),
    ensures
        visible_entries(entries, narrow) == visible_entries(
            visible_entries(entries, wide),
            narrow,
        ),
    decreases entries.len(),
{
    reveal_with_fuel(Seq::<EntryView>::filter, 1);
    if entries.len() > 0 {
        let front = entries.drop_last();
        let e = entries.last();
        lemma_filter_twice(front, narrow, wide);
        let w = visible_entries(front, wide);
        assert(w.push(e).drop_last() =~= w);
        assert(w.push(e).last() == e);
    }
}

proof fn lemma_filter_subsequence(entries: Seq<EntryView>, filter: ChatEntryFilter)
    ensures
        is_subsequence(visible_entries(entries, filter), entries),
    decreases entries.len(),
{
    reveal_with_fuel(Seq::<EntryView>::filter, 1);
    let v = visible_entries(entries, filter);
    if entries.len() == 0 {
        let idx = Seq::<int>::empty();
        assert(idx.len() == v.len());
    } else {
        let front = entries.drop_last();
        lemma_filter_subsequence(front, filter);
        let w = visible_entries(front, filter);
        let idx0 = choose|idx: Seq<int>|
            #![trigger idx.len()]
            idx.len() == w.len() && (forall|i: int, j: int|
                0 <= i < j < idx.len() ==> #[trigger] idx[i] < #[trigger] idx[j]) && (forall|
                i: int,
            |
                0 <= i < idx.len() ==> 0 <= #[trigger] idx[i] < front.len() && w[i]
                    == front[idx[i]]);
        if allows(filter, entries.last().kind) {
            let idx = idx0.push(front.len() as int);
            assert(v =~= w.push(entries.last()));
            assert forall|i: int| 0 <= i < idx.len() implies 0 <= #[trigger] idx[i] < entries.len()
                && v[i] == entries[idx[i]] by {
                if i < idx0.len() {
                    assert(idx[i] == idx0[i]);
                    assert(entries[idx0[i]] == front[idx0[i]]);
                }
            }
            assert forall|i: int, j: int| 0 <= i < j < idx.len() implies #[trigger] idx[i]
                < #[trigger] idx[j] by {
                if j < idx0.len() {
                    assert(idx[i] == idx0[i] && idx[j] == idx0[j]);
                } else {
                    assert(idx[i] == idx0[i]);
                }
            }
            assert(idx.len() == v.len());
        } else {
            assert(v =~= w);
            assert forall|i: int| 0 <= i < idx0.len() implies 0 <= #[trigger] idx0[i]
                < entries.len() && v[i] == entries[idx0[i]] by {
                assert(entries[idx0[i]] == front[idx0[i]]);
            }
            assert(idx0.len() == v.len());
        }
    }
}

proof fn lemma_map_subsequence<A, B>(a: Seq<A>, b: Seq<A>, f: spec_fn(A) -> B)
    requires
        is_subsequence(a, b),
    ensures
        is_subsequence(a.map_values(f), b.map_values(f)),
{
    let idx = choose|idx: Seq<int>|
        #![trigger idx.len()]
        idx.len() == a.len() && (forall|i: int, j: int|
            0 <= i < j < idx.len() ==> #[trigger] idx[i] < #[trigger] idx[j]) && (forall|i: int|
            0 <= i < idx.len() ==> 0 <= #[trigger] idx[i] < b.len() && a[i] == b[idx[i]]);
    assert forall|i: int| 0 <= i < idx.len() implies 0 <= #[trigger] idx[i] < b.map_values(
        f,
    ).len() && a.map_values(f)[i] == b.map_values(f)[idx[i]] by {}
    assert(idx.len() == a.map_values(f).len());
}

/// A wider filter shows more: what a narrower filter shows is the wider
/// filter's entries with some left out, in the same order, so it shows no
/// more of them; every other counter and the event tally are the same.
pub proof fn law_wider_filter_shows_more(
    log: ChatLogView,
    narrow: ChatEntryFilter,
    wide: ChatEntryFilter,
)
    requires
        narrower(narrow, wide),
    ensures
        visible_entries(log.entries, narrow) == visible_entries(
            visible_entries(log.entries, wide),
            narrow,
        ),
        is_subsequence(project(log, narrow).entries, project(log, wide).entries),
        project(log, narrow).counters.visible_entries <= project(
            log,
            wide,
        ).counters.visible_entries,
        project(log, narrow).counters.parsed_candidates == project(
            log,
            wide,
        ).counters.parsed_candidates,
        project(log, narrow).counters.total_entries == project(log, wide).counters.total_entries,
        project(log, narrow).counters.ignored_lines == project(log, wide).counters.ignored_lines,
        project(log, narrow).counters.malformed_lines == project(
            log,
            wide,
        ).counters.malformed_lines,
        project(log, narrow).observed_event_counts == project(log, wide).observed_event_counts,
{
    lemma_filter_twice(log.entries, narrow, wide);
    let w = visible_entries(log.entries, wide);
    lemma_filter_subsequence(w, narrow);
    lemma_map_subsequence(
        visible_entries(w, narrow),
        w,
        |e: EntryView| crate::api::entry_dto_of(e),
    );
    w.lemma_filter_len(|e: EntryView| allows(narrow, e.kind));
}

/// Every filter is narrower than the one that shows everything.
pub proof fn law_all_filter_is_widest(filter: ChatEntryFilter)
    ensures
        narrower(filter, filter_all()),
{
}

/// Converting a filter to its request form and back gives it again, and
/// the other way round.
pub proof fn law_filter_round_trip(filter: ChatEntryFilter, dto: FilterDto)
    ensures
        filter_of(filter_dto_of(filter)) == filter,
        filter_dto_of(filter_of(dto)) == dto,
{
}

/// Context, task and system entries are shown exactly when meta entries
/// are.
pub proof fn law_meta_kinds(filter: ChatEntryFilter)
    ensures
        allows(filter, RenderedEntryKind::Context) == filter.show_meta,
        allows(filter, RenderedEntryKind::Task) == filter.show_meta,
        allows(filter, RenderedEntryKind::System) == filter.show_meta,
{
}

proof fn lemma_first_uuid_from_shaped(s: Seq<char>, i: int)
    ensures
        first_uuid_from(s, i) matches Some(u) ==> uuid_shaped(u),
    decreases s.len() - i,
{
    if 0 <= i < s.len() && !crate::session::uuid_at(s, i) {
        lemma_first_uuid_from_shaped(s, i + 1);
    }
}

proof fn lemma_parents_shaped(comps: Seq<Seq<char>>, k: int)
    ensures
        uuid_in_parents(comps, k) matches Some(u) ==> uuid_shaped(u),
    decreases k,
{
    if k > 0 {
        lemma_first_uuid_from_shaped(comps[k - 1], 0);
        lemma_parents_shaped(comps, k - 1);
    }
}

/// A session id found in a path is UUID-shaped:
/// `xxxxxxxx-xxxx-xxxx-xxxx-xxxxxxxxxxxx` with hexadecimal digits.
pub proof fn law_session_id_is_uuid(path: Seq<char>)
    ensures
        session_id_of(path) matches Some(u) ==> uuid_shaped(u),
{
    let comps = crate::session::path_components(path);
    if let Some(name) = crate::session::file_name(path) {
        lemma_first_uuid_from_shaped(crate::session::file_stem(name), 0);
    }
    lemma_parents_shaped(comps, comps.len() - 1);
}

/// Whether the entry `e` is among those the filter shows.
pub open spec fn shown(entries: Seq<EntryView>, filter: ChatEntryFilter, e: EntryView) -> bool {
    visible_entries(entries, filter).contains(e)
}

/// Each flag of the filter decides its own kind of entry: an entry of the
/// log is shown exactly when `show_you` holds for the user's entries,
/// `show_codex` for Codex's, `show_tool_call` for tool calls,
/// `show_tool_result` for tool results, and `show_meta` for context, task
/// and system entries.
pub proof fn law_filter_flags(entries: Seq<EntryView>, filter: ChatEntryFilter, i: int)
    requires
        0 <= i < entries.len(),
    ensures
        entries[i].kind == RenderedEntryKind::You ==> (shown(entries, filter, entries[i])
            <==> filter.show_you),
        entries[i].kind == RenderedEntryKind::Codex ==> (shown(entries, filter, entries[i])
            <==> filter.show_codex),
        entries[i].kind == RenderedEntryKind::ToolCall ==> (shown(entries, filter, entries[i])
            <==> filter.show_tool_call),
        entries[i].kind == RenderedEntryKind::ToolResult ==> (shown(entries, filter, entries[i])
            <==> filter.show_tool_result),
        entries[i].kind == RenderedEntryKind::Context ==> (shown(entries, filter, entries[i])
            <==> filter.show_meta),
        entries[i].kind == RenderedEntryKind::Task ==> (shown(entries, filter, entries[i])
            <==> filter.show_meta),
        entries[i].kind == RenderedEntryKind::System ==> (shown(entries, filter, entries[i])
            <==> filter.show_meta),
{
    let pred = |e: EntryView| allows(filter, e.kind);
    let vis = visible_entries(entries, filter);
    if pred(entries[i]) {
        entries.lemma_filter_contains(pred, i);
    }
    if vis.contains(entries[i]) {
        let j = choose|j: int| 0 <= j < vis.len() && vis[j] == entries[i];
        entries.lemma_filter_pred(pred, j);
    }
}

/// The UUID-shaped word found in the file's stem, if any.
pub open spec fn stem_uuid(path: Seq<char>) -> Option<Seq<char>> {
    match file_name(path) {
        Some(name) => first_uuid(file_stem(name)),
        None => None,
    }
}

proof fn lemma_nearest_parent(comps: Seq<Seq<char>>, m: int, k: int)
    requires
        0 <= k < m <= comps.len(),
        first_uuid(comps[k]) is Some,
        forall|j: int| k < j < m ==> #[trigger] first_uuid(comps[j]) is None,
    ensures
        uuid_in_parents(comps, m) == first_uuid(comps[k]),
    decreases m,
{
    if m - 1 > k {
        lemma_nearest_parent(comps, m - 1, k);
    }
}

proof fn lemma_no_parent(comps: Seq<Seq<char>>, m: int)
    requires
        m <= comps.len(),
        forall|j: int| 0 <= j < m ==> #[trigger] first_uuid(comps[j]) is None,
    ensures
        uuid_in_parents(comps, m) is None,
    decreases m,
{
    if m > 0 {
        lemma_no_parent(comps, m - 1);
    }
}

/// Where a session id comes from: the file's stem when it holds a
/// UUID-shaped word; otherwise the nearest enclosing directory, at any
/// depth, whose name holds one (its first such word); and none when no
/// directory name does.
pub proof fn law_session_id_sources(path: Seq<char>)
    ensures
        stem_uuid(path) is Some ==> session_id_of(path) == stem_uuid(path),
        forall|k: int|
            0 <= k < path_components(path).len() - 1 && stem_uuid(path) is None
                && #[trigger] first_uuid(path_components(path)[k]) is Some && (forall|j: int|
                k < j < path_components(path).len() - 1 ==> first_uuid(path_components(path)[j])
                    is None) ==> session_id_of(path) == first_uuid(path_components(path)[k]),
        stem_uuid(path) is None && (forall|j: int|
            0 <= j < path_components(path).len() - 1 ==> first_uuid(path_components(path)[j])
                is None) ==> session_id_of(path) is None,
{
    let comps = path_components(path);
    assert forall|k: int|
        0 <= k < comps.len() - 1 && stem_uuid(path) is None && #[trigger] first_uuid(comps[k])
            is Some && (forall|j: int| k < j < comps.len() - 1 ==> first_uuid(comps[j]) is None)
        implies session_id_of(path) == first_uuid(comps[k]) by {
        lemma_nearest_parent(comps, comps.len() - 1, k);
    }
    if stem_uuid(path) is None && (forall|j: int|
        0 <= j < comps.len() - 1 ==> first_uuid(comps[j]) is None) {
        if comps.len() > 0 {
            lemma_no_parent(comps, comps.len() - 1);
        }
    }
}

} // verus!
