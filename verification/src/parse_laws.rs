//! What holds of every log that a text yields.

use vstd::prelude::*;

use crate::domain::{empty_log, ChatLogView, EntryView, RenderedEntryKind};
use crate::event_counts::{
    key_index, keys_distinct, lemma_key_index, lemma_with_value_commute, lemma_with_value_index,
    lemma_with_value_twice, lemma_with_value_value, value_of, with_value,
};
use crate::jsonl::{
    bump, classify_user_message, event_key, extract_entry, fold_lines, lines_of, lines_scan, non_blank,
    parse_log, take_line, taken,
};
use crate::text::{contains, is_ws, lemma_trim_idempotent, trim, trim_end, trim_start};
use crate::json::{child_node, string_field, JsonView};
use crate::jsonl::extract_text;
use crate::json::json_decode;

verus! {

/// The number of lines that are not blank.
pub open spec fn non_blank_lines(lines: Seq<Seq<char>>) -> nat
    decreases lines.len(),
{
    if lines.len() == 0 {
        0
    } else {
        (if trim(lines[0]).len() > 0 {
            1nat
        } else {
            0nat
        }) + non_blank_lines(lines.drop_first())
    }
}

proof fn lemma_take_line_taken(log: ChatLogView, line: Seq<char>)
    ensures
        taken(take_line(log, line)) == taken(log) + (if trim(line).len() > 0 {
            1nat
        } else {
            0nat
        }),
        take_line(log, line).parsed_candidates - log.parsed_candidates == take_line(
            log,
            line,
        ).entries.len() - log.entries.len(),
{
}

proof fn lemma_fold_taken(log: ChatLogView, lines: Seq<Seq<char>>)
    ensures
        taken(fold_lines(log, lines)) == taken(log) + non_blank_lines(lines),
    decreases lines.len(),
{
    if lines.len() > 0 {
        lemma_take_line_taken(log, lines[0]);
        lemma_fold_taken(take_line(log, lines[0]), lines.drop_first());
    }
}

/// Every line that is not blank is counted exactly once: as malformed, as
/// ignored, or as an entry.
pub proof fn law_every_line_accounted(text: Seq<char>)
    ensures
        parse_log(text).malformed_lines + parse_log(text).ignored_lines + parse_log(
            text,
        ).entries.len() == non_blank_lines(lines_of(text)),
{
    lemma_fold_taken(empty_log(), lines_of(text));
}

proof fn lemma_fold_candidates(log: ChatLogView, lines: Seq<Seq<char>>)
    requires
        log.parsed_candidates == log.entries.len(),
    ensures
        fold_lines(log, lines).parsed_candidates == fold_lines(log, lines).entries.len(),
    decreases lines.len(),
{
    if lines.len() > 0 {
        lemma_take_line_taken(log, lines[0]);
        lemma_fold_candidates(take_line(log, lines[0]), lines.drop_first());
    }
}

/// The number of parsed candidates is the number of entries.
pub proof fn law_candidates_are_entries(text: Seq<char>)
    ensures
        parse_log(text).parsed_candidates == parse_log(text).entries.len(),
{
    lemma_fold_candidates(empty_log(), lines_of(text));
}

/// The sum of the counts of a tally.
pub open spec fn total_count(counts: Seq<(Seq<char>, nat)>) -> nat
    decreases counts.len(),
{
    if counts.len() == 0 {
        0
    } else {
        counts[0].1 + total_count(counts.drop_first())
    }
}

proof fn lemma_total_push(counts: Seq<(Seq<char>, nat)>, e: (Seq<char>, nat))
    ensures
        total_count(counts.push(e)) == total_count(counts) + e.1,
    decreases counts.len(),
{
    if counts.len() > 0 {
        assert(counts.push(e).drop_first() =~= counts.drop_first().push(e));
        assert(counts.push(e)[0] == counts[0]);
        lemma_total_push(counts.drop_first(), e);
    } else {
        assert(counts.push(e).drop_first() =~= Seq::<(Seq<char>, nat)>::empty());
        assert(counts.push(e)[0] == e);
        assert(total_count(Seq::<(Seq<char>, nat)>::empty()) == 0);
    }
}

proof fn lemma_total_update(counts: Seq<(Seq<char>, nat)>, i: int, e: (Seq<char>, nat))
    requires
        0 <= i < counts.len(),
    ensures
        total_count(counts.update(i, e)) + counts[i].1 == total_count(counts) + e.1,
    decreases counts.len(),
{
    if i > 0 {
        assert(counts.update(i, e).drop_first() =~= counts.drop_first().update(i - 1, e));
        lemma_total_update(counts.drop_first(), i - 1, e);
    } else {
        assert(counts.update(i, e).drop_first() =~= counts.drop_first());
    }
}

proof fn lemma_bump_total(counts: Seq<(Seq<char>, nat)>, key: Seq<char>)
    ensures
        total_count(bump(counts, key)) == total_count(counts) + 1,
{
    lemma_key_index(counts, key);
    match key_index(counts, key) {
        Some(i) => {
            lemma_total_update(counts, i, (key, counts[i].1 + 1));
        },
        None => {
            lemma_total_push(counts, (key, 1));
        },
    }
}

proof fn lemma_bump_distinct(counts: Seq<(Seq<char>, nat)>, key: Seq<char>)
    requires
        keys_distinct(counts),
    ensures
        keys_distinct(bump(counts, key)),
{
    lemma_key_index(counts, key);
    let b = bump(counts, key);
    match key_index(counts, key) {
        Some(i) => {
            assert forall|x: int, y: int|
                0 <= x < b.len() && 0 <= y < b.len() && x != y implies b[x].0 != b[y].0 by {
                assert(b[x].0 == counts[x].0);
                assert(b[y].0 == counts[y].0);
            }
        },
        None => {
            assert forall|x: int, y: int|
                0 <= x < b.len() && 0 <= y < b.len() && x != y implies b[x].0 != b[y].0 by {
                if x < counts.len() && y < counts.len() {
                    assert(b[x] == counts[x]);
                    assert(b[y] == counts[y]);
                } else if x < counts.len() {
                    assert(b[x] == counts[x]);
                } else {
                    assert(b[y] == counts[y]);
                }
            }
        },
    }
}

/// What holds of the tally of a log: it counts one event for each entry and
/// each ignored line, and lists each event key once.
pub open spec fn tally_sound(log: ChatLogView) -> bool {
    &&& total_count(log.observed_event_counts) == log.entries.len() + log.ignored_lines
    &&& keys_distinct(log.observed_event_counts)
}

proof fn lemma_fold_tally(log: ChatLogView, lines: Seq<Seq<char>>)
    requires
        tally_sound(log),
    ensures
        tally_sound(fold_lines(log, lines)),
    decreases lines.len(),
{
    if lines.len() > 0 {
        let t = trim(lines[0]);
        if t.len() > 0 {
            if let Some(v) = json_decode(t) {
                lemma_bump_total(log.observed_event_counts, crate::jsonl::event_key(v));
                lemma_bump_distinct(log.observed_event_counts, crate::jsonl::event_key(v));
            }
        }
        lemma_fold_tally(take_line(log, lines[0]), lines.drop_first());
    }
}

/// The event tally counts exactly the lines that are JSON (every entry and
/// every ignored line, never a malformed or blank one), and lists each event
/// key once.
pub proof fn law_tally_counts_json_lines(text: Seq<char>)
    ensures
        total_count(parse_log(text).observed_event_counts) == parse_log(text).entries.len()
            + parse_log(text).ignored_lines,
        keys_distinct(parse_log(text).observed_event_counts),
{
    assert(keys_distinct(empty_log().observed_event_counts));
    lemma_fold_tally(empty_log(), lines_of(text));
}

proof fn lemma_classified_not_blank(c: Seq<char>)
    requires
        trim(c).len() > 0,
    ensures
        classify_user_message(c).content.len() > 0,
{
    reveal_strlit("AGENTS.md project instructions loaded");
    reveal_strlit("Task or prompt instructions loaded");
}

proof fn lemma_non_blank_trimmed(s: Seq<char>)
    ensures
        non_blank(s) matches Some(c) ==> c.len() > 0 && trim(c).len() > 0,
{
    lemma_trim_idempotent(s);
}

/// Every entry an event yields has text.
pub proof fn lemma_entry_not_blank(v: crate::json::JsonView)
    ensures
        extract_entry(v) matches Some(e) ==> e.content.len() > 0,
{
    reveal_strlit(": ");
    let payload = crate::json::child_node(v, "payload"@);
    if let Some(p) = payload {
        if let Some(m) = crate::json::string_field(p, "message"@) {
            lemma_non_blank_trimmed(m);
            if let Some(c) = non_blank(m) {
                lemma_classified_not_blank(c);
            }
        }
        if let Some(t) = crate::jsonl::extract_text(p) {
            lemma_non_blank_trimmed(t);
            if let Some(c) = non_blank(t) {
                lemma_classified_not_blank(c);
            }
        }
        let fo: Seq<char> = "Function call output"@;
        let co: Seq<char> = "Custom tool call output"@;
        if let Some(c) = crate::json::string_field(p, "call_id"@) {
            lemma_non_blank_trimmed(fo + ": "@ + c);
            lemma_non_blank_trimmed(co + ": "@ + c);
        }
    }
}

proof fn lemma_fold_not_blank(log: ChatLogView, lines: Seq<Seq<char>>)
    requires
        forall|i: int| 0 <= i < log.entries.len() ==> #[trigger] log.entries[i].content.len() > 0,
    ensures
        forall|i: int|
            0 <= i < fold_lines(log, lines).entries.len() ==> #[trigger] fold_lines(
                log,
                lines,
            ).entries[i].content.len() > 0,
    decreases lines.len(),
{
    if lines.len() > 0 {
        let t = trim(lines[0]);
        if t.len() > 0 {
            if let Some(v) = json_decode(t) {
                lemma_entry_not_blank(v);
            }
        }
        let next = take_line(log, lines[0]);
        assert forall|i: int| 0 <= i < next.entries.len() implies #[trigger] next.entries[i].content.len() > 0 by {
            if i < log.entries.len() {
                assert(next.entries[i] == log.entries[i]);
            }
        }
        lemma_fold_not_blank(next, lines.drop_first());
    }
}

/// Every entry of a log has text.
pub proof fn law_entries_not_blank(text: Seq<char>)
    ensures
        forall|i: int|
            0 <= i < parse_log(text).entries.len() ==> #[trigger] parse_log(
                text,
            ).entries[i].content.len() > 0,
{
    lemma_fold_not_blank(empty_log(), lines_of(text));
}

proof fn lemma_lines_scan_shift(cur: Seq<char>, pre: Seq<char>, t: Seq<char>, j: int)
    requires
        0 <= j <= t.len(),
    ensures
        lines_scan(cur, pre + t, pre.len() + j) == lines_scan(cur, t, j),
    decreases t.len() - j,
{
    let s = pre + t;
    if j < t.len() {
        assert(s[pre.len() + j] == t[j]);
        if t[j] == '\n' {
            lemma_lines_scan_shift(Seq::empty(), pre, t, j + 1);
        } else {
            lemma_lines_scan_shift(cur.push(t[j]), pre, t, j + 1);
        }
    }
}

proof fn lemma_lines_scan_split(cur: Seq<char>, a: Seq<char>, b: Seq<char>, i: int)
    requires
        0 <= i <= a.len(),
    ensures
        lines_scan(cur, a + seq!['\n'] + b, i) == lines_scan(cur, a, i) + lines_of(b),
    decreases a.len() - i,
{
    let s = a + seq!['\n'] + b;
    if i == a.len() {
        assert(s[i] == '\n');
        assert(s =~= (a + seq!['\n']) + b);
        lemma_lines_scan_shift(Seq::empty(), a + seq!['\n'], b, 0);
    } else {
        assert(s[i] == a[i]);
        if a[i] == '\n' {
            lemma_lines_scan_split(Seq::empty(), a, b, i + 1);
            assert(seq![cur] + (lines_scan(Seq::empty(), a, i + 1) + lines_of(b)) =~= (seq![cur]
                + lines_scan(Seq::empty(), a, i + 1)) + lines_of(b));
        } else {
            lemma_lines_scan_split(cur.push(a[i]), a, b, i + 1);
        }
    }
}

/// The lines of two texts joined by a newline are the lines of the first
/// and then those of the second.
pub proof fn lemma_lines_of_join(a: Seq<char>, b: Seq<char>)
    ensures
        lines_of(a + seq!['\n'] + b) == lines_of(a) + lines_of(b),
{
    lemma_lines_scan_split(Seq::empty(), a, b, 0);
}

proof fn lemma_fold_append(log: ChatLogView, l1: Seq<Seq<char>>, l2: Seq<Seq<char>>)
    ensures
        fold_lines(log, l1 + l2) == fold_lines(fold_lines(log, l1), l2),
    decreases l1.len(),
{
    if l1.len() > 0 {
        assert((l1 + l2)[0] == l1[0]);
        assert((l1 + l2).drop_first() =~= l1.drop_first() + l2);
        lemma_fold_append(take_line(log, l1[0]), l1.drop_first(), l2);
    } else {
        assert(l1 + l2 =~= l2);
    }
}

/// The tally with `count` more events under the key `e.0`, where `e` is
/// `(key, count)`.
pub open spec fn add_count(counts: Seq<(Seq<char>, nat)>, e: (Seq<char>, nat)) -> Seq<
    (Seq<char>, nat),
> {
    with_value(
        counts,
        e.0,
        match value_of(counts, e.0) {
            Some(c) => c + e.1,
            None => e.1,
        },
    )
}

/// The tally `base` with the counts of `more` added key by key: the keys of
/// `base` keep their places, and the keys new to it follow in the order of
/// `more`.
pub open spec fn merge_counts(base: Seq<(Seq<char>, nat)>, more: Seq<(Seq<char>, nat)>) -> Seq<
    (Seq<char>, nat),
>
    decreases more.len(),
{
    if more.len() == 0 {
        base
    } else {
        add_count(merge_counts(base, more.drop_last()), more.last())
    }
}

/// What one line does to a tally.
pub open spec fn line_counts(counts: Seq<(Seq<char>, nat)>, line: Seq<char>) -> Seq<
    (Seq<char>, nat),
> {
    let t = trim(line);
    if t.len() == 0 {
        counts
    } else {
        match json_decode(t) {
            Some(v) => bump(counts, event_key(v)),
            None => counts,
        }
    }
}

/// A tally after taking each line in order.
pub open spec fn fold_counts(counts: Seq<(Seq<char>, nat)>, lines: Seq<Seq<char>>) -> Seq<
    (Seq<char>, nat),
>
    decreases lines.len(),
{
    if lines.len() == 0 {
        counts
    } else {
        fold_counts(line_counts(counts, lines[0]), lines.drop_first())
    }
}

proof fn lemma_fold_lines_counts(log: ChatLogView, lines: Seq<Seq<char>>)
    ensures
        fold_lines(log, lines).observed_event_counts == fold_counts(
            log.observed_event_counts,
            lines,
        ),
    decreases lines.len(),
{
    if lines.len() > 0 {
        lemma_fold_lines_counts(take_line(log, lines[0]), lines.drop_first());
    }
}

/// Every key of `more` is in the merged tally.
proof fn lemma_merge_has_keys(base: Seq<(Seq<char>, nat)>, more: Seq<(Seq<char>, nat)>, j: int)
    requires
        0 <= j < more.len(),
    ensures
        key_index(merge_counts(base, more), more[j].0) is Some,
    decreases more.len(),
{
    let m = merge_counts(base, more.drop_last());
    let e = more.last();
    lemma_with_value_index(
        m,
        e.0,
        match value_of(m, e.0) {
            Some(c) => c + e.1,
            None => e.1,
        },
        more[j].0,
    );
    if j < more.len() - 1 {
        assert(more.drop_last()[j] == more[j]);
        lemma_merge_has_keys(base, more.drop_last(), j);
    }
}

/// Raising the count of a key of `more` by one raises it in the merged
/// tally.
proof fn lemma_merge_raise(
    base: Seq<(Seq<char>, nat)>,
    more: Seq<(Seq<char>, nat)>,
    i: int,
)
    requires
        0 <= i < more.len(),
        keys_distinct(more),
    ensures
        merge_counts(base, more.update(i, (more[i].0, more[i].1 + 1))) == bump(
            merge_counts(base, more),
            more[i].0,
        ),
    decreases more.len(),
{
    let k = more[i].0;
    let v = more[i].1;
    let raised = more.update(i, (k, v + 1));
    let front = more.drop_last();
    let m = merge_counts(base, front);
    let x: nat = match value_of(m, k) {
        Some(c) => c,
        None => 0,
    };
    assert(raised.drop_last() =~= if i == more.len() - 1 {
        front
    } else {
        front.update(i, (k, v + 1))
    });
    if i == more.len() - 1 {
        lemma_with_value_value(m, k, x + v, k);
        lemma_with_value_twice(m, k, x + v, x + v + 1);
    } else {
        let e = more.last();
        assert(e.0 != k);
        assert(front[i] == more[i]);
        assert(keys_distinct(front));
        lemma_merge_raise(base, front, i);
        lemma_merge_has_keys(base, front, i);
        let y: nat = match value_of(m, e.0) {
            Some(c) => c,
            None => 0,
        };
        let xv: nat = match value_of(m, k) {
            Some(c) => c + 1,
            None => 1,
        };
        lemma_key_index(m, k);
        lemma_with_value_value(m, k, xv, e.0);
        lemma_with_value_value(m, e.0, y + e.1, k);
        lemma_with_value_commute(m, k, xv, e.0, y + e.1);
    }
}

/// Counting one more event in `more` counts it in the merged tally.
proof fn lemma_merge_bump(base: Seq<(Seq<char>, nat)>, more: Seq<(Seq<char>, nat)>, key: Seq<char>)
    requires
        keys_distinct(more),
    ensures
        merge_counts(base, bump(more, key)) == bump(merge_counts(base, more), key),
{
    lemma_key_index(more, key);
    match key_index(more, key) {
        Some(i) => {
            lemma_merge_raise(base, more, i);
        },
        None => {
            assert(bump(more, key).drop_last() =~= more);
        },
    }
}

proof fn lemma_fold_counts_merge(
    base: Seq<(Seq<char>, nat)>,
    more: Seq<(Seq<char>, nat)>,
    lines: Seq<Seq<char>>,
)
    requires
        keys_distinct(more),
    ensures
        fold_counts(merge_counts(base, more), lines) == merge_counts(base, fold_counts(more, lines)),
    decreases lines.len(),
{
    if lines.len() > 0 {
        let t = trim(lines[0]);
        if t.len() > 0 {
            if let Some(v) = json_decode(t) {
                lemma_merge_bump(base, more, event_key(v));
                lemma_bump_distinct(more, event_key(v));
            }
        }
        lemma_fold_counts_merge(base, line_counts(more, lines[0]), lines.drop_first());
    }
}

/// The entries and counters of `log` are those of `base` followed by those
/// of `from`.
pub open spec fn counters_offset(base: ChatLogView, log: ChatLogView, from: ChatLogView) -> bool {
    &&& log.entries == base.entries + from.entries
    &&& log.ignored_lines == base.ignored_lines + from.ignored_lines
    &&& log.malformed_lines == base.malformed_lines + from.malformed_lines
    &&& log.parsed_candidates == base.parsed_candidates + from.parsed_candidates
}

/// The log `log` is `base` continued by what yielded `from`: entries and
/// counters follow on, and the tally of `from` is added to that of `base`.
pub open spec fn offset_by(base: ChatLogView, log: ChatLogView, from: ChatLogView) -> bool {
    &&& counters_offset(base, log, from)
    &&& log.observed_event_counts == merge_counts(
        base.observed_event_counts,
        from.observed_event_counts,
    )
}

proof fn lemma_fold_offset(base: ChatLogView, lines: Seq<Seq<char>>)
    ensures
        offset_by(base, fold_lines(base, lines), fold_lines(empty_log(), lines)),
    decreases lines.len(),
{
    lemma_fold_lines_counts(base, lines);
    lemma_fold_lines_counts(empty_log(), lines);
    assert(keys_distinct(empty_log().observed_event_counts));
    lemma_fold_counts_merge(base.observed_event_counts, empty_log().observed_event_counts, lines);
    assert(merge_counts(base.observed_event_counts, empty_log().observed_event_counts)
        == base.observed_event_counts);

    if lines.len() == 0 {
        assert(base.entries + Seq::<crate::domain::EntryView>::empty() =~= base.entries);
    } else {
        let x = take_line(base, lines[0]);
        let y = take_line(empty_log(), lines[0]);
        assert(counters_offset(base, x, y)) by {
            assert(base.entries + Seq::<crate::domain::EntryView>::empty() =~= base.entries);
            let t = trim(lines[0]);
            if t.len() > 0 {
                if let Some(v) = json_decode(t) {
                    if let Some(e) = extract_entry(v) {
                        assert(x.entries =~= base.entries + y.entries);
                    }
                }
            }
        }
        lemma_fold_offset(x, lines.drop_first());
        lemma_fold_offset(y, lines.drop_first());
        let fx = fold_lines(x, lines.drop_first());
        let fy = fold_lines(y, lines.drop_first());
        let fe = fold_lines(empty_log(), lines.drop_first());
        assert(fx.entries =~= base.entries + fy.entries);
    }
}

/// Lines are read independently: the log of two texts joined by a newline
/// has the entries of the first and then those of the second, the sum of
/// their counters, and the first text's event tally with the second's
/// counts added key by key (keys new to the first follow in the order in
/// which the second first saw them).
pub proof fn law_lines_independent(a: Seq<char>, b: Seq<char>)
    ensures
        offset_by(parse_log(a), parse_log(a + seq!['\n'] + b), parse_log(b)),
{
    lemma_lines_of_join(a, b);
    lemma_fold_append(empty_log(), lines_of(a), lines_of(b));
    lemma_fold_offset(parse_log(a), lines_of(b));
}

/// The number of lines that are not blank and whose trimmed text is not
/// JSON.
pub open spec fn undecodable_lines(lines: Seq<Seq<char>>) -> nat
    decreases lines.len(),
{
    if lines.len() == 0 {
        0
    } else {
        (if trim(lines[0]).len() > 0 && json_decode(trim(lines[0])) is None {
            1nat
        } else {
            0nat
        }) + undecodable_lines(lines.drop_first())
    }
}

/// No event is counted zero times.
pub open spec fn counts_positive(counts: Seq<(Seq<char>, nat)>) -> bool {
    forall|k: int| 0 <= k < counts.len() ==> #[trigger] counts[k].1 >= 1
}

proof fn lemma_bump_positive(counts: Seq<(Seq<char>, nat)>, key: Seq<char>)
    requires
        counts_positive(counts),
    ensures
        counts_positive(bump(counts, key)),
{
    lemma_key_index(counts, key);
    let b = bump(counts, key);
    assert forall|k: int| 0 <= k < b.len() implies #[trigger] b[k].1 >= 1 by {
        if k < counts.len() {
            if key_index(counts, key) != Some(k) {
                assert(b[k] == counts[k]);
            }
        }
    }
}

proof fn lemma_fold_malformed(log: ChatLogView, lines: Seq<Seq<char>>)
    requires
        counts_positive(log.observed_event_counts),
    ensures
        fold_lines(log, lines).malformed_lines == log.malformed_lines + undecodable_lines(lines),
        counts_positive(fold_lines(log, lines).observed_event_counts),
    decreases lines.len(),
{
    if lines.len() > 0 {
        let t = trim(lines[0]);
        if t.len() > 0 {
            if let Some(v) = json_decode(t) {
                lemma_bump_positive(log.observed_event_counts, event_key(v));
            }
        }
        lemma_fold_malformed(take_line(log, lines[0]), lines.drop_first());
    }
}

/// The malformed lines are exactly the lines that are not blank and whose
/// trimmed text does not decode as JSON; every other non-blank line is
/// tallied once, and every event in the tally was seen at least once.
pub proof fn law_malformed_lines_are_undecodable(text: Seq<char>)
    ensures
        parse_log(text).malformed_lines == undecodable_lines(lines_of(text)),
        total_count(parse_log(text).observed_event_counts) + parse_log(text).malformed_lines
            == non_blank_lines(lines_of(text)),
        counts_positive(parse_log(text).observed_event_counts),
{
    lemma_fold_malformed(empty_log(), lines_of(text));
    law_every_line_accounted(text);
    law_tally_counts_json_lines(text);
}

/// Whether `s` begins with `prefix`.
pub open spec fn starts_with(s: Seq<char>, prefix: Seq<char>) -> bool {
    prefix.len() <= s.len() && s.take(prefix.len() as int) == prefix
}

/// The shape of a rendered entry: it has text; a tool call begins with its
/// label (`Function call: ` or `Custom tool call: `); any other entry's
/// text is trimmed; project instructions and task bodies are shown as their
/// fixed summaries.
pub open spec fn entry_shaped(e: EntryView) -> bool {
    &&& e.content.len() > 0
    &&& e.kind != RenderedEntryKind::ToolCall ==> trim(e.content) == e.content
    &&& e.kind == RenderedEntryKind::ToolCall ==> starts_with(e.content, "Function call: "@)
        || starts_with(e.content, "Custom tool call: "@)
    &&& e.kind == RenderedEntryKind::Context ==> e.content
        == "AGENTS.md project instructions loaded"@
    &&& e.kind == RenderedEntryKind::Task ==> e.content == "Task or prompt instructions loaded"@
}

proof fn lemma_no_outer_ws(s: Seq<char>)
    requires
        s.len() > 0,
        !is_ws(s[0]),
        !is_ws(s.last()),
    ensures
        trim(s) == s,
{
    assert(trim_start(s) == s);
    assert(trim_end(s) == s);
}

proof fn lemma_non_blank_is_trimmed(s: Seq<char>)
    ensures
        non_blank(s) matches Some(c) ==> c.len() > 0 && trim(c) == c,
{
    lemma_trim_idempotent(s);
}

proof fn lemma_classified_shaped(c: Seq<char>)
    requires
        c.len() > 0,
        trim(c) == c,
    ensures
        entry_shaped(classify_user_message(c)),
{
    let a: Seq<char> = "AGENTS.md project instructions loaded"@;
    let t: Seq<char> = "Task or prompt instructions loaded"@;
    reveal_strlit("AGENTS.md project instructions loaded");
    reveal_strlit("Task or prompt instructions loaded");
    lemma_no_outer_ws(a);
    lemma_no_outer_ws(t);
}

proof fn lemma_tool_call_shaped(payload: crate::json::JsonView, label: Seq<char>)
    requires
        label == "Function call"@ || label == "Custom tool call"@,
    ensures
        crate::jsonl::tool_call(payload, label) matches Some(e) ==> e.content.len() > 0
            && e.kind == RenderedEntryKind::ToolCall && (starts_with(
            e.content,
            "Function call: "@,
        ) || starts_with(e.content, "Custom tool call: "@)),
{
    reveal_strlit("Function call");
    reveal_strlit("Custom tool call");
    reveal_strlit(": ");
    reveal_strlit("Function call: ");
    reveal_strlit("Custom tool call: ");
    if let Some(e) = crate::jsonl::tool_call(payload, label) {
        let head = label + ": "@;
        assert(head == "Function call: "@ || head == "Custom tool call: "@);
        assert(e.content.take(head.len() as int) =~= head);
    }
}

proof fn lemma_response_shaped(payload: crate::json::JsonView)
    ensures
        crate::jsonl::response_message(payload) matches Some(e) ==> entry_shaped(e),
{
    if let Some(t) = crate::jsonl::extract_text(payload) {
        lemma_non_blank_is_trimmed(t);
        if let Some(c) = non_blank(t) {
            lemma_classified_shaped(c);
        }
    }
}

/// Every entry that an event yields is shaped (see `entry_shaped`).
pub proof fn lemma_entry_shaped(v: crate::json::JsonView)
    ensures
        extract_entry(v) matches Some(e) ==> entry_shaped(e),
{
    lemma_entry_not_blank(v);
    if let Some(p) = crate::json::child_node(v, "payload"@) {
        if let Some(m) = crate::json::string_field(p, "message"@) {
            lemma_non_blank_is_trimmed(m);
            if let Some(c) = non_blank(m) {
                lemma_classified_shaped(c);
            }
        }
        lemma_response_shaped(p);
        lemma_tool_call_shaped(p, "Function call"@);
        lemma_tool_call_shaped(p, "Custom tool call"@);
        if let Some(t) = crate::jsonl::extract_text(p) {
            lemma_non_blank_is_trimmed(t);
        }
        let fo: Seq<char> = "Function call output"@;
        let co: Seq<char> = "Custom tool call output"@;
        if let Some(c) = crate::json::string_field(p, "call_id"@) {
            lemma_non_blank_is_trimmed(fo + ": "@ + c);
            lemma_non_blank_is_trimmed(co + ": "@ + c);
        }
    }
}

proof fn lemma_fold_shaped(log: ChatLogView, lines: Seq<Seq<char>>)
    requires
        forall|i: int| 0 <= i < log.entries.len() ==> entry_shaped(#[trigger] log.entries[i]),
    ensures
        forall|i: int|
            0 <= i < fold_lines(log, lines).entries.len() ==> entry_shaped(
                #[trigger] fold_lines(log, lines).entries[i],
            ),
    decreases lines.len(),
{
    if lines.len() > 0 {
        let t = trim(lines[0]);
        if t.len() > 0 {
            if let Some(v) = json_decode(t) {
                lemma_entry_shaped(v);
            }
        }
        let next = take_line(log, lines[0]);
        assert forall|i: int| 0 <= i < next.entries.len() implies entry_shaped(
            #[trigger] next.entries[i],
        ) by {
            if i < log.entries.len() {
                assert(next.entries[i] == log.entries[i]);
            }
        }
        lemma_fold_shaped(next, lines.drop_first());
        assert(fold_lines(log, lines) == fold_lines(next, lines.drop_first()));
    } else {
        assert(fold_lines(log, lines) == log);
    }
}

/// Every entry of a log is shaped: it has text; a tool call begins with
/// `Function call: ` or `Custom tool call: `; any other entry's text is
/// trimmed; project instructions and task bodies read as their fixed
/// summaries.
pub proof fn law_entries_shaped(text: Seq<char>)
    ensures
        forall|i: int|
            0 <= i < parse_log(text).entries.len() ==> entry_shaped(
                #[trigger] parse_log(text).entries[i],
            ),
{
    lemma_fold_shaped(empty_log(), lines_of(text));
}

/// The event `v` is of type `top` and its payload `p` of type `kind`.
pub open spec fn event_of(v: JsonView, top: Seq<char>, p: JsonView, kind: Seq<char>) -> bool {
    &&& string_field(v, "type"@) == Some(top)
    &&& child_node(v, "payload"@) == Some(p)
    &&& string_field(p, "type"@) == Some(kind)
}

/// A user message event becomes one entry, by the markers its trimmed text
/// `t` contains: any of `# AGENTS.md`, `AGENTS.md instructions`,
/// `<INSTRUCTIONS>` make it a context entry reading `AGENTS.md project
/// instructions loaded`; else any of `<environment_context>`,
/// `<user_instructions>`, `<developer_context>`, `<task>`, `<prompt>` make
/// it a task entry reading `Task or prompt instructions loaded`; else it is
/// the user's own entry with the text `t`. A blank message gives none.
pub proof fn law_user_message_classes(v: JsonView, p: JsonView, m: Seq<char>)
    requires
        event_of(v, "event_msg"@, p, "user_message"@),
        string_field(p, "message"@) == Some(m),
    ensures
        trim(m).len() == 0 ==> extract_entry(v) is None,
        trim(m).len() > 0 && (contains(trim(m), "# AGENTS.md"@) || contains(
            trim(m),
            "AGENTS.md instructions"@,
        ) || contains(trim(m), "<INSTRUCTIONS>"@)) ==> extract_entry(v) == Some(
            EntryView {
                kind: RenderedEntryKind::Context,
                content: "AGENTS.md project instructions loaded"@,
            },
        ),
        trim(m).len() > 0 && !(contains(trim(m), "# AGENTS.md"@) || contains(
            trim(m),
            "AGENTS.md instructions"@,
        ) || contains(trim(m), "<INSTRUCTIONS>"@)) && (contains(
            trim(m),
            "<environment_context>"@,
        ) || contains(trim(m), "<user_instructions>"@) || contains(
            trim(m),
            "<developer_context>"@,
        ) || contains(trim(m), "<task>"@) || contains(trim(m), "<prompt>"@))
            ==> extract_entry(v) == Some(
            EntryView { kind: RenderedEntryKind::Task, content: "Task or prompt instructions loaded"@ },
        ),
        trim(m).len() > 0 && !(contains(trim(m), "# AGENTS.md"@) || contains(
            trim(m),
            "AGENTS.md instructions"@,
        ) || contains(trim(m), "<INSTRUCTIONS>"@)) && !(contains(
            trim(m),
            "<environment_context>"@,
        ) || contains(trim(m), "<user_instructions>"@) || contains(
            trim(m),
            "<developer_context>"@,
        ) || contains(trim(m), "<task>"@) || contains(trim(m), "<prompt>"@))
            ==> extract_entry(v) == Some(EntryView { kind: RenderedEntryKind::You, content: trim(m) }),
{
    reveal_strlit("event_msg");
    reveal_strlit("user_message");
    reveal_strlit("agent_message");
    lemma_trim_idempotent(m);
}

/// A call's label followed by `: ` and `n`.
pub open spec fn call_head(kind: Seq<char>, n: Seq<char>) -> Seq<char> {
    (if kind == "function_call"@ {
        "Function call"@
    } else {
        "Custom tool call"@
    }) + ": "@ + n
}

/// A tool call whose payload has a string `name` becomes a tool-call entry
/// whose text is `Function call: <name>` (or `Custom tool call: <name>`),
/// alone or followed by a newline and the call's arguments: the name wins
/// over `call_id` and `id`.
pub proof fn law_tool_call_named(v: JsonView, p: JsonView, kind: Seq<char>, n: Seq<char>)
    requires
        kind == "function_call"@ || kind == "custom_tool_call"@,
        event_of(v, "response_item"@, p, kind),
        string_field(p, "name"@) == Some(n),
    ensures
        extract_entry(v) matches Some(e) && e.kind == RenderedEntryKind::ToolCall && (e.content
            == call_head(kind, n) || (e.content.len() > call_head(kind, n).len() && e.content.take(
            call_head(kind, n).len() + 1 as int,
        ) == call_head(kind, n).push('\n'))),
{
    reveal_strlit("response_item");
    reveal_strlit("event_msg");
    reveal_strlit("function_call");
    reveal_strlit("custom_tool_call");
    reveal_strlit("message");
    reveal_strlit("function_call_output");
    reveal_strlit("custom_tool_call_output");
    reveal_strlit("user_message");
    reveal_strlit("agent_message");
    let label: Seq<char> = if kind == "function_call"@ {
        "Function call"@
    } else {
        "Custom tool call"@
    };
    assert("event_msg"@.len() == 9 && "response_item"@.len() == 13 && "message"@.len() == 7 && "function_call"@.len() == 13 && "custom_tool_call"@.len() == 16
        && "function_call_output"@.len() == 20 && "custom_tool_call_output"@.len() == 23);
    assert(kind != "message"@);
    assert(kind == "custom_tool_call"@ ==> kind != "function_call"@);
    assert(extract_entry(v) == crate::jsonl::tool_call(p, label));
    let head = call_head(kind, n);
    assert(head == label + ": "@ + n);
    match crate::jsonl::tool_arguments(p) {
        Some(a) => {
            assert((head + seq!['\n'] + a).take(head.len() + 1 as int) =~= head.push('\n'));
        },
        None => {},
    }
}

proof fn lemma_trim_keeps_lead(s: Seq<char>)
    requires
        s.len() > 0,
        !is_ws(s[0]),
    ensures
        trim(s).len() > 0,
    decreases s.len(),
{
    assert(trim_start(s) == s);
    lemma_trim_end_keeps_lead(s);
}

proof fn lemma_trim_end_keeps_lead(s: Seq<char>)
    requires
        s.len() > 0,
        !is_ws(s[0]),
    ensures
        trim_end(s).len() > 0,
    decreases s.len(),
{
    if is_ws(s.last()) {
        assert(s.len() > 1);
        assert(s.drop_last()[0] == s[0]);
        lemma_trim_end_keeps_lead(s.drop_last());
    }
}

/// A tool output becomes a tool-result entry from the payload's text when
/// it has one: exactly when that text is not blank, and then trimmed. Only
/// when the payload has no text is the entry `<label>: <call_id>`, the
/// label being `Function call output` or `Custom tool call output`.
pub proof fn law_tool_result_text(v: JsonView, p: JsonView, kind: Seq<char>)
    requires
        kind == "function_call_output"@ || kind == "custom_tool_call_output"@,
        event_of(v, "response_item"@, p, kind),
    ensures
        extract_text(p) matches Some(t) ==> extract_entry(v) == (if trim(t).len() > 0 {
            Some(EntryView { kind: RenderedEntryKind::ToolResult, content: trim(t) })
        } else {
            None
        }),
        extract_text(p) is None ==> extract_entry(v) == match string_field(p, "call_id"@) {
            Some(c) => Some(
                EntryView {
                    kind: RenderedEntryKind::ToolResult,
                    content: trim(
                        (if kind == "function_call_output"@ {
                            "Function call output"@
                        } else {
                            "Custom tool call output"@
                        }) + ": "@ + c,
                    ),
                },
            ),
            None => None,
        },
{
    reveal_strlit("response_item");
    reveal_strlit("event_msg");
    reveal_strlit("function_call");
    reveal_strlit("custom_tool_call");
    reveal_strlit("message");
    reveal_strlit("function_call_output");
    reveal_strlit("custom_tool_call_output");
    reveal_strlit("Function call output");
    reveal_strlit("Custom tool call output");
    reveal_strlit("user_message");
    reveal_strlit("agent_message");
    let label: Seq<char> = if kind == "function_call_output"@ {
        "Function call output"@
    } else {
        "Custom tool call output"@
    };
    assert("event_msg"@.len() == 9 && "response_item"@.len() == 13 && "message"@.len() == 7 && "function_call"@.len() == 13 && "custom_tool_call"@.len() == 16
        && "function_call_output"@.len() == 20 && "custom_tool_call_output"@.len() == 23);
    assert(kind != "message"@ && kind != "function_call"@ && kind != "custom_tool_call"@);
    assert(kind == "custom_tool_call_output"@ ==> kind != "function_call_output"@);
    assert(extract_entry(v) == crate::jsonl::tool_result(p, label));
    if let Some(t) = extract_text(p) {
        lemma_trim_idempotent(t);
    }
    if let Some(c) = string_field(p, "call_id"@) {
        let fo: Seq<char> = "Function call output"@ + ": "@ + c;
        let co: Seq<char> = "Custom tool call output"@ + ": "@ + c;
        lemma_trim_keeps_lead(fo);
        lemma_trim_keeps_lead(co);
    }
}

/// A message from the agent becomes a Codex entry with its text trimmed,
/// and none when that is blank. A `response_item` message with non-blank
/// text `t` becomes, by its role: for `assistant` or `model` a Codex entry,
/// for `tool` a tool result, for `system` a system entry, each reading
/// `trim(t)`; for `user` an entry of the user's kinds; for any other role
/// (such as `developer`) none.
pub proof fn law_message_roles(v: JsonView, p: JsonView)
    requires
        event_of(v, "event_msg"@, p, "agent_message"@) || event_of(
            v,
            "response_item"@,
            p,
            "message"@,
        ),
    ensures
        event_of(v, "event_msg"@, p, "agent_message"@) ==> extract_entry(v) == match string_field(
            p,
            "message"@,
        ) {
            Some(m) => if trim(m).len() > 0 {
                Some(EntryView { kind: RenderedEntryKind::Codex, content: trim(m) })
            } else {
                None
            },
            None => None,
        },
        event_of(v, "response_item"@, p, "message"@) ==> match (
            string_field(p, "role"@),
            extract_text(p),
        ) {
            (Some(role), Some(t)) => if trim(t).len() == 0 {
                extract_entry(v) is None
            } else if role == "assistant"@ || role == "model"@ {
                extract_entry(v) == Some(
                    EntryView { kind: RenderedEntryKind::Codex, content: trim(t) },
                )
            } else if role == "tool"@ {
                extract_entry(v) == Some(
                    EntryView { kind: RenderedEntryKind::ToolResult, content: trim(t) },
                )
            } else if role == "system"@ {
                extract_entry(v) == Some(
                    EntryView { kind: RenderedEntryKind::System, content: trim(t) },
                )
            } else if role == "user"@ {
                extract_entry(v) matches Some(e) && (e.kind == RenderedEntryKind::You
                    || e.kind == RenderedEntryKind::Context || e.kind == RenderedEntryKind::Task)
            } else {
                extract_entry(v) is None
            },
            _ => extract_entry(v) is None,
        },
{
    reveal_strlit("response_item");
    reveal_strlit("event_msg");
    reveal_strlit("user_message");
    reveal_strlit("agent_message");
    reveal_strlit("message");
    assert("event_msg"@.len() == 9 && "response_item"@.len() == 13 && "user_message"@.len()
        == 12 && "agent_message"@.len() == 13);
    reveal_strlit("assistant");
    reveal_strlit("model");
    reveal_strlit("tool");
    reveal_strlit("system");
    reveal_strlit("user");
    assert("assistant"@.len() == 9 && "model"@.len() == 5 && "tool"@.len() == 4 && "system"@.len()
        == 6 && "user"@.len() == 4);
    assert("tool"@ != "user"@) by {
        assert("tool"@[0] != "user"@[0]);
    }
    if let Some(t) = extract_text(p) {
        lemma_trim_idempotent(t);
    }
    if let Some(m) = string_field(p, "message"@) {
        lemma_trim_idempotent(m);
    }
}

} // verus!
