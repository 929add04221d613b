//! Clip candidates out of a language model's reply.

use vstd::prelude::*;
use vstd::string::StringExecFns;
use vstd::string::StrSliceExecFns;
use crate::json::{
    item_views, json_document, lemma_view_items, member_views, opt_items, parse_json, Json,
    JsonView,
};
use crate::models::{draft_views, CandidateDraft, DraftView};
use crate::number::{Reading, UNIT};
use crate::text::{
    blank, chars_of, is_blank, is_space, law_prefix, law_trim_around, opt_str, strip_copies_end,
    strip_copies_end_of, strip_copies_start, strip_copies_start_of, trim, trimmed,
};

verus! {

/// Where a reader of JSON stands: outside strings, inside one, or inside one
/// right after a backslash.
#[derive(Clone, Copy, PartialEq, Eq, Structural)]
pub enum Place {
    Outside,
    Quoted,
    Escaped,
}

/// The place after one more character.
pub open spec fn next_place(p: Place, c: char) -> Place {
    match p {
        Place::Outside => if c == '"' {
            Place::Quoted
        } else {
            Place::Outside
        },
        Place::Quoted => if c == '\\' {
            Place::Escaped
        } else if c == '"' {
            Place::Outside
        } else {
            Place::Quoted
        },
        Place::Escaped => Place::Quoted,
    }
}

/// The place reached after the characters `s[from..to]`.
pub open spec fn place(s: Seq<char>, from: int, to: int) -> Place
    decreases to - from,
{
    if to <= from {
        Place::Outside
    } else {
        next_place(place(s, from, to - 1), s[to - 1])
    }
}

/// The bracket that closes `open`.
pub open spec fn closing(open: char) -> char {
    if open == '{' {
        '}'
    } else {
        ']'
    }
}

/// How many brackets like `s[from]` are open after the characters
/// `s[from..to]`, not counting those inside strings.
pub open spec fn nesting(s: Seq<char>, from: int, to: int) -> int
    decreases to - from,
{
    if to <= from {
        0
    } else {
        nesting(s, from, to - 1) + if place(s, from, to - 1) != Place::Outside {
            0int
        } else if s[to - 1] == s[from] {
            1
        } else if s[to - 1] == closing(s[from]) {
            -1
        } else {
            0
        }
    }
}

/// The bracket at `from` is closed right before `end`, and not earlier.
pub open spec fn closes_at(s: Seq<char>, from: int, end: int) -> bool {
    &&& from < end <= s.len()
    &&& nesting(s, from, end) == 0
    &&& forall|k: int| from < k < end ==> #[trigger] nesting(s, from, k) != 0
}

/// The character opens an object or an array.
pub open spec fn opens(c: char) -> bool {
    c == '{' || c == '['
}

/// `s[from..end]` is the first balanced object or array in `s`.
pub open spec fn is_span(s: Seq<char>, from: int, end: int) -> bool {
    &&& 0 <= from < s.len()
    &&& opens(s[from])
    &&& forall|k: int| 0 <= k < from ==> !opens(#[trigger] s[k])
    &&& closes_at(s, from, end)
}

/// Two spans of one text are the same.
proof fn lemma_span_unique(s: Seq<char>, a: int, b: int, c: int, d: int)
    requires
        is_span(s, a, b),
        is_span(s, c, d),
    ensures
        a == c,
        b == d,
{
    assert(opens(s[a]) && opens(s[c]));
    if b < d {
        assert(nesting(s, c, b) != 0);
    }
    if d < b {
        assert(nesting(s, a, d) != 0);
    }
}

/// The first balanced object or array in `s`.
pub open spec fn json_span(s: Seq<char>) -> Option<Seq<char>> {
    if exists|from: int, end: int| is_span(s, from, end) {
        let (from, end) = choose|from: int, end: int| is_span(s, from, end);
        Some(s.subrange(from, end))
    } else {
        None
    }
}

/// A span that is known is the one that [`json_span`] finds.
proof fn lemma_span_found(s: Seq<char>, from: int, end: int)
    requires
        is_span(s, from, end),
    ensures
        json_span(s) == Some(s.subrange(from, end)),
{
    let (a, b) = choose|a: int, b: int| is_span(s, a, b);
    lemma_span_unique(s, from, end, a, b);
}

/// Finds the first balanced JSON object or array inside a model reply.
///
/// Not every model can be held to JSON alone: the payload often comes wrapped in
/// a sentence or two. Brackets are matched, and those inside string literals
/// are skipped.
pub fn extract_json_span(text: &str) -> (res: Option<&str>)
    ensures
        opt_str(res) == json_span(text@),
{
    let v = chars_of(text);
    let ghost s = v@;
    let mut start: usize = 0;
    while start < v.len() && v[start] != '{' && v[start] != '['
        invariant
            start <= v@.len(),
            s == v@,
            forall|k: int| 0 <= k < start ==> !opens(#[trigger] s[k]),
        decreases v@.len() - start,
    {
        start += 1;
    }
    if start == v.len() {
        return None;
    }
    let open = v[start];
    let close = if open == '{' { '}' } else { ']' };
    let mut depth: i128 = 0;
    let mut at = Place::Outside;
    let mut i: usize = start;
    while i < v.len()
        invariant
            v@ == s,
            s == text@,
            start <= i <= v@.len(),
            start < v@.len(),
            open == s[start as int],
            opens(open),
            close == closing(open),
            forall|k: int| 0 <= k < start ==> !opens(#[trigger] s[k]),
            at == place(s, start as int, i as int),
            depth == nesting(s, start as int, i as int),
            -(i - start) <= depth <= i - start,
            forall|k: int| start < k <= i ==> #[trigger] nesting(s, start as int, k) != 0,
        decreases v@.len() - i,
    {
        let c = v[i];
        let ghost before = depth;
        let next = match at {
            Place::Outside => {
                if c == open {
                    depth += 1;
                } else if c == close {
                    depth -= 1;
                }
                if c == '"' {
                    Place::Quoted
                } else {
                    Place::Outside
                }
            },
            Place::Quoted => if c == '\\' {
                Place::Escaped
            } else if c == '"' {
                Place::Outside
            } else {
                Place::Quoted
            },
            Place::Escaped => Place::Quoted,
        };
        at = next;
        i += 1;
        assert(depth == nesting(s, start as int, i as int));
        if depth == 0 {
            proof {
                assert(closes_at(s, start as int, i as int));
                lemma_span_found(s, start as int, i as int);
            }
            return Some(text.substring_char(start, i));
        }
    }
    proof {
        if exists|a: int, b: int| is_span(s, a, b) {
            let (a, b) = choose|a: int, b: int| is_span(s, a, b);
            assert(opens(s[a]) && opens(s[start as int]));
            assert(a == start);
            assert(nesting(s, start as int, b) != 0);
        }
    }
    None
}

/// Reading a text that stands inside another gives the same places and nesting.
proof fn lemma_shift(s: Seq<char>, d: Seq<char>, at: int, k: int)
    requires
        0 <= at,
        0 <= k <= d.len(),
        at + d.len() <= s.len(),
        forall|i: int| 0 <= i < d.len() ==> s[at + i] == #[trigger] d[i],
    ensures
        place(s, at, at + k) == place(d, 0, k),
        nesting(s, at, at + k) == nesting(d, 0, k),
    decreases k,
{
    if k > 0 {
        lemma_shift(s, d, at, k - 1);
        assert(s[at + (k - 1)] == d[k - 1]);
        assert(s[at + 0] == d[0]);
    }
}

/// A balanced object or array is found whole, whatever prose follows it and
/// whatever prose without brackets precedes it.
pub proof fn law_span_ignores_prose(before: Seq<char>, payload: Seq<char>, after: Seq<char>)
    requires
        forall|k: int| 0 <= k < before.len() ==> !opens(#[trigger] before[k]),
        json_span(payload) == Some(payload),
    ensures
        json_span(before + payload + after) == Some(payload),
{
    let s = before + payload + after;
    let at = before.len() as int;
    let (a, b) = choose|a: int, b: int| is_span(payload, a, b);
    assert(payload.subrange(a, b) == payload);
    assert(a == 0 && b == payload.len());
    assert(forall|i: int| 0 <= i < payload.len() ==> s[at + i] == #[trigger] payload[i]);
    assert(is_span(s, at, at + payload.len())) by {
        assert(s[at + 0] == payload[0]);
        assert forall|k: int| 0 <= k < at implies !opens(#[trigger] s[k]) by {
            assert(s[k] == before[k]);
        }
        lemma_shift(s, payload, at, payload.len() as int);
        assert forall|k: int| at < k < at + payload.len() implies #[trigger] nesting(s, at, k)
            != 0 by {
            lemma_shift(s, payload, at, k - at);
            assert(nesting(payload, 0, k - at) != 0);
        }
    }
    lemma_span_found(s, at, at + payload.len());
    assert(s.subrange(at, at + payload.len()) =~= payload);
}

/// What is found is itself balanced: looking into it finds all of it.
pub proof fn law_span_is_balanced(s: Seq<char>)
    ensures
        json_span(s) matches Some(t) ==> {
            &&& json_span(t) == Some(t)
            &&& t.len() >= 2
            &&& opens(t[0])
            &&& t.last() == closing(t[0])
        },
{
    if let Some(t) = json_span(s) {
        let (a, b) = choose|a: int, b: int| is_span(s, a, b);
        assert(t == s.subrange(a, b));
        assert(forall|i: int| 0 <= i < t.len() ==> s[a + i] == #[trigger] t[i]);
        assert(t[0] == s[a + 0]);
        assert(is_span(t, 0, t.len() as int)) by {
            lemma_shift(s, t, a, t.len() as int);
            assert forall|k: int| 0 < k < t.len() implies #[trigger] nesting(t, 0, k) != 0 by {
                lemma_shift(s, t, a, k);
                assert(nesting(s, a, a + k) != 0);
            }
        }
        lemma_span_found(t, 0, t.len() as int);
        assert(t.subrange(0, t.len() as int) =~= t);
        let n = t.len() as int;
        reveal_with_fuel(nesting, 2);
        reveal_with_fuel(place, 2);
        assert(nesting(t, 0, 1) == 1);
        assert(n >= 2);
        assert(nesting(t, 0, n - 1) != 0);
        lemma_nesting_sign(t, n - 1);
        assert(t[n - 1] == closing(t[0]));
    }
}

/// Until the first bracket is closed, at least one is open.
proof fn lemma_nesting_sign(t: Seq<char>, k: int)
    requires
        1 <= k <= t.len(),
        opens(t[0]),
        forall|j: int| 0 < j <= k ==> #[trigger] nesting(t, 0, j) != 0,
    ensures
        nesting(t, 0, k) > 0,
    decreases k,
{
    reveal_with_fuel(nesting, 2);
    reveal_with_fuel(place, 2);
    if k > 1 {
        lemma_nesting_sign(t, k - 1);
        assert(nesting(t, 0, k) != 0);
    }
}

/// How long a draft lasts.
pub open spec fn length(d: DraftView) -> int {
    d.end - d.start
}

/// How long two drafts run at the same time.
pub open spec fn overlap(a: DraftView, b: DraftView) -> int {
    (if a.end < b.end { a.end } else { b.end }) - (if a.start > b.start { a.start } else { b.start })
}

/// The shorter of two lengths.
pub open spec fn shorter(a: DraftView, b: DraftView) -> int {
    if length(a) < length(b) {
        length(a)
    } else {
        length(b)
    }
}

/// More than `limit` billionths of the shorter draft lie in the other.
pub open spec fn repeats(a: DraftView, b: DraftView, limit: int) -> bool {
    &&& overlap(a, b) > 0
    &&& shorter(a, b) > 0
    &&& overlap(a, b) * UNIT > limit * shorter(a, b)
}

/// Some draft of `kept` is repeated by `d`.
pub open spec fn repeats_any(d: DraftView, kept: Seq<DraftView>, limit: int) -> bool {
    exists|i: int| 0 <= i < kept.len() && repeats(d, #[trigger] kept[i], limit)
}

/// The drafts that last, without those that mostly repeat an earlier one that
/// stays.
pub open spec fn distinct_moments(drafts: Seq<DraftView>, limit: int) -> Seq<DraftView>
    decreases drafts.len(),
{
    if drafts.len() == 0 {
        Seq::empty()
    } else {
        let kept = distinct_moments(drafts.drop_last(), limit);
        let d = drafts.last();
        if length(d) <= 0 || repeats_any(d, kept, limit) {
            kept
        } else {
            kept.push(d)
        }
    }
}

/// Whether `d` mostly repeats `k`.
fn repeats_moment(d: &CandidateDraft, k: &CandidateDraft, limit: i64) -> (res: bool)
    ensures
        res == repeats(d@, k@, limit as int),
{
    let end: i128 = if d.end < k.end { d.end as i128 } else { k.end as i128 };
    let start: i128 = if d.start > k.start { d.start as i128 } else { k.start as i128 };
    let common: i128 = end - start;
    if common <= 0 {
        return false;
    }
    let a: i128 = d.end as i128 - d.start as i128;
    let b: i128 = k.end as i128 - k.start as i128;
    let least: i128 = if a < b { a } else { b };
    if least <= 0 {
        return false;
    }
    assert(-0x8000_0000_0000_0000 * 0x1_0000_0000_0000_0000 <= limit * least
        <= 0x7fff_ffff_ffff_ffff * 0x1_0000_0000_0000_0000) by (nonlinear_arith)
        requires
            -0x8000_0000_0000_0000 <= limit <= 0x7fff_ffff_ffff_ffff,
            0 < least <= 0x1_0000_0000_0000_0000,
    ;
    common * 1_000_000_000 > limit as i128 * least
}

/// Drops drafts that mostly repeat a higher-scoring one.
///
/// Models return the same moment at several boundaries, so the best-scoring
/// version of an overlapping group wins. Overlap is measured against the
/// shorter draft: a short clip wholly inside a long one is a duplicate even
/// though it covers little of it. `max_overlap` is in billionths.
pub fn suppress_overlaps(sorted_by_score: Vec<CandidateDraft>, max_overlap: i64) -> (res: Vec<
    CandidateDraft,
>)
    ensures
        draft_views(res@) == distinct_moments(draft_views(sorted_by_score@), max_overlap as int),
{
    let ghost all = draft_views(sorted_by_score@);
    let mut kept: Vec<CandidateDraft> = Vec::new();
    assert(all.take(0) =~= Seq::<DraftView>::empty());
    assert(draft_views(kept@) =~= Seq::<DraftView>::empty());
    for candidate in it: sorted_by_score
        invariant
            all == draft_views(it.seq()),
            draft_views(kept@) == distinct_moments(all.take(it.index()), max_overlap as int),
    {
        let ghost n = it.index();
        let ghost before = draft_views(kept@);
        proof {
            assert(all.take(n + 1).drop_last() =~= all.take(n));
            assert(all.take(n + 1).last() == candidate@);
        }
        let mut duplicate: bool = false;
        if candidate.end > candidate.start {
            let mut i: usize = 0;
            while i < kept.len() && !duplicate
                invariant
                    i <= kept@.len(),
                    before == draft_views(kept@),
                    duplicate ==> repeats_any(candidate@, before, max_overlap as int),
                    !duplicate ==> forall|k: int|
                        0 <= k < i ==> !repeats(candidate@, #[trigger] before[k], max_overlap as int),
                decreases kept@.len() - i,
            {
                if repeats_moment(&candidate, &kept[i], max_overlap) {
                    assert(repeats(candidate@, before[i as int], max_overlap as int));
                    duplicate = true;
                }
                i += 1;
            }
            if !duplicate {
                kept.push(candidate);
                assert(draft_views(kept@) =~= before.push(candidate@));
            }
        }
    }
    assert(all.take(all.len() as int) =~= all);
    kept
}

/// The drafts that stay come from the input, last, and none mostly repeats an
/// earlier one.
pub proof fn law_distinct_moments(drafts: Seq<DraftView>, limit: int)
    ensures
        ({
            let kept = distinct_moments(drafts, limit);
            &&& forall|i: int| 0 <= i < kept.len() ==> drafts.contains(#[trigger] kept[i])
            &&& forall|i: int| 0 <= i < kept.len() ==> length(#[trigger] kept[i]) > 0
            &&& forall|i: int, j: int|
                0 <= i < j < kept.len() ==> !repeats(#[trigger] kept[j], #[trigger] kept[i], limit)
        }),
    decreases drafts.len(),
{
    if drafts.len() > 0 {
        let rest = drafts.drop_last();
        let before = distinct_moments(rest, limit);
        let kept = distinct_moments(drafts, limit);
        law_distinct_moments(rest, limit);
        assert forall|i: int| 0 <= i < kept.len() implies drafts.contains(#[trigger] kept[i]) by {
            if i < before.len() {
                assert(rest.contains(before[i]));
                let k = choose|k: int| 0 <= k < rest.len() && rest[k] == before[i];
                assert(drafts[k] == kept[i]);
            } else {
                assert(drafts[drafts.len() - 1] == kept[i]);
            }
        }
    }
}

/// Every draft that lasts either stays or mostly repeats one that stays and
/// that came before it.
pub proof fn law_nothing_lost(drafts: Seq<DraftView>, limit: int, i: int)
    requires
        0 <= i < drafts.len(),
        length(drafts[i]) > 0,
    ensures
        distinct_moments(drafts, limit).contains(drafts[i]) || exists|k: int|
            0 <= k < i && distinct_moments(drafts, limit).contains(#[trigger] drafts[k]) && repeats(
                drafts[i],
                drafts[k],
                limit,
            ),
    decreases drafts.len(),
{
    let rest = drafts.drop_last();
    let before = distinct_moments(rest, limit);
    let kept = distinct_moments(drafts, limit);
    assert forall|d: DraftView| before.contains(d) implies kept.contains(d) by {
        let k = choose|k: int| 0 <= k < before.len() && before[k] == d;
        assert(kept[k] == d);
    }
    if i < rest.len() {
        law_nothing_lost(rest, limit, i);
        assert(rest[i] == drafts[i]);
        if !before.contains(rest[i]) {
            let k = choose|k: int|
                0 <= k < i && before.contains(#[trigger] rest[k]) && repeats(rest[i], rest[k], limit);
            assert(drafts[k] == rest[k]);
        }
    } else if repeats_any(drafts.last(), before, limit) {
        let j = choose|j: int| 0 <= j < before.len() && repeats(drafts.last(), #[trigger] before[j], limit);
        law_distinct_moments(rest, limit);
        assert(rest.contains(before[j]));
        let k = choose|k: int| 0 <= k < rest.len() && rest[k] == before[j];
        assert(drafts[k] == before[j]);
        assert(before.contains(before[j]));
    } else {
        assert(kept[kept.len() - 1] == drafts[i]);
    }
}

/// The first draft that lasts, which scores highest, stays.
pub proof fn law_best_stays(drafts: Seq<DraftView>, limit: int)
    requires
        drafts.len() > 0,
        length(drafts[0]) > 0,
    ensures
        distinct_moments(drafts, limit).len() > 0,
        distinct_moments(drafts, limit)[0] == drafts[0],
    decreases drafts.len(),
{
    if drafts.len() > 1 {
        law_best_stays(drafts.drop_last(), limit);
    } else {
        assert(distinct_moments(drafts.drop_last(), limit).len() == 0);
    }
}

/// Suppressing once more changes nothing.
pub proof fn law_suppression_settles(drafts: Seq<DraftView>, limit: int)
    ensures
        distinct_moments(distinct_moments(drafts, limit), limit) == distinct_moments(drafts, limit),
{
    law_distinct_moments(drafts, limit);
    lemma_all_distinct_stay(distinct_moments(drafts, limit), limit);
}

/// Where nothing repeats anything before it, everything stays.
proof fn lemma_all_distinct_stay(drafts: Seq<DraftView>, limit: int)
    requires
        forall|i: int| 0 <= i < drafts.len() ==> length(#[trigger] drafts[i]) > 0,
        forall|i: int, j: int|
            0 <= i < j < drafts.len() ==> !repeats(#[trigger] drafts[j], #[trigger] drafts[i], limit),
    ensures
        distinct_moments(drafts, limit) == drafts,
    decreases drafts.len(),
{
    if drafts.len() > 0 {
        let rest = drafts.drop_last();
        lemma_all_distinct_stay(rest, limit);
        assert(!repeats_any(drafts.last(), rest, limit));
        assert(rest.push(drafts.last()) =~= drafts);
    } else {
        assert(drafts =~= Seq::empty());
    }
}

/// A score that is no number and ranks above every score.
pub const NO_SCORE_HIGH: i64 = i64::MAX;

/// A score that is no number and ranks below every score.
pub const NO_SCORE_LOW: i64 = i64::MIN;

/// The shortest draft that is worth a clip when nothing longer was proposed.
pub const LEAST_LENGTH: i64 = 5_000_000_000;

/// How many candidates a reply yields at most.
pub const MOST_CANDIDATES: usize = 10;

/// How much of the shorter of two candidates may lie in the other.
pub const MOST_OVERLAP: i64 = 500_000_000;

/// The number of the member called `key`, or `default` where there is none.
pub open spec fn reading_at(item: JsonView, key: Seq<char>, default: i64) -> Reading {
    match item.get(key) {
        Some(v) => match v.reading() {
            Some(r) => r,
            None => Reading::Value(default),
        },
        None => Reading::Value(default),
    }
}

/// A score on the scale of zero to one: models also answer on scales of ten and
/// of a hundred.
pub open spec fn unit_score(r: Reading) -> int {
    match r {
        Reading::Value(v) => if UNIT < v <= 10 * UNIT {
            v as int / 10
        } else if 10 * UNIT < v <= 100 * UNIT {
            v as int / 100
        } else if v > 100 * UNIT {
            UNIT as int
        } else if v < 0 {
            0
        } else {
            v as int
        },
        Reading::NotANumber(negative) => if negative {
            NO_SCORE_LOW as int
        } else {
            NO_SCORE_HIGH as int
        },
    }
}

/// The text of the member called `key`, or nothing.
pub open spec fn text_or_nothing(item: JsonView, key: Seq<char>) -> Seq<char> {
    match item.text_at(key) {
        Some(t) => t,
        None => Seq::empty(),
    }
}

/// The draft that one item of a reply describes. An item whose start or end is
/// no number describes none.
pub open spec fn draft_of(item: JsonView) -> Option<DraftView> {
    match (reading_at(item, "start"@, 0), reading_at(item, "end"@, 0)) {
        (Reading::Value(start), Reading::Value(end)) => Some(
            DraftView {
                start: start as int,
                end: end as int,
                score: unit_score(reading_at(item, "score"@, 800_000_000)),
                hook: text_or_nothing(item, "hook"@),
                rationale: text_or_nothing(item, "rationale"@),
            },
        ),
        _ => None,
    }
}

/// The drafts that the items of a reply describe, in order.
pub open spec fn drafts_of(items: Seq<JsonView>) -> Seq<DraftView>
    decreases items.len(),
{
    if items.len() == 0 {
        Seq::empty()
    } else {
        match draft_of(items.last()) {
            Some(d) => drafts_of(items.drop_last()).push(d),
            None => drafts_of(items.drop_last()),
        }
    }
}

/// The names under which models list their candidates, in order of preference.
pub open spec fn list_names() -> Seq<Seq<char>> {
    seq![
        "candidates"@,
        "Candidates"@,
        "moments"@,
        "clips"@,
        "segments"@,
        "results"@,
    ]
}

/// The first of the named members that is an array.
pub open spec fn named_list(doc: JsonView, names: Seq<Seq<char>>) -> Option<Seq<JsonView>>
    decreases names.len(),
{
    if names.len() == 0 {
        None
    } else if doc.items_at(names[0]) is Some {
        doc.items_at(names[0])
    } else {
        named_list(doc, names.drop_first())
    }
}

/// The first member that is an array, whatever it is called.
pub open spec fn any_list(members: Seq<(Seq<char>, JsonView)>) -> Option<Seq<JsonView>>
    decreases members.len(),
{
    if members.len() == 0 {
        None
    } else if members[0].1.items() is Some {
        members[0].1.items()
    } else {
        any_list(members.drop_first())
    }
}

/// The candidates that a reply lists: the reply itself where it is an array,
/// else a member that is one, else the reply as the only candidate where it has
/// a start and an end.
pub open spec fn listed(doc: JsonView) -> Option<Seq<JsonView>> {
    match doc {
        JsonView::Array(items) => Some(items),
        JsonView::Object(members) => if named_list(doc, list_names()) is Some {
            named_list(doc, list_names())
        } else if any_list(members) is Some {
            any_list(members)
        } else if doc.get("start"@) is Some && doc.get("end"@) is Some {
            Some(seq![doc])
        } else {
            None
        },
        _ => None,
    }
}

/// The draft lasts at least `least` and its hook is not blank.
pub open spec fn worthwhile(d: DraftView, least: int) -> bool {
    length(d) >= least && !is_blank(d.hook)
}

/// The drafts that are worthwhile, in order.
pub open spec fn worthwhile_of(drafts: Seq<DraftView>, least: int) -> Seq<DraftView>
    decreases drafts.len(),
{
    if drafts.len() == 0 {
        Seq::empty()
    } else if worthwhile(drafts.last(), least) {
        worthwhile_of(drafts.drop_last(), least).push(drafts.last())
    } else {
        worthwhile_of(drafts.drop_last(), least)
    }
}

/// The worthwhile drafts of the wanted length or, where there are none, of the
/// least length.
pub open spec fn chosen(drafts: Seq<DraftView>, wanted: int) -> Seq<DraftView> {
    if worthwhile_of(drafts, wanted).len() == 0 {
        worthwhile_of(drafts, LEAST_LENGTH as int)
    } else {
        worthwhile_of(drafts, wanted)
    }
}

/// `ranked` with `d` put behind every draft that scores at least as high.
pub open spec fn insert_ranked(ranked: Seq<DraftView>, d: DraftView) -> Seq<DraftView>
    decreases ranked.len(),
{
    if ranked.len() > 0 && ranked.last().score < d.score {
        insert_ranked(ranked.drop_last(), d).push(ranked.last())
    } else {
        ranked.push(d)
    }
}

/// The drafts from the highest score to the lowest; equal scores keep their
/// order.
pub open spec fn by_score(drafts: Seq<DraftView>) -> Seq<DraftView>
    decreases drafts.len(),
{
    if drafts.len() == 0 {
        Seq::empty()
    } else {
        insert_ranked(by_score(drafts.drop_last()), drafts.last())
    }
}

/// At most the first `n` drafts.
pub open spec fn at_most(drafts: Seq<DraftView>, n: int) -> Seq<DraftView> {
    if drafts.len() > n {
        drafts.take(n)
    } else {
        drafts
    }
}

/// The candidates that come of a list of drafts.
pub open spec fn best_of(drafts: Seq<DraftView>, wanted: int) -> Seq<DraftView> {
    at_most(
        distinct_moments(by_score(chosen(drafts, wanted)), MOST_OVERLAP as int),
        MOST_CANDIDATES as int,
    )
}

/// Reads the number of a member.
fn number_at(item: &Json, key: &str, default: i64) -> (res: Reading)
    ensures
        res == reading_at(item@, key@, default),
{
    match item.get(key) {
        Some(v) => match v.reading() {
            Some(r) => r,
            None => Reading::Value(default),
        },
        None => Reading::Value(default),
    }
}

/// Brings a score to the scale of zero to one.
fn scale_score(r: Reading) -> (res: i64)
    ensures
        res == unit_score(r),
{
    match r {
        Reading::Value(v) => if v > UNIT && v <= 10_000_000_000 {
            v / 10
        } else if v > 10_000_000_000 && v <= 100_000_000_000 {
            v / 100
        } else if v > 100_000_000_000 {
            UNIT
        } else if v < 0 {
            0
        } else {
            v
        },
        Reading::NotANumber(negative) => if negative {
            NO_SCORE_LOW
        } else {
            NO_SCORE_HIGH
        },
    }
}

/// Reads the text of a member, or nothing.
fn text_or_empty(item: &Json, key: &str) -> (res: String)
    ensures
        res@ == text_or_nothing(item@, key@),
{
    match item.text_at(key) {
        Some(t) => t.to_owned(),
        None => String::new(),
    }
}

/// Reads the draft that one item describes.
fn read_draft(item: &Json) -> (res: Option<CandidateDraft>)
    ensures
        match (res, draft_of(item@)) {
            (Some(d), Some(x)) => d@ == x,
            (None, None) => true,
            _ => false,
        },
{
    match (number_at(item, "start", 0), number_at(item, "end", 0)) {
        (Reading::Value(start), Reading::Value(end)) => Some(
            CandidateDraft {
                start,
                end,
                score: scale_score(number_at(item, "score", 800_000_000)),
                hook: text_or_empty(item, "hook"),
                rationale: text_or_empty(item, "rationale"),
            },
        ),
        _ => None,
    }
}

/// Reads the drafts of a list of items.
fn read_drafts(items: &Vec<Json>) -> (res: Vec<CandidateDraft>)
    ensures
        draft_views(res@) == drafts_of(item_views(items@)),
{
    let ghost all = item_views(items@);
    let mut res: Vec<CandidateDraft> = Vec::new();
    let mut i: usize = 0;
    assert(all.take(0) =~= Seq::<JsonView>::empty());
    assert(draft_views(res@) =~= Seq::<DraftView>::empty());
    while i < items.len()
        invariant
            i <= items@.len(),
            all == item_views(items@),
            draft_views(res@) == drafts_of(all.take(i as int)),
        decreases items@.len() - i,
    {
        let ghost before = draft_views(res@);
        assert(all.take(i + 1).drop_last() =~= all.take(i as int));
        assert(all.take(i + 1).last() == items@[i as int]@);
        match read_draft(&items[i]) {
            Some(d) => {
                res.push(d);
                assert(draft_views(res@) =~= before.push(d@));
            },
            None => {},
        }
        i += 1;
    }
    assert(all.take(i as int) =~= all);
    res
}

/// Finds the first member that is an array.
fn first_list(members: &Vec<(String, Json)>) -> (res: Option<&Vec<Json>>)
    ensures
        opt_items(res) == any_list(member_views(members@)),
{
    let ghost all = member_views(members@);
    let mut i: usize = 0;
    assert(all.skip(0) =~= all);
    while i < members.len()
        invariant
            i <= members@.len(),
            all == member_views(members@),
            any_list(all) == any_list(all.skip(i as int)),
        decreases members@.len() - i,
    {
        assert(all.skip(i as int)[0].1 == members@[i as int].1@);
        match members[i].1.items() {
            Some(v) => {
                return Some(v);
            },
            None => {},
        }
        assert(all.skip(i as int).drop_first() =~= all.skip(i + 1));
        i += 1;
    }
    None
}

/// Reads the drafts that a reply lists, if it lists any candidates at all.
fn listed_drafts(doc: &Json) -> (res: Option<Vec<CandidateDraft>>)
    ensures
        match (res, listed(doc@)) {
            (Some(d), Some(items)) => draft_views(d@) == drafts_of(items),
            (None, None) => true,
            _ => false,
        },
{
    proof {
        lemma_view_items(*doc);
        reveal_with_fuel(named_list, 7);
        let n = list_names();
        assert(n.drop_first() =~= n.skip(1));
        assert(n.skip(1).drop_first() =~= n.skip(2));
        assert(n.skip(2).drop_first() =~= n.skip(3));
        assert(n.skip(3).drop_first() =~= n.skip(4));
        assert(n.skip(4).drop_first() =~= n.skip(5));
        assert(n.skip(5).drop_first() =~= n.skip(6));
    }
    match doc {
        Json::Array(items) => Some(read_drafts(items)),
        Json::Object(members) => {
            if let Some(v) = doc.items_at("candidates") {
                return Some(read_drafts(v));
            }
            if let Some(v) = doc.items_at("Candidates") {
                return Some(read_drafts(v));
            }
            if let Some(v) = doc.items_at("moments") {
                return Some(read_drafts(v));
            }
            if let Some(v) = doc.items_at("clips") {
                return Some(read_drafts(v));
            }
            if let Some(v) = doc.items_at("segments") {
                return Some(read_drafts(v));
            }
            if let Some(v) = doc.items_at("results") {
                return Some(read_drafts(v));
            }
            assert(named_list(doc@, list_names()) is None);
            if let Some(v) = first_list(members) {
                return Some(read_drafts(v));
            }
            if doc.get("start").is_some() && doc.get("end").is_some() {
                let mut only: Vec<CandidateDraft> = Vec::new();
                if let Some(d) = read_draft(doc) {
                    only.push(d);
                }
                proof {
                    let one = seq![doc@];
                    reveal_with_fuel(drafts_of, 2);
                    assert(one.drop_last() =~= Seq::<JsonView>::empty());
                    assert(draft_views(only@) =~= drafts_of(one));
                }
                return Some(only);
            }
            None
        },
        _ => None,
    }
}

/// A copy of a draft.
fn copy_draft(d: &CandidateDraft) -> (res: CandidateDraft)
    ensures
        res@ == d@,
{
    CandidateDraft {
        start: d.start,
        end: d.end,
        score: d.score,
        hook: d.hook.clone(),
        rationale: d.rationale.clone(),
    }
}

/// Copies the worthwhile drafts.
fn keep_worthwhile(drafts: &Vec<CandidateDraft>, least: i64) -> (res: Vec<CandidateDraft>)
    ensures
        draft_views(res@) == worthwhile_of(draft_views(drafts@), least as int),
{
    let ghost all = draft_views(drafts@);
    let mut res: Vec<CandidateDraft> = Vec::new();
    let mut i: usize = 0;
    assert(all.take(0) =~= Seq::<DraftView>::empty());
    assert(draft_views(res@) =~= Seq::<DraftView>::empty());
    while i < drafts.len()
        invariant
            i <= drafts@.len(),
            all == draft_views(drafts@),
            draft_views(res@) == worthwhile_of(all.take(i as int), least as int),
        decreases drafts@.len() - i,
    {
        let ghost before = draft_views(res@);
        let d = &drafts[i];
        assert(all.take(i + 1).drop_last() =~= all.take(i as int));
        assert(all.take(i + 1).last() == d@);
        if d.end as i128 - d.start as i128 >= least as i128 && !blank(d.hook.as_str()) {
            let copy = copy_draft(d);
            res.push(copy);
            assert(draft_views(res@) =~= before.push(d@));
        }
        i += 1;
    }
    assert(all.take(i as int) =~= all);
    res
}

/// Inserting behind the drafts that score at least as high.
proof fn lemma_insert_ranked(ranked: Seq<DraftView>, d: DraftView, p: int)
    requires
        0 <= p <= ranked.len(),
        forall|k: int| p <= k < ranked.len() ==> (#[trigger] ranked[k]).score < d.score,
        p > 0 ==> ranked[p - 1].score >= d.score,
    ensures
        insert_ranked(ranked, d) == ranked.insert(p, d),
    decreases ranked.len(),
{
    if p < ranked.len() {
        let rest = ranked.drop_last();
        assert(ranked[ranked.len() - 1].score < d.score);
        lemma_insert_ranked(rest, d, p);
        assert(rest.insert(p, d).push(ranked.last()) =~= ranked.insert(p, d));
    } else {
        if ranked.len() > 0 {
            assert(ranked.last() == ranked[p - 1]);
        }
        assert(ranked.push(d) =~= ranked.insert(p, d));
    }
}

/// Sorts drafts from the highest score to the lowest; equal scores keep their
/// order.
fn sort_by_score(drafts: Vec<CandidateDraft>) -> (res: Vec<CandidateDraft>)
    ensures
        draft_views(res@) == by_score(draft_views(drafts@)),
{
    let ghost all = draft_views(drafts@);
    let mut res: Vec<CandidateDraft> = Vec::new();
    assert(all.take(0) =~= Seq::<DraftView>::empty());
    assert(draft_views(res@) =~= Seq::<DraftView>::empty());
    for d in it: drafts
        invariant
            all == draft_views(it.seq()),
            draft_views(res@) == by_score(all.take(it.index())),
    {
        let ghost n = it.index();
        let ghost ranked = draft_views(res@);
        assert(all.take(n + 1).drop_last() =~= all.take(n));
        assert(all.take(n + 1).last() == d@);
        let mut p: usize = res.len();
        while p > 0 && res[p - 1].score < d.score
            invariant
                p <= res@.len(),
                ranked == draft_views(res@),
                forall|k: int| p <= k < ranked.len() ==> (#[trigger] ranked[k]).score < d.score,
            decreases p,
        {
            assert(ranked[p - 1] == res@[p - 1]@);
            p -= 1;
        }
        proof {
            if p > 0 {
                assert(ranked[p - 1] == res@[p - 1]@);
            }
            lemma_insert_ranked(ranked, d@, p as int);
        }
        res.insert(p, d);
        assert(draft_views(res@) =~= ranked.insert(p as int, d@));
    }
    assert(all.take(all.len() as int) =~= all);
    res
}

/// Chooses, ranks and thins out drafts.
fn best_drafts(drafts: Vec<CandidateDraft>, min_duration: i64) -> (res: Vec<CandidateDraft>)
    ensures
        draft_views(res@) == best_of(draft_views(drafts@), min_duration as int),
{
    let mut candidates = keep_worthwhile(&drafts, min_duration);
    if candidates.is_empty() {
        candidates = keep_worthwhile(&drafts, LEAST_LENGTH);
    }
    let ranked = sort_by_score(candidates);
    let mut kept = suppress_overlaps(ranked, MOST_OVERLAP);
    let ghost all = draft_views(kept@);
    if kept.len() > MOST_CANDIDATES {
        kept.truncate(MOST_CANDIDATES);
        assert(draft_views(kept@) =~= all.take(MOST_CANDIDATES as int));
    }
    kept
}

/// The candidates in a parsed reply, where it lists any.
pub fn candidates_in(doc: &Json, min_duration: i64) -> (res: Option<Vec<CandidateDraft>>)
    ensures
        match (res, listed(doc@)) {
            (Some(v), Some(items)) => draft_views(v@) == best_of(
                drafts_of(items),
                min_duration as int,
            ),
            (None, None) => true,
            _ => false,
        },
{
    match listed_drafts(doc) {
        Some(drafts) => Some(best_drafts(drafts, min_duration)),
        None => None,
    }
}

/// A reply without the white space and the code fence around it.
pub open spec fn unfenced(text: Seq<char>) -> Seq<char> {
    trimmed(
        strip_copies_end(
            strip_copies_start(strip_copies_start(trimmed(text), "```json"@), "```"@),
            "```"@,
        ),
    )
}

/// Removes the white space and the code fence around a reply.
pub fn strip_fence(text: &str) -> (res: String)
    ensures
        res@ == unfenced(text@),
{
    let a = trim(text);
    let b = strip_copies_start_of(a.as_str(), "```json");
    let c = strip_copies_start_of(b.as_str(), "```");
    let d = strip_copies_end_of(c.as_str(), "```");
    trim(d.as_str())
}

/// Why a reply yields no candidates.
#[derive(Debug)]
pub enum CandidateError {
    /// The reply is no JSON and holds none; with the parser's message.
    Unreadable(String),
    /// The JSON carved out of the reply does not parse.
    UnreadableSpan,
    /// The JSON lists no candidates; with the reply.
    NoList(String),
}

/// What a [`CandidateError`] says.
pub enum CandidateErrorView {
    Unreadable(Seq<char>),
    UnreadableSpan,
    NoList(Seq<char>),
}

impl View for CandidateError {
    type V = CandidateErrorView;

    open spec fn view(&self) -> CandidateErrorView {
        match self {
            CandidateError::Unreadable(e) => CandidateErrorView::Unreadable(e@),
            CandidateError::UnreadableSpan => CandidateErrorView::UnreadableSpan,
            CandidateError::NoList(t) => CandidateErrorView::NoList(t@),
        }
    }
}

/// The message of a [`CandidateError`].
pub open spec fn error_text(e: CandidateErrorView) -> Seq<char> {
    match e {
        CandidateErrorView::Unreadable(m) => "parsing candidate JSON: "@ + m,
        CandidateErrorView::UnreadableSpan => "parsing candidate JSON"@,
        CandidateErrorView::NoList(t) =>
            "Ollama output does not contain a candidates array. Raw output: "@ + t,
    }
}

impl CandidateError {
    /// The message for the user.
    pub fn message(&self) -> (res: String)
        ensures
            res@ == error_text(self@),
    {
        match self {
            CandidateError::Unreadable(m) => {
                "parsing candidate JSON: ".to_owned().concat(m.as_str())
            },
            CandidateError::UnreadableSpan => "parsing candidate JSON".to_owned(),
            CandidateError::NoList(t) => {
                "Ollama output does not contain a candidates array. Raw output: ".to_owned().concat(
                    t.as_str(),
                )
            },
        }
    }
}

/// The document in an unfenced reply: the whole of it or, where that does not
/// parse, the first balanced object or array in it.
pub open spec fn reply_document(t: Seq<char>) -> Result<JsonView, CandidateErrorView> {
    match json_document(t) {
        Ok(doc) => Ok(doc),
        Err(e) => match json_span(t) {
            Some(span) => match json_document(span) {
                Ok(doc) => Ok(doc),
                Err(_) => Err(CandidateErrorView::UnreadableSpan),
            },
            None => Err(CandidateErrorView::Unreadable(e)),
        },
    }
}

/// The candidates that a reply yields.
pub open spec fn reply_candidates(text: Seq<char>, min_duration: int) -> Result<
    Seq<DraftView>,
    CandidateErrorView,
> {
    match reply_document(unfenced(text)) {
        Ok(doc) => match listed(doc) {
            Some(items) => Ok(best_of(drafts_of(items), min_duration)),
            None => Err(CandidateErrorView::NoList(unfenced(text))),
        },
        Err(e) => Err(e),
    }
}

/// Parses the document in an unfenced reply.
fn parse_reply(trimmed_text: &str) -> (res: Result<Json, CandidateError>)
    ensures
        match (res, reply_document(trimmed_text@)) {
            (Ok(j), Ok(doc)) => j@ == doc,
            (Err(e), Err(x)) => e@ == x,
            _ => false,
        },
{
    match parse_json(trimmed_text) {
        Ok(j) => Ok(j),
        Err(direct) => match extract_json_span(trimmed_text) {
            Some(span) => match parse_json(span) {
                Ok(j) => Ok(j),
                Err(_) => Err(CandidateError::UnreadableSpan),
            },
            None => Err(CandidateError::Unreadable(direct)),
        },
    }
}

/// Reads the candidates out of a model's reply: drafts that last at least
/// `min_duration` and have a hook, best score first, without near-duplicates.
pub fn parse_candidate_json(text: &str, min_duration: i64) -> (res: Result<
    Vec<CandidateDraft>,
    CandidateError,
>)
    ensures
        match (res, reply_candidates(text@, min_duration as int)) {
            (Ok(v), Ok(best)) => draft_views(v@) == best,
            (Err(e), Err(x)) => e@ == x,
            _ => false,
        },
{
    let reply = strip_fence(text);
    match parse_reply(reply.as_str()) {
        Ok(doc) => match candidates_in(&doc, min_duration) {
            Some(v) => Ok(v),
            None => Err(CandidateError::NoList(reply)),
        },
        Err(e) => Err(e),
    }
}

/// The drafts with exactly this score, in order.
pub open spec fn scoring(drafts: Seq<DraftView>, score: int) -> Seq<DraftView>
    decreases drafts.len(),
{
    if drafts.len() == 0 {
        Seq::empty()
    } else if drafts.last().score == score {
        scoring(drafts.drop_last(), score).push(drafts.last())
    } else {
        scoring(drafts.drop_last(), score)
    }
}

/// No draft scores higher than one before it.
pub open spec fn descending(drafts: Seq<DraftView>) -> bool {
    forall|i: int, j: int|
        0 <= i <= j < drafts.len() ==> (#[trigger] drafts[i]).score >= (#[trigger] drafts[j]).score
}

/// Insertion puts one draft among those of its score, behind them.
proof fn lemma_insert_scoring(ranked: Seq<DraftView>, d: DraftView, score: int)
    ensures
        scoring(insert_ranked(ranked, d), score) == if d.score == score {
            scoring(ranked, score).push(d)
        } else {
            scoring(ranked, score)
        },
    decreases ranked.len(),
{
    if ranked.len() > 0 && ranked.last().score < d.score {
        let rest = ranked.drop_last();
        lemma_insert_scoring(rest, d, score);
        let all = insert_ranked(rest, d).push(ranked.last());
        assert(all.drop_last() =~= insert_ranked(rest, d));
    } else {
        assert(ranked.push(d).drop_last() =~= ranked);
    }
}

/// Insertion keeps the order of scores.
proof fn lemma_insert_descending(ranked: Seq<DraftView>, d: DraftView)
    requires
        descending(ranked),
    ensures
        descending(insert_ranked(ranked, d)),
        forall|i: int|
            0 <= i < insert_ranked(ranked, d).len() ==> (#[trigger] insert_ranked(ranked, d)[i]) == d
                || ranked.contains(insert_ranked(ranked, d)[i]),
    decreases ranked.len(),
{
    let all = insert_ranked(ranked, d);
    if ranked.len() > 0 && ranked.last().score < d.score {
        let rest = ranked.drop_last();
        assert(descending(rest)) by {
            assert forall|i: int, j: int| 0 <= i <= j < rest.len() implies (#[trigger] rest[i]).score
                >= (#[trigger] rest[j]).score by {
                assert(rest[i] == ranked[i] && rest[j] == ranked[j]);
            }
        }
        lemma_insert_descending(rest, d);
        let part = insert_ranked(rest, d);
        assert forall|i: int| 0 <= i < all.len() implies (#[trigger] all[i]) == d
            || ranked.contains(all[i]) by {
            if i < part.len() {
                if part[i] != d {
                    assert(rest.contains(part[i]));
                    let k = choose|k: int| 0 <= k < rest.len() && rest[k] == part[i];
                    assert(ranked[k] == all[i]);
                }
            } else {
                assert(ranked[ranked.len() - 1] == all[i]);
            }
        }
        assert forall|i: int, j: int| 0 <= i <= j < all.len() implies (#[trigger] all[i]).score >= (
        #[trigger] all[j]).score by {
            if j < part.len() {
                assert(all[i] == part[i] && all[j] == part[j]);
            } else if i < part.len() {
                assert(all[i] == part[i]);
                if part[i] != d {
                    let k = choose|k: int| 0 <= k < rest.len() && rest[k] == part[i];
                    assert(ranked[k] == part[i]);
                    assert(ranked[ranked.len() - 1] == all[j]);
                }
            }
        }
    } else {
        assert forall|i: int| 0 <= i < all.len() implies (#[trigger] all[i]) == d
            || ranked.contains(all[i]) by {
            if i < ranked.len() {
                assert(ranked[i] == all[i]);
            }
        }
        assert forall|i: int, j: int| 0 <= i <= j < all.len() implies (#[trigger] all[i]).score >= (
        #[trigger] all[j]).score by {
            if j < ranked.len() {
                assert(all[i] == ranked[i] && all[j] == ranked[j]);
            } else if i < ranked.len() {
                assert(ranked[i].score >= ranked[ranked.len() - 1].score);
            }
        }
    }
}

/// Sorting puts the highest score first, loses and adds nothing, and keeps
/// drafts of equal score in their order.
pub proof fn law_by_score(drafts: Seq<DraftView>, score: int)
    ensures
        descending(by_score(drafts)),
        scoring(by_score(drafts), score) == scoring(drafts, score),
        by_score(drafts).len() == drafts.len(),
        forall|i: int|
            0 <= i < drafts.len() ==> drafts.contains(#[trigger] by_score(drafts)[i]),
    decreases drafts.len(),
{
    if drafts.len() > 0 {
        let rest = drafts.drop_last();
        law_by_score(rest, score);
        lemma_insert_scoring(by_score(rest), drafts.last(), score);
        lemma_insert_descending(by_score(rest), drafts.last());
        lemma_insert_len(by_score(rest), drafts.last());
        let all = by_score(drafts);
        assert forall|i: int| 0 <= i < drafts.len() implies drafts.contains(#[trigger] all[i]) by {
            if all[i] == drafts.last() {
                assert(drafts[drafts.len() - 1] == all[i]);
            } else {
                assert(by_score(rest).contains(all[i]));
                let k = choose|k: int| 0 <= k < by_score(rest).len() && by_score(rest)[k] == all[i];
                assert(rest.contains(by_score(rest)[k]));
                let m = choose|m: int| 0 <= m < rest.len() && rest[m] == all[i];
                assert(drafts[m] == all[i]);
            }
        }
    }
}

/// Insertion adds one draft.
proof fn lemma_insert_len(ranked: Seq<DraftView>, d: DraftView)
    ensures
        insert_ranked(ranked, d).len() == ranked.len() + 1,
    decreases ranked.len(),
{
    if ranked.len() > 0 && ranked.last().score < d.score {
        lemma_insert_len(ranked.drop_last(), d);
    }
}

/// Suppression keeps the order of scores.
proof fn lemma_distinct_descending(drafts: Seq<DraftView>, limit: int)
    requires
        descending(drafts),
    ensures
        descending(distinct_moments(drafts, limit)),
    decreases drafts.len(),
{
    if drafts.len() > 0 {
        let rest = drafts.drop_last();
        assert(descending(rest)) by {
            assert forall|i: int, j: int| 0 <= i <= j < rest.len() implies (#[trigger] rest[i]).score
                >= (#[trigger] rest[j]).score by {
                assert(rest[i] == drafts[i] && rest[j] == drafts[j]);
            }
        }
        lemma_distinct_descending(rest, limit);
        law_distinct_moments(rest, limit);
        let before = distinct_moments(rest, limit);
        let kept = distinct_moments(drafts, limit);
        assert forall|i: int, j: int| 0 <= i <= j < kept.len() implies (#[trigger] kept[i]).score
            >= (#[trigger] kept[j]).score by {
            if j < before.len() {
                assert(kept[i] == before[i] && kept[j] == before[j]);
            } else if i < before.len() {
                assert(rest.contains(before[i]));
                let k = choose|k: int| 0 <= k < rest.len() && rest[k] == before[i];
                assert(drafts[k] == kept[i]);
                assert(drafts[drafts.len() - 1] == kept[j]);
            }
        }
    }
}

/// What is chosen was proposed and is worthwhile.
proof fn lemma_worthwhile(drafts: Seq<DraftView>, least: int)
    ensures
        forall|i: int|
            0 <= i < worthwhile_of(drafts, least).len() ==> drafts.contains(
                #[trigger] worthwhile_of(drafts, least)[i],
            ) && worthwhile(worthwhile_of(drafts, least)[i], least),
    decreases drafts.len(),
{
    if drafts.len() > 0 {
        let rest = drafts.drop_last();
        lemma_worthwhile(rest, least);
        let all = worthwhile_of(drafts, least);
        let before = worthwhile_of(rest, least);
        assert forall|i: int| 0 <= i < all.len() implies drafts.contains(#[trigger] all[i])
            && worthwhile(all[i], least) by {
            if i < before.len() {
                assert(all[i] == before[i]);
                assert(rest.contains(before[i]));
                let k = choose|k: int| 0 <= k < rest.len() && rest[k] == before[i];
                assert(drafts[k] == all[i]);
            } else {
                assert(drafts[drafts.len() - 1] == all[i]);
            }
        }
    }
}

/// A reply yields at most ten candidates, best score first. Each was proposed,
/// has a hook and lasts as long as wanted or at least five seconds, and none
/// mostly repeats a better one.
pub proof fn law_best_of(drafts: Seq<DraftView>, wanted: int)
    ensures
        ({
            let best = best_of(drafts, wanted);
            &&& best.len() <= MOST_CANDIDATES
            &&& descending(best)
            &&& forall|i: int| 0 <= i < best.len() ==> drafts.contains(#[trigger] best[i])
            &&& forall|i: int|
                0 <= i < best.len() ==> !is_blank((#[trigger] best[i]).hook) && (length(best[i])
                    >= wanted || length(best[i]) >= LEAST_LENGTH)
            &&& forall|i: int, j: int|
                0 <= i < j < best.len() ==> !repeats(
                    #[trigger] best[j],
                    #[trigger] best[i],
                    MOST_OVERLAP as int,
                )
        }),
{
    let picked = chosen(drafts, wanted);
    lemma_worthwhile(drafts, wanted);
    lemma_worthwhile(drafts, LEAST_LENGTH as int);
    let ranked = by_score(picked);
    law_by_score(picked, 0);
    let kept = distinct_moments(ranked, MOST_OVERLAP as int);
    law_distinct_moments(ranked, MOST_OVERLAP as int);
    lemma_distinct_descending(ranked, MOST_OVERLAP as int);
    let best = best_of(drafts, wanted);
    assert forall|i: int| 0 <= i < best.len() implies drafts.contains(#[trigger] best[i])
        && !is_blank(best[i].hook) && (length(best[i]) >= wanted || length(best[i])
        >= LEAST_LENGTH) by {
        assert(best[i] == kept[i]);
        assert(ranked.contains(kept[i]));
        let k = choose|k: int| 0 <= k < ranked.len() && ranked[k] == kept[i];
        assert(picked.contains(ranked[k]));
        let m = choose|m: int| 0 <= m < picked.len() && picked[m] == kept[i];
        assert(drafts.contains(picked[m]));
    }
    assert forall|i: int, j: int| 0 <= i <= j < best.len() implies (#[trigger] best[i]).score >= (
    #[trigger] best[j]).score by {
        assert(best[i] == kept[i] && best[j] == kept[j]);
    }
    assert forall|i: int, j: int| 0 <= i < j < best.len() implies !repeats(
        #[trigger] best[j],
        #[trigger] best[i],
        MOST_OVERLAP as int,
    ) by {
        assert(best[i] == kept[i] && best[j] == kept[j]);
    }
}

/// A score that is a number ends up between zero and one.
pub proof fn law_unit_score(r: Reading)
    ensures
        r is Value ==> 0 <= unit_score(r) <= UNIT,
{
}

/// A score between zero and one is kept; one on a scale of ten counts a tenth and
/// one on a scale of a hundred a hundredth. Beyond that it is one, and below zero
/// it is zero.
pub proof fn law_score_scales(v: i64)
    ensures
        0 <= v <= 1_000_000_000 ==> unit_score(Reading::Value(v)) == v,
        1_000_000_000 < v <= 10_000_000_000 ==> 10 * unit_score(Reading::Value(v)) <= v < 10 * (
        unit_score(Reading::Value(v)) + 1),
        10_000_000_000 < v <= 100_000_000_000 ==> 100 * unit_score(Reading::Value(v)) <= v < 100 * (
        unit_score(Reading::Value(v)) + 1),
        v > 100_000_000_000 ==> unit_score(Reading::Value(v)) == 1_000_000_000,
        v < 0 ==> unit_score(Reading::Value(v)) == 0,
{
}

/// Scores on one scale keep their order, and what is no number ranks above or
/// below every score by its sign.
pub proof fn law_score_order(v: i64, w: i64)
    requires
        v <= w,
        w <= 1_000_000_000 || (1_000_000_000 < v && w <= 10_000_000_000) || 10_000_000_000 < v,
    ensures
        unit_score(Reading::Value(v)) <= unit_score(Reading::Value(w)),
        unit_score(Reading::NotANumber(true)) < unit_score(Reading::Value(v)),
        unit_score(Reading::Value(w)) < unit_score(Reading::NotANumber(false)),
{
}

/// Two drafts that last repeat one another exactly where they share some time,
/// and more than the allowed part of the shorter one. One that does not last
/// repeats nothing.
pub proof fn law_repeats(a: DraftView, b: DraftView, limit: int, from: int, to: int, least: int)
    requires
        from == if a.start > b.start {
            a.start
        } else {
            b.start
        },
        to == if a.end < b.end {
            a.end
        } else {
            b.end
        },
        least == if a.end - a.start < b.end - b.start {
            a.end - a.start
        } else {
            b.end - b.start
        },
    ensures
        repeats(a, b, limit) <==> from < to && least > 0 && (to - from) * 1_000_000_000 > limit * least,
        repeats(a, b, limit) == repeats(b, a, limit),
{
}

/// One more draft stays, at the end, exactly where it lasts and repeats none of
/// those that stay; the others are not touched by it.
pub proof fn law_one_more_moment(drafts: Seq<DraftView>, d: DraftView, limit: int)
    ensures
        distinct_moments(Seq::empty(), limit) == Seq::<DraftView>::empty(),
        d.start < d.end && (forall|i: int|
            0 <= i < distinct_moments(drafts, limit).len() ==> !repeats(
                d,
                #[trigger] distinct_moments(drafts, limit)[i],
                limit,
            )) ==> distinct_moments(drafts.push(d), limit) == distinct_moments(drafts, limit).push(d),
        d.start >= d.end || (exists|i: int|
            0 <= i < distinct_moments(drafts, limit).len() && repeats(
                d,
                #[trigger] distinct_moments(drafts, limit)[i],
                limit,
            )) ==> distinct_moments(drafts.push(d), limit) == distinct_moments(drafts, limit),
{
    assert(drafts.push(d).drop_last() =~= drafts);
}

/// An item describes the draft that its members say: what is missing or no number
/// counts as zero, a missing score as four fifths, and a missing text as nothing.
/// An item whose start or end is `nan` describes none.
pub proof fn law_draft(item: JsonView)
    ensures
        ({
            let at = |key: Seq<char>, usual: i64|
                match item.get(key) {
                    Some(v) => match v.reading() {
                        Some(r) => r,
                        None => Reading::Value(usual),
                    },
                    None => Reading::Value(usual),
                };
            let said = |key: Seq<char>|
                match item.get(key) {
                    Some(JsonView::Text(t)) => t,
                    _ => Seq::<char>::empty(),
                };
            &&& draft_of(item) is Some <==> at("start"@, 0) is Value && at("end"@, 0) is Value
            &&& draft_of(item) matches Some(d) ==> {
                &&& at("start"@, 0) == Reading::Value(d.start as i64)
                &&& at("end"@, 0) == Reading::Value(d.end as i64)
                &&& i64::MIN <= d.start <= i64::MAX && i64::MIN <= d.end <= i64::MAX
                &&& d.score == unit_score(at("score"@, 800_000_000))
                &&& d.hook == said("hook"@)
                &&& d.rationale == said("rationale"@)
            }
        }),
{
    reveal_strlit("start");
    reveal_strlit("end");
    reveal_strlit("score");
    reveal_strlit("hook");
    reveal_strlit("rationale");
}

/// One more item adds its draft at the end, where it describes one, and nothing
/// else.
pub proof fn law_drafts(items: Seq<JsonView>, item: JsonView)
    ensures
        drafts_of(Seq::empty()) == Seq::<DraftView>::empty(),
        drafts_of(items.push(item)) == drafts_of(items) + match draft_of(item) {
            Some(d) => seq![d],
            None => Seq::empty(),
        },
{
    assert(items.push(item).drop_last() =~= items);
    assert(drafts_of(items) + Seq::<DraftView>::empty() =~= drafts_of(items));
}

/// The first name with a list decides.
proof fn lemma_named_list(doc: JsonView, names: Seq<Seq<char>>, i: int)
    requires
        0 <= i <= names.len(),
        forall|k: int| 0 <= k < i ==> doc.items_at(#[trigger] names[k]) is None,
        i < names.len() ==> doc.items_at(names[i]) is Some,
    ensures
        named_list(doc, names) == if i < names.len() {
            doc.items_at(names[i])
        } else {
            None
        },
    decreases names.len(),
{
    if i > 0 {
        let rest = names.drop_first();
        assert(doc.items_at(names[0]) is None);
        assert forall|k: int| 0 <= k < i - 1 implies doc.items_at(#[trigger] rest[k]) is None by {
            assert(rest[k] == names[k + 1]);
        }
        lemma_named_list(doc, rest, i - 1);
    }
}

/// The first member with a list decides.
proof fn lemma_any_list(members: Seq<(Seq<char>, JsonView)>, i: int)
    requires
        0 <= i <= members.len(),
        forall|k: int| 0 <= k < i ==> (#[trigger] members[k]).1 !is Array,
        i < members.len() ==> members[i].1 is Array,
    ensures
        any_list(members) == if i < members.len() {
            Some(members[i].1->Array_0)
        } else {
            None
        },
    decreases members.len(),
{
    if i > 0 {
        let rest = members.drop_first();
        assert(members[0].1 !is Array);
        assert forall|k: int| 0 <= k < i - 1 implies (#[trigger] rest[k]).1 !is Array by {
            assert(rest[k] == members[k + 1]);
        }
        lemma_any_list(rest, i - 1);
    }
}

/// An array is itself the list. An object's list is the array under the first of
/// the usual names that has one; else the first member that is an array; else the
/// object alone, where it has a start and an end. Nothing else lists candidates.
pub proof fn law_listed(doc: JsonView, members: Seq<(Seq<char>, JsonView)>, i: int, j: int)
    requires
        doc == JsonView::Object(members),
        ({
            let names = seq![
                "candidates"@,
                "Candidates"@,
                "moments"@,
                "clips"@,
                "segments"@,
                "results"@,
            ];
            &&& 0 <= i <= 6
            &&& forall|k: int| 0 <= k < i ==> doc.items_at(#[trigger] names[k]) is None
            &&& i < 6 ==> doc.items_at(names[i]) is Some
        }),
        0 <= j <= members.len(),
        forall|k: int| 0 <= k < j ==> (#[trigger] members[k]).1 !is Array,
        j < members.len() ==> members[j].1 is Array,
    ensures
        listed(doc) == if i < 6 {
            doc.items_at(
                seq![
                    "candidates"@,
                    "Candidates"@,
                    "moments"@,
                    "clips"@,
                    "segments"@,
                    "results"@,
                ][i],
            )
        } else if j < members.len() {
            Some(members[j].1->Array_0)
        } else if doc.get("start"@) is Some && doc.get("end"@) is Some {
            Some(seq![doc])
        } else {
            None
        },
        forall|items: Seq<JsonView>| #[trigger] listed(JsonView::Array(items)) == Some(items),
        forall|other: JsonView|
            other !is Array && other !is Object ==> #[trigger] listed(other) is None,
{
    lemma_named_list(doc, list_names(), i);
    lemma_any_list(members, j);
}

/// What is worth a clip are the drafts that last long enough and have a hook,
/// each in its place.
proof fn lemma_worthwhile_filter(drafts: Seq<DraftView>, least: int)
    ensures
        worthwhile_of(drafts, least) == drafts.filter(
            |d: DraftView| d.end - d.start >= least && !is_blank(d.hook),
        ),
    decreases drafts.len(),
{
    reveal(Seq::filter);
    if drafts.len() > 0 {
        lemma_worthwhile_filter(drafts.drop_last(), least);
    }
}

/// The drafts of the wanted length with a hook are chosen; where there are none,
/// those of at least five seconds.
pub proof fn law_chosen(drafts: Seq<DraftView>, wanted: int)
    ensures
        ({
            let long = drafts.filter(|d: DraftView| d.end - d.start >= wanted && !is_blank(d.hook));
            let short = drafts.filter(
                |d: DraftView| d.end - d.start >= 5_000_000_000 && !is_blank(d.hook),
            );
            chosen(drafts, wanted) == if long.len() > 0 {
                long
            } else {
                short
            }
        }),
{
    lemma_worthwhile_filter(drafts, wanted);
    lemma_worthwhile_filter(drafts, 5_000_000_000);
}

/// Every draft that was chosen is found again when they are ranked.
proof fn lemma_ranked_holds(drafts: Seq<DraftView>, d: DraftView)
    requires
        drafts.contains(d),
    ensures
        by_score(drafts).contains(d),
    decreases drafts.len(),
{
    let rest = drafts.drop_last();
    let i = choose|i: int| 0 <= i < drafts.len() && drafts[i] == d;
    let ranked = by_score(rest);
    lemma_insert_holds(ranked, drafts.last(), d);
    if i < rest.len() {
        assert(rest[i] == d);
        lemma_ranked_holds(rest, d);
    }
}

/// Insertion keeps what is there and adds the draft.
proof fn lemma_insert_holds(ranked: Seq<DraftView>, new: DraftView, d: DraftView)
    ensures
        ranked.contains(d) || d == new ==> insert_ranked(ranked, new).contains(d),
    decreases ranked.len(),
{
    let all = insert_ranked(ranked, new);
    if ranked.len() > 0 && ranked.last().score < new.score {
        let rest = ranked.drop_last();
        lemma_insert_holds(rest, new, d);
        let before = insert_ranked(rest, new);
        if ranked.contains(d) || d == new {
            if d == ranked.last() {
                assert(all[all.len() - 1] == d);
            } else {
                if ranked.contains(d) {
                    let k = choose|k: int| 0 <= k < ranked.len() && ranked[k] == d;
                    assert(rest[k] == d);
                }
                let m = choose|m: int| 0 <= m < before.len() && before[m] == d;
                assert(all[m] == d);
            }
        }
    } else {
        if ranked.contains(d) {
            let k = choose|k: int| 0 <= k < ranked.len() && ranked[k] == d;
            assert(all[k] == d);
        } else if d == new {
            assert(all[all.len() - 1] == d);
        }
    }
}

/// Nothing worthwhile is passed over: every chosen draft that lasts is among the
/// candidates, or more than half of it or of a better candidate is the same
/// moment, or there are ten candidates that score at least as high.
pub proof fn law_best_complete(drafts: Seq<DraftView>, wanted: int, d: DraftView)
    requires
        chosen(drafts, wanted).contains(d),
        d.start < d.end,
    ensures
        ({
            let best = best_of(drafts, wanted);
            ||| best.contains(d)
            ||| exists|k: int|
                0 <= k < best.len() && (#[trigger] best[k]).score >= d.score && repeats(
                    d,
                    best[k],
                    500_000_000,
                )
            ||| best.len() == 10 && forall|k: int|
                0 <= k < best.len() ==> (#[trigger] best[k]).score >= d.score
        }),
{
    let picked = chosen(drafts, wanted);
    let ranked = by_score(picked);
    law_by_score(picked, 0);
    lemma_ranked_holds(picked, d);
    let i = choose|i: int| 0 <= i < ranked.len() && ranked[i] == d;
    let limit = MOST_OVERLAP as int;
    let kept = distinct_moments(ranked, limit);
    lemma_distinct_descending(ranked, limit);
    law_nothing_lost(ranked, limit, i);
    let best = best_of(drafts, wanted);
    let e = if kept.contains(d) {
        d
    } else {
        ranked[choose|k: int|
            0 <= k < i && kept.contains(#[trigger] ranked[k]) && repeats(ranked[i], ranked[k], limit)]
    };
    if !kept.contains(d) {
        let k = choose|k: int|
            0 <= k < i && kept.contains(#[trigger] ranked[k]) && repeats(ranked[i], ranked[k], limit);
        assert(ranked[k].score >= ranked[i].score);
    }
    assert(kept.contains(e) && e.score >= d.score);
    let m = choose|m: int| 0 <= m < kept.len() && kept[m] == e;
    if m < best.len() {
        assert(best[m] == e);
    } else {
        assert(best.len() == 10);
        assert forall|k: int| 0 <= k < best.len() implies (#[trigger] best[k]).score >= d.score by {
            assert(best[k] == kept[k]);
            assert(kept[k].score >= kept[m].score);
        }
    }
}

/// There are never more than ten candidates, each of which lasts as long as
/// wanted or five seconds, and no two share more than half of the shorter.
pub proof fn law_best_limits(drafts: Seq<DraftView>, wanted: int)
    ensures
        best_of(drafts, wanted).len() <= 10,
        forall|i: int|
            0 <= i < best_of(drafts, wanted).len() ==> (#[trigger] best_of(drafts, wanted)[i]).end
                - best_of(drafts, wanted)[i].start >= if wanted < 5_000_000_000 {
                wanted
            } else {
                5_000_000_000
            },
        forall|i: int, j: int|
            0 <= i < j < best_of(drafts, wanted).len() ==> !repeats(
                #[trigger] best_of(drafts, wanted)[j],
                #[trigger] best_of(drafts, wanted)[i],
                500_000_000,
            ),
        descending(best_of(drafts, wanted)),
{
    law_best_of(drafts, wanted);
}

/// A fence around a reply is removed along with the white space inside and
/// outside of it, whether it names the language or not; without one only the
/// white space goes.
pub proof fn law_unfenced(before: Seq<char>, body: Seq<char>, after: Seq<char>)
    requires
        body.len() > 0,
        !is_space(body[0]) && body[0] != '`',
        !is_space(body.last()) && body.last() != '`',
        forall|k: int| 0 <= k < before.len() ==> is_space(#[trigger] before[k]),
        forall|k: int| 0 <= k < after.len() ==> is_space(#[trigger] after[k]),
    ensures
        unfenced(before + body + after) == body,
        unfenced(before + ("```json"@ + seq!['\n'] + body + seq!['\n'] + "```"@) + after) == body,
        unfenced(before + ("```"@ + seq!['\n'] + body + seq!['\n'] + "```"@) + after) == body,
{
    law_trim_around(before, body, after);
    lemma_no_fence(body);
    lemma_fenced(before, "```json"@, body, after);
    lemma_fenced(before, "```"@, body, after);
}

/// A fence with or without the name of the language is removed.
proof fn lemma_fenced(before: Seq<char>, open: Seq<char>, body: Seq<char>, after: Seq<char>)
    requires
        open == "```json"@ || open == "```"@,
        body.len() > 0,
        !is_space(body[0]) && body[0] != '`',
        !is_space(body.last()) && body.last() != '`',
        forall|k: int| 0 <= k < before.len() ==> is_space(#[trigger] before[k]),
        forall|k: int| 0 <= k < after.len() ==> is_space(#[trigger] after[k]),
    ensures
        unfenced(before + (open + seq!['\n'] + body + seq!['\n'] + "```"@) + after) == body,
{
    reveal_strlit("```json");
    reveal_strlit("```");
    let fence = "```"@;
    let line = seq!['\n'];
    let inner = line + body + line;
    let a = open + line + body + line + fence;
    assert(open.len() > 0 && open[0] == '`');
    assert(a[0] == open[0] && a[a.len() - 1] == fence[2]);
    law_trim_around(before, a, after);
    assert(a =~= open + (inner + fence));
    lemma_opening(open, inner + fence);
    assert(inner[inner.len() - 1] == '\n');
    lemma_not_suffix(fence, inner);
    law_prefix(fence, inner);
    law_trim_around(line, body, line);
}

/// The opening of a fence is taken off a text that goes on with a line end.
proof fn lemma_opening(open: Seq<char>, rest: Seq<char>)
    requires
        open == "```json"@ || open == "```"@,
        rest.len() > 0,
        rest[0] == '\n',
    ensures
        strip_copies_start(strip_copies_start(open + rest, "```json"@), "```"@) == rest,
{
    reveal_strlit("```json");
    reveal_strlit("```");
    let long = "```json"@;
    let fence = "```"@;
    lemma_not_prefix(long, rest);
    lemma_not_prefix(fence, rest);
    law_prefix(long, rest);
    law_prefix(fence, rest);
    if open == fence {
        let b = fence + rest;
        assert(!long.is_prefix_of(b)) by {
            if long.is_prefix_of(b) {
                assert(b.subrange(0, 7)[3] == long[3]);
                assert(b[3] == rest[0]);
            }
        }
        law_prefix(long, b);
    }
}

/// A text without a back quote at either end has no fence.
proof fn lemma_no_fence(body: Seq<char>)
    requires
        body.len() > 0,
        body[0] != '`',
        body.last() != '`',
    ensures
        strip_copies_start(body, "```json"@) == body,
        strip_copies_start(body, "```"@) == body,
        strip_copies_end(body, "```"@) == body,
{
    reveal_strlit("```json");
    reveal_strlit("```");
    lemma_not_prefix("```json"@, body);
    lemma_not_prefix("```"@, body);
    lemma_not_suffix("```"@, body);
    law_prefix("```json"@, body);
    law_prefix("```"@, body);
}

/// Texts that begin differently are no prefix of one another.
proof fn lemma_not_prefix(p: Seq<char>, s: Seq<char>)
    requires
        p.len() > 0,
        s.len() > 0,
        p[0] != s[0],
    ensures
        !p.is_prefix_of(s),
{
    if p.is_prefix_of(s) {
        assert(s.subrange(0, p.len() as int)[0] == p[0]);
    }
}

/// Texts that end differently are no suffix of one another.
proof fn lemma_not_suffix(p: Seq<char>, s: Seq<char>)
    requires
        p.len() > 0,
        s.len() > 0,
        p.last() != s.last(),
    ensures
        !p.is_suffix_of(s),
{
    if p.is_suffix_of(s) {
        assert(s.subrange(s.len() - p.len(), s.len() as int)[p.len() - 1] == p[p.len() - 1]);
    }
}

/// A reply that parses is the document; else the first balanced object or array
/// in it is, where it parses. The errors tell the two failures apart.
pub proof fn law_reply_document(t: Seq<char>)
    ensures
        json_document(t) matches Ok(doc) ==> reply_document(t) == Ok::<JsonView, CandidateErrorView>(doc),
        json_document(t) matches Err(e) ==> {
            &&& json_span(t) is None ==> reply_document(t) == Err::<JsonView, CandidateErrorView>(
                CandidateErrorView::Unreadable(e),
            )
            &&& json_span(t) matches Some(span) ==> match json_document(span) {
                Ok(doc) => reply_document(t) == Ok::<JsonView, CandidateErrorView>(doc),
                Err(_) => reply_document(t) == Err::<JsonView, CandidateErrorView>(
                    CandidateErrorView::UnreadableSpan,
                ),
            }
        },
{
}

/// A reply yields the best of the drafts that its document lists; a document that
/// lists none is reported with the reply.
pub proof fn law_reply(text: Seq<char>, wanted: int)
    ensures
        reply_document(unfenced(text)) matches Err(e) ==> reply_candidates(text, wanted) == Err::<
            Seq<DraftView>,
            CandidateErrorView,
        >(e),
        reply_document(unfenced(text)) matches Ok(doc) ==> match listed(doc) {
            Some(items) => reply_candidates(text, wanted) == Ok::<Seq<DraftView>, CandidateErrorView>(
                best_of(drafts_of(items), wanted),
            ),
            None => reply_candidates(text, wanted) == Err::<Seq<DraftView>, CandidateErrorView>(
                CandidateErrorView::NoList(unfenced(text)),
            ),
        },
{
}

/// What the errors say, and that each stands for what it holds.
pub proof fn law_errors(m: String, t: Seq<char>)
    ensures
        CandidateError::Unreadable(m)@ == CandidateErrorView::Unreadable(m@),
        CandidateError::UnreadableSpan@ == CandidateErrorView::UnreadableSpan,
        CandidateError::NoList(m)@ == CandidateErrorView::NoList(m@),
        error_text(CandidateErrorView::Unreadable(t)) == "parsing candidate JSON: "@ + t,
        error_text(CandidateErrorView::UnreadableSpan) == "parsing candidate JSON"@,
        error_text(CandidateErrorView::NoList(t))
            == "Ollama output does not contain a candidates array. Raw output: "@ + t,
{
}

/// A text in which nothing opens or nothing closes holds no balanced object or
/// array.
pub proof fn law_no_span(s: Seq<char>)
    requires
        (forall|k: int| 0 <= k < s.len() ==> #[trigger] s[k] != '{' && s[k] != '[') || (forall|k: int|
            0 <= k < s.len() ==> #[trigger] s[k] != '}' && s[k] != ']'),
    ensures
        json_span(s) is None,
{
    if json_span(s) is Some {
        let (a, b) = choose|a: int, b: int| is_span(s, a, b);
        assert(opens(s[a]));
        law_span_is_balanced(s);
        let t = s.subrange(a, b);
        assert(json_span(s) == Some(t));
        assert(t[t.len() - 1] == s[b - 1]);
        assert(t[0] == s[a]);
        assert(s[b - 1] == '}' || s[b - 1] == ']');
    }
}

/// A balanced text in one more pair of its own brackets is balanced.
#[verifier::rlimit(50)]
pub proof fn law_span_nested(payload: Seq<char>)
    requires
        json_span(payload) == Some(payload),
    ensures
        payload[0] == '{' ==> json_span(seq!['{'] + payload + seq!['}']) == Some(
            seq!['{'] + payload + seq!['}'],
        ),
        payload[0] == '[' ==> json_span(seq!['['] + payload + seq![']']) == Some(
            seq!['['] + payload + seq![']'],
        ),
{
    lemma_whole_span(payload);
    lemma_nested(payload);
}

/// A span in one more pair of its own brackets is found whole.
#[verifier::rlimit(50)]
proof fn lemma_nested(payload: Seq<char>)
    requires
        is_span(payload, 0, payload.len() as int),
    ensures
        json_span(seq![payload[0]] + payload + seq![closing(payload[0])]) == Some(
            seq![payload[0]] + payload + seq![closing(payload[0])],
        ),
{
    let s = seq![payload[0]] + payload + seq![closing(payload[0])];
    let n = payload.len() as int;
    lemma_wrapped_span(s, payload);
    lemma_span_found(s, 0, n + 2);
    assert(s.subrange(0, n + 2) =~= s);
}

/// A text that is found whole is a span from its first character to its last.
proof fn lemma_whole_span(payload: Seq<char>)
    requires
        json_span(payload) == Some(payload),
    ensures
        is_span(payload, 0, payload.len() as int),
        opens(payload[0]),
{
    let (a, b) = choose|a: int, b: int| is_span(payload, a, b);
    assert(payload.subrange(a, b) == payload);
    assert(a == 0 && b == payload.len());
}

/// A span in one more pair of its own brackets is a span.
proof fn lemma_wrapped_span(s: Seq<char>, payload: Seq<char>)
    requires
        is_span(payload, 0, payload.len() as int),
        s == seq![payload[0]] + payload + seq![closing(payload[0])],
    ensures
        is_span(s, 0, payload.len() as int + 2),
{
    let n = payload.len() as int;
    lemma_wrapped_closes(s, payload);
    assert forall|k: int| 0 < k < n + 2 implies #[trigger] nesting(s, 0, k) != 0 by {
        lemma_wrapped_open(s, payload, k);
    }
}

/// The outer bracket stays open up to the last character.
proof fn lemma_wrapped_open(s: Seq<char>, payload: Seq<char>, k: int)
    requires
        is_span(payload, 0, payload.len() as int),
        s == seq![payload[0]] + payload + seq![closing(payload[0])],
        0 < k < payload.len() + 2,
    ensures
        nesting(s, 0, k) > 0,
{
    lemma_wrapped(s, payload, k - 1);
    if k > 1 {
        lemma_nesting_positive(payload, k - 1, payload.len() as int);
    } else {
        assert(nesting(payload, 0, 0) == 0);
    }
}

/// The last character closes the outer bracket.
proof fn lemma_wrapped_closes(s: Seq<char>, payload: Seq<char>)
    requires
        is_span(payload, 0, payload.len() as int),
        s == seq![payload[0]] + payload + seq![closing(payload[0])],
    ensures
        nesting(s, 0, payload.len() as int + 2) == 0,
        s[0] == payload[0],
{
    let n = payload.len() as int;
    lemma_wrapped(s, payload, n);
    lemma_outside_at_end(payload);
    assert(s[0] == payload[0] && s[n + 1] == closing(payload[0]));
    assert(nesting(s, 0, n + 1) == 1 && place(s, 0, n + 1) == Place::Outside);
}

/// Before the end of a balanced text at least one bracket is open, and at its end
/// none.
proof fn lemma_nesting_positive(t: Seq<char>, k: int, n: int)
    requires
        is_span(t, 0, n),
        1 <= k <= n,
    ensures
        nesting(t, 0, k) >= 0,
        k < n ==> nesting(t, 0, k) > 0,
{
    if k < n {
        assert forall|j: int| 0 < j <= k implies #[trigger] nesting(t, 0, j) != 0 by {}
        lemma_nesting_sign(t, k);
    }
}

/// A balanced text ends outside of every string.
proof fn lemma_outside_at_end(t: Seq<char>)
    requires
        is_span(t, 0, t.len() as int),
    ensures
        place(t, 0, t.len() as int) == Place::Outside,
{
    let n = t.len() as int;
    reveal_with_fuel(nesting, 2);
    reveal_with_fuel(place, 2);
    assert(nesting(t, 0, 1) == 1);
    assert(nesting(t, 0, n - 1) != 0);
    assert(place(t, 0, n - 1) == Place::Outside);
    assert(t[n - 1] == t[0] || t[n - 1] == closing(t[0]));
}

/// One bracket in front shifts every place and adds one to the nesting.
proof fn lemma_wrapped(s: Seq<char>, payload: Seq<char>, k: int)
    requires
        payload.len() > 0,
        opens(payload[0]),
        s == seq![payload[0]] + payload + seq![closing(payload[0])],
        0 <= k <= payload.len(),
    ensures
        place(s, 0, k + 1) == place(payload, 0, k),
        nesting(s, 0, k + 1) == nesting(payload, 0, k) + 1,
    decreases k,
{
    reveal_with_fuel(nesting, 2);
    reveal_with_fuel(place, 2);
    assert(s[0] == payload[0]);
    if k > 0 {
        lemma_wrapped(s, payload, k - 1);
        assert(s[k] == payload[k - 1]);
    }
}

/// Brackets inside a string do not count, and neither does a quote behind a
/// backslash.
pub proof fn law_span_string(open: char, t: Seq<char>, c: char, u: Seq<char>)
    requires
        open == '{' || open == '[',
        forall|k: int| 0 <= k < t.len() ==> #[trigger] t[k] != '"' && t[k] != '\\',
        forall|k: int| 0 <= k < u.len() ==> #[trigger] u[k] != '"' && u[k] != '\\',
    ensures
        ({
            let close = if open == '{' {
                '}'
            } else {
                ']'
            };
            let s = seq![open, '"'] + t + seq!['\\', c] + u + seq!['"', close];
            json_span(s) == Some(s)
        }),
{
    let close = closing(open);
    let s = seq![open, '"'] + t + seq!['\\', c] + u + seq!['"', close];
    let n = s.len() as int;
    let m = 2 + t.len() as int;
    reveal_with_fuel(nesting, 3);
    reveal_with_fuel(place, 3);
    assert(s[0] == open && s[1] == '"');
    assert(place(s, 0, 2) == Place::Quoted && nesting(s, 0, 2) == 1);
    assert forall|k: int| 2 <= k < m implies #[trigger] s[k] != '"' && s[k] != '\\' by {
        assert(s[k] == t[k - 2]);
    }
    lemma_in_string(s, 2, m);
    assert(s[m] == '\\' && s[m + 1] == c);
    assert(place(s, 0, m + 1) == Place::Escaped && nesting(s, 0, m + 1) == 1);
    assert(place(s, 0, m + 2) == Place::Quoted && nesting(s, 0, m + 2) == 1);
    assert forall|k: int| m + 2 <= k < n - 2 implies #[trigger] s[k] != '"' && s[k] != '\\' by {
        assert(s[k] == u[k - m - 2]);
    }
    lemma_in_string(s, m + 2, n - 2);
    assert(s[n - 2] == '"' && s[n - 1] == close);
    assert(place(s, 0, n - 1) == Place::Outside && nesting(s, 0, n - 1) == 1);
    assert(nesting(s, 0, n) == 0);
    assert forall|k: int| 0 < k < n implies #[trigger] nesting(s, 0, k) != 0 by {
        if 2 <= k <= m {
            lemma_in_string(s, 2, k);
        } else if m + 2 <= k <= n - 2 {
            lemma_in_string(s, m + 2, k);
        }
    }
    assert(is_span(s, 0, n));
    lemma_span_found(s, 0, n);
    assert(s.subrange(0, n) =~= s);
}

/// Up to the next quote or backslash a string goes on.
proof fn lemma_in_string(s: Seq<char>, from: int, to: int)
    requires
        0 <= from <= to <= s.len(),
        place(s, 0, from) == Place::Quoted,
        nesting(s, 0, from) == 1,
        forall|k: int| from <= k < to ==> #[trigger] s[k] != '"' && s[k] != '\\',
    ensures
        place(s, 0, to) == Place::Quoted,
        nesting(s, 0, to) == 1,
    decreases to - from,
{
    if from < to {
        assert(s[from] != '"' && s[from] != '\\');
        assert(place(s, 0, from + 1) == Place::Quoted);
        assert(nesting(s, 0, from + 1) == 1);
        lemma_in_string(s, from + 1, to);
    }
}

} // verus!
