//! The words of a clip, and their times within it.

use vstd::prelude::*;
use crate::models::{word_views, TranscriptWord, WordView};
use crate::text::{join, joined, law_joined, law_joined_holds, put, texts};

verus! {

/// The word is heard in the clip from `start` to `end`.
pub open spec fn heard(w: WordView, start: int, end: int) -> bool {
    w.end > start && w.start < end
}

/// The words that are heard in a clip, in order.
pub open spec fn clip_words(words: Seq<WordView>, start: int, end: int) -> Seq<WordView>
    decreases words.len(),
{
    if words.len() == 0 {
        Seq::empty()
    } else if heard(words.last(), start, end) {
        clip_words(words.drop_last(), start, end).push(words.last())
    } else {
        clip_words(words.drop_last(), start, end)
    }
}

/// The views of a list of borrowed words.
pub open spec fn ref_views(v: Seq<&TranscriptWord>) -> Seq<WordView> {
    v.map_values(|w: &TranscriptWord| w@)
}

/// Collects the words that are heard in a clip.
pub fn words_in_clip<'a>(words: &'a [TranscriptWord], start: i64, end: i64) -> (res: Vec<
    &'a TranscriptWord,
>)
    ensures
        ref_views(res@) == clip_words(word_views(words@), start as int, end as int),
{
    let ghost all = word_views(words@);
    let mut res: Vec<&'a TranscriptWord> = Vec::new();
    let mut i: usize = 0;
    assert(all.take(0) =~= Seq::<WordView>::empty());
    assert(ref_views(res@) =~= Seq::<WordView>::empty());
    while i < words.len()
        invariant
            i <= words@.len(),
            all == word_views(words@),
            ref_views(res@) == clip_words(all.take(i as int), start as int, end as int),
        decreases words@.len() - i,
    {
        let ghost before = ref_views(res@);
        let w = &words[i];
        assert(all.take(i + 1).drop_last() =~= all.take(i as int));
        assert(all.take(i + 1).last() == w@);
        if w.end > start && w.start < end {
            res.push(w);
            assert(ref_views(res@) =~= before.push(w@));
        }
        i += 1;
    }
    assert(all.take(i as int) =~= all);
    res
}

/// The items in groups of `n`, the last group with what is left.
pub open spec fn groups(words: Seq<WordView>, n: nat) -> Seq<Seq<WordView>>
    decreases words.len(),
{
    if words.len() == 0 || n == 0 {
        Seq::empty()
    } else if words.len() <= n {
        seq![words]
    } else {
        seq![words.take(n as int)] + groups(words.skip(n as int), n)
    }
}

/// The views of a list of groups.
pub open spec fn group_views(v: Seq<Vec<&TranscriptWord>>) -> Seq<Seq<WordView>> {
    v.map_values(|g: Vec<&TranscriptWord>| ref_views(g@))
}

/// Copies the part `v[from..to]` of a list.
fn part_of<'a>(v: &Vec<&'a TranscriptWord>, from: usize, to: usize) -> (res: Vec<
    &'a TranscriptWord,
>)
    requires
        from <= to <= v@.len(),
    ensures
        res@ == v@.subrange(from as int, to as int),
{
    let mut res: Vec<&'a TranscriptWord> = Vec::new();
    let mut i: usize = from;
    while i < to
        invariant
            from <= i <= to <= v@.len(),
            res@ == v@.subrange(from as int, i as int),
        decreases to - i,
    {
        res.push(v[i]);
        i += 1;
    }
    res
}

/// Puts words into groups of `n`.
pub fn grouped<'a>(words: &Vec<&'a TranscriptWord>, n: usize) -> (res: Vec<Vec<&'a TranscriptWord>>)
    requires
        n > 0,
    ensures
        group_views(res@) == groups(ref_views(words@), n as nat),
{
    let ghost all = ref_views(words@);
    let mut res: Vec<Vec<&'a TranscriptWord>> = Vec::new();
    let mut i: usize = 0;
    assert(all.skip(0) =~= all);
    assert(group_views(res@) + groups(all, n as nat) =~= groups(all, n as nat));
    while i < words.len()
        invariant
            n > 0,
            i <= words@.len(),
            all == ref_views(words@),
            groups(all, n as nat) == group_views(res@) + groups(all.skip(i as int), n as nat),
        decreases words@.len() - i,
    {
        let ghost before = group_views(res@);
        let ghost rest = all.skip(i as int);
        let to: usize = if words.len() - i <= n { words.len() } else { i + n };
        let group = part_of(words, i, to);
        assert(ref_views(group@) =~= rest.take(to - i));
        res.push(group);
        assert(group_views(res@) =~= before.push(rest.take(to - i)));
        proof {
            if rest.len() <= n {
                assert(rest.take(to - i) =~= rest);
                assert(all.skip(to as int) =~= Seq::<WordView>::empty());
                assert(before + seq![rest] =~= group_views(res@) + groups(
                    all.skip(to as int),
                    n as nat,
                ));
            } else {
                assert(rest.skip(n as int) =~= all.skip(to as int));
                assert(before + (seq![rest.take(n as int)] + groups(rest.skip(n as int), n as nat))
                    =~= group_views(res@) + groups(all.skip(to as int), n as nat));
            }
        }
        i = to;
    }
    assert(all.skip(i as int) =~= Seq::<WordView>::empty());
    assert(group_views(res@) + groups(all.skip(i as int), n as nat) =~= group_views(res@));
    res
}

/// What the words of a group say.
pub open spec fn word_texts(group: Seq<WordView>) -> Seq<Seq<char>> {
    group.map_values(|w: WordView| w.text)
}

/// What a group says: its words with a space between them.
pub open spec fn spoken(group: Seq<WordView>) -> Seq<char> {
    joined(word_texts(group), " "@)
}

/// Joins the words of a group.
pub fn spoken_text(group: &Vec<&TranscriptWord>) -> (res: String)
    ensures
        res@ == spoken(ref_views(group@)),
{
    let mut parts: Vec<String> = Vec::new();
    let mut i: usize = 0;
    while i < group.len()
        invariant
            i <= group@.len(),
            texts(parts@) == word_texts(ref_views(group@)).take(i as int),
        decreases group@.len() - i,
    {
        put(&mut parts, group[i].text.as_str());
        assert(texts(parts@) =~= word_texts(ref_views(group@)).take(i + 1));
        i += 1;
    }
    assert(texts(parts@) =~= word_texts(ref_views(group@)));
    join(&parts, " ")
}

/// The groups one after the other.
pub open spec fn flat(groups: Seq<Seq<WordView>>) -> Seq<WordView>
    decreases groups.len(),
{
    if groups.len() == 0 {
        Seq::empty()
    } else {
        groups[0] + flat(groups.drop_first())
    }
}

/// Grouping loses no word, repeats none and keeps their order.
pub proof fn law_groups_cover(words: Seq<WordView>, n: nat)
    requires
        n > 0,
    ensures
        flat(groups(words, n)) == words,
    decreases words.len(),
{
    reveal_with_fuel(flat, 2);
    if words.len() == 0 {
        assert(words =~= Seq::<WordView>::empty());
    } else if words.len() <= n {
        assert(groups(words, n).drop_first() =~= Seq::<Seq<WordView>>::empty());
        assert(words + Seq::<WordView>::empty() =~= words);
    } else {
        let rest = words.skip(n as int);
        law_groups_cover(rest, n);
        assert(groups(words, n).drop_first() =~= groups(rest, n));
        assert(words.take(n as int) + rest =~= words);
    }
}

/// Every group holds at least one word and at most `n`.
pub proof fn law_groups(words: Seq<WordView>, n: nat)
    requires
        n > 0,
    ensures
        forall|i: int|
            0 <= i < groups(words, n).len() ==> 0 < (#[trigger] groups(words, n)[i]).len() <= n,
    decreases words.len(),
{
    if words.len() > n {
        let rest = words.skip(n as int);
        law_groups(rest, n);
        assert forall|i: int| 0 <= i < groups(words, n).len() implies 0 < (
        #[trigger] groups(words, n)[i]).len() <= n by {
            if i > 0 {
                assert(groups(words, n)[i] == groups(rest, n)[i - 1]);
            }
        }
    }
}

/// When a word starts, counted from the start of the clip.
pub open spec fn start_in_clip(w: WordView, start: int) -> int {
    if w.start > start {
        w.start - start
    } else {
        0
    }
}

/// When a word ends, counted from the start of the clip and no later than the
/// clip.
pub open spec fn end_in_clip(w: WordView, start: int, end: int) -> int {
    if w.end < end {
        w.end - start
    } else {
        end - start
    }
}

/// Computes when a word starts in a clip.
pub fn clip_start(w: &TranscriptWord, start: i64) -> (res: i128)
    ensures
        res == start_in_clip(w@, start as int),
{
    if w.start > start {
        w.start as i128 - start as i128
    } else {
        0
    }
}

/// Computes when a word ends in a clip.
pub fn clip_end(w: &TranscriptWord, start: i64, end: i64) -> (res: i128)
    ensures
        res == end_in_clip(w@, start as int, end as int),
        -0x1_0000_0000_0000_0000 < res < 0x1_0000_0000_0000_0000,
{
    if w.end < end {
        w.end as i128 - start as i128
    } else {
        end as i128 - start as i128
    }
}

/// Every word of a clip is one of the transcript's words and is heard in the
/// clip.
pub proof fn law_clip_words(words: Seq<WordView>, start: int, end: int)
    ensures
        forall|i: int|
            0 <= i < clip_words(words, start, end).len() ==> words.contains(
                #[trigger] clip_words(words, start, end)[i],
            ) && heard(clip_words(words, start, end)[i], start, end),
        forall|w: WordView|
            words.contains(w) && heard(w, start, end) ==> #[trigger] clip_words(
                words,
                start,
                end,
            ).contains(w),
    decreases words.len(),
{
    if words.len() > 0 {
        let rest = words.drop_last();
        law_clip_words(rest, start, end);
        let kept = clip_words(words, start, end);
        let before = clip_words(rest, start, end);
        assert forall|i: int| 0 <= i < kept.len() implies words.contains(#[trigger] kept[i])
            && heard(kept[i], start, end) by {
            if i < before.len() {
                assert(kept[i] == before[i]);
                let k = choose|k: int| 0 <= k < rest.len() && rest[k] == before[i];
                assert(words[k] == kept[i]);
            } else {
                assert(words[words.len() - 1] == kept[i]);
            }
        }
        assert forall|w: WordView| words.contains(w) && heard(w, start, end) implies #[trigger] kept.contains(
        w) by {
            let k = choose|k: int| 0 <= k < words.len() && words[k] == w;
            if k < rest.len() {
                assert(rest[k] == w);
                assert(before.contains(w));
                let m = choose|m: int| 0 <= m < before.len() && before[m] == w;
                assert(kept[m] == w);
            } else {
                assert(kept[kept.len() - 1] == w);
            }
        }
    }
}

/// A word that lasts is heard in a clip that lasts exactly where the two share
/// some time.
pub proof fn law_heard(w: WordView, start: int, end: int)
    requires
        w.start < w.end,
        start < end,
    ensures
        heard(w, start, end) <==> (if w.start > start {
            w.start
        } else {
            start
        }) < (if w.end < end {
            w.end
        } else {
            end
        }),
{
}

/// The words of a clip are those of the transcript that end after its start and
/// start before its end, each in its place.
pub proof fn law_clip_filter(words: Seq<WordView>, start: int, end: int)
    ensures
        clip_words(words, start, end) == words.filter(|w: WordView| w.end > start && w.start < end),
    decreases words.len(),
{
    reveal(Seq::filter);
    if words.len() > 0 {
        law_clip_filter(words.drop_last(), start, end);
    }
}

/// Group `i` holds the words from the `n * i`th on, `n` of them or what is left,
/// and there are as many groups as that takes.
pub proof fn law_group_at(words: Seq<WordView>, n: nat, i: int)
    requires
        n > 0,
        i >= 0,
    ensures
        i < groups(words, n).len() <==> n * i < words.len(),
        n * i < words.len() ==> groups(words, n)[i] == words.subrange(
            n * i,
            if n * i + n < words.len() {
                n * i + n
            } else {
                words.len() as int
            },
        ),
    decreases words.len(),
{
    if i == 0 {
        assert(n * i == 0) by (nonlinear_arith)
            requires
                i == 0,
        ;
        if words.len() > 0 {
            if words.len() <= n {
                assert(words.subrange(0, words.len() as int) =~= words);
            } else {
                assert(words.subrange(0, n as int) =~= words.take(n as int));
            }
        }
    } else {
        assert(n * i == n + n * (i - 1)) by (nonlinear_arith);
        assert(n * (i - 1) >= 0) by (nonlinear_arith)
            requires
                n > 0,
                i >= 1,
        ;
        if words.len() > n {
            let rest = words.skip(n as int);
            law_group_at(rest, n, i - 1);
            if n * i < words.len() {
                let to = if n * i + n < words.len() {
                    n * i + n
                } else {
                    words.len() as int
                };
                assert(groups(words, n)[i] == groups(rest, n)[i - 1]);
                assert(rest.subrange(n * (i - 1), to - n) =~= words.subrange(n * i, to));
            }
        }
    }
}

/// Every word stands in the group that its position gives.
pub proof fn law_word_in_group(words: Seq<WordView>, n: nat, k: int)
    requires
        n > 0,
        0 <= k < words.len(),
    ensures
        0 <= k / (n as int) < groups(words, n).len(),
        0 <= k % (n as int) < groups(words, n)[k / (n as int)].len(),
        groups(words, n)[k / n as int][k % n as int] == words[k],
{
    let i = k / n as int;
    let r = k % n as int;
    vstd::arithmetic::div_mod::lemma_fundamental_div_mod(k, n as int);
    assert(0 <= r < n && i >= 0) by (nonlinear_arith)
        requires
            n > 0,
            k >= 0,
            i == k / n as int,
            r == k % n as int,
    ;
    assert(n * i + r == k);
    law_group_at(words, n, i);
}

/// A word is shown from its own start on, or from the start of the clip where it
/// began before, and until its own end or that of the clip, whichever is first.
pub proof fn law_times(w: WordView, start: int, end: int)
    ensures
        start_in_clip(w, start) >= 0,
        start + start_in_clip(w, start) == if w.start > start {
            w.start
        } else {
            start
        },
        start + end_in_clip(w, start, end) <= w.end,
        end_in_clip(w, start, end) <= end - start,
        start + end_in_clip(w, start, end) == w.end || end_in_clip(w, start, end) == end - start,
{
}

/// A group says the texts of its words in order with one space between, and so
/// the text of each of them.
pub proof fn law_spoken(group: Seq<WordView>, w: WordView, i: int)
    requires
        0 <= i < group.len(),
    ensures
        spoken(seq![w]) == w.text,
        spoken(group.push(w)) == spoken(group) + seq![' '] + w.text,
        exists|a: Seq<char>, b: Seq<char>| spoken(group) == #[trigger] (a + group[i].text + b),
{
    reveal_strlit(" ");
    assert(" "@ =~= seq![' ']);
    assert(word_texts(seq![w]) =~= seq![w.text]);
    assert(word_texts(group.push(w)) =~= word_texts(group).push(w.text));
    law_joined(word_texts(group), w.text, " "@);
    law_joined_holds(word_texts(group), " "@, i);
    assert(word_texts(group)[i] == group[i].text);
}

/// A list of borrowed words stands for what each of them says, and a list of
/// groups for what each group says.
pub proof fn law_views(v: Seq<&TranscriptWord>, gs: Seq<Vec<&TranscriptWord>>)
    ensures
        ref_views(v).len() == v.len(),
        forall|i: int| 0 <= i < v.len() ==> #[trigger] ref_views(v)[i] == v[i]@,
        group_views(gs).len() == gs.len(),
        forall|i: int| 0 <= i < gs.len() ==> #[trigger] group_views(gs)[i] == ref_views(gs[i]@),
{
}

} // verus!
