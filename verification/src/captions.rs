//! Burned-in captions that do not depend on ffmpeg's `drawtext` filter.
//!
//! `drawtext` is missing from ffmpeg builds without libfreetype, while `overlay`
//! is in every build. So captions are drawn as transparent images and laid over
//! the clip. The text keeps its punctuation on this way.

use vstd::prelude::*;
use vstd::string::StringExecFns;
use crate::clip::{
    clip_end, clip_start, clip_words, end_in_clip, group_views, grouped, groups, heard,
    law_clip_words, law_group_at, law_groups, law_word_in_group, ref_views, start_in_clip,
    words_in_clip,
};
use crate::models::{word_views, TranscriptWord, WordView};
use crate::paths::{look, seen};
use crate::pyenv::has_module;
use crate::sidecar::Exit;
use crate::text::{
    all_ascii, is_blank, join, joined, law_joined_holds, law_trim, put, texts, trim, trimmed, upper,
    upper_of,
};

verus! {

/// A phrase and when it is on screen, counted from the start of the clip.
#[derive(Debug)]
pub struct Chunk {
    pub text: String,
    pub start: i128,
    pub end: i128,
}

/// What a [`Chunk`] says.
pub struct ChunkView {
    pub text: Seq<char>,
    pub start: int,
    pub end: int,
}

impl View for Chunk {
    type V = ChunkView;

    open spec fn view(&self) -> ChunkView {
        ChunkView { text: self.text@, start: self.start as int, end: self.end as int }
    }
}

/// The views of a list of chunks.
pub open spec fn chunk_views(v: Seq<Chunk>) -> Seq<ChunkView> {
    v.map_values(|c: Chunk| c@)
}

/// The trimmed texts of a group, without those that are blank.
pub open spec fn phrase_parts(group: Seq<WordView>) -> Seq<Seq<char>>
    decreases group.len(),
{
    if group.len() == 0 {
        Seq::empty()
    } else {
        let before = phrase_parts(group.drop_last());
        let text = trimmed(group.last().text);
        if text.len() == 0 {
            before
        } else {
            before.push(text)
        }
    }
}

/// What a group shows on screen.
pub open spec fn phrase(group: Seq<WordView>) -> Seq<char> {
    upper(joined(phrase_parts(group), " "@))
}

/// The chunk that a group of words becomes: none where it would not be on
/// screen at all or would show nothing.
pub open spec fn chunk_of(group: Seq<WordView>, start: int, end: int) -> Option<ChunkView> {
    let from = start_in_clip(group.first(), start);
    let to = end_in_clip(group.last(), start, end);
    if to <= from || phrase(group).len() == 0 {
        None
    } else {
        Some(ChunkView { text: phrase(group), start: from, end: to })
    }
}

/// The chunks that the groups become, in order.
pub open spec fn chunks_of(groups: Seq<Seq<WordView>>, start: int, end: int) -> Seq<ChunkView>
    decreases groups.len(),
{
    if groups.len() == 0 {
        Seq::empty()
    } else {
        let before = chunks_of(groups.drop_last(), start, end);
        match chunk_of(groups.last(), start, end) {
            Some(c) => before.push(c),
            None => before,
        }
    }
}

/// The captions of a clip: its words two at a time.
pub open spec fn captions(words: Seq<WordView>, start: int, end: int) -> Seq<ChunkView> {
    chunks_of(groups(clip_words(words, start, end), 2), start, end)
}

/// Writes what a group shows on screen.
fn phrase_text(group: &Vec<&TranscriptWord>) -> (res: String)
    ensures
        res@ == phrase(ref_views(group@)),
{
    let ghost all = ref_views(group@);
    let mut parts: Vec<String> = Vec::new();
    let mut i: usize = 0;
    assert(all.take(0) =~= Seq::<WordView>::empty());
    assert(texts(parts@) =~= Seq::<Seq<char>>::empty());
    while i < group.len()
        invariant
            i <= group@.len(),
            all == ref_views(group@),
            texts(parts@) == phrase_parts(all.take(i as int)),
        decreases group@.len() - i,
    {
        let text = trim(group[i].text.as_str());
        assert(all.take(i + 1).drop_last() =~= all.take(i as int));
        assert(all.take(i + 1).last() == group@[i as int]@);
        if !text.as_str().is_empty() {
            put(&mut parts, text.as_str());
        }
        i += 1;
    }
    assert(all.take(i as int) =~= all);
    let line = join(&parts, " ");
    upper_of(line.as_str())
}

/// Group words into short on-screen phrases.
///
/// Two words at a time suit a fast pace and keep each caption readable on a
/// phone.
pub fn chunk_words(words: &[TranscriptWord], start_sec: i64, end_sec: i64) -> (res: Vec<Chunk>)
    ensures
        chunk_views(res@) == captions(word_views(words@), start_sec as int, end_sec as int),
{
    let in_range = words_in_clip(words, start_sec, end_sec);
    let pairs = grouped(&in_range, 2);
    let ghost all = group_views(pairs@);
    proof {
        law_groups(ref_views(in_range@), 2);
    }
    let mut res: Vec<Chunk> = Vec::new();
    let mut i: usize = 0;
    assert(all.take(0) =~= Seq::<Seq<WordView>>::empty());
    assert(chunk_views(res@) =~= Seq::<ChunkView>::empty());
    while i < pairs.len()
        invariant
            i <= pairs@.len(),
            all == group_views(pairs@),
            forall|k: int| 0 <= k < all.len() ==> 0 < (#[trigger] all[k]).len(),
            chunk_views(res@) == chunks_of(all.take(i as int), start_sec as int, end_sec as int),
        decreases pairs@.len() - i,
    {
        let pair = &pairs[i];
        let ghost before = chunk_views(res@);
        let ghost group = all[i as int];
        assert(group == ref_views(pair@));
        assert(all.take(i + 1).drop_last() =~= all.take(i as int));
        assert(all.take(i + 1).last() == group);
        let start = clip_start(pair[0], start_sec);
        let end = clip_end(pair[pair.len() - 1], start_sec, end_sec);
        if end > start {
            let text = phrase_text(pair);
            if !text.as_str().is_empty() {
                let chunk = Chunk { text, start, end };
                res.push(chunk);
                assert(chunk_views(res@) =~= before.push(chunk@));
            }
        }
        i += 1;
    }
    assert(all.take(i as int) =~= all);
    res
}

/// Every caption is on screen for some time within the clip and shows
/// something.
pub proof fn law_captions(words: Seq<WordView>, start: int, end: int)
    ensures
        forall|i: int|
            0 <= i < captions(words, start, end).len() ==> 0 <= (#[trigger] captions(
                words,
                start,
                end,
            )[i]).start && captions(words, start, end)[i].start < captions(words, start, end)[i].end
                && captions(words, start, end)[i].end <= end - start && captions(
                words,
                start,
                end,
            )[i].text.len() > 0,
{
    lemma_chunks(groups(clip_words(words, start, end), 2), start, end);
}

/// Every chunk is on screen for some time within the clip and shows something.
proof fn lemma_chunks(gs: Seq<Seq<WordView>>, start: int, end: int)
    ensures
        forall|i: int|
            0 <= i < chunks_of(gs, start, end).len() ==> 0 <= (#[trigger] chunks_of(
                gs,
                start,
                end,
            )[i]).start && chunks_of(gs, start, end)[i].start < chunks_of(gs, start, end)[i].end
                && chunks_of(gs, start, end)[i].end <= end - start && chunks_of(
                gs,
                start,
                end,
            )[i].text.len() > 0,
    decreases gs.len(),
{
    if gs.len() > 0 {
        lemma_chunks(gs.drop_last(), start, end);
        let before = chunks_of(gs.drop_last(), start, end);
        let all = chunks_of(gs, start, end);
        assert forall|i: int| 0 <= i < all.len() implies 0 <= (#[trigger] all[i]).start && all[i].start
            < all[i].end && all[i].end <= end - start && all[i].text.len() > 0 by {
            if i < before.len() {
                assert(all[i] == before[i]);
            }
        }
    }
}

/// Whether captions can be rendered without `drawtext`: some interpreter has
/// Pillow.
pub fn available(candidates: &Vec<String>, imports: impl Fn(&String, &str) -> bool) -> (res: bool)
    requires
        forall|c: &String, m: &str| call_requires(imports, (c, m)),
    ensures
        res ==> exists|i: int|
            0 <= i < candidates@.len() && call_ensures(
                imports,
                (&#[trigger] candidates@[i], "PIL"),
                true,
            ),
        !res ==> forall|i: int|
            0 <= i < candidates@.len() ==> call_ensures(
                imports,
                (&#[trigger] candidates@[i], "PIL"),
                false,
            ),
{
    has_module(candidates, "PIL", imports)
}

/// A caption track to render.
#[derive(Debug)]
pub struct TrackSpec {
    pub width: i64,
    pub height: i64,
    pub duration: i128,
    pub style: String,
    pub chunks: Vec<Chunk>,
}

/// What a [`TrackSpec`] says.
pub struct TrackSpecView {
    pub width: int,
    pub height: int,
    pub duration: int,
    pub style: Seq<char>,
    pub chunks: Seq<ChunkView>,
}

impl View for TrackSpec {
    type V = TrackSpecView;

    open spec fn view(&self) -> TrackSpecView {
        TrackSpecView {
            width: self.width as int,
            height: self.height as int,
            duration: self.duration as int,
            style: self.style@,
            chunks: chunk_views(self.chunks@),
        }
    }
}

/// The view of an optional track to render.
pub open spec fn opt_spec(s: Option<TrackSpec>) -> Option<TrackSpecView> {
    match s {
        Some(s) => Some(s@),
        None => None,
    }
}

/// The track to render for a clip: none where the clip or the picture is empty
/// or nothing would be shown.
pub open spec fn track_for(
    words: Seq<WordView>,
    start: int,
    end: int,
    width: int,
    height: int,
    style: Seq<char>,
) -> Option<TrackSpecView> {
    if end - start <= 0 || width <= 0 || height <= 0 || captions(words, start, end).len() == 0 {
        None
    } else {
        Some(
            TrackSpecView {
                width,
                height,
                duration: end - start,
                style,
                chunks: captions(words, start, end),
            },
        )
    }
}

/// Plans the caption track of a clip. Where captions cannot be produced there is
/// none, and the clip is rendered without them.
pub fn plan_track(
    words: &[TranscriptWord],
    start_sec: i64,
    end_sec: i64,
    width: i64,
    height: i64,
    style: &str,
) -> (res: Option<TrackSpec>)
    ensures
        opt_spec(res) == track_for(
            word_views(words@),
            start_sec as int,
            end_sec as int,
            width as int,
            height as int,
            style@,
        ),
{
    let duration: i128 = end_sec as i128 - start_sec as i128;
    if duration <= 0 || width <= 0 || height <= 0 {
        return None;
    }
    let chunks = chunk_words(words, start_sec, end_sec);
    assert(chunk_views(chunks@).len() == chunks@.len());
    if chunks.len() == 0 {
        return None;
    }
    Some(TrackSpec { width, height, duration, style: style.to_owned(), chunks })
}

/// A hexadecimal digit in lower case.
pub open spec fn is_hex(c: char) -> bool {
    '0' <= c <= '9' || 'a' <= c <= 'f'
}

/// The text of a random identifier: 36 characters, with hyphens after the 8th,
/// 12th, 16th and 20th of 32 hexadecimal digits, of which the 13th is a 4 and
/// the 17th an 8, 9, a or b.
pub open spec fn is_random_id(s: Seq<char>) -> bool {
    &&& s.len() == 36
    &&& forall|i: int|
        0 <= i < 36 ==> if i == 8 || i == 13 || i == 18 || i == 23 {
            #[trigger] s[i] == '-'
        } else {
            is_hex(s[i])
        }
    &&& s[14] == '4'
    &&& s[19] == '8' || s[19] == '9' || s[19] == 'a' || s[19] == 'b'
}

/// A fresh identifier: [`uuid::Uuid::new_v4`], written as its `Display` writes
/// it. It is random; only its form is claimed.
#[verifier::external_body]
fn random_id() -> (res: String)
    ensures
        is_random_id(res@),
{
    uuid::Uuid::new_v4().to_string()
}

/// Calls a maker of identifiers.
fn draw<F: Fn() -> String>(maker: F) -> (res: String)
    requires
        call_requires(maker, ()),
    ensures
        call_ensures(maker, (), res),
{
    maker()
}

/// `id` is an identifier that was drawn at random.
pub closed spec fn is_drawn(id: Seq<char>) -> bool {
    exists|r: String| r@ == id && #[trigger] call_ensures(random_id, (), r)
}

/// A fresh name for the directory that holds the frames of a track.
pub fn frames_dir_name() -> (res: String)
    ensures
        exists|id: Seq<char>|
            is_drawn(id) && is_random_id(id) && res@ == #[trigger] ("captions-"@ + id),
{
    let id = draw(random_id);
    let mut name = "captions-".to_owned();
    name.append(id.as_str());
    assert(is_random_id(id@) && name@ == "captions-"@ + id@);
    name
}

/// A rendered caption track and the directory that holds its frames. The
/// directory must outlive the rendering of the clip.
#[derive(Debug)]
pub struct CaptionTrack {
    pub concat_list: String,
    pub dir: String,
}

/// The parts of an optional track.
pub open spec fn opt_track(t: Option<CaptionTrack>) -> Option<(Seq<char>, Seq<char>)> {
    match t {
        Some(t) => Some((t.concat_list@, t.dir@)),
        None => None,
    }
}

/// The track that a renderer produced: the list that it names, where it
/// succeeded, named one and the list is there.
pub open spec fn rendered(success: bool, stdout: Seq<char>, dir: Seq<char>, listed: bool) -> Option<
    (Seq<char>, Seq<char>),
> {
    if success && trimmed(stdout).len() > 0 && listed {
        Some((trimmed(stdout), dir))
    } else {
        None
    }
}

/// Decides which track a renderer produced. `listed` is whether the list that it
/// names is there.
pub fn decide_track(exit: &Exit, dir: &str, listed: bool) -> (res: Option<CaptionTrack>)
    ensures
        opt_track(res) == rendered(exit.success, exit.stdout@, dir@, listed),
{
    if !exit.success {
        return None;
    }
    let list = trim(exit.stdout.as_str());
    if list.as_str().is_empty() || !listed {
        return None;
    }
    Some(CaptionTrack { concat_list: list, dir: dir.to_owned() })
}

/// As [`decide_track`], looking for the list on disk.
pub fn render_track(exit: &Exit, dir: &str) -> (res: Option<CaptionTrack>)
    ensures
        exists|listed: bool|
            seen(trimmed(exit.stdout@), listed) && opt_track(res) == #[trigger] rendered(
                exit.success,
                exit.stdout@,
                dir@,
                listed,
            ),
{
    let list = trim(exit.stdout.as_str());
    let listed = look(list.as_str());
    decide_track(exit, dir, listed)
}

/// A list of chunks and a track to render stand for what their fields hold.
pub proof fn law_track_views(c: Chunk, v: Seq<Chunk>, s: TrackSpec)
    ensures
        c@.text == c.text@ && c@.start == c.start && c@.end == c.end,
        chunk_views(v).len() == v.len(),
        forall|i: int| 0 <= i < v.len() ==> #[trigger] chunk_views(v)[i] == v[i]@,
        s@.width == s.width && s@.height == s.height && s@.duration == s.duration,
        s@.style == s.style@ && s@.chunks == chunk_views(s.chunks@),
        opt_spec(Some(s)) == Some(s@) && opt_spec(None) is None,
{
}

/// The parts of a phrase are the trimmed texts of its words, in order, without
/// those that are empty.
proof fn lemma_phrase_parts(group: Seq<WordView>)
    ensures
        phrase_parts(group) == group.map_values(|w: WordView| trimmed(w.text)).filter(
            |t: Seq<char>| t.len() > 0,
        ),
    decreases group.len(),
{
    reveal(Seq::filter);
    let all = group.map_values(|w: WordView| trimmed(w.text));
    if group.len() > 0 {
        lemma_phrase_parts(group.drop_last());
        assert(all.drop_last() =~= group.drop_last().map_values(|w: WordView| trimmed(w.text)));
    }
}

/// A phrase is the upper case of exactly the trimmed texts of its words that are
/// not blank, in order, with one space between.
pub proof fn law_phrase(group: Seq<WordView>)
    ensures
        phrase(group) == upper(
            joined(
                group.map_values(|w: WordView| trimmed(w.text)).filter(|t: Seq<char>| t.len() > 0),
                seq![' '],
            ),
        ),
{
    reveal_strlit(" ");
    assert(" "@ =~= seq![' ']);
    lemma_phrase_parts(group);
}

/// The parts of a phrase hold every word that is not blank.
proof fn lemma_part_of_phrase(group: Seq<WordView>, i: int)
    requires
        0 <= i < group.len(),
        trimmed(group[i].text).len() > 0,
    ensures
        phrase_parts(group).contains(trimmed(group[i].text)),
    decreases group.len(),
{
    let text = trimmed(group[i].text);
    let parts = phrase_parts(group);
    if i == group.len() - 1 {
        assert(parts[parts.len() - 1] == text);
    } else {
        lemma_part_of_phrase(group.drop_last(), i);
        let before = phrase_parts(group.drop_last());
        let k = choose|k: int| 0 <= k < before.len() && before[k] == text;
        assert(parts[k] == text);
    }
}

/// Every word of a group that is not blank is shown in its phrase, whole; and a
/// phrase of ASCII words shows something.
pub proof fn law_phrase_shows(group: Seq<WordView>, i: int)
    requires
        0 <= i < group.len(),
        trimmed(group[i].text).len() > 0,
    ensures
        exists|a: Seq<char>, b: Seq<char>|
            phrase(group) == upper(#[trigger] (a + trimmed(group[i].text) + b)),
        (forall|k: int| 0 <= k < group.len() ==> all_ascii(#[trigger] group[k].text)) ==> phrase(
            group,
        ).len() > 0,
{
    lemma_part_of_phrase(group, i);
    let text = trimmed(group[i].text);
    let parts = phrase_parts(group);
    let k = choose|k: int| 0 <= k < parts.len() && parts[k] == text;
    law_joined_holds(parts, " "@, k);
    let (a, b) = choose|a: Seq<char>, b: Seq<char>| joined(parts, " "@) == #[trigger] (a + text + b);
    assert(phrase(group) == upper(a + text + b));
    if forall|k: int| 0 <= k < group.len() ==> all_ascii(#[trigger] group[k].text) {
        lemma_ascii_parts(group);
        lemma_ascii_joined(parts);
        assert(joined(parts, " "@).len() > 0);
    }
}

/// The parts of a phrase of ASCII words are ASCII.
proof fn lemma_ascii_parts(group: Seq<WordView>)
    requires
        forall|k: int| 0 <= k < group.len() ==> all_ascii(#[trigger] group[k].text),
    ensures
        forall|k: int| 0 <= k < phrase_parts(group).len() ==> all_ascii(#[trigger] phrase_parts(group)[k]),
    decreases group.len(),
{
    if group.len() > 0 {
        let rest = group.drop_last();
        assert forall|k: int| 0 <= k < rest.len() implies all_ascii(#[trigger] rest[k].text) by {
            assert(rest[k] == group[k]);
        }
        lemma_ascii_parts(rest);
        let s = group.last().text;
        assert(all_ascii(group[group.len() - 1].text));
        law_trim(s);
        let (a, b) = choose|a: int, b: int|
            0 <= a <= b <= s.len() && trimmed(s) == #[trigger] s.subrange(a, b);
        assert forall|j: int| 0 <= j < trimmed(s).len() implies #[trigger] trimmed(s)[j] <= '\u{7f}' by {
            assert(trimmed(s)[j] == s[a + j]);
        }
        let parts = phrase_parts(group);
        let before = phrase_parts(rest);
        assert forall|k: int| 0 <= k < parts.len() implies all_ascii(#[trigger] parts[k]) by {
            if k < before.len() {
                assert(parts[k] == before[k]);
            }
        }
    }
}

/// ASCII texts with spaces between are ASCII.
proof fn lemma_ascii_joined(parts: Seq<Seq<char>>)
    requires
        forall|k: int| 0 <= k < parts.len() ==> all_ascii(#[trigger] parts[k]),
    ensures
        all_ascii(joined(parts, " "@)),
    decreases parts.len(),
{
    reveal_strlit(" ");
    if parts.len() == 1 {
        assert(all_ascii(parts[0]));
    } else if parts.len() > 1 {
        let rest = parts.drop_last();
        assert forall|k: int| 0 <= k < rest.len() implies all_ascii(#[trigger] rest[k]) by {
            assert(rest[k] == parts[k]);
        }
        lemma_ascii_joined(rest);
        let head = joined(rest, " "@);
        let last = parts.last();
        assert(all_ascii(parts[parts.len() - 1]));
        let whole = joined(parts, " "@);
        assert(whole =~= head + " "@ + last);
        assert forall|j: int| 0 <= j < whole.len() implies #[trigger] whole[j] <= '\u{7f}' by {
            if j < head.len() {
                assert(whole[j] == head[j]);
            } else if j > head.len() {
                assert(whole[j] == last[j - head.len() - 1]);
            }
        }
    }
}

/// A group becomes a chunk exactly where its last word ends, within the clip,
/// after its first begins, and it shows something. The chunk is on screen for
/// just that time.
pub proof fn law_chunk(group: Seq<WordView>, start: int, end: int, from: int, to: int)
    requires
        group.len() > 0,
        from == if group[0].start > start {
            group[0].start
        } else {
            start
        },
        to == if group.last().end < end {
            group.last().end
        } else {
            end
        },
    ensures
        chunk_of(group, start, end) is Some <==> from < to && phrase(group).len() > 0,
        chunk_of(group, start, end) matches Some(c) ==> c.start == from - start && c.end == to - start
            && c.text == phrase(group),
{
}

/// One more group adds its chunk at the end, where it has one, and nothing else.
pub proof fn law_chunks(gs: Seq<Seq<WordView>>, g: Seq<WordView>, start: int, end: int)
    ensures
        chunks_of(Seq::empty(), start, end) == Seq::<ChunkView>::empty(),
        chunks_of(gs.push(g), start, end) == chunks_of(gs, start, end) + match chunk_of(
            g,
            start,
            end,
        ) {
            Some(c) => seq![c],
            None => Seq::empty(),
        },
{
    assert(gs.push(g).drop_last() =~= gs);
    assert(chunks_of(gs, start, end) + Seq::<ChunkView>::empty() =~= chunks_of(gs, start, end));
}

/// Every group that becomes a chunk has it among the chunks.
proof fn lemma_chunk_of_group(gs: Seq<Seq<WordView>>, start: int, end: int, k: int)
    requires
        0 <= k < gs.len(),
        chunk_of(gs[k], start, end) is Some,
    ensures
        chunks_of(gs, start, end).contains(chunk_of(gs[k], start, end)->0),
    decreases gs.len(),
{
    let c = chunk_of(gs[k], start, end)->0;
    let all = chunks_of(gs, start, end);
    if k == gs.len() - 1 {
        assert(all[all.len() - 1] == c);
    } else {
        lemma_chunk_of_group(gs.drop_last(), start, end, k);
        let before = chunks_of(gs.drop_last(), start, end);
        let m = choose|m: int| 0 <= m < before.len() && before[m] == c;
        assert(all[m] == c);
    }
}

/// The captions show the words of the clip two at a time: a pair that is on
/// screen and shows something has its caption, from the start of its first word
/// to the end of its last.
pub proof fn law_pairs_shown(words: Seq<WordView>, start: int, end: int, k: int)
    requires
        0 <= k,
        2 * k < clip_words(words, start, end).len(),
    ensures
        ({
            let kept = clip_words(words, start, end);
            let pair = kept.subrange(
                2 * k,
                if 2 * k + 2 < kept.len() {
                    2 * k + 2
                } else {
                    kept.len() as int
                },
            );
            let from = if pair[0].start > start {
                pair[0].start
            } else {
                start
            };
            let to = if pair.last().end < end {
                pair.last().end
            } else {
                end
            };
            from < to && phrase(pair).len() > 0 ==> captions(words, start, end).contains(
                ChunkView { text: phrase(pair), start: from - start, end: to - start },
            )
        }),
{
    let kept = clip_words(words, start, end);
    law_group_at(kept, 2, k);
    let gs = groups(kept, 2);
    if chunk_of(gs[k], start, end) is Some {
        lemma_chunk_of_group(gs, start, end, k);
    }
}

/// Every word that is heard in the clip and not blank is shown in a caption,
/// where its pair is on screen and shows something.
pub proof fn law_every_word_shown(words: Seq<WordView>, start: int, end: int, i: int)
    requires
        0 <= i < words.len(),
        words[i].end > start,
        words[i].start < end,
        trimmed(words[i].text).len() > 0,
    ensures
        exists|pair: Seq<WordView>| #[trigger]
            groups(clip_words(words, start, end), 2).contains(pair) && pair.contains(words[i]) && (
            exists|a: Seq<char>, b: Seq<char>|
                phrase(pair) == upper(#[trigger] (a + trimmed(words[i].text) + b))) && (start_in_clip(
                pair.first(),
                start,
            ) < end_in_clip(pair.last(), start, end) && phrase(pair).len() > 0 ==> captions(
                words,
                start,
                end,
            ).contains(
                ChunkView {
                    text: phrase(pair),
                    start: start_in_clip(pair.first(), start),
                    end: end_in_clip(pair.last(), start, end),
                },
            )),
{
    let w = words[i];
    let kept = clip_words(words, start, end);
    law_clip_words(words, start, end);
    assert(words.contains(w) && heard(w, start, end));
    assert(kept.contains(w));
    let m = choose|m: int| 0 <= m < kept.len() && kept[m] == w;
    law_word_in_group(kept, 2, m);
    let gs = groups(kept, 2);
    let k = m / 2;
    let j = m % 2;
    let pair = gs[k];
    assert(pair[j] == w);
    assert(pair.contains(w) && gs.contains(pair));
    law_phrase_shows(pair, j);
    if chunk_of(pair, start, end) is Some {
        lemma_chunk_of_group(gs, start, end, k);
    }
}

/// A track is planned exactly for a clip that lasts, in a picture with area, that
/// has captions; it has the clip's length and captions and the given size and
/// style.
pub proof fn law_track(words: Seq<WordView>, start: int, end: int, width: int, height: int, style: Seq<
    char,
>)
    ensures
        track_for(words, start, end, width, height, style) is Some <==> start < end && width > 0
            && height > 0 && captions(words, start, end).len() > 0,
        track_for(words, start, end, width, height, style) matches Some(t) ==> t.width == width
            && t.height == height && t.duration == end - start && t.style == style && t.chunks
            == captions(words, start, end),
{
}

/// A renderer produced a track exactly where it succeeded, its output names a
/// list and the list is there; the track is that list in the given directory.
pub proof fn law_rendered(success: bool, stdout: Seq<char>, dir: Seq<char>, listed: bool)
    ensures
        rendered(success, stdout, dir, listed) is Some <==> success && listed && !is_blank(stdout),
        rendered(success, stdout, dir, listed) matches Some(t) ==> t.0 == trimmed(stdout) && t.1 == dir,
        forall|t: CaptionTrack| #[trigger]
            opt_track(Some(t)) == Some((t.concat_list@, t.dir@)),
        opt_track(None) is None,
{
}

/// A random identifier is five groups of hexadecimal digits in small letters, of
/// eight, four, four, four and twelve, with hyphens between; it is of the fourth
/// version and the usual variant.
pub proof fn law_random_id(s: Seq<char>, i: int)
    requires
        is_random_id(s),
    ensures
        s.len() == 36,
        s[8] == '-' && s[13] == '-' && s[18] == '-' && s[23] == '-',
        0 <= i < 36 && i != 8 && i != 13 && i != 18 && i != 23 ==> ('0' <= s[i] <= '9') || ('a' <= s[i]
            <= 'f'),
        s[14] == '4',
        s[19] == '8' || s[19] == '9' || s[19] == 'a' || s[19] == 'b',
        forall|c: char| #[trigger] is_hex(c) <==> ('0' <= c <= '9') || ('a' <= c <= 'f'),
{
    assert(s[8] == '-' && s[13] == '-' && s[18] == '-' && s[23] == '-');
}

} // verus!
