//! A transcript to try the app with.

use vstd::prelude::*;
use crate::models::{word_views, NormalizedTranscript, TranscriptSegment, TranscriptWord, WordView};
use crate::text::{lemma_words, put, split_words, texts, word_starts, words};

verus! {

/// How long a word of the demo lasts.
pub const WORD: i64 = 320_000_000;

/// The pause after a word: one begins every 400 milliseconds.
pub const WORD_PAUSE: i64 = 80_000_000;

/// The pause after a line, in addition to that after its last word.
pub const LINE_PAUSE: i64 = 750_000_000;

/// What the demo says.
pub open spec fn demo_lines() -> Seq<Seq<char>> {
    seq![
        "The surprising thing about short-form clips is that the best moment is rarely the loudest moment."@,
        "It is usually the point where someone finally says the quiet part plainly and the listener can feel the stakes."@,
        "That is why the system needs to understand the transcript as a story, not just search for keywords."@,
        "A good clip opens with tension, resolves one idea, and ends before the energy leaks away."@,
        "If you can rank those moments consistently, the rendering pipeline becomes much easier to trust."@,
        "The creator still decides what represents them, but the machine removes the first exhausting pass through hours of footage."@,
        "The goal is not to automate taste completely. The goal is to give taste a faster starting point."@,
        "Once the strongest moments are visible, captions and platform copy become finishing work instead of discovery work."@,
        "That is the workflow AutoShorts is designed around."@,
    ]
}

/// The words of a line, one after the other from `at` on.
pub open spec fn timed_line(line: Seq<Seq<char>>, at: int) -> Seq<WordView> {
    Seq::new(
        line.len(),
        |i: int|
            WordView {
                text: line[i],
                start: at + i * 400_000_000,
                end: at + i * 400_000_000 + WORD,
                speaker: Some("A"@),
            },
    )
}

/// When a line that begins at `at` is over.
pub open spec fn line_end(line: Seq<Seq<char>>, at: int) -> int {
    at + line.len() * 400_000_000 + LINE_PAUSE
}

/// When the lines are over.
pub open spec fn demo_end(lines: Seq<Seq<char>>) -> int
    decreases lines.len(),
{
    if lines.len() == 0 {
        0
    } else {
        line_end(words(lines.last()), demo_end(lines.drop_last()))
    }
}

/// The words of the lines, each line after the one before it.
pub open spec fn demo_words(lines: Seq<Seq<char>>) -> Seq<WordView>
    decreases lines.len(),
{
    if lines.len() == 0 {
        Seq::empty()
    } else {
        demo_words(lines.drop_last()) + timed_line(
            words(lines.last()),
            demo_end(lines.drop_last()),
        )
    }
}

/// No more words begin in a text than it has characters.
proof fn lemma_starts_len(s: Seq<char>)
    ensures
        word_starts(s) <= s.len(),
    decreases s.len(),
{
    if s.len() > 0 {
        lemma_starts_len(s.drop_last());
    }
}

/// Lists what the demo says.
fn lines_of_demo() -> (res: Vec<String>)
    ensures
        texts(res@) == demo_lines(),
        forall|i: int| 0 <= i < res@.len() ==> (#[trigger] res@[i])@.len() < 200,
{
    let mut list: Vec<String> = Vec::new();
    put(&mut list, "The surprising thing about short-form clips is that the best moment is rarely the loudest moment.");
    put(&mut list, "It is usually the point where someone finally says the quiet part plainly and the listener can feel the stakes.");
    put(&mut list, "That is why the system needs to understand the transcript as a story, not just search for keywords.");
    put(&mut list, "A good clip opens with tension, resolves one idea, and ends before the energy leaks away.");
    put(&mut list, "If you can rank those moments consistently, the rendering pipeline becomes much easier to trust.");
    put(&mut list, "The creator still decides what represents them, but the machine removes the first exhausting pass through hours of footage.");
    put(&mut list, "The goal is not to automate taste completely. The goal is to give taste a faster starting point.");
    put(&mut list, "Once the strongest moments are visible, captions and platform copy become finishing work instead of discovery work.");
    put(&mut list, "That is the workflow AutoShorts is designed around.");
    assert(texts(list@) =~= demo_lines());
    proof {
        lemma_demo_lines();
        assert forall|i: int| 0 <= i < list@.len() implies (#[trigger] list@[i])@.len() < 200 by {
            assert(texts(list@)[i] == list@[i]@);
        }
    }
    list
}

/// The lines of the demo are short.
proof fn lemma_demo_lines()
    ensures
        forall|i: int| 0 <= i < demo_lines().len() ==> (#[trigger] demo_lines()[i]).len() < 200,
{
    reveal_strlit("The surprising thing about short-form clips is that the best moment is rarely the loudest moment.");
    reveal_strlit("It is usually the point where someone finally says the quiet part plainly and the listener can feel the stakes.");
    reveal_strlit("That is why the system needs to understand the transcript as a story, not just search for keywords.");
    reveal_strlit("A good clip opens with tension, resolves one idea, and ends before the energy leaks away.");
    reveal_strlit("If you can rank those moments consistently, the rendering pipeline becomes much easier to trust.");
    reveal_strlit("The creator still decides what represents them, but the machine removes the first exhausting pass through hours of footage.");
    reveal_strlit("The goal is not to automate taste completely. The goal is to give taste a faster starting point.");
    reveal_strlit("Once the strongest moments are visible, captions and platform copy become finishing work instead of discovery work.");
    reveal_strlit("That is the workflow AutoShorts is designed around.");
}

/// Adds the words of a line from `at` on, and says when the line is over.
fn put_line(list: &mut Vec<TranscriptWord>, line: &str, at: i64) -> (res: i64)
    requires
        0 <= at <= 1_000_000_000_000_000,
        line@.len() < 200,
    ensures
        word_views(final(list)@) == word_views(old(list)@) + timed_line(words(line@), at as int),
        res == line_end(words(line@), at as int),
        at <= res <= at + 200 * 400_000_000 + LINE_PAUSE,
{
    let tokens = split_words(line);
    proof {
        lemma_words(line@);
        lemma_starts_len(line@);
        assert(texts(tokens@).len() == tokens@.len());
    }
    let ghost parts = texts(tokens@);
    let ghost before = word_views(list@);
    let ghost all = timed_line(parts, at as int);
    let mut cursor: i64 = at;
    let mut i: usize = 0;
    assert(before + all.take(0) =~= before);
    while i < tokens.len()
        invariant
            i <= tokens@.len(),
            tokens@.len() < 200,
            parts == texts(tokens@),
            all == timed_line(parts, at as int),
            0 <= at <= 1_000_000_000_000_000,
            cursor == at + i * 400_000_000,
            word_views(list@) == before + all.take(i as int),
        decreases tokens@.len() - i,
    {
        let end: i64 = cursor + WORD;
        let word = TranscriptWord {
            text: tokens[i].as_str().to_owned(),
            start: cursor,
            end,
            speaker: Some("A".to_owned()),
        };
        let ghost shown = word_views(list@);
        assert(parts[i as int] == tokens@[i as int]@);
        assert(word@ == all[i as int]);
        list.push(word);
        assert(word_views(list@) =~= shown.push(word@));
        assert(all.take(i + 1) =~= all.take(i as int).push(all[i as int]));
        assert(word_views(list@) =~= before + all.take(i + 1));
        cursor = end + WORD_PAUSE;
        i += 1;
    }
    assert(all.take(i as int) =~= all);
    cursor + LINE_PAUSE
}

/// A transcript to try the app with. `build_segments` puts its words into
/// segments.
pub fn demo_transcript(
    build_segments: impl Fn(&Vec<TranscriptWord>) -> Vec<TranscriptSegment>,
) -> (res: NormalizedTranscript)
    requires
        forall|w: &Vec<TranscriptWord>| call_requires(build_segments, (w,)),
    ensures
        word_views(res.words@) == demo_words(demo_lines()),
        res.duration == demo_end(demo_lines()),
        res.language@ == "en"@,
        texts(res.speakers@) == seq!["A"@],
        call_ensures(build_segments, (&res.words,), res.segments),
{
    let lines = lines_of_demo();
    let ghost all = texts(lines@);
    let mut list: Vec<TranscriptWord> = Vec::new();
    let mut cursor: i64 = 0;
    let mut i: usize = 0;
    assert(all.take(0) =~= Seq::<Seq<char>>::empty());
    assert(word_views(list@) =~= Seq::<WordView>::empty());
    assert(lines@.len() == demo_lines().len());
    while i < lines.len()
        invariant
            i <= lines@.len(),
            lines@.len() == 9,
            all == texts(lines@),
            forall|k: int| 0 <= k < lines@.len() ==> (#[trigger] lines@[k])@.len() < 200,
            word_views(list@) == demo_words(all.take(i as int)),
            cursor == demo_end(all.take(i as int)),
            0 <= cursor <= i * 81_000_000_000,
        decreases lines@.len() - i,
    {
        assert(all.take(i + 1).drop_last() =~= all.take(i as int));
        assert(all.take(i + 1).last() == lines@[i as int]@);
        cursor = put_line(&mut list, lines[i].as_str(), cursor);
        i += 1;
    }
    assert(all.take(i as int) =~= all);
    let mut speakers: Vec<String> = Vec::new();
    put(&mut speakers, "A");
    assert(texts(speakers@) =~= seq!["A"@]);
    let segments = build_segments(&list);
    NormalizedTranscript {
        language: "en".to_owned(),
        duration: cursor,
        speakers,
        words: list,
        segments,
    }
}

/// The words of a line follow one another every four tenths of a second, each
/// spoken for eight tenths of that by the one speaker; the next line begins three
/// quarters of a second after.
pub proof fn law_timed_line(line: Seq<Seq<char>>, at: int, i: int)
    requires
        0 <= i < line.len(),
    ensures
        timed_line(line, at).len() == line.len(),
        timed_line(line, at)[i].text == line[i],
        timed_line(line, at)[i].speaker == Some("A"@),
        timed_line(line, at)[0].start == at,
        i > 0 ==> timed_line(line, at)[i].start - timed_line(line, at)[i - 1].start == 400_000_000,
        timed_line(line, at)[i].end - timed_line(line, at)[i].start == 320_000_000,
        line_end(line, at) == timed_line(line, at).last().start + 400_000_000 + 750_000_000,
{
}

/// One more line adds its words where the lines before it ended.
pub proof fn law_demo(parts: Seq<Seq<char>>, line: Seq<char>)
    ensures
        demo_words(Seq::empty()) == Seq::<WordView>::empty(),
        demo_end(Seq::empty()) == 0,
        demo_words(parts.push(line)) == demo_words(parts) + timed_line(words(line), demo_end(parts)),
        demo_end(parts.push(line)) == line_end(words(line), demo_end(parts)),
        WORD == 320_000_000 && WORD_PAUSE == 80_000_000 && LINE_PAUSE == 750_000_000,
{
    assert(parts.push(line).drop_last() =~= parts);
}

/// What the demonstration says.
pub proof fn law_demo_lines()
    ensures
        demo_lines() == seq![
        "The surprising thing about short-form clips is that the best moment is rarely the loudest moment."@,
        "It is usually the point where someone finally says the quiet part plainly and the listener can feel the stakes."@,
        "That is why the system needs to understand the transcript as a story, not just search for keywords."@,
        "A good clip opens with tension, resolves one idea, and ends before the energy leaks away."@,
        "If you can rank those moments consistently, the rendering pipeline becomes much easier to trust."@,
        "The creator still decides what represents them, but the machine removes the first exhausting pass through hours of footage."@,
        "The goal is not to automate taste completely. The goal is to give taste a faster starting point."@,
        "Once the strongest moments are visible, captions and platform copy become finishing work instead of discovery work."@,
        "That is the workflow AutoShorts is designed around."@,
    ],
{
}

} // verus!
