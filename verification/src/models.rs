//! What the parts of the library hand to each other.
//!
//! Every time is a number of nanoseconds and every score a number of
//! billionths.

use vstd::prelude::*;
use crate::text::opt_text;

verus! {

/// One spoken word.
#[derive(Debug)]
pub struct TranscriptWord {
    pub text: String,
    pub start: i64,
    pub end: i64,
    pub speaker: Option<String>,
}

/// What a [`TranscriptWord`] says.
pub struct WordView {
    pub text: Seq<char>,
    pub start: int,
    pub end: int,
    pub speaker: Option<Seq<char>>,
}

impl View for TranscriptWord {
    type V = WordView;

    open spec fn view(&self) -> WordView {
        WordView {
            text: self.text@,
            start: self.start as int,
            end: self.end as int,
            speaker: opt_text(self.speaker),
        }
    }
}

/// The views of a list of words.
pub open spec fn word_views(v: Seq<TranscriptWord>) -> Seq<WordView> {
    v.map_values(|w: TranscriptWord| w@)
}

/// A stretch of speech by one speaker.
#[derive(Debug)]
pub struct TranscriptSegment {
    pub start: i64,
    pub end: i64,
    pub speaker: Option<String>,
    pub text: String,
}

/// A transcript in the form that every provider's output is brought to.
#[derive(Debug)]
pub struct NormalizedTranscript {
    pub language: String,
    pub duration: i64,
    pub speakers: Vec<String>,
    pub words: Vec<TranscriptWord>,
    pub segments: Vec<TranscriptSegment>,
}

/// A moment that a model proposes as a clip.
#[derive(Debug)]
pub struct CandidateDraft {
    pub start: i64,
    pub end: i64,
    pub score: i64,
    pub hook: String,
    pub rationale: String,
}

/// What a [`CandidateDraft`] says.
pub struct DraftView {
    pub start: int,
    pub end: int,
    pub score: int,
    pub hook: Seq<char>,
    pub rationale: Seq<char>,
}

impl View for CandidateDraft {
    type V = DraftView;

    open spec fn view(&self) -> DraftView {
        DraftView {
            start: self.start as int,
            end: self.end as int,
            score: self.score as int,
            hook: self.hook@,
            rationale: self.rationale@,
        }
    }
}

/// The views of a list of drafts.
pub open spec fn draft_views(v: Seq<CandidateDraft>) -> Seq<DraftView> {
    v.map_values(|d: CandidateDraft| d@)
}

/// A ranked candidate of a project.
#[derive(Debug)]
pub struct Candidate {
    pub id: String,
    pub rank: i64,
    pub start_sec: i64,
    pub end_sec: i64,
    pub score: i64,
    pub hook: String,
}

/// An imported source video.
#[derive(Debug)]
pub struct Project {
    pub id: String,
    pub name: Option<String>,
    pub source_path: String,
    pub source_duration: Option<i64>,
    pub status: String,
    pub transcription_mode: String,
    pub caption_style: Option<String>,
    pub brand_name: Option<String>,
    pub brand_logo_path: Option<String>,
    pub created_at: String,
    pub updated_at: String,
}

/// What is known of a media file.
#[derive(Debug)]
pub struct MediaProbe {
    pub duration_sec: Option<i64>,
    pub has_video: bool,
    pub width: Option<i64>,
    pub height: Option<i64>,
    pub video_codec: Option<String>,
    pub audio_codec: Option<String>,
}

/// A word, a draft and lists of them stand for what their fields hold.
pub proof fn law_models(w: TranscriptWord, words: Seq<TranscriptWord>, d: CandidateDraft, drafts: Seq<
    CandidateDraft,
>)
    ensures
        w@.text == w.text@ && w@.start == w.start && w@.end == w.end,
        w@.speaker == match w.speaker {
            Some(s) => Some(s@),
            None => None,
        },
        word_views(words).len() == words.len(),
        forall|i: int| 0 <= i < words.len() ==> #[trigger] word_views(words)[i] == words[i]@,
        d@.start == d.start && d@.end == d.end && d@.score == d.score,
        d@.hook == d.hook@ && d@.rationale == d.rationale@,
        draft_views(drafts).len() == drafts.len(),
        forall|i: int| 0 <= i < drafts.len() ==> #[trigger] draft_views(drafts)[i] == drafts[i]@,
{
}

} // verus!
