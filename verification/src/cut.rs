//! Cutting a candidate into a clip: one render with captions and, where that
//! fails, one without.

use vstd::prelude::*;
use vstd::string::StringExecFns;
use crate::drawtext::{chosen_font, drawtext, drawtext_with_font, font_here, font_paths};
use crate::models::{word_views, Candidate, Project, TranscriptWord, WordView};
use crate::paths::all_seen;
use crate::text::{opt_str, opt_text};

verus! {

/// How far the cutting of a candidate has come.
#[derive(Debug)]
pub enum CutState {
    /// The render with captions is under way.
    WithCaptions,
    /// The render without captions is under way, after one with them failed with
    /// this message.
    WithoutCaptions(String),
}

/// What a [`CutState`] says.
pub enum CutStateView {
    WithCaptions,
    WithoutCaptions(Seq<char>),
}

impl View for CutState {
    type V = CutStateView;

    open spec fn view(&self) -> CutStateView {
        match self {
            CutState::WithCaptions => CutStateView::WithCaptions,
            CutState::WithoutCaptions(e) => CutStateView::WithoutCaptions(e@),
        }
    }
}

/// What is stored of a clip.
#[derive(Debug)]
pub struct ClipRecord {
    pub status: String,
    pub output_path: Option<String>,
    pub srt_path: Option<String>,
    pub error: Option<String>,
}

/// What a [`ClipRecord`] says.
pub struct RecordView {
    pub status: Seq<char>,
    pub output_path: Option<Seq<char>>,
    pub srt_path: Option<Seq<char>>,
    pub error: Option<Seq<char>>,
}

impl View for ClipRecord {
    type V = RecordView;

    open spec fn view(&self) -> RecordView {
        RecordView {
            status: self.status@,
            output_path: opt_text(self.output_path),
            srt_path: opt_text(self.srt_path),
            error: opt_text(self.error),
        }
    }
}

/// What to do after a render.
#[derive(Debug)]
pub enum CutAction {
    /// Render again, in this state.
    Render(CutState),
    /// Store the record; the clip is cut.
    Finish(ClipRecord),
    /// Store the record; the clip could not be cut.
    Fail(ClipRecord),
}

/// What a [`CutAction`] says.
pub enum CutActionView {
    Render(CutStateView),
    Finish(RecordView),
    Fail(RecordView),
}

impl View for CutAction {
    type V = CutActionView;

    open spec fn view(&self) -> CutActionView {
        match self {
            CutAction::Render(s) => CutActionView::Render(s@),
            CutAction::Finish(r) => CutActionView::Finish(r@),
            CutAction::Fail(r) => CutActionView::Fail(r@),
        }
    }
}

/// The warning on a clip that was rendered without its captions.
pub open spec fn warning(message: Seq<char>) -> Seq<char> {
    "Clip rendered successfully, but captions were skipped. Error: "@ + message
}

/// What to do after a render. A render that failed with captions is tried
/// without them; the clip then carries a warning.
pub open spec fn next_action(
    state: CutStateView,
    outcome: Result<Seq<char>, Seq<char>>,
    srt_path: Option<Seq<char>>,
) -> CutActionView {
    match outcome {
        Ok(path) => CutActionView::Finish(
            RecordView {
                status: "done"@,
                output_path: Some(path),
                srt_path,
                error: match state {
                    CutStateView::WithCaptions => None,
                    CutStateView::WithoutCaptions(e) => Some(warning(e)),
                },
            },
        ),
        Err(message) => match state {
            CutStateView::WithCaptions => CutActionView::Render(
                CutStateView::WithoutCaptions(message),
            ),
            CutStateView::WithoutCaptions(_) => CutActionView::Fail(
                RecordView {
                    status: "error"@,
                    output_path: None,
                    srt_path: None,
                    error: Some(message),
                },
            ),
        },
    }
}

/// The texts of a borrowed result.
pub open spec fn outcome_text(r: Result<&str, &str>) -> Result<Seq<char>, Seq<char>> {
    match r {
        Ok(t) => Ok(t@),
        Err(e) => Err(e@),
    }
}

/// Decides what to do after a render.
pub fn after_render(state: CutState, outcome: Result<&str, &str>, srt_path: Option<&str>) -> (res:
    CutAction)
    ensures
        res@ == next_action(state@, outcome_text(outcome), opt_str(srt_path)),
{
    match outcome {
        Ok(path) => {
            let srt = match srt_path {
                Some(p) => Some(p.to_owned()),
                None => None,
            };
            let error = match state {
                CutState::WithCaptions => None,
                CutState::WithoutCaptions(e) => {
                    let mut message =
                        "Clip rendered successfully, but captions were skipped. Error: ".to_owned();
                    message.append(e.as_str());
                    Some(message)
                },
            };
            CutAction::Finish(
                ClipRecord {
                    status: "done".to_owned(),
                    output_path: Some(path.to_owned()),
                    srt_path: srt,
                    error,
                },
            )
        },
        Err(message) => match state {
            CutState::WithCaptions => CutAction::Render(
                CutState::WithoutCaptions(message.to_owned()),
            ),
            CutState::WithoutCaptions(_) => CutAction::Fail(
                ClipRecord {
                    status: "error".to_owned(),
                    output_path: None,
                    srt_path: None,
                    error: Some(message.to_owned()),
                },
            ),
        },
    }
}

/// The style that a project's captions have.
pub open spec fn style_of(caption_style: Option<Seq<char>>) -> Seq<char> {
    match caption_style {
        Some(s) => s,
        None => "modern-box"@,
    }
}

/// Reads the style that a project's captions have.
pub fn caption_style(project: &Project) -> (res: String)
    ensures
        res@ == style_of(opt_text(project.caption_style)),
{
    match &project.caption_style {
        Some(s) => s.as_str().to_owned(),
        None => "modern-box".to_owned(),
    }
}

/// How a clip gets its captions.
#[derive(Debug)]
pub enum Captions {
    /// By this track, laid over the picture.
    Overlay(String),
    /// By these filters.
    Drawn(String),
    /// Not at all.
    Absent,
}

/// What a [`Captions`] says.
pub enum CaptionsView {
    Overlay(Seq<char>),
    Drawn(Seq<char>),
    Absent,
}

impl View for Captions {
    type V = CaptionsView;

    open spec fn view(&self) -> CaptionsView {
        match self {
            Captions::Overlay(t) => CaptionsView::Overlay(t@),
            Captions::Drawn(f) => CaptionsView::Drawn(f@),
            Captions::Absent => CaptionsView::Absent,
        }
    }
}

/// How a clip gets its captions: by a track where one was rendered, else by
/// filters where there is something to draw. A clip without a transcript has
/// none.
pub open spec fn captioned(
    words: Option<Seq<WordView>>,
    start: int,
    end: int,
    width: int,
    style: Seq<char>,
    track: Option<Seq<char>>,
    font: Seq<char>,
) -> CaptionsView {
    match words {
        Some(w) => match track {
            Some(t) => CaptionsView::Overlay(t),
            None => if drawtext(w, start, end, width, style, font).len() > 0 {
                CaptionsView::Drawn(drawtext(w, start, end, width, style, font))
            } else {
                CaptionsView::Absent
            },
        },
        None => CaptionsView::Absent,
    }
}

/// The views of optional words.
pub open spec fn opt_words(words: Option<&[TranscriptWord]>) -> Option<Seq<WordView>> {
    match words {
        Some(w) => Some(word_views(w@)),
        None => None,
    }
}

/// Decides how a clip gets its captions, with a given font for drawn ones.
pub fn choose_captions_with_font(
    words: Option<&[TranscriptWord]>,
    candidate: &Candidate,
    cropped_width: i64,
    style: &str,
    track: Option<&str>,
    font_option: &str,
) -> (res: Captions)
    ensures
        res@ == captioned(
            opt_words(words),
            candidate.start_sec as int,
            candidate.end_sec as int,
            cropped_width as int,
            style@,
            opt_str(track),
            font_option@,
        ),
{
    match words {
        Some(w) => match track {
            Some(t) => Captions::Overlay(t.to_owned()),
            None => {
                let drawn = drawtext_with_font(
                    w,
                    candidate.start_sec,
                    candidate.end_sec,
                    cropped_width,
                    style,
                    font_option,
                );
                if drawn.as_str().is_empty() {
                    Captions::Absent
                } else {
                    Captions::Drawn(drawn)
                }
            },
        },
        None => Captions::Absent,
    }
}

/// Decides how a clip gets its captions. The overlay works on any ffmpeg build
/// and keeps punctuation, so it comes first.
pub fn choose_captions(
    words: Option<&[TranscriptWord]>,
    candidate: &Candidate,
    cropped_width: i64,
    style: &str,
    track: Option<&str>,
    windir: Option<&str>,
) -> (res: Captions)
    ensures
        exists|present: Seq<bool>|
            all_seen(font_paths(opt_str(windir)), present) && res@ == #[trigger] captioned(
                opt_words(words),
                candidate.start_sec as int,
                candidate.end_sec as int,
                cropped_width as int,
                style@,
                opt_str(track),
                chosen_font(font_paths(opt_str(windir)), present),
            ),
{
    let font = font_here(windir);
    choose_captions_with_font(words, candidate, cropped_width, style, track, font.as_str())
}

/// A clip has an overlay or drawn captions, never both, and neither without a
/// transcript.
pub proof fn law_one_kind_of_captions(
    words: Option<Seq<WordView>>,
    start: int,
    end: int,
    width: int,
    style: Seq<char>,
    track: Option<Seq<char>>,
    font: Seq<char>,
)
    ensures
        words is None ==> captioned(words, start, end, width, style, track, font) is Absent,
        words is Some && track is Some ==> captioned(words, start, end, width, style, track, font)
            == CaptionsView::Overlay(track->0),
        track is None ==> !(captioned(words, start, end, width, style, track, font) is Overlay),
{
}

/// Captions never cost a clip: where the second render succeeds the clip is cut,
/// whatever the first one said, and it fails only where both failed. After two
/// renders there is no third.
pub proof fn law_captions_never_cost_a_clip(
    first: Result<Seq<char>, Seq<char>>,
    second: Result<Seq<char>, Seq<char>>,
    srt_path: Option<Seq<char>>,
)
    ensures
        match next_action(CutStateView::WithCaptions, first, srt_path) {
            CutActionView::Finish(_) => first is Ok,
            CutActionView::Render(state) => {
                &&& first is Err
                &&& state is WithoutCaptions
                &&& second is Ok ==> next_action(state, second, srt_path) is Finish
                &&& second is Err ==> next_action(state, second, srt_path) is Fail
            },
            CutActionView::Fail(_) => false,
        },
{
}

/// A clip that is cut has a file, and one without its captions says so.
pub proof fn law_finished_clip(
    state: CutStateView,
    path: Seq<char>,
    srt_path: Option<Seq<char>>,
)
    ensures
        next_action(state, Ok(path), srt_path) is Finish,
        next_action(state, Ok(path), srt_path)->Finish_0.output_path == Some(path),
        next_action(state, Ok(path), srt_path)->Finish_0.status == "done"@,
        (next_action(state, Ok(path), srt_path)->Finish_0.error is Some) == (state is WithoutCaptions),
{
}

/// The states, records, actions and captions stand for what they hold.
pub proof fn law_cut_views(
    s: CutState,
    r: ClipRecord,
    a: CutAction,
    c: Captions,
    words: &[TranscriptWord],
    o: Result<&str, &str>,
)
    ensures
        match (s, s@) {
            (CutState::WithCaptions, CutStateView::WithCaptions) => true,
            (CutState::WithoutCaptions(e), CutStateView::WithoutCaptions(x)) => e@ == x,
            _ => false,
        },
        r@.status == r.status@ && r@.output_path == opt_text(r.output_path),
        r@.srt_path == opt_text(r.srt_path) && r@.error == opt_text(r.error),
        match (a, a@) {
            (CutAction::Render(x), CutActionView::Render(y)) => x@ == y,
            (CutAction::Finish(x), CutActionView::Finish(y)) => x@ == y,
            (CutAction::Fail(x), CutActionView::Fail(y)) => x@ == y,
            _ => false,
        },
        match (c, c@) {
            (Captions::Overlay(x), CaptionsView::Overlay(y)) => x@ == y,
            (Captions::Drawn(x), CaptionsView::Drawn(y)) => x@ == y,
            (Captions::Absent, CaptionsView::Absent) => true,
            _ => false,
        },
        opt_words(Some(words)) == Some(word_views(words@)) && opt_words(None) is None,
        match (o, outcome_text(o)) {
            (Ok(t), Ok(x)) => t@ == x,
            (Err(e), Err(x)) => e@ == x,
            _ => false,
        },
{
}

/// A render that succeeds is recorded with its files, and with a warning where
/// captions had been given up.
pub proof fn law_success(path: Seq<char>, lost: Seq<char>, srt: Option<Seq<char>>, r: RecordView)
    ensures
        next_action(CutStateView::WithCaptions, Ok(path), srt) == CutActionView::Finish(r) <==> r.status
            == "done"@ && r.output_path == Some(path) && r.srt_path == srt && r.error is None,
        next_action(CutStateView::WithoutCaptions(lost), Ok(path), srt) == CutActionView::Finish(r)
            <==> r.status == "done"@ && r.output_path == Some(path) && r.srt_path == srt && r.error
            == Some("Clip rendered successfully, but captions were skipped. Error: "@ + lost),
{
}

/// A render with captions that fails is tried again without; one without them
/// that fails is recorded as an error with its own message and no files.
pub proof fn law_failure(message: Seq<char>, lost: Seq<char>, srt: Option<Seq<char>>, r: RecordView)
    ensures
        next_action(CutStateView::WithCaptions, Err(message), srt) == CutActionView::Render(
            CutStateView::WithoutCaptions(message),
        ),
        next_action(CutStateView::WithoutCaptions(lost), Err(message), srt) == CutActionView::Fail(r)
            <==> r.status == "error"@ && r.output_path is None && r.srt_path is None && r.error == Some(
            message,
        ),
{
}

/// Captions are laid over by a track where there is one, else drawn where there is
/// something to draw; a project without a style has the usual one.
pub proof fn law_captioned(
    words: Seq<WordView>,
    start: int,
    end: int,
    width: int,
    style: Seq<char>,
    track: Seq<char>,
    font: Seq<char>,
)
    ensures
        captioned(Some(words), start, end, width, style, Some(track), font) == CaptionsView::Overlay(
            track,
        ),
        captioned(Some(words), start, end, width, style, None, font) == if drawtext(
            words,
            start,
            end,
            width,
            style,
            font,
        ).len() > 0 {
            CaptionsView::Drawn(drawtext(words, start, end, width, style, font))
        } else {
            CaptionsView::Absent
        },
        style_of(Some(style)) == style,
        style_of(None) == "modern-box"@,
{
}

} // verus!
