//! The steps that turn a cut clip into a finished one: B-roll, title, effects
//! and end card.

use vstd::prelude::*;
use vstd::string::StringExecFns;
use crate::clip::{clip_words, spoken, spoken_text, words_in_clip};
use crate::models::{word_views, Candidate, Project, TranscriptWord};
use crate::naming::verdict_text;
use crate::paths::{look, seen};
use crate::sidecar::result_texts;
use crate::text::{blank, is_blank, opt_text, same};

verus! {

/// A clip of a project.
#[derive(Debug)]
pub struct Clip {
    pub candidate_id: String,
    pub output_path: Option<String>,
}

/// What a [`Clip`] says.
pub struct ClipView {
    pub candidate_id: Seq<char>,
    pub output_path: Option<Seq<char>>,
}

impl View for Clip {
    type V = ClipView;

    open spec fn view(&self) -> ClipView {
        ClipView { candidate_id: self.candidate_id@, output_path: opt_text(self.output_path) }
    }
}

/// The views of a list of clips.
pub open spec fn clip_views(v: Seq<Clip>) -> Seq<ClipView> {
    v.map_values(|c: Clip| c@)
}

/// The rendered file of a candidate's first clip, or what is missing.
pub open spec fn rendered_file(clips: Seq<ClipView>, candidate_id: Seq<char>) -> Result<
    Seq<char>,
    Seq<char>,
>
    decreases clips.len(),
{
    if clips.len() == 0 {
        Err("cut this clip before adding B-roll"@)
    } else if clips[0].candidate_id == candidate_id {
        match clips[0].output_path {
            Some(p) => Ok(p),
            None => Err("clip has no rendered file yet"@),
        }
    } else {
        rendered_file(clips.drop_first(), candidate_id)
    }
}

/// Finds the rendered file of a candidate's clip: B-roll enriches a clip that
/// was already cut.
pub fn rendered_clip(clips: &Vec<Clip>, candidate_id: &str) -> (res: Result<String, String>)
    ensures
        result_texts(res) == rendered_file(clip_views(clips@), candidate_id@),
{
    let ghost all = clip_views(clips@);
    let mut i: usize = 0;
    assert(all.skip(0) =~= all);
    while i < clips.len()
        invariant
            i <= clips@.len(),
            all == clip_views(clips@),
            rendered_file(all, candidate_id@) == rendered_file(all.skip(i as int), candidate_id@),
        decreases clips@.len() - i,
    {
        assert(all.skip(i as int)[0] == clips@[i as int]@);
        if same(clips[i].candidate_id.as_str(), candidate_id) {
            return match &clips[i].output_path {
                Some(p) => Ok(p.as_str().to_owned()),
                None => Err("clip has no rendered file yet".to_owned()),
            };
        }
        assert(all.skip(i as int).drop_first() =~= all.skip(i + 1));
        i += 1;
    }
    Err("cut this clip before adding B-roll".to_owned())
}

/// The file of a candidate's clip, or what is missing. `present` is whether the
/// file is there.
pub open spec fn source_file(clips: Seq<ClipView>, candidate_id: Seq<char>, present: bool) -> Result<
    Seq<char>,
    Seq<char>,
> {
    match rendered_file(clips, candidate_id) {
        Ok(p) => if present {
            Ok(p)
        } else {
            Err("rendered clip is missing: "@ + p)
        },
        Err(e) => Err(e),
    }
}

/// Decides on the file of a candidate's clip, given whether that file is there.
pub fn source_given(clips: &Vec<Clip>, candidate_id: &str, present: bool) -> (res: Result<
    String,
    String,
>)
    ensures
        result_texts(res) == source_file(clip_views(clips@), candidate_id@, present),
{
    match rendered_clip(clips, candidate_id) {
        Ok(p) => if present {
            Ok(p)
        } else {
            let mut message = "rendered clip is missing: ".to_owned();
            message.append(p.as_str());
            Err(message)
        },
        Err(e) => Err(e),
    }
}

/// `present` is what the disk answers when asked for the rendered file, if there
/// is one to ask for.
pub open spec fn render_seen(rendered: Result<Seq<char>, Seq<char>>, present: bool) -> bool {
    match rendered {
        Ok(p) => seen(p, present),
        Err(_) => true,
    }
}

/// As [`source_given`], looking for the file on disk.
pub fn source_clip(clips: &Vec<Clip>, candidate_id: &str) -> (res: Result<String, String>)
    ensures
        exists|present: bool|
            render_seen(rendered_file(clip_views(clips@), candidate_id@), present)
                && result_texts(res) == #[trigger] source_file(
                clip_views(clips@),
                candidate_id@,
                present,
            ),
{
    let present = match rendered_clip(clips, candidate_id) {
        Ok(p) => look(p.as_str()),
        Err(_) => false,
    };
    source_given(clips, candidate_id, present)
}

/// What a clip is about: its hook or, where that is blank, the project's name.
pub open spec fn topic_of(hook: Seq<char>, project_name: Option<Seq<char>>) -> Seq<char> {
    if is_blank(hook) {
        match project_name {
            Some(n) => n,
            None => "a short social video"@,
        }
    } else {
        hook
    }
}

/// Writes what a clip is about, which steers the choice of its scenes.
pub fn clip_topic(candidate: &Candidate, project: &Project) -> (res: String)
    ensures
        res@ == topic_of(candidate.hook@, opt_text(project.name)),
{
    if blank(candidate.hook.as_str()) {
        match &project.name {
            Some(n) => n.as_str().to_owned(),
            None => "a short social video".to_owned(),
        }
    } else {
        candidate.hook.as_str().to_owned()
    }
}

/// Writes what is said in a clip.
pub fn spoken_in_clip(words: &[TranscriptWord], start_sec: i64, end_sec: i64) -> (res: String)
    ensures
        res@ == spoken(clip_words(word_views(words@), start_sec as int, end_sec as int)),
{
    let heard = words_in_clip(words, start_sec, end_sec);
    spoken_text(&heard)
}

/// The file that a step produced or, where it failed, the one before it.
pub open spec fn kept(step: Result<Seq<char>, Seq<char>>, before: Seq<char>) -> Seq<char> {
    match step {
        Ok(p) => p,
        Err(_) => before,
    }
}

/// Keeps the file before a step that failed: a title or an effect that could not
/// be added must not lose the render.
pub fn keep_render(step: Result<String, String>, before: &str) -> (res: String)
    ensures
        res@ == kept(result_texts(step), before@),
{
    match step {
        Ok(p) => p,
        Err(_) => before.to_owned(),
    }
}

/// A failed title and failed effects leave the render itself.
pub proof fn law_render_survives(
    title: Result<Seq<char>, Seq<char>>,
    effects: Result<Seq<char>, Seq<char>>,
    render: Seq<char>,
)
    ensures
        title is Err && effects is Err ==> kept(effects, kept(title, render)) == render,
        title is Ok && effects is Err ==> kept(effects, kept(title, render)) == title->Ok_0,
{
}

/// The name that an end card advertises, or why there is no card.
pub open spec fn advertised(brand_name: Option<Seq<char>>) -> Result<Seq<char>, Seq<char>> {
    match brand_name {
        Some(n) => if is_blank(n) {
            Err("no app name set for this project"@)
        } else {
            Ok(n)
        },
        None => Err("no app name set for this project"@),
    }
}

/// Reads the name that an end card advertises. A project without one refuses the
/// card and keeps its clip as it is.
pub fn outro_name(project: &Project) -> (res: Result<String, String>)
    ensures
        result_texts(res) == advertised(opt_text(project.brand_name)),
{
    match &project.brand_name {
        Some(n) => if blank(n.as_str()) {
            Err("no app name set for this project".to_owned())
        } else {
            Ok(n.as_str().to_owned())
        },
        None => Err("no app name set for this project".to_owned()),
    }
}

/// Whether a video can be worked on, or the message of the refusal.
pub open spec fn video_verdict(path: Seq<char>, present: bool) -> Result<(), Seq<char>> {
    if present {
        Ok(())
    } else {
        Err("video not found: "@ + path)
    }
}

/// Decides whether a video can be worked on.
pub fn check_video_given(path: &str, present: bool) -> (res: Result<(), String>)
    ensures
        verdict_text(res) == video_verdict(path@, present),
{
    if present {
        Ok(())
    } else {
        let mut message = "video not found: ".to_owned();
        message.append(path);
        Err(message)
    }
}

/// As [`check_video_given`], looking for the video on disk.
pub fn check_video(path: &str) -> (res: Result<(), String>)
    ensures
        exists|present: bool|
            seen(path@, present) && verdict_text(res) == #[trigger] video_verdict(path@, present),
{
    let present = look(path);
    check_video_given(path, present)
}

/// A clip stands for what its fields hold, and a list of them for each.
pub proof fn law_clip_views(c: Clip, v: Seq<Clip>)
    ensures
        c@.candidate_id == c.candidate_id@ && c@.output_path == opt_text(c.output_path),
        clip_views(v).len() == v.len(),
        forall|i: int| 0 <= i < v.len() ==> #[trigger] clip_views(v)[i] == v[i]@,
{
}

/// The rendered file of a candidate is that of its first clip; without a clip or
/// without a file the user is told which step is missing.
pub proof fn law_rendered_file(clips: Seq<ClipView>, id: Seq<char>, i: int)
    requires
        0 <= i <= clips.len(),
        forall|k: int| 0 <= k < i ==> (#[trigger] clips[k]).candidate_id != id,
        i < clips.len() ==> clips[i].candidate_id == id,
    ensures
        rendered_file(clips, id) == if i == clips.len() {
            Err::<Seq<char>, Seq<char>>("cut this clip before adding B-roll"@)
        } else {
            match clips[i].output_path {
                Some(p) => Ok(p),
                None => Err("clip has no rendered file yet"@),
            }
        },
    decreases clips.len(),
{
    if i > 0 {
        assert(clips[0].candidate_id != id);
        let rest = clips.drop_first();
        assert forall|k: int| 0 <= k < i - 1 implies (#[trigger] rest[k]).candidate_id != id by {
            assert(rest[k] == clips[k + 1]);
        }
        law_rendered_file(rest, id, i - 1);
    }
}

/// A rendered file is the source exactly where it is there.
pub proof fn law_source_file(clips: Seq<ClipView>, id: Seq<char>, present: bool)
    ensures
        rendered_file(clips, id) is Err ==> source_file(clips, id, present) == rendered_file(clips, id),
        source_file(clips, id, true) == rendered_file(clips, id),
        rendered_file(clips, id) matches Ok(p) ==> source_file(clips, id, false) == Err::<
            Seq<char>,
            Seq<char>,
        >("rendered clip is missing: "@ + p),
{
}

/// A clip is about its hook; without one, about the project; without a name, about
/// a video.
pub proof fn law_topic(hook: Seq<char>, name: Seq<char>, project: Option<Seq<char>>)
    ensures
        !is_blank(hook) ==> topic_of(hook, project) == hook,
        is_blank(hook) ==> topic_of(hook, Some(name)) == name,
        is_blank(hook) ==> topic_of(hook, None) == "a short social video"@,
{
}

/// A step that succeeds puts its file in the place of the render; one that fails
/// leaves it.
pub proof fn law_kept(path: Seq<char>, message: Seq<char>, before: Seq<char>)
    ensures
        kept(Ok(path), before) == path,
        kept(Err(message), before) == before,
{
}

/// An app is advertised by its name, exactly as it is set, where it is not blank;
/// a video can be used exactly where it is there.
pub proof fn law_checks(name: Seq<char>, path: Seq<char>)
    ensures
        !is_blank(name) ==> advertised(Some(name)) == Ok::<Seq<char>, Seq<char>>(name),
        is_blank(name) ==> advertised(Some(name)) == advertised(None),
        advertised(None) == Err::<Seq<char>, Seq<char>>("no app name set for this project"@),
        video_verdict(path, true) == Ok::<(), Seq<char>>(()),
        video_verdict(path, false) == Err::<(), Seq<char>>("video not found: "@ + path),
{
}

/// A rendered file was looked for; without one there is nothing to look for.
pub proof fn law_render_seen(path: Seq<char>, message: Seq<char>, present: bool)
    ensures
        render_seen(Ok(path), present) == seen(path, present),
        render_seen(Err(message), present),
{
}

} // verus!
