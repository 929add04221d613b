//! B-roll enrichment through the `b-rolls` skill.
//!
//! A program drives the skill's own workflow; here stands what it is asked and
//! what its answer means.

use vstd::prelude::*;
use vstd::string::StringExecFns;
use crate::clip::{clip_words, heard, law_clip_words, ref_views, words_in_clip};
use crate::models::{word_views, TranscriptWord, WordView};
use crate::paths::{choose_place, find_home, is_home, join_path, place_of, seen, under};
use crate::pyenv::has_module;
use crate::sidecar::{file_outcome, produced, result_texts, written_file, Exit};
use crate::text::{opt_str, opt_text, put, texts};

verus! {

/// Where the checkout of the skill lives. A setting names a different one.
pub fn skill_dir(setting: Option<&str>, temp: &str, windows: bool) -> (res: String)
    ensures
        exists|home: Option<Seq<char>>|
            is_home(home) && res@ == #[trigger] place_of(
                opt_str(setting),
                home,
                temp@,
                "b-rolls-ref"@,
                windows,
            ),
{
    let home = find_home();
    choose_place(setting, home, temp, "b-rolls-ref", windows)
}

/// Whether the skill's checkout in `skill_dir` and an interpreter with Pillow
/// are present. `is_there` looks for a file and `imports` runs an interpreter.
pub fn available(
    skill_dir: &str,
    windows: bool,
    candidates: &Vec<String>,
    is_there: impl Fn(&str) -> bool,
    imports: impl Fn(&String, &str) -> bool,
) -> (res: bool)
    requires
        forall|p: &str| call_requires(is_there, (p,)),
        forall|c: &String, m: &str| call_requires(imports, (c, m)),
    ensures
        res ==> (exists|p: &str|
            p@ == under(skill_dir@, "scripts/render_project.py"@, windows) && #[trigger] call_ensures(
                is_there,
                (p,),
                true,
            )) && exists|i: int|
            0 <= i < candidates@.len() && call_ensures(
                imports,
                (&#[trigger] candidates@[i], "PIL"),
                true,
            ),
        !res ==> (exists|p: &str|
            p@ == under(skill_dir@, "scripts/render_project.py"@, windows) && #[trigger] call_ensures(
                is_there,
                (p,),
                false,
            )) || forall|i: int|
            0 <= i < candidates@.len() ==> call_ensures(
                imports,
                (&#[trigger] candidates@[i], "PIL"),
                false,
            ),
{
    let script = join_path(skill_dir, "scripts/render_project.py", windows);
    let p = script.as_str();
    is_there(p) && has_module(candidates, "PIL", imports)
}

/// The message for when the skill or Pillow is missing.
pub open spec fn missing_message(skill_dir: Seq<char>) -> Seq<char> {
    "b-rolls skill not found at "@ + skill_dir
        + " (set BROLLS_SKILL_DIR), or Pillow is missing"@
}

/// Writes the message for when the skill or Pillow is missing.
pub fn missing_text(skill_dir: &str) -> (res: String)
    ensures
        res@ == missing_message(skill_dir@),
{
    let mut s = "b-rolls skill not found at ".to_owned();
    s.append(skill_dir);
    s.append(" (set BROLLS_SKILL_DIR), or Pillow is missing");
    s
}

/// A word with its times counted from the start of the clip.
#[derive(Debug)]
pub struct ClipWord {
    pub text: String,
    pub start: i128,
    pub end: i128,
    pub speaker: Option<String>,
}

/// What a [`ClipWord`] says.
pub struct ClipWordView {
    pub text: Seq<char>,
    pub start: int,
    pub end: int,
    pub speaker: Option<Seq<char>>,
}

impl View for ClipWord {
    type V = ClipWordView;

    open spec fn view(&self) -> ClipWordView {
        ClipWordView {
            text: self.text@,
            start: self.start as int,
            end: self.end as int,
            speaker: opt_text(self.speaker),
        }
    }
}

/// The views of a list of clip words.
pub open spec fn clip_word_views(v: Seq<ClipWord>) -> Seq<ClipWordView> {
    v.map_values(|w: ClipWord| w@)
}

/// A word with its times counted from the start of the clip.
pub open spec fn rebased(w: WordView, start: int) -> ClipWordView {
    ClipWordView {
        text: w.text,
        start: w.start - start,
        end: w.end - start,
        speaker: w.speaker,
    }
}

/// The words heard in a clip, with times counted from its start.
pub open spec fn clip_relative(words: Seq<WordView>, start: int, end: int) -> Seq<ClipWordView> {
    clip_words(words, start, end).map_values(|w: WordView| rebased(w, start))
}

/// The words to write down for a clip: none where nothing is heard in it.
pub open spec fn words_to_write(words: Seq<WordView>, start: int, end: int) -> Option<
    Seq<ClipWordView>,
> {
    if clip_words(words, start, end).len() == 0 {
        None
    } else {
        Some(clip_relative(words, start, end))
    }
}

/// Collects the words to write down for a clip, where any is heard in it.
pub fn transcript_to_write(words: &[TranscriptWord], start_sec: i64, end_sec: i64) -> (res: Option<
    Vec<ClipWord>,
>)
    ensures
        match (res, words_to_write(word_views(words@), start_sec as int, end_sec as int)) {
            (Some(v), Some(x)) => clip_word_views(v@) == x,
            (None, None) => true,
            _ => false,
        },
{
    let list = clip_transcript(words, start_sec, end_sec);
    assert(clip_word_views(list@).len() == list@.len());
    if list.len() == 0 {
        None
    } else {
        Some(list)
    }
}

/// Collects the words heard in a clip, with times counted from its start. A
/// planner reads them against scenes that start at zero.
pub fn clip_transcript(words: &[TranscriptWord], start_sec: i64, end_sec: i64) -> (res: Vec<ClipWord>)
    ensures
        clip_word_views(res@) == clip_relative(
            word_views(words@),
            start_sec as int,
            end_sec as int,
        ),
{
    let heard = words_in_clip(words, start_sec, end_sec);
    let ghost all = clip_relative(word_views(words@), start_sec as int, end_sec as int);
    let mut res: Vec<ClipWord> = Vec::new();
    let mut i: usize = 0;
    while i < heard.len()
        invariant
            i <= heard@.len(),
            ref_views(heard@) == clip_words(word_views(words@), start_sec as int, end_sec as int),
            all == clip_relative(word_views(words@), start_sec as int, end_sec as int),
            clip_word_views(res@) == all.take(i as int),
        decreases heard@.len() - i,
    {
        let w = heard[i];
        let word = ClipWord {
            text: w.text.as_str().to_owned(),
            start: w.start as i128 - start_sec as i128,
            end: w.end as i128 - start_sec as i128,
            speaker: match &w.speaker {
                Some(s) => Some(s.as_str().to_owned()),
                None => None,
            },
        };
        assert(ref_views(heard@)[i as int] == w@);
        assert(word@ == all[i as int]);
        let ghost before = clip_word_views(res@);
        res.push(word);
        assert(clip_word_views(res@) =~= before.push(word@));
        assert(all.take(i + 1) =~= all.take(i as int).push(all[i as int]));
        i += 1;
    }
    assert(clip_word_views(res@) =~= all);
    res
}

/// The arguments that add B-roll to a clip.
pub open spec fn broll_request(
    script: Seq<char>,
    clip: Seq<char>,
    topic: Seq<char>,
    skill_dir: Seq<char>,
    output: Seq<char>,
    transcript: Option<Seq<char>>,
) -> Seq<Seq<char>> {
    let base = seq![
        script,
        "--clip"@,
        clip,
        "--topic"@,
        topic,
        "--skill-dir"@,
        skill_dir,
        "--output"@,
        output,
    ];
    match transcript {
        Some(t) => base.push("--transcript"@).push(t),
        None => base,
    }
}

/// The arguments that add B-roll to a clip. The topic steers the choice of
/// scenes.
pub fn broll_args(
    script: &str,
    clip_path: &str,
    topic: &str,
    skill_dir: &str,
    output: &str,
    transcript: Option<&str>,
) -> (res: Vec<String>)
    ensures
        texts(res@) == broll_request(
            script@,
            clip_path@,
            topic@,
            skill_dir@,
            output@,
            opt_str(transcript),
        ),
{
    let mut args: Vec<String> = Vec::new();
    put(&mut args, script);
    put(&mut args, "--clip");
    put(&mut args, clip_path);
    put(&mut args, "--topic");
    put(&mut args, topic);
    put(&mut args, "--skill-dir");
    put(&mut args, skill_dir);
    put(&mut args, "--output");
    put(&mut args, output);
    if let Some(t) = transcript {
        put(&mut args, "--transcript");
        put(&mut args, t);
    }
    assert(texts(args@) =~= broll_request(
        script@,
        clip_path@,
        topic@,
        skill_dir@,
        output@,
        opt_str(transcript),
    ));
    args
}

/// Decides what comes of adding B-roll: the file written, or why there is none.
pub fn enrich(exit: &Exit, output: &str) -> (res: Result<String, String>)
    ensures
        exists|present: bool|
            seen(produced(exit.stdout@, output@), present) && result_texts(res)
                == #[trigger] file_outcome(
                exit.success,
                exit.stdout@,
                exit.stderr@,
                output@,
                "b-roll pipeline failed: "@,
                6,
                "b-roll pipeline reported success but produced no file"@,
                present,
            ),
{
    written_file(
        exit,
        output,
        "b-roll pipeline failed: ",
        6,
        "b-roll pipeline reported success but produced no file",
    )
}

/// Every word that is heard in the clip is written with its text and speaker, and
/// with its times counted from the start of the clip.
pub proof fn law_rebased(w: WordView, words: Seq<WordView>, start: int, end: int)
    ensures
        rebased(w, start).text == w.text && rebased(w, start).speaker == w.speaker,
        start + rebased(w, start).start == w.start && start + rebased(w, start).end == w.end,
        clip_relative(words, start, end).len() == clip_words(words, start, end).len(),
        forall|i: int|
            0 <= i < clip_words(words, start, end).len() ==> #[trigger] clip_relative(
                words,
                start,
                end,
            )[i] == rebased(clip_words(words, start, end)[i], start),
{
}

/// A transcript is written exactly where some word is heard in the clip, and then
/// it is the clip's.
pub proof fn law_words_to_write(words: Seq<WordView>, start: int, end: int)
    ensures
        words_to_write(words, start, end) is Some <==> exists|i: int|
            0 <= i < words.len() && (#[trigger] words[i]).end > start && words[i].start < end,
        words_to_write(words, start, end) matches Some(v) ==> v == clip_relative(words, start, end),
{
    law_clip_words(words, start, end);
    let kept = clip_words(words, start, end);
    if kept.len() > 0 {
        assert(words.contains(kept[0]) && heard(kept[0], start, end));
        let k = choose|k: int| 0 <= k < words.len() && words[k] == kept[0];
        assert(words[k].end > start && words[k].start < end);
    }
    if exists|i: int| 0 <= i < words.len() && (#[trigger] words[i]).end > start && words[i].start < end {
        let i = choose|i: int|
            0 <= i < words.len() && (#[trigger] words[i]).end > start && words[i].start < end;
        assert(words.contains(words[i]) && heard(words[i], start, end));
        assert(kept.contains(words[i]));
    }
}

/// The pipeline is asked for the clip and its topic, from the skill's directory
/// into the output, and told of the transcript where there is one.
pub proof fn law_broll_request(
    script: Seq<char>,
    clip: Seq<char>,
    topic: Seq<char>,
    skill_dir: Seq<char>,
    output: Seq<char>,
    transcript: Seq<char>,
)
    ensures
        ({
            let args = broll_request(script, clip, topic, skill_dir, output, None);
            let told = broll_request(script, clip, topic, skill_dir, output, Some(transcript));
            &&& args.len() == 9 && args[0] == script
            &&& args[1] == "--clip"@ && args[2] == clip
            &&& args[3] == "--topic"@ && args[4] == topic
            &&& args[5] == "--skill-dir"@ && args[6] == skill_dir
            &&& args[7] == "--output"@ && args[8] == output
            &&& told == args + seq!["--transcript"@, transcript]
        }),
{
    let args = broll_request(script, clip, topic, skill_dir, output, None);
    assert(broll_request(script, clip, topic, skill_dir, output, Some(transcript)) =~= args + seq![
        "--transcript"@,
        transcript,
    ]);
}

/// A word of a clip stands for what its fields hold, and the message for a missing
/// skill names where it was looked for.
pub proof fn law_broll_views(w: ClipWord, v: Seq<ClipWord>, dir: Seq<char>)
    ensures
        w@.text == w.text@ && w@.start == w.start && w@.end == w.end,
        w@.speaker == opt_text(w.speaker),
        clip_word_views(v).len() == v.len(),
        forall|i: int| 0 <= i < v.len() ==> #[trigger] clip_word_views(v)[i] == v[i]@,
        missing_message(dir) == "b-rolls skill not found at "@ + dir
            + " (set BROLLS_SKILL_DIR), or Pillow is missing"@,
{
}

} // verus!
