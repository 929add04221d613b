//! What the app finds on the machine it runs on.

use vstd::prelude::*;
use crate::detection::{anthropic_credential, anthropic_key, reported, reported_provider};
use crate::paths::{find_home, is_home, join_path, set_value, under};
use crate::text::{opt_str, opt_text, put, texts};

verus! {

/// What was found: programs, settings, and answers of the optional parts.
pub struct Found<'a> {
    pub data_dir: &'a str,
    pub llm_provider: Option<&'a str>,
    pub anthropic_api_key: Option<&'a str>,
    pub anthropic_oauth_token: Option<&'a str>,
    pub deepgram_key_set: bool,
    pub deepseek_key_set: bool,
    pub gemini_key_set: bool,
    pub openai_key_set: bool,
    pub groq_key_set: bool,
    pub ffmpeg: bool,
    pub ffprobe: bool,
    pub ytdlp: bool,
    pub whisper_cli: bool,
    pub whisper_python: bool,
    pub ollama: bool,
    pub face_tracking: bool,
    pub drawtext: bool,
    pub caption_overlay: bool,
    pub outro: bool,
    pub voice_clone: bool,
}

/// What the status bar shows.
#[derive(Debug)]
pub struct EnvironmentStatus {
    pub data_dir: String,
    pub has_ffmpeg: bool,
    pub has_ffprobe: bool,
    pub has_deepgram_key: bool,
    pub has_anthropic_key: bool,
    pub has_deepseek_key: bool,
    pub has_gemini_key: bool,
    pub has_openai_key: bool,
    pub has_groq_key: bool,
    pub llm_provider: String,
    pub has_local_whisper_model: bool,
    pub has_ollama: bool,
    pub has_ytdlp: bool,
    pub has_face_tracking: bool,
    pub has_caption_support: bool,
    pub has_outro: bool,
    pub has_voice_clone: bool,
}

/// What an [`EnvironmentStatus`] says.
pub struct EnvironmentView {
    pub data_dir: Seq<char>,
    pub llm_provider: Seq<char>,
    pub has_ffmpeg: bool,
    pub has_ffprobe: bool,
    pub has_deepgram_key: bool,
    pub has_anthropic_key: bool,
    pub has_deepseek_key: bool,
    pub has_gemini_key: bool,
    pub has_openai_key: bool,
    pub has_groq_key: bool,
    pub has_local_whisper_model: bool,
    pub has_ollama: bool,
    pub has_ytdlp: bool,
    pub has_face_tracking: bool,
    pub has_caption_support: bool,
    pub has_outro: bool,
    pub has_voice_clone: bool,
}

impl View for EnvironmentStatus {
    type V = EnvironmentView;

    open spec fn view(&self) -> EnvironmentView {
        EnvironmentView {
            data_dir: self.data_dir@,
            llm_provider: self.llm_provider@,
            has_ffmpeg: self.has_ffmpeg,
            has_ffprobe: self.has_ffprobe,
            has_deepgram_key: self.has_deepgram_key,
            has_anthropic_key: self.has_anthropic_key,
            has_deepseek_key: self.has_deepseek_key,
            has_gemini_key: self.has_gemini_key,
            has_openai_key: self.has_openai_key,
            has_groq_key: self.has_groq_key,
            has_local_whisper_model: self.has_local_whisper_model,
            has_ollama: self.has_ollama,
            has_ytdlp: self.has_ytdlp,
            has_face_tracking: self.has_face_tracking,
            has_caption_support: self.has_caption_support,
            has_outro: self.has_outro,
            has_voice_clone: self.has_voice_clone,
        }
    }
}

/// What is reported of what was found.
pub open spec fn status_of(found: Found<'_>) -> EnvironmentView {
    EnvironmentView {
        data_dir: found.data_dir@,
        llm_provider: reported(opt_str(found.llm_provider)),
        has_ffmpeg: found.ffmpeg,
        has_ffprobe: found.ffprobe,
        has_deepgram_key: found.deepgram_key_set,
        has_anthropic_key: anthropic_key(
            opt_str(found.anthropic_api_key),
            opt_str(found.anthropic_oauth_token),
        ) is Some,
        has_deepseek_key: found.deepseek_key_set,
        has_gemini_key: found.gemini_key_set,
        has_openai_key: found.openai_key_set,
        has_groq_key: found.groq_key_set,
        has_local_whisper_model: found.whisper_cli || found.whisper_python,
        has_ollama: found.ollama,
        has_ytdlp: found.ytdlp,
        has_face_tracking: found.face_tracking,
        has_caption_support: found.drawtext || found.caption_overlay,
        has_outro: found.outro,
        has_voice_clone: found.voice_clone,
    }
}

/// Puts together what the status bar shows. Either renderer can burn in
/// captions: ffmpeg's `drawtext`, or the overlay that works on builds without
/// it.
pub fn environment_status(found: &Found<'_>) -> (res: EnvironmentStatus)
    ensures
        res@ == status_of(*found),
        res.data_dir@ == found.data_dir@,
        res.has_ffmpeg == found.ffmpeg,
        res.has_ffprobe == found.ffprobe,
        res.has_deepgram_key == found.deepgram_key_set,
        res.has_anthropic_key == (anthropic_key(
            opt_str(found.anthropic_api_key),
            opt_str(found.anthropic_oauth_token),
        ) is Some),
        res.has_deepseek_key == found.deepseek_key_set,
        res.has_gemini_key == found.gemini_key_set,
        res.has_openai_key == found.openai_key_set,
        res.has_groq_key == found.groq_key_set,
        res.llm_provider@ == reported(opt_str(found.llm_provider)),
        res.has_local_whisper_model == (found.whisper_cli || found.whisper_python),
        res.has_ollama == found.ollama,
        res.has_ytdlp == found.ytdlp,
        res.has_face_tracking == found.face_tracking,
        res.has_caption_support == (found.drawtext || found.caption_overlay),
        res.has_outro == found.outro,
        res.has_voice_clone == found.voice_clone,
{
    let credential = anthropic_credential(found.anthropic_api_key, found.anthropic_oauth_token);
    EnvironmentStatus {
        data_dir: found.data_dir.to_owned(),
        has_ffmpeg: found.ffmpeg,
        has_ffprobe: found.ffprobe,
        has_deepgram_key: found.deepgram_key_set,
        has_anthropic_key: credential.is_some(),
        has_deepseek_key: found.deepseek_key_set,
        has_gemini_key: found.gemini_key_set,
        has_openai_key: found.openai_key_set,
        has_groq_key: found.groq_key_set,
        llm_provider: reported_provider(found.llm_provider),
        has_local_whisper_model: found.whisper_cli || found.whisper_python,
        has_ollama: found.ollama,
        has_ytdlp: found.ytdlp,
        has_face_tracking: found.face_tracking,
        has_caption_support: found.drawtext || found.caption_overlay,
        has_outro: found.outro,
        has_voice_clone: found.voice_clone,
    }
}

/// The files of settings under a list of directories.
pub open spec fn settings_under(dirs: Seq<Seq<char>>, windows: bool) -> Seq<Seq<char>> {
    dirs.map_values(|d: Seq<char>| under(d, ".env"@, windows))
}

/// The files that settings may be in: beside the program and in every directory
/// above it, then in the two places under the home directory.
pub open spec fn settings_files(
    above: Seq<Seq<char>>,
    home: Option<Seq<char>>,
    windows: bool,
) -> Seq<Seq<char>> {
    match home {
        Some(h) => settings_under(above, windows).push(under(h, "autoshorts/.env"@, windows)).push(
            under(h, ".autoshorts/.env"@, windows),
        ),
        None => settings_under(above, windows),
    }
}

/// Lists the files that settings may be in when the home directory is `home`.
pub fn env_files_with_home(above: &Vec<String>, home: Option<String>, windows: bool) -> (res: Vec<
    String,
>)
    ensures
        texts(res@) == settings_files(texts(above@), opt_text(home), windows),
{
    let ghost all = settings_under(texts(above@), windows);
    let mut res: Vec<String> = Vec::new();
    let mut i: usize = 0;
    while i < above.len()
        invariant
            i <= above@.len(),
            all == settings_under(texts(above@), windows),
            texts(res@) == all.take(i as int),
        decreases above@.len() - i,
    {
        let file = join_path(above[i].as_str(), ".env", windows);
        let ghost before = texts(res@);
        assert(all[i as int] == file@);
        put(&mut res, file.as_str());
        assert(all.take(i + 1) =~= all.take(i as int).push(all[i as int]));
        i += 1;
    }
    assert(all.take(i as int) =~= all);
    match home {
        Some(h) => {
            let first = join_path(h.as_str(), "autoshorts/.env", windows);
            put(&mut res, first.as_str());
            let second = join_path(h.as_str(), ".autoshorts/.env", windows);
            put(&mut res, second.as_str());
        },
        None => {},
    }
    res
}

/// Lists the files that settings may be in. A bundled app is started in the root
/// directory, so the working directory does not lead to them. `above` are the
/// directories above the program, from the nearest.
pub fn env_files(above: &Vec<String>, windows: bool) -> (res: Vec<String>)
    ensures
        exists|home: Option<Seq<char>>|
            is_home(home) && texts(res@) == #[trigger] settings_files(texts(above@), home, windows),
{
    let home = find_home();
    env_files_with_home(above, home, windows)
}

/// Where the files of a project stand.
pub open spec fn project_place(data_dir: Seq<char>, id: Seq<char>, windows: bool) -> Seq<char> {
    under(under(data_dir, "projects"@, windows), id, windows)
}

/// Writes the directory of a project's working files.
pub fn project_dir(data_dir: &str, project_id: &str, windows: bool) -> (res: String)
    ensures
        res@ == project_place(data_dir@, project_id@, windows),
        res@ == under(under(data_dir@, "projects"@, windows), project_id@, windows),
{
    let projects = join_path(data_dir, "projects", windows);
    join_path(projects.as_str(), project_id, windows)
}

/// Settings are looked for in every directory above, nearest first, and then in
/// the two under the home directory.
pub proof fn law_settings_files(above: Seq<Seq<char>>, home: Seq<char>, windows: bool, i: int)
    requires
        0 <= i < above.len(),
    ensures
        settings_files(above, None, windows).len() == above.len(),
        settings_files(above, None, windows)[i] == under(above[i], ".env"@, windows),
        settings_files(above, Some(home), windows) == settings_files(above, None, windows) + seq![
            under(home, "autoshorts/.env"@, windows),
            under(home, ".autoshorts/.env"@, windows),
        ],
{
    let all = settings_files(above, None, windows);
    assert(settings_files(above, Some(home), windows) =~= all + seq![
        under(home, "autoshorts/.env"@, windows),
        under(home, ".autoshorts/.env"@, windows),
    ]);
}

/// Everything that was found is reported under its own name. A speech model is
/// there where either program has it, and captions are possible where either way
/// of showing them is.
pub proof fn law_status(found: Found<'_>, s: EnvironmentStatus)
    ensures
        status_of(found).data_dir == found.data_dir@,
        status_of(found).has_ffmpeg == found.ffmpeg && status_of(found).has_ffprobe == found.ffprobe,
        status_of(found).has_deepgram_key == found.deepgram_key_set,
        status_of(found).has_deepseek_key == found.deepseek_key_set,
        status_of(found).has_gemini_key == found.gemini_key_set,
        status_of(found).has_openai_key == found.openai_key_set,
        status_of(found).has_groq_key == found.groq_key_set,
        status_of(found).has_anthropic_key <==> set_value(opt_str(found.anthropic_api_key)) is Some
            || set_value(opt_str(found.anthropic_oauth_token)) is Some,
        status_of(found).llm_provider == reported(opt_str(found.llm_provider)),
        found.whisper_cli || found.whisper_python <==> status_of(found).has_local_whisper_model,
        found.drawtext || found.caption_overlay <==> status_of(found).has_caption_support,
        status_of(found).has_ollama == found.ollama && status_of(found).has_ytdlp == found.ytdlp,
        status_of(found).has_face_tracking == found.face_tracking,
        status_of(found).has_outro == found.outro && status_of(found).has_voice_clone
            == found.voice_clone,
        s@.data_dir == s.data_dir@ && s@.llm_provider == s.llm_provider@,
        s@.has_ffmpeg == s.has_ffmpeg && s@.has_ffprobe == s.has_ffprobe,
        s@.has_deepgram_key == s.has_deepgram_key && s@.has_anthropic_key == s.has_anthropic_key,
        s@.has_deepseek_key == s.has_deepseek_key && s@.has_gemini_key == s.has_gemini_key,
        s@.has_openai_key == s.has_openai_key && s@.has_groq_key == s.has_groq_key,
        s@.has_local_whisper_model == s.has_local_whisper_model && s@.has_ollama == s.has_ollama,
        s@.has_ytdlp == s.has_ytdlp && s@.has_face_tracking == s.has_face_tracking,
        s@.has_caption_support == s.has_caption_support && s@.has_outro == s.has_outro,
        s@.has_voice_clone == s.has_voice_clone,
{
}

/// A project has a directory of its own among the projects.
pub proof fn law_project_place(data_dir: Seq<char>, id: Seq<char>, windows: bool)
    ensures
        project_place(data_dir, id, windows) == under(
            under(data_dir, "projects"@, windows),
            id,
            windows,
        ),
{
}

} // verus!
