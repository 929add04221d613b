//! Names, folders and accepted files.

use autoshorts::demo::demo_transcript;
use autoshorts::environment::{env_files, env_files_with_home, environment_status, project_dir, Found};
use autoshorts::models::{Project, TranscriptSegment, TranscriptWord};
use autoshorts::naming::{
    base_in, check_extension, claim_dir, claim_given, clip_file_name, derived_name, documents_base,
    edit_dir_name, project_output_slug, slug_from, subtitle_file_name, validate_media_extension,
};

fn project(source: &str) -> Project {
    Project {
        id: "0123456789ab".into(),
        name: None,
        source_path: source.into(),
        source_duration: None,
        status: "ready".into(),
        transcription_mode: "local".into(),
        caption_style: None,
        brand_name: None,
        brand_logo_path: None,
        created_at: String::new(),
        updated_at: String::new(),
    }
}

#[test]
fn a_folder_is_named_after_the_source() {
    assert_eq!(project_output_slug(&project("/v/My talk (final).v2.mp4")), "My-talk--final--v2");
    assert_eq!(project_output_slug(&project("/v/_ok_.mp4")), "_ok_");
    assert_eq!(project_output_slug(&project("/v/–é–.mp4")), "0123456789ab");
    assert_eq!(project_output_slug(&project("/v/..")), "0123456789ab");
    assert_eq!(slug_from(Some("-a b-"), "id"), "a-b");
    assert_eq!(slug_from(None, "-i.d-"), "i-d");
    assert_eq!(slug_from(Some("..."), "-i.d-"), "-i.d-");
}

#[test]
fn media_files_are_taken_by_extension() {
    for path in ["/a.mp4", "b.MOV", "c.x.Mp3", "/d/e.wav", "f.m4a"] {
        assert_eq!(validate_media_extension(path), Ok(()));
    }
    assert_eq!(
        validate_media_extension("/a/b.MKV"),
        Err("Unsupported file type .mkv. Use mp4, mov, mp3, wav, or m4a.".to_string())
    );
    for path in ["/a/b", "/a/.mp4", "/a.mp4/", ""] {
        let expected = if path == "/a.mp4/" {
            Ok(())
        } else {
            Err("Selected file does not have an extension".to_string())
        };
        assert_eq!(validate_media_extension(path), expected);
    }
    assert_eq!(validate_media_extension("/v/Talk: part.mp4"), Ok(()));
    assert_eq!(check_extension(Some("MP4")), Ok(()));
    assert!(check_extension(Some("")).is_err());
    assert!(check_extension(None).is_err());
}

#[test]
fn projects_never_share_a_folder() {
    let mine = claim_dir("/d/talk", Some(" other \n"), "0123456789ab", false);
    assert_eq!((mine.dir.as_str(), mine.mark), ("/d/talk-01234567", true));
    let same = claim_dir("/d/talk", Some("0123456789ab\n"), "0123456789ab", false);
    assert_eq!((same.dir.as_str(), same.mark), ("/d/talk", false));
    let first = claim_dir("/d/talk", None, "0123456789ab", false);
    assert_eq!((first.dir.as_str(), first.mark), ("/d/talk", true));
    assert_eq!(claim_dir("/d/talk", Some("x"), "ab", false).dir, "/d/talk-ab");
}

#[test]
fn output_goes_under_the_documents_folder() {
    assert_eq!(base_in(Some("/docs".to_string()), "talk", false), Ok("/docs/AutoShorts/talk".to_string()));
    assert_eq!(
        base_in(None, "talk", false),
        Err("Could not find your Documents folder for clip output.".to_string())
    );
    assert_eq!(
        documents_base(&project("/v/talk.mp4"), Some("/docs".to_string()), false),
        Ok("/docs/AutoShorts/talk".to_string())
    );
    assert_eq!(
        documents_base(&project("/v/talk.mp4"), Some("C:\\docs".to_string()), true),
        Ok("C:\\docs\\AutoShorts\\talk".to_string())
    );
    assert!(documents_base(&project("/v/talk.mp4"), None, false).is_err());
}

#[test]
fn files_are_named_after_rank_and_stage() {
    assert_eq!(clip_file_name(3), "clip-03_flat.mp4");
    assert_eq!(clip_file_name(123), "clip-123_flat.mp4");
    assert_eq!(clip_file_name(-4), "clip--4_flat.mp4");
    assert_eq!(subtitle_file_name("abc"), "clip-abc.srt");
    assert_eq!(derived_name("/c/clip-03_flat.mp4", "_broll.mp4"), "clip-03_flat_broll.mp4");
    assert_eq!(derived_name("/", "_broll.mp4"), "_broll.mp4");
    assert_eq!(edit_dir_name("/c/clip-03_flat_broll.mp4"), "edit_clip-03_flat");
    assert_eq!(edit_dir_name("/c/_broll_broll_brol.mp4"), "edit__brol");
    assert_eq!(project_dir("/data", "p1", false), "/data/projects/p1");
    assert_eq!(project_dir("/data", "/p1", false), "/p1");
}

#[test]
fn settings_are_looked_for_above_the_program() {
    let above = vec!["/a/b".to_string(), "/a".to_string(), "/".to_string()];
    assert_eq!(
        env_files_with_home(&above, Some("/home/u".to_string()), false),
        vec!["/a/b/.env", "/a/.env", "/.env", "/home/u/autoshorts/.env", "/home/u/.autoshorts/.env"]
    );
    assert_eq!(env_files_with_home(&above, None, false), vec!["/a/b/.env", "/a/.env", "/.env"]);
    assert_eq!(env_files(&above, false)[1], "/a/.env");
}

#[test]
fn the_status_bar_shows_what_was_found() {
    let mut found = Found {
        data_dir: "/data",
        llm_provider: Some("OpenRouter"),
        anthropic_api_key: None,
        anthropic_oauth_token: Some(" t "),
        deepgram_key_set: false,
        deepseek_key_set: true,
        gemini_key_set: false,
        openai_key_set: false,
        groq_key_set: false,
        ffmpeg: true,
        ffprobe: false,
        ytdlp: true,
        whisper_cli: false,
        whisper_python: true,
        ollama: false,
        face_tracking: true,
        drawtext: false,
        caption_overlay: true,
        outro: true,
        voice_clone: false,
    };
    let s = environment_status(&found);
    assert_eq!(s.data_dir, "/data");
    assert_eq!(s.llm_provider, "openrouter");
    assert!(s.has_anthropic_key && s.has_deepseek_key && !s.has_gemini_key);
    assert!(s.has_ffmpeg && !s.has_ffprobe && s.has_ytdlp && !s.has_ollama);
    assert!(s.has_local_whisper_model && s.has_caption_support && s.has_face_tracking);
    assert!(s.has_outro && !s.has_voice_clone && !s.has_deepgram_key);
    assert!(!s.has_openai_key && !s.has_groq_key);
    found.llm_provider = None;
    found.anthropic_oauth_token = None;
    found.caption_overlay = false;
    let s = environment_status(&found);
    assert_eq!(s.llm_provider, "deepseek");
    assert!(!s.has_anthropic_key && !s.has_caption_support);
}

#[test]
fn the_demo_is_timed_word_by_word() {
    let t = demo_transcript(|words: &Vec<TranscriptWord>| {
        vec![TranscriptSegment {
            start: words[0].start,
            end: words[words.len() - 1].end,
            speaker: None,
            text: String::new(),
        }]
    });
    assert_eq!(t.language, "en");
    assert_eq!(t.speakers, vec!["A"]);
    assert_eq!(t.words[0].text, "The");
    assert_eq!((t.words[0].start, t.words[0].end), (0, 320_000_000));
    assert_eq!(t.words[1].start, 400_000_000);
    // The first line has 16 words; the second begins after its pause.
    assert_eq!(t.words[16].text, "It");
    assert_eq!(t.words[16].start, 16 * 400_000_000 + 750_000_000);
    let n = t.words.len() as i64;
    assert_eq!(t.duration, n * 400_000_000 + 9 * 750_000_000);
    assert_eq!(t.words[t.words.len() - 1].text, "around.");
    assert_eq!(t.segments.len(), 1);
}

#[test]
fn two_imports_of_one_video_keep_folders_of_their_own() {
    // The name of the video names the folder of both.
    let base = base_in(Some("/d".to_string()), &slug_from(Some("talk"), "aaaaaaaa-1"), false).expect("a folder");
    assert_eq!(base, base_in(Some("/d".to_string()), &slug_from(Some("talk"), "bbbbbbbb-2"), false).expect("a folder"));
    let first = claim_dir(&base, None, "aaaaaaaa-1", false);
    let second = claim_dir(&base, Some("aaaaaaaa-1"), "bbbbbbbb-2", false);
    assert_eq!(first.dir, "/d/AutoShorts/talk");
    assert_eq!(second.dir, "/d/AutoShorts/talk-bbbbbbbb");
    assert_eq!(claim_dir(&base, Some("aaaaaaaa-1"), "aaaaaaaa-1", false).dir, first.dir);
    // The name makes no folder name, so the ids do.
    let mine = base_in(Some("/d".to_string()), &slug_from(Some("???"), "aaaaaaaa-1"), false).expect("a folder");
    let other = base_in(Some("/d".to_string()), &slug_from(Some("???"), "bbbbbbbb-2"), false).expect("a folder");
    assert_eq!(claim_dir(&mine, None, "aaaaaaaa-1", false).dir, "/d/AutoShorts/aaaaaaaa-1");
    assert_eq!(claim_dir(&other, None, "bbbbbbbb-2", false).dir, "/d/AutoShorts/bbbbbbbb-2");
}

#[test]
fn a_folder_that_another_owns_gets_a_sibling() {
    let bases = [
        "d", "d/", "/d", "a/b", "a/b/", "a//b", "a/./b", "a/b/.", "./b", ".//b", "/a//", "x/..", "..",
        ".", "./", "", "/", "/.", "a: b/c", "x/../y",
    ];
    for base in bases {
        let path = std::path::Path::new(base);
        for id in ["", "ab", "0123456789"] {
            let short: String = id.chars().take(8).collect();
            let name = format!("{}-{short}", path.file_name().unwrap_or_default().to_string_lossy());
            let expected = path.with_file_name(name).to_string_lossy().into_owned();
            let claim = claim_dir(base, Some("another"), id, false);
            assert_eq!((claim.dir, claim.mark), (expected, true), "{base:?} {id:?}");
        }
    }
    assert_eq!(claim_dir("d/", Some("x"), "", false).dir, "d-");
    let claim = claim_given("C:\\d\\talk", Some("talk"), Some("C:\\d"), Some("x"), "ab", true);
    assert_eq!(claim.dir, "C:\\d\\talk-ab");
    let claim = claim_given("C:\\", None, None, Some("x"), "ab", true);
    assert_eq!(claim.dir, "C:\\-ab");
}
