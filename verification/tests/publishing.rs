//! Publishing, importing, cutting and finishing.

use autoshorts::cut::{
    after_render, caption_style, choose_captions, choose_captions_with_font, Captions, CutAction,
    CutState,
};
use autoshorts::detection::viable_candidates;
use autoshorts::finishing::{
    check_video, check_video_given, clip_topic, keep_render, outro_name, rendered_clip,
    source_clip, source_given, spoken_in_clip, Clip,
};
use autoshorts::json::parse_json;
use autoshorts::models::{Candidate, CandidateDraft, Project, TranscriptWord};
use autoshorts::postiz::{channels, configured, publish, record_for, request_result, runner_for, Channel};
use autoshorts::sidecar::Exit;
use autoshorts::youtube::{
    check_license, check_youtube_copyright, decide_download, download_args,
    download_youtube_video, downloaded_file, metadata_args,
};

fn exit(success: bool, stdout: &str, stderr: &str) -> Exit {
    Exit { success, stdout: stdout.to_string(), stderr: stderr.to_string() }
}

fn channel(id: &str, disabled: bool) -> Channel {
    Channel { id: id.to_string(), name: None, identifier: None, profile: None, disabled }
}

#[test]
fn disabled_channels_are_not_offered() {
    let out = channels(vec![channel("a", false), channel("b", true), channel("c", false)]);
    let ids: Vec<&str> = out.iter().map(|c| c.id.as_str()).collect();
    assert_eq!(ids, vec!["a", "c"]);
}

#[test]
fn publishing_needs_a_key_and_an_interpreter() {
    assert!(!configured(None));
    assert!(!configured(Some(" ")));
    assert!(configured(Some("k")));
    assert_eq!(
        runner_for(None, Some("py")),
        Err("POSTIZ_API_KEY is not set (Postiz: Settings > Developers)".to_string())
    );
    assert_eq!(runner_for(Some("k"), None), Err("no Python available".to_string()));
    assert_eq!(runner_for(Some("k"), Some("py")), Ok("py".to_string()));
    assert_eq!(request_result(&exit(true, "out\n", "")), Ok("out\n".to_string()));
    assert_eq!(request_result(&exit(false, "out", "a\nb")), Err("a | b".to_string()));
}

#[test]
fn publish_arguments() {
    let ids = vec!["1".to_string(), "2".to_string()];
    assert_eq!(
        publish("v", "cap", &ids, Some("2026-01-01"), true),
        vec![
            "post", "--video", "v", "--content", "cap", "--integration", "1", "--integration",
            "2", "--when", "2026-01-01", "--dry-run"
        ]
    );
    assert_eq!(publish("v", "cap", &[], None, false), vec!["post", "--video", "v", "--content", "cap"]);
}

#[test]
fn a_dry_run_marks_nothing() {
    assert_eq!(record_for(true, Some(true), Some("c")), None);
    assert_eq!(record_for(false, None, None), None);
    assert_eq!(
        record_for(false, Some(true), Some("c")),
        Some(("c".to_string(), "posted".to_string()))
    );
    assert_eq!(record_for(false, None, Some("c")), Some(("c".to_string(), "draft".to_string())));
}

#[test]
fn licences_that_allow_reuse_are_safe() {
    let of = |text: &str| check_license(&parse_json(text).expect("json"));
    let r = of("{\"license\":\"Creative Commons Attribution licence (reuse allowed)\"}");
    assert!(r.is_safe);
    assert_eq!(r.license.as_deref(), Some("Creative Commons Attribution licence (reuse allowed)"));
    assert!(of("{\"license\":\"REUSE ALLOWED\"}").is_safe);
    assert!(!of("{\"license\":\"Standard\"}").is_safe);
    let r = of("{\"license\":null}");
    assert!(!r.is_safe);
    assert_eq!(r.license, None);
}

#[test]
fn metadata_that_cannot_be_had_is_an_error() {
    assert_eq!(
        check_youtube_copyright(&exit(false, "{}", "")).expect_err("failure"),
        "Failed to fetch video metadata from YouTube."
    );
    assert_eq!(
        check_youtube_copyright(&exit(true, "nope", "")).expect_err("failure"),
        "Failed to parse yt-dlp output"
    );
    assert!(check_youtube_copyright(&exit(true, "{\"license\":\"creative commons\"}", ""))
        .expect("result")
        .is_safe);
    assert_eq!(metadata_args("u"), vec!["--dump-json", "u"]);
}

#[test]
fn downloads_go_to_the_downloads_folder() {
    assert_eq!(
        download_args(None, "u", false),
        Err("Could not find Downloads folder".to_string())
    );
    let args = download_args(Some("/d".to_string()), "u", false).expect("args");
    assert_eq!(args.len(), 10);
    assert_eq!(args[5], "/d/AutoShorts_%(id)s.%(ext)s");
    assert_eq!(args[9], "u");
    let args = download_args(Some("C:\\d".to_string()), "u", true).expect("args");
    assert_eq!(args[5], "C:\\d\\AutoShorts_%(id)s.%(ext)s");
}

#[test]
fn a_download_is_the_last_line() {
    assert_eq!(downloaded_file("a\n /b.mp4 \n"), "/b.mp4");
    assert_eq!(downloaded_file(""), "");
    assert_eq!(
        decide_download(&exit(false, "", "why"), true),
        Err("yt-dlp failed: why".to_string())
    );
    assert_eq!(
        decide_download(&exit(true, "\n", ""), true),
        Err("Could not locate downloaded file".to_string())
    );
    assert_eq!(
        download_youtube_video(&exit(true, "/nope/x.mp4", "")),
        Err("Could not locate downloaded file".to_string())
    );
    assert_eq!(download_youtube_video(&exit(true, "x\n/\n", "")), Ok("/".to_string()));
}

#[test]
fn captions_never_cost_a_clip() {
    match after_render(CutState::WithCaptions, Ok("/c.mp4"), Some("/c.srt")) {
        CutAction::Finish(r) => {
            assert_eq!(r.status, "done");
            assert_eq!(r.output_path.as_deref(), Some("/c.mp4"));
            assert_eq!(r.srt_path.as_deref(), Some("/c.srt"));
            assert_eq!(r.error, None);
        }
        other => panic!("{other:?}"),
    }
    let state = match after_render(CutState::WithCaptions, Err("no filter"), None) {
        CutAction::Render(state) => state,
        other => panic!("{other:?}"),
    };
    match after_render(state, Ok("/c.mp4"), None) {
        CutAction::Finish(r) => assert_eq!(
            r.error.as_deref(),
            Some("Clip rendered successfully, but captions were skipped. Error: no filter")
        ),
        other => panic!("{other:?}"),
    }
    match after_render(CutState::WithoutCaptions("a".to_string()), Err("b"), Some("/c.srt")) {
        CutAction::Fail(r) => {
            assert_eq!(r.status, "error");
            assert_eq!(r.output_path, None);
            assert_eq!(r.srt_path, None);
            assert_eq!(r.error.as_deref(), Some("b"));
        }
        other => panic!("{other:?}"),
    }
}

#[test]
fn an_overlay_comes_before_drawn_captions() {
    let words = vec![TranscriptWord { text: "hi".into(), start: 0, end: 10, speaker: None }];
    let c = candidate("h");
    let of = |words: Option<&[TranscriptWord]>, track: Option<&str>| {
        choose_captions_with_font(words, &c, 1080, "minimal-shadow", track, "")
    };
    assert!(matches!(of(Some(&words), Some("/t")), Captions::Overlay(t) if t == "/t"));
    assert!(matches!(of(Some(&words), None), Captions::Drawn(f) if f.starts_with("drawtext=text='HI'")));
    assert!(matches!(of(Some(&[]), None), Captions::Absent));
    assert!(matches!(of(None, Some("/t")), Captions::Absent));
    match choose_captions(Some(&words), &c, 1080, "minimal-shadow", None, None) {
        Captions::Drawn(f) => assert!(f.contains("text='HI'")),
        other => panic!("{other:?}"),
    }
}

#[test]
fn no_candidates_is_an_error() {
    assert_eq!(
        viable_candidates(Vec::new()).expect_err("none"),
        "No viable clip candidates were returned for this transcript."
    );
    let found = vec![CandidateDraft {
        start: 0,
        end: 1,
        score: 2,
        hook: "h".into(),
        rationale: "r".into(),
    }];
    assert_eq!(viable_candidates(found).expect("candidates").len(), 1);
}

fn project(name: Option<&str>, brand: Option<&str>) -> Project {
    Project {
        id: "p".into(),
        name: name.map(str::to_string),
        source_path: "/v.mp4".into(),
        source_duration: None,
        status: "ready".into(),
        transcription_mode: "local".into(),
        caption_style: None,
        brand_name: brand.map(str::to_string),
        brand_logo_path: None,
        created_at: String::new(),
        updated_at: String::new(),
    }
}

fn candidate(hook: &str) -> Candidate {
    Candidate {
        id: "c".into(),
        rank: 1,
        start_sec: 0,
        end_sec: 10,
        score: 0,
        hook: hook.into(),
    }
}

#[test]
fn a_clip_is_about_its_hook() {
    assert_eq!(clip_topic(&candidate(" hook "), &project(Some("n"), None)), " hook ");
    assert_eq!(clip_topic(&candidate("  "), &project(Some("n"), None)), "n");
    assert_eq!(clip_topic(&candidate(""), &project(None, None)), "a short social video");
    assert_eq!(caption_style(&project(None, None)), "modern-box");
}

#[test]
fn broll_needs_a_cut_clip() {
    let clips = vec![
        Clip { candidate_id: "a".into(), output_path: None },
        Clip { candidate_id: "b".into(), output_path: Some("/nope/b.mp4".into()) },
        Clip { candidate_id: "c".into(), output_path: Some("/".into()) },
    ];
    assert_eq!(
        rendered_clip(&clips, "x"),
        Err("cut this clip before adding B-roll".to_string())
    );
    assert_eq!(rendered_clip(&clips, "a"), Err("clip has no rendered file yet".to_string()));
    assert_eq!(rendered_clip(&clips, "b"), Ok("/nope/b.mp4".to_string()));
    assert_eq!(
        source_clip(&clips, "b"),
        Err("rendered clip is missing: /nope/b.mp4".to_string())
    );
    assert_eq!(source_clip(&clips, "c"), Ok("/".to_string()));
    assert_eq!(source_given(&clips, "b", true), Ok("/nope/b.mp4".to_string()));
    assert_eq!(
        source_given(&clips, "b", false),
        Err("rendered clip is missing: /nope/b.mp4".to_string())
    );
    assert_eq!(
        source_given(&clips, "a", true),
        Err("clip has no rendered file yet".to_string())
    );
}

#[test]
fn a_failed_step_keeps_the_render() {
    let titled = keep_render(Err("no".to_string()), "/broll.mp4");
    assert_eq!(titled, "/broll.mp4");
    assert_eq!(keep_render(Ok("/sfx.mp4".to_string()), &titled), "/sfx.mp4");
}

#[test]
fn a_project_without_a_name_has_no_end_card() {
    for brand in [None, Some("  ")] {
        assert_eq!(
            outro_name(&project(None, brand)),
            Err("no app name set for this project".to_string())
        );
    }
    assert_eq!(outro_name(&project(None, Some("App"))), Ok("App".to_string()));
    assert_eq!(check_video("/"), Ok(()));
    assert_eq!(check_video("/nope/v.mp4"), Err("video not found: /nope/v.mp4".to_string()));
    assert_eq!(check_video_given("/v", true), Ok(()));
}

#[test]
fn what_is_said_in_a_clip() {
    let word = |text: &str, start: i64, end: i64| TranscriptWord {
        text: text.to_string(),
        start,
        end,
        speaker: None,
    };
    let words = vec![word("a", 0, 5), word("b", 5, 8), word("c", 8, 12), word("d", 12, 15)];
    assert_eq!(spoken_in_clip(&words, 5, 12), "b c");
}
