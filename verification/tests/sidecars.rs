//! Programs around a finished clip: effects, B-roll, end card, tracking.

use autoshorts::broll::{
    available as broll_available, broll_args, clip_transcript, enrich, missing_text, skill_dir,
    transcript_to_write,
};
use autoshorts::facetrack::{
    available as tracking_available, fallback_message, plan_from_track, track_answer, track_args,
    track_line,
    TrackResult,
};
use autoshorts::models::TranscriptWord;
use autoshorts::outro::{
    append, available as outro_available, can_clone_voice, card_args, check_app_name, decide_card,
    tts_python,
};
use autoshorts::sfx::{
    apply, complete, ensure_kit, kit_args, kit_args_for, kit_dir, kit_files, mix_args,
    mix_args_given, mix_args_with,
};
use autoshorts::sidecar::{
    decide_file, model_is_stale, notes, produced_path, script_is_stale, tail_of, written_file,
    Exit,
};

fn exit(success: bool, stdout: &str, stderr: &str) -> Exit {
    Exit { success, stdout: stdout.to_string(), stderr: stderr.to_string() }
}

#[test]
fn kit_dir_is_overridable() {
    // The default must be stable so a generated kit is found again rather
    // than rebuilt on every render.
    assert!(kit_dir(None, "/tmp", false).ends_with("/sfx"));
    assert!(kit_dir(Some("  "), "/tmp", false).ends_with("/autoshorts/sfx"));
    assert_eq!(kit_dir(Some("/my/kit"), "/tmp", false), "/my/kit");
}

#[test]
fn a_complete_kit_is_not_made_again() {
    let files = kit_files("/k", false);
    assert_eq!(files.len(), 6);
    assert_eq!(files[0], "/k/attention.wav");
    assert_eq!(files[5], "/k/pop.wav");
    assert!(complete(&vec![true; 6]));
    assert!(!complete(&vec![true, true, false]));
    assert!(kit_args_for("s.py", "/k", &vec![true; 6]).is_none());
    assert_eq!(
        kit_args_for("s.py", "/k", &vec![true, false]),
        Some(vec!["s.py".to_string(), "--out".to_string(), "/k".to_string()])
    );
    assert!(kit_args("s.py", "/nope/kit", false).is_some());
}

#[test]
fn a_kit_that_cannot_be_made_tells_its_last_line() {
    assert_eq!(ensure_kit(&exit(true, "", ""), "/k"), Ok("/k".to_string()));
    assert_eq!(
        ensure_kit(&exit(false, "", "one\ntwo\n"), "/k"),
        Err("sfx kit generation failed: two".to_string())
    );
    assert_eq!(
        ensure_kit(&exit(false, "", ""), "/k"),
        Err("sfx kit generation failed: ".to_string())
    );
}

#[test]
fn effects_are_placed_by_what_is_on_disk() {
    assert_eq!(
        mix_args_with("s", "v", "k", "o", Some("p"), Some("t")),
        vec![
            "s", "--video", "v", "--kit", "k", "--output", "o", "--scenes", "p", "--transcript",
            "t"
        ]
    );
    assert_eq!(
        mix_args("s", "v", "k", "o", Some("/"), Some("/nope/t.json")),
        vec!["s", "--video", "v", "--kit", "k", "--output", "o", "--scenes", "/"]
    );
    assert_eq!(
        mix_args("s", "v", "k", "o", None, None),
        vec!["s", "--video", "v", "--kit", "k", "--output", "o"]
    );
    assert_eq!(
        apply(&exit(false, "", "a\nb\nc\nd"), "/o"),
        Err("sfx mix failed: b | c | d".to_string())
    );
    assert_eq!(
        apply(&exit(true, "", ""), "/nope/o"),
        Err("sfx mix reported success but produced no file".to_string())
    );
}

#[test]
fn narration_is_passed_on_by_its_tags() {
    assert_eq!(
        notes("[broll] a\nnoise\n [broll] b\n[tts] c\n", &vec!["[broll]", "[tts]"]),
        vec!["[broll] a", "[tts] c"]
    );
    assert_eq!(tail_of("a\n\nb", 4), "a |  | b");
    assert_eq!(tail_of("a\nb\nc", 1), "c");
    assert_eq!(tail_of("", 4), "");
}

#[test]
fn a_file_is_the_one_named_or_the_one_asked_for() {
    assert_eq!(produced_path(" \n", "/o"), "/o");
    assert_eq!(produced_path(" /p \n", "/o"), "/p");
    let ok = exit(true, "", "x");
    assert_eq!(decide_file(&ok, "/o", "f: ", 2, "none", true), Ok("/o".to_string()));
    assert_eq!(decide_file(&ok, "/o", "f: ", 2, "none", false), Err("none".to_string()));
    assert_eq!(written_file(&ok, "/", "f: ", 2, "none"), Ok("/".to_string()));
}

#[test]
fn stale_assets_are_written_anew() {
    assert!(script_is_stale(None, "body"));
    assert!(script_is_stale(Some("old"), "body"));
    assert!(!script_is_stale(Some("body"), "body"));
    assert!(model_is_stale(None, 7));
    assert!(model_is_stale(Some(6), 7));
    assert!(!model_is_stale(Some(7), 7));
}

#[test]
fn broll_needs_the_skill_and_pillow() {
    let candidates = vec!["py".to_string()];
    let there = |p: &str| p == "/skill/scripts/render_project.py";
    let pillow = |_c: &String, m: &str| m == "PIL";
    assert!(broll_available("/skill", false, &candidates, there, pillow));
    assert!(!broll_available("/other", false, &candidates, there, pillow));
    assert!(!broll_available("/skill", false, &Vec::new(), there, pillow));
    assert!(skill_dir(None, "/tmp", false).ends_with("/b-rolls-ref"));
    assert_eq!(skill_dir(Some("/s"), "/tmp", false), "/s");
    assert_eq!(
        missing_text("/s"),
        "b-rolls skill not found at /s (set BROLLS_SKILL_DIR), or Pillow is missing"
    );
}

#[test]
fn broll_words_are_counted_from_the_clip() {
    let word = |text: &str, start: i64, end: i64| TranscriptWord {
        text: text.to_string(),
        start,
        end,
        speaker: Some("A".to_string()),
    };
    let words = vec![word("a", 0, 12), word("b", 12, 20), word("c", 30, 40)];
    let out = clip_transcript(&words, 10, 30);
    let shown: Vec<(&str, i128, i128)> =
        out.iter().map(|w| (w.text.as_str(), w.start, w.end)).collect();
    assert_eq!(shown, vec![("a", -10, 2), ("b", 2, 10)]);
    assert_eq!(out[0].speaker.as_deref(), Some("A"));
    assert!(clip_transcript(&words, 100, 200).is_empty());
    assert!(transcript_to_write(&words, 100, 200).is_none());
    assert_eq!(transcript_to_write(&words, 10, 30).expect("words").len(), 2);
}

#[test]
fn broll_arguments_and_outcome() {
    assert_eq!(
        broll_args("s", "c", "t", "d", "o", Some("tx")),
        vec![
            "s", "--clip", "c", "--topic", "t", "--skill-dir", "d", "--output", "o",
            "--transcript", "tx"
        ]
    );
    assert_eq!(
        broll_args("s", "c", "t", "d", "o", None),
        vec!["s", "--clip", "c", "--topic", "t", "--skill-dir", "d", "--output", "o"]
    );
    assert_eq!(
        enrich(&exit(false, "", "1\n2\n3\n4\n5\n6\n7"), "/o"),
        Err("b-roll pipeline failed: 2 | 3 | 4 | 5 | 6 | 7".to_string())
    );
    assert_eq!(
        enrich(&exit(true, "/nope/x", ""), "/"),
        Err("b-roll pipeline reported success but produced no file".to_string())
    );
    assert_eq!(enrich(&exit(true, "", ""), "/"), Ok("/".to_string()));
}

#[test]
fn an_end_card_needs_a_name() {
    assert_eq!(
        card_args("s", "c", "  ", None, None, "o", "a", "p"),
        Err("no app name configured".to_string())
    );
    assert_eq!(
        card_args("s", "c", "App", Some("l"), Some("t"), "o", "a", "p").expect("args"),
        vec![
            "s", "--clip", "c", "--app-name", "App", "--output", "o", "--assets", "a",
            "--tts-python", "p", "--logo", "l", "--transcript", "t"
        ]
    );
}

#[test]
fn an_end_card_is_there_or_tells_why() {
    assert_eq!(decide_card(&exit(true, "x", ""), "/o", true), Ok("/o".to_string()));
    assert_eq!(decide_card(&exit(false, "", "a\nb"), "/o", true), Err("a | b".to_string()));
    assert_eq!(
        append(&exit(true, "", ""), "/nope/o"),
        Err("outro builder reported success but produced no file".to_string())
    );
    assert_eq!(append(&exit(true, "", ""), "/"), Ok("/".to_string()));
}

#[test]
fn a_voice_needs_its_interpreter() {
    assert!(tts_python(None, "/tmp", false).ends_with("/tts-venv/bin/python"));
    assert_eq!(tts_python(Some("/p"), "/tmp", false), "/p");
    assert_eq!(check_app_name("LabelWise"), Ok(()));
    assert_eq!(check_app_name(" "), Err("no app name configured".to_string()));
    assert!(can_clone_voice(Some("/p"), "/tmp", false, |p: &str| p == "/p"));
    assert!(!can_clone_voice(Some("/p"), "/tmp", false, |p: &str| p != "/p"));
    assert!(outro_available(&vec!["py".to_string()], |_c: &String, m: &str| m == "PIL"));
    assert!(!outro_available(&vec!["py".to_string()], |_c: &String, m: &str| m == "cv2"));
    assert!(tracking_available(&vec!["py".to_string()], |_c: &String, m: &str| m == "cv2"));
    assert!(!tracking_available(&vec!["py".to_string()], |_c: &String, m: &str| m == "PIL"));
}

fn track(mode: &str) -> TrackResult {
    TrackResult {
        mode: mode.to_string(),
        x: None,
        y: None,
        x_expr: None,
        y_expr: None,
        reason: None,
        coverage: None,
        cuts: None,
    }
}

#[test]
fn an_axis_that_is_not_tracked_stays_centred() {
    let mut t = track("static");
    t.x = Some(12_500_000_000);
    t.coverage = Some(875_000_000);
    t.cuts = Some(2);
    let plan = plan_from_track(&t).expect("plan");
    assert_eq!(plan.x, "13");
    assert_eq!(plan.y, "(in_h-out_h)/2");
    assert_eq!(plan.summary, "static track, coverage 88%, 2 cut(s)");
    t.x = Some(-12_500_000_000);
    t.y_expr = Some("if(lt(t,1),0,5)".to_string());
    t.y = Some(1);
    let plan = plan_from_track(&t).expect("plan");
    assert_eq!(plan.x, "-13");
    assert_eq!(plan.y, "if(lt(t,1),0,5)");
    let plan = plan_from_track(&track("dynamic")).expect("plan");
    assert_eq!(plan.x, "(in_w-out_w)/2");
    assert_eq!(plan.summary, "dynamic track, coverage 0%, 0 cut(s)");
}

#[test]
fn a_tracker_that_gives_up_leaves_the_centre_crop() {
    let mut t = track("none");
    assert!(plan_from_track(&t).is_none());
    assert_eq!(fallback_message(&t), "facetrack: falling back to centre crop (unspecified)");
    t.reason = Some("no faces".to_string());
    assert_eq!(fallback_message(&t), "facetrack: falling back to centre crop (no faces)");
}

#[test]
fn the_tracker_answers_on_its_last_object_line() {
    assert_eq!(
        track_line("{\"a\":1}\nnoise\n  {\"b\":2} \nmore").as_deref(),
        Some("{\"b\":2}")
    );
    assert_eq!(track_line("noise\n[1]"), None);
    let ended = |success: bool| Exit {
        success,
        stdout: "{\"b\":2}\n".to_string(),
        stderr: String::new(),
    };
    assert_eq!(track_answer(&ended(true)).as_deref(), Some("{\"b\":2}"));
    assert_eq!(track_answer(&ended(false)), None);
    assert_eq!(track_line(""), None);
}

#[test]
fn the_tracker_is_asked_for_a_range() {
    assert_eq!(
        track_args("s", "v", "m", 1_500_000_000, 2_000_499_999).expect("args"),
        vec!["s", "--video", "v", "--model", "m", "--start", "1.500", "--end", "2.000"]
    );
    assert!(track_args("s", "v", "m", 5, 5).is_none());
    assert!(track_args("s", "v", "m", 6, 5).is_none());
}

#[test]
fn only_files_that_are_there_steer_the_mixer() {
    let base = ["s", "--video", "v", "--kit", "k", "--output", "o"];
    let given = |planned: bool, heard: bool| {
        mix_args_given("s", "v", "k", "o", Some("p"), planned, Some("t"), heard)
    };
    assert_eq!(given(false, false), base);
    assert_eq!(given(true, false), [&base[..], &["--scenes", "p"]].concat());
    assert_eq!(given(false, true), [&base[..], &["--transcript", "t"]].concat());
    assert_eq!(given(true, true), [&base[..], &["--scenes", "p", "--transcript", "t"]].concat());
    assert_eq!(mix_args_given("s", "v", "k", "o", None, true, None, true), base);
}
