//! Overlay captions, subtitles and drawn captions.

use autoshorts::captions::{
    available, chunk_words, decide_track, frames_dir_name, plan_track, render_track,
};
use autoshorts::drawtext::{
    build_drawtext_filters, caption_fonts, drawtext_with_font, font_option_for,
};
use autoshorts::models::TranscriptWord;
use autoshorts::sidecar::Exit;
use autoshorts::srt::{format_srt_time, generate_srt};

/// Times in milliseconds.
fn word(text: &str, start: i64, end: i64) -> TranscriptWord {
    TranscriptWord {
        text: text.to_string(),
        start: start * 1_000_000,
        end: end * 1_000_000,
        speaker: None,
    }
}

const SECOND: i64 = 1_000_000_000;

#[test]
fn chunks_pairs_of_words_relative_to_clip_start() {
    let words = vec![
        word("so", 10_000, 10_400),
        word("I", 10_400, 10_600),
        word("was", 10_600, 11_000),
        word("told", 11_000, 11_400),
    ];
    let out = chunk_words(&words, 10 * SECOND, 12 * SECOND);
    assert_eq!(out.len(), 2);
    assert_eq!(out[0].text, "SO I");
    assert_eq!(out[0].start, 0);
    assert_eq!(out[1].text, "WAS TOLD");
    assert_eq!(out[1].start, 600_000_000);
    assert_eq!(out[1].end, 1_400_000_000);
}

#[test]
fn keeps_punctuation_that_drawtext_would_strip() {
    let words = vec![word("don't", 0, 500), word("panic!", 500, 1_000)];
    let out = chunk_words(&words, 0, 2 * SECOND);
    assert_eq!(out[0].text, "DON'T PANIC!");
}

#[test]
fn excludes_words_outside_the_clip() {
    let words = vec![
        word("before", 0, 1_000),
        word("inside", 5_000, 5_500),
        word("after", 20_000, 21_000),
    ];
    let out = chunk_words(&words, 4 * SECOND, 6 * SECOND);
    assert_eq!(out.len(), 1);
    assert_eq!(out[0].text, "INSIDE");
}

#[test]
fn captions_stay_within_the_clip_and_show_something() {
    let words = vec![
        word("early", 3_000, 4_500),
        word(" ", 4_500, 5_000),
        word("", 5_000, 5_200),
        word("  ", 5_200, 5_400),
        word("straße", 5_500, 9_000),
    ];
    let out = chunk_words(&words, 4 * SECOND, 6 * SECOND);
    let shown: Vec<(&str, i128, i128)> =
        out.iter().map(|c| (c.text.as_str(), c.start, c.end)).collect();
    assert_eq!(
        shown,
        vec![("EARLY", 0, 1_000_000_000), ("STRASSE", 1_500_000_000, 2_000_000_000)]
    );
}

#[test]
fn nothing_is_rendered_of_an_empty_clip_or_picture() {
    let words = vec![word("one", 0, 500)];
    assert!(plan_track(&words, SECOND, SECOND, 100, 100, "s").is_none());
    assert!(plan_track(&words, 0, SECOND, 0, 100, "s").is_none());
    assert!(plan_track(&words, 0, SECOND, 100, -1, "s").is_none());
    assert!(plan_track(&[], 0, SECOND, 100, 100, "s").is_none());
    let track = plan_track(&words, 0, SECOND, 100, 200, "vibrant-red").expect("track");
    assert_eq!((track.width, track.height, track.duration), (100, 200, 1_000_000_000));
    assert_eq!(track.style, "vibrant-red");
    assert_eq!(track.chunks.len(), 1);
}

#[test]
fn frame_directories_are_fresh() {
    let a = frames_dir_name();
    let b = frames_dir_name();
    assert!(a.starts_with("captions-"));
    assert_eq!(a.len(), 45);
    assert_eq!(a.as_bytes()[9 + 14], b'4');
    assert_ne!(a, b);
}

#[test]
fn a_track_is_what_the_renderer_lists() {
    let exit = |success: bool, stdout: &str| Exit {
        success,
        stdout: stdout.to_string(),
        stderr: String::new(),
    };
    let track = decide_track(&exit(true, " /tmp/list.txt\n"), "/tmp/d", true).expect("track");
    assert_eq!(track.concat_list, "/tmp/list.txt");
    assert_eq!(track.dir, "/tmp/d");
    assert!(decide_track(&exit(true, " /tmp/list.txt\n"), "/tmp/d", false).is_none());
    assert!(decide_track(&exit(true, " \n"), "/tmp/d", true).is_none());
    assert!(decide_track(&exit(false, "/tmp/list.txt"), "/tmp/d", true).is_none());
    assert!(render_track(&exit(true, "/nope/list.txt"), "/tmp/d").is_none());
    assert_eq!(render_track(&exit(true, "/\n"), "/tmp/d").expect("track").concat_list, "/");
}

#[test]
fn an_overlay_needs_pillow() {
    let none: Vec<String> = Vec::new();
    assert!(!available(&none, |_c: &String, _m: &str| true));
    assert!(available(&vec!["py".to_string()], |_c: &String, m: &str| m == "PIL"));
}

#[test]
fn time_codes_are_cut_to_the_millisecond() {
    assert_eq!(format_srt_time(0, 1_500_000_000), "00:00:00,000 --> 00:00:01,500");
    assert_eq!(
        format_srt_time(3_723_004_999_999, 360_000_000_000_000),
        "01:02:03,004 --> 100:00:00,000"
    );
    assert_eq!(format_srt_time(-5, 999_999), "00:00:00,000 --> 00:00:00,000");
}

#[test]
fn subtitles_come_three_words_at_a_time() {
    let words = vec![
        word("a", 9_000, 10_500),
        word("b", 10_500, 11_000),
        word("c", 11_000, 11_250),
        word("d", 11_250, 13_000),
    ];
    assert_eq!(
        generate_srt(&words, 10 * SECOND, 12 * SECOND),
        "1\n00:00:00,000 --> 00:00:01,250\na b c\n\n2\n00:00:01,250 --> 00:00:02,000\nd\n\n"
    );
    assert_eq!(generate_srt(&words, 20 * SECOND, 22 * SECOND), "");
}

#[test]
fn test_build_drawtext_filters_formatting() {
    let words = vec![word("Hello", 0, 1_000), word("world", 1_000, 2_000)];

    let result = build_drawtext_filters(&words, 0, 5 * SECOND, 1080, "classic-outline", None);
    assert!(!result.is_empty());
    assert!(result.contains("drawtext="));
    assert!(result.contains("text='HELLO WORLD'"));

    if result.contains("fontfile=") {
        assert!(result.contains("fontfile='"));
        assert!(!result.contains("\\:"));
    }
}

#[test]
fn each_style_has_its_look() {
    let words = vec![word("don't", 0, 500), word("stop?", 500, 1_000)];
    let of = |style: &str, width: i64| drawtext_with_font(&words, 0, 5 * SECOND, width, style, "F:");
    assert_eq!(
        of("classic-outline", 1080),
        "drawtext=F:text='DONT STOP?':x=(w-text_w)/2:y=h*0.65:fontsize=80:fontcolor=yellow:borderw=8:bordercolor=black:enable='between(t,0.000,1.000)'"
    );
    assert_eq!(
        of("minimal-shadow", 606),
        "drawtext=F:text='DONT STOP?':x=(w-text_w)/2:y=h*0.7:fontsize=45:fontcolor=white:shadowcolor=black@0.5:shadowx=2:shadowy=2:enable='between(t,0.000,1.000)'"
    );
    assert_eq!(
        of("vibrant-cyan", 606),
        "drawtext=F:text='DONT STOP?':x=(w-text_w)/2:y=h*0.7:fontsize=45:fontcolor=0x00FFFF:shadowcolor=black@0.6:shadowx=2:shadowy=2:enable='between(t,0.000,1.000)'"
    );
    assert_eq!(
        of("vibrant-yellow-box", 606),
        "drawtext=F:text='DONT STOP?':x=(w-text_w)/2:y=h*0.72:fontsize=45:fontcolor=black:box=1:boxcolor=0xffff00e0:boxborderw=14:enable='between(t,0.000,1.000)'"
    );
    assert_eq!(
        of("vibrant-green", 220),
        "drawtext=F:text='DONT STOP?':x=(w-text_w)/2:y=h*0.7:fontsize=17:fontcolor=0x39FF14:borderw=2:bordercolor=black:shadowcolor=black@0.6:shadowx=2:shadowy=2:enable='between(t,0.000,1.000)'"
    );
    assert_eq!(
        of("vibrant-red", 606),
        "drawtext=F:text='DONT STOP?':x=(w-text_w)/2:y=h*0.7:fontsize=45:fontcolor=0xFF3B30:borderw=4:bordercolor=black:shadowcolor=black@0.6:shadowx=2:shadowy=2:enable='between(t,0.000,1.000)'"
    );
    assert_eq!(
        of("anything else", 100),
        "drawtext=F:text='DONT STOP?':x=(w-text_w)/2:y=h*0.72:fontsize=16:fontcolor=white:box=1:boxcolor=0x000000b0:boxborderw=5:enable='between(t,0.000,1.000)'"
    );
}

#[test]
fn filters_are_joined_and_empty_spans_left_out() {
    let words = vec![
        word("a", 1_000, 1_500),
        word("b", 1_500, 2_000),
        word("c", 3_000, 2_900),
        word("d", 3_000, 3_000),
        word("e", 3_500, 9_999),
    ];
    let out = drawtext_with_font(&words, SECOND, 4 * SECOND, 1080, "", "");
    assert_eq!(out.matches("drawtext=").count(), 2);
    assert!(out.contains(")',drawtext=text='E'"));
    assert!(out.ends_with("enable='between(t,2.500,3.000)'"));
    assert_eq!(drawtext_with_font(&words, 20 * SECOND, 30 * SECOND, 1080, "", ""), "");
}

#[test]
fn the_first_font_that_is_present_is_named() {
    let paths = vec!["/a.ttf".to_string(), "C:\\it's\\b.ttf".to_string()];
    assert_eq!(font_option_for(&paths, &vec![true, true]), "fontfile='/a.ttf':");
    assert_eq!(font_option_for(&paths, &vec![false, true]), "fontfile='C:/it'\\''s/b.ttf':");
    assert_eq!(font_option_for(&paths, &vec![false, false]), "");
    let fonts = caption_fonts(Some("D:\\Win"));
    assert_eq!(fonts.len(), 17);
    assert_eq!(fonts[0], "/System/Library/Fonts/Supplemental/Futura.ttc");
    assert_eq!(fonts[12], "D:/Win/Fonts/SegoeUIb.ttf");
    assert_eq!(fonts[16], "D:/Win/Fonts/arial.ttf");
    assert_eq!(caption_fonts(None).len(), 12);
}
