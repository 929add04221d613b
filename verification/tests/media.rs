//! What ffmpeg and ffprobe are asked and what they answer.

use autoshorts::facetrack::CropPlan;
use autoshorts::media::{
    audio_args, build_render_command, command_name, crop_offsets, cropped_size, extract_audio,
    ffmpeg_bin, ffmpeg_has_filter, ffprobe_bin, probe_args, probe_media, render_flat_clip,
    supports_captions, RenderSpec,
};
use autoshorts::models::MediaProbe;
use autoshorts::number::fixed_string;
use autoshorts::sidecar::Exit;

const SECOND: i64 = 1_000_000_000;

fn args_of(overlay: Option<&str>) -> Vec<String> {
    build_render_command(
        RenderSpec {
            source_path: "/tmp/source.mp4",
            start_sec: 60 * SECOND,
            end_sec: 150 * SECOND,
            output_path: "/tmp/out.mp4",
            drawtext_filters: None,
            caption_overlay: overlay,
            has_video: true,
            crop_offsets: "",
        },
        true,
    )
}

/// Regression: `-t` once sat before the caption input, so ffmpeg treated it
/// as an input limit and encoded the entire 49-minute source instead of a
/// 90-second clip.
#[test]
fn duration_limit_comes_after_every_input() {
    for overlay in [None, Some("/tmp/captions.txt")] {
        let args = args_of(overlay);
        let t = args.iter().position(|a| a == "-t").expect("-t missing");
        let last_input = args
            .iter()
            .enumerate()
            .filter(|(_, a)| a.as_str() == "-i")
            .map(|(i, _)| i)
            .next_back()
            .expect("-i missing");
        assert!(
            t > last_input,
            "-t at {t} must follow the last -i at {last_input}: {args:?}"
        );
    }
}

#[test]
fn clip_duration_is_the_requested_span() {
    let args = args_of(None);
    let t = args.iter().position(|a| a == "-t").unwrap();
    assert_eq!(args[t + 1], "90.000");
}

#[test]
fn caption_overlay_adds_a_second_input_and_maps_it() {
    let args = args_of(Some("/tmp/captions.txt"));
    assert_eq!(args.iter().filter(|a| a.as_str() == "-i").count(), 2);
    assert!(args.iter().any(|a| a == "-filter_complex"));
    assert!(args.iter().any(|a| a.contains("overlay=0:0")));
    // Audio must still come from the source, not the caption track.
    assert!(args.iter().any(|a| a == "0:a?"));
}

#[test]
fn without_captions_there_is_one_input_and_no_filter_complex() {
    let args = args_of(None);
    assert_eq!(args.iter().filter(|a| a.as_str() == "-i").count(), 1);
    assert!(!args.iter().any(|a| a == "-filter_complex"));
    assert!(args.iter().any(|a| a == "-vf"));
}

fn drawn(overlay: Option<&str>, has_video: bool, can_draw: bool, filters: &str) -> Vec<String> {
    build_render_command(
        RenderSpec {
            source_path: "s",
            start_sec: -SECOND,
            end_sec: -SECOND,
            output_path: "o",
            drawtext_filters: Some(filters),
            caption_overlay: overlay,
            has_video,
            crop_offsets: ":x='1':y='2'",
        },
        can_draw,
    )
}

#[test]
fn drawn_captions_are_a_fallback() {
    let crop = "crop=w='2*trunc(min(iw,ih*9/16)/2)':h='2*trunc(min(ih,iw*16/9)/2)':x='1':y='2'";
    let filter = |args: &Vec<String>| {
        let at = args.iter().position(|a| a == "-vf").expect("-vf");
        args[at + 1].clone()
    };
    assert_eq!(filter(&drawn(None, true, true, "drawtext=a")), format!("{crop},drawtext=a"));
    assert_eq!(filter(&drawn(None, true, false, "drawtext=a")), crop);
    assert_eq!(filter(&drawn(None, true, true, "")), crop);
    let overlaid = drawn(Some("list"), true, true, "drawtext=a");
    assert!(overlaid.contains(&format!(
        "[0:v]{crop}[base];[base][1:v]overlay=0:0:format=auto:shortest=0[v]"
    )));
}

#[test]
fn a_source_without_a_picture_has_sound_only() {
    assert_eq!(
        drawn(Some("list"), false, true, "drawtext=a"),
        vec![
            "-y", "-ss", "-1.000", "-i", "s", "-t", "0.100", "-vn", "-c:a", "aac", "-b:a", "192k",
            "o"
        ]
    );
}

#[test]
fn the_window_is_upright_and_even() {
    let probe = |width: Option<i64>, height: Option<i64>| MediaProbe {
        duration_sec: None,
        has_video: true,
        width,
        height,
        video_codec: None,
        audio_codec: None,
    };
    assert_eq!(cropped_size(None), (1080, 1920));
    assert_eq!(cropped_size(Some(&probe(None, None))), (606, 1080));
    assert_eq!(cropped_size(Some(&probe(Some(640), Some(360)))), (202, 360));
    assert_eq!(cropped_size(Some(&probe(Some(1080), Some(1920)))), (1080, 1920));
    assert_eq!(cropped_size(Some(&probe(Some(500), Some(2001)))), (500, 888));
    assert_eq!(cropped_size(Some(&probe(Some(-3), Some(100)))), (-4, -6));
}

#[test]
fn programs_can_be_set() {
    assert_eq!(ffmpeg_bin(None), "ffmpeg");
    assert_eq!(ffmpeg_bin(Some("  ")), "ffmpeg");
    assert_eq!(ffmpeg_bin(Some("/opt/ffmpeg")), "/opt/ffmpeg");
    assert_eq!(ffprobe_bin(Some("")), "ffprobe");
    assert_eq!(command_name("ffmpeg", Some("/a"), Some("/b")), "/a");
    assert_eq!(command_name("ffprobe", Some("/a"), Some("/b")), "/b");
    assert_eq!(command_name("yt-dlp", Some("/a"), Some("/b")), "yt-dlp");
}

#[test]
fn a_filter_is_the_second_word_of_a_row() {
    let listing = "Filters:\n ... drawbox           V->V       Draw a box\n TSC overlay VV->V\n";
    assert!(ffmpeg_has_filter(Some(listing), "overlay"));
    assert!(!ffmpeg_has_filter(Some(listing), "box"));
    assert!(!supports_captions(Some(listing)));
    assert!(supports_captions(Some(" ... drawtext  V->V  Draw text ...")));
    assert!(!supports_captions(None));
}

fn exit(success: bool, stdout: &str, stderr: &str) -> Exit {
    Exit { success, stdout: stdout.to_string(), stderr: stderr.to_string() }
}

#[test]
fn a_probe_reads_the_first_stream_of_each_kind() {
    let answer = "{\"streams\":[{\"codec_type\":\"audio\",\"codec_name\":\"aac\"},\
        {\"codec_type\":\"video\",\"codec_name\":\"h264\",\"width\":640,\"height\":360},\
        {\"codec_type\":\"video\",\"width\":1}],\"format\":{\"duration\":\"12.5\"}}";
    let p = probe_media(&exit(true, answer, "")).expect("probe");
    assert_eq!(p.duration_sec, Some(12_500_000_000));
    assert!(p.has_video);
    assert_eq!((p.width, p.height), (Some(640), Some(360)));
    assert_eq!(p.video_codec.as_deref(), Some("h264"));
    assert_eq!(p.audio_codec.as_deref(), Some("aac"));
}

#[test]
fn a_probe_of_nothing_knows_nothing() {
    let p = probe_media(&exit(true, "{}", "")).expect("probe");
    assert_eq!(p.duration_sec, None);
    assert!(!p.has_video);
    assert_eq!((p.width, p.height), (None, None));
    assert_eq!(p.video_codec, None);
    let p = probe_media(&exit(true, "{\"format\":{\"duration\":\"N/A\"}}", "")).expect("probe");
    assert_eq!(p.duration_sec, None);
}

#[test]
fn tools_that_fail_are_quoted() {
    assert_eq!(
        probe_media(&exit(false, "", " no such file \n")).expect_err("failure"),
        "ffprobe failed: no such file"
    );
    assert_eq!(
        probe_media(&exit(true, "not json", "")).expect_err("failure"),
        "parsing ffprobe JSON"
    );
    assert_eq!(
        extract_audio(&exit(false, "", "x\n"), "/a.wav"),
        Err("ffmpeg audio extraction failed: x".to_string())
    );
    assert_eq!(extract_audio(&exit(true, "", ""), "/a.wav"), Ok("/a.wav".to_string()));
    assert_eq!(
        render_flat_clip(&exit(false, "", "y"), "/o.mp4"),
        Err("ffmpeg clip render failed: y".to_string())
    );
    assert_eq!(render_flat_clip(&exit(true, "", ""), "/o.mp4"), Ok("/o.mp4".to_string()));
}

#[test]
fn arguments_for_probing_and_for_audio() {
    assert_eq!(
        probe_args("/v"),
        vec!["-v", "error", "-print_format", "json", "-show_format", "-show_streams", "/v"]
    );
    assert_eq!(
        audio_args("/v", "/a.wav"),
        vec!["-y", "-i", "/v", "-vn", "-ac", "1", "-ar", "16000", "/a.wav"]
    );
}

#[test]
fn crop_offsets_follow_the_plan() {
    let plan = CropPlan { x: "10".into(), y: "(in_h-out_h)/2".into(), summary: String::new() };
    assert_eq!(crop_offsets(Some(&plan)), ":x='10':y='(in_h-out_h)/2'");
    assert_eq!(crop_offsets(None), "");
}

#[test]
fn decimals_are_those_of_the_nearest_binary_number() {
    assert_eq!(fixed_string(500_000, 3), "0.001");
    assert_eq!(fixed_string(165_000_000, 2), "0.17");
    assert_eq!(fixed_string(125_000_000, 2), "0.12");
    assert_eq!(fixed_string(145_000_000, 2), "0.14");
    assert_eq!(fixed_string(-500_000, 3), "-0.001");
    assert_eq!(fixed_string(0, 3), "0.000");
    let mut v: i64 = 1;
    for step in 0..20_000i64 {
        v = (v * 31 + step * 7_919) % 4_000_000_000_000;
        // Halves of a hundredth and of a thousandth are the hard ones.
        for n in [v, v / 1_000_000 * 1_000_000 + 500_000, v / 10_000_000 * 10_000_000 + 5_000_000] {
            let x = n as f64 / 1_000_000_000.0;
            assert_eq!(fixed_string(n as i128, 0), format!("{x:.0}"));
            assert_eq!(fixed_string(n as i128, 2), format!("{x:.2}"));
            assert_eq!(fixed_string(n as i128, 3), format!("{x:.3}"));
        }
    }
}
