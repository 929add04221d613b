//! What ffmpeg and ffprobe are asked and what they answer.

use vstd::prelude::*;
use vstd::string::StringExecFns;
use crate::facetrack::CropPlan;
use crate::json::{item_views, json_document, opt_json, parse_json, Json, JsonView};
use crate::models::MediaProbe;
use crate::number::{
    binary, clamped, div_even, fixed_string, fixed_text, law_read_whole, lemma_nat_text, nat_text,
    parse_decimal, pow10, read_decimal, zero_padded, Reading,
};
use crate::paths::{set_value, setting_of};
use crate::sidecar::{result_texts, Exit};
use crate::text::{
    is_blank, is_space, law_lines, law_words, lines, opt_str, opt_text, put, put_list, same,
    split_lines, split_words, texts, trim, trimmed, words,
};

verus! {

/// The program that a setting names, else the one on the search path.
pub open spec fn program(setting: Option<Seq<char>>, usual: Seq<char>) -> Seq<char> {
    match set_value(setting) {
        Some(v) => v,
        None => usual,
    }
}

/// Chooses between the program that a setting names and the usual one.
fn choose_program(setting: Option<&str>, usual: &str) -> (res: String)
    ensures
        res@ == program(opt_str(setting), usual@),
{
    match setting_of(setting) {
        Some(v) => v,
        None => usual.to_owned(),
    }
}

/// The ffmpeg to use. A setting can point at a fuller build without disturbing
/// the one on the search path.
pub fn ffmpeg_bin(setting: Option<&str>) -> (res: String)
    ensures
        res@ == program(opt_str(setting), "ffmpeg"@),
{
    choose_program(setting, "ffmpeg")
}

/// The ffprobe to use.
pub fn ffprobe_bin(setting: Option<&str>) -> (res: String)
    ensures
        res@ == program(opt_str(setting), "ffprobe"@),
{
    choose_program(setting, "ffprobe")
}

/// The program behind a name: ffmpeg and ffprobe may be set, any other name is
/// the program itself.
pub open spec fn program_named(
    name: Seq<char>,
    ffmpeg: Option<Seq<char>>,
    ffprobe: Option<Seq<char>>,
) -> Seq<char> {
    if name == "ffmpeg"@ {
        program(ffmpeg, "ffmpeg"@)
    } else if name == "ffprobe"@ {
        program(ffprobe, "ffprobe"@)
    } else {
        name
    }
}

/// Resolves the name of a program.
pub fn command_name(name: &str, ffmpeg: Option<&str>, ffprobe: Option<&str>) -> (res: String)
    ensures
        res@ == program_named(name@, opt_str(ffmpeg), opt_str(ffprobe)),
{
    if same(name, "ffmpeg") {
        ffmpeg_bin(ffmpeg)
    } else if same(name, "ffprobe") {
        ffprobe_bin(ffprobe)
    } else {
        name.to_owned()
    }
}

/// The second word of the line is `name`.
pub open spec fn lists_filter(line: Seq<char>, name: Seq<char>) -> bool {
    words(line).len() >= 2 && words(line)[1] == name
}

/// Some line of ffmpeg's list of filters has `name` as its second word.
pub open spec fn has_filter(listing: Seq<char>, name: Seq<char>) -> bool {
    exists|i: int| 0 <= i < lines(listing).len() && lists_filter(#[trigger] lines(listing)[i], name)
}

/// Whether ffmpeg was built with a filter. `listing` is what it prints for
/// `-filters`, where it runs at all; a row looks like
/// ` ... drawtext  V->V  Draw text ...`.
pub fn ffmpeg_has_filter(listing: Option<&str>, name: &str) -> (res: bool)
    ensures
        res == match opt_str(listing) {
            Some(text) => has_filter(text, name@),
            None => false,
        },
{
    match listing {
        Some(text) => {
            let rows = split_lines(text);
            let ghost all = texts(rows@);
            let mut i: usize = 0;
            while i < rows.len()
                invariant
                    i <= rows@.len(),
                    all == texts(rows@),
                    all == lines(text@),
                    opt_str(listing) == Some(text@),
                    forall|k: int| 0 <= k < i ==> !lists_filter(#[trigger] all[k], name@),
                decreases rows@.len() - i,
            {
                let parts = split_words(rows[i].as_str());
                assert(all[i as int] == rows@[i as int]@);
                assert(texts(parts@) == words(all[i as int]));
                assert(parts@.len() >= 2 ==> texts(parts@)[1] == parts@[1]@);
                if parts.len() >= 2 && same(parts[1].as_str(), name) {
                    assert(lists_filter(lines(text@)[i as int], name@));
                    return true;
                }
                i += 1;
            }
            false
        },
        None => false,
    }
}

/// Whether this ffmpeg can burn in captions.
pub fn supports_captions(listing: Option<&str>) -> (res: bool)
    ensures
        res == match opt_str(listing) {
            Some(text) => has_filter(text, "drawtext"@),
            None => false,
        },
{
    ffmpeg_has_filter(listing, "drawtext")
}

/// What a [`MediaProbe`] says.
pub struct ProbeView {
    pub duration_sec: Option<i64>,
    pub has_video: bool,
    pub width: Option<i64>,
    pub height: Option<i64>,
    pub video_codec: Option<Seq<char>>,
    pub audio_codec: Option<Seq<char>>,
}

impl View for MediaProbe {
    type V = ProbeView;

    open spec fn view(&self) -> ProbeView {
        ProbeView {
            duration_sec: self.duration_sec,
            has_video: self.has_video,
            width: self.width,
            height: self.height,
            video_codec: opt_text(self.video_codec),
            audio_codec: opt_text(self.audio_codec),
        }
    }
}

/// The first stream of a kind.
pub open spec fn first_stream(streams: Seq<JsonView>, kind: Seq<char>) -> Option<JsonView>
    decreases streams.len(),
{
    if streams.len() == 0 {
        None
    } else if streams[0].text_at("codec_type"@) == Some(kind) {
        Some(streams[0])
    } else {
        first_stream(streams.drop_first(), kind)
    }
}

/// The streams that ffprobe found.
pub open spec fn streams_of(doc: JsonView) -> Seq<JsonView> {
    match doc.items_at("streams"@) {
        Some(v) => v,
        None => Seq::empty(),
    }
}

/// The time that a text writes in seconds.
pub open spec fn seconds_in(t: Option<Seq<char>>) -> Option<i64> {
    match t {
        Some(t) => match read_decimal(t) {
            Some(Reading::Value(v)) => Some(v),
            _ => None,
        },
        None => None,
    }
}

/// The whole number of a stream's member, where there is a stream.
pub open spec fn stream_integer(stream: Option<JsonView>, key: Seq<char>) -> Option<i64> {
    match stream {
        Some(s) => s.integer_at(key),
        None => None,
    }
}

/// The text of a stream's member, where there is a stream.
pub open spec fn stream_text(stream: Option<JsonView>, key: Seq<char>) -> Option<Seq<char>> {
    match stream {
        Some(s) => s.text_at(key),
        None => None,
    }
}

/// What ffprobe's answer says of the media file.
pub open spec fn probe_of(doc: JsonView) -> ProbeView {
    let video = first_stream(streams_of(doc), "video"@);
    let audio = first_stream(streams_of(doc), "audio"@);
    ProbeView {
        duration_sec: match doc.get("format"@) {
            Some(format) => seconds_in(format.text_at("duration"@)),
            None => None,
        },
        has_video: video is Some,
        width: stream_integer(video, "width"@),
        height: stream_integer(video, "height"@),
        video_codec: stream_text(video, "codec_name"@),
        audio_codec: stream_text(audio, "codec_name"@),
    }
}

/// Finds the first stream of a kind.
fn find_stream<'a>(streams: &'a Vec<Json>, kind: &str) -> (res: Option<&'a Json>)
    ensures
        opt_json(res) == first_stream(item_views(streams@), kind@),
{
    let ghost all = item_views(streams@);
    let mut i: usize = 0;
    assert(all.skip(0) =~= all);
    while i < streams.len()
        invariant
            i <= streams@.len(),
            all == item_views(streams@),
            first_stream(all, kind@) == first_stream(all.skip(i as int), kind@),
        decreases streams@.len() - i,
    {
        assert(all.skip(i as int)[0] == streams@[i as int]@);
        if let Some(t) = streams[i].text_at("codec_type") {
            if same(t, kind) {
                return Some(&streams[i]);
            }
        }
        assert(all.skip(i as int).drop_first() =~= all.skip(i + 1));
        i += 1;
    }
    None
}

/// Reads the whole number of a stream's member.
fn integer_in(stream: Option<&Json>, key: &str) -> (res: Option<i64>)
    ensures
        res == stream_integer(opt_json(stream), key@),
{
    match stream {
        Some(s) => s.integer_at(key),
        None => None,
    }
}

/// Reads the text of a stream's member.
fn text_in(stream: Option<&Json>, key: &str) -> (res: Option<String>)
    ensures
        opt_text(res) == stream_text(opt_json(stream), key@),
{
    match stream {
        Some(s) => match s.text_at(key) {
            Some(t) => Some(t.to_owned()),
            None => None,
        },
        None => None,
    }
}

/// Reads what a parsed answer of ffprobe says of the media file.
pub fn probe_in(doc: &Json) -> (res: MediaProbe)
    ensures
        res@ == probe_of(doc@),
{
    let none: Vec<Json> = Vec::new();
    assert(item_views(none@) =~= Seq::<JsonView>::empty());
    let streams = match doc.items_at("streams") {
        Some(v) => v,
        None => &none,
    };
    let video = find_stream(streams, "video");
    let audio = find_stream(streams, "audio");
    let duration_sec: Option<i64> = match doc.get("format") {
        Some(format) => match format.text_at("duration") {
            Some(t) => match parse_decimal(t) {
                Some(Reading::Value(v)) => Some(v),
                _ => None,
            },
            None => None,
        },
        None => None,
    };
    MediaProbe {
        duration_sec,
        has_video: video.is_some(),
        width: integer_in(video, "width"),
        height: integer_in(video, "height"),
        video_codec: text_in(video, "codec_name"),
        audio_codec: text_in(audio, "codec_name"),
    }
}

/// What comes of asking ffprobe: the media file's properties, or the message of
/// the failure.
pub open spec fn probe_outcome(success: bool, stdout: Seq<char>, stderr: Seq<char>) -> Result<
    ProbeView,
    Seq<char>,
> {
    if !success {
        Err("ffprobe failed: "@ + trimmed(stderr))
    } else {
        match json_document(stdout) {
            Ok(doc) => Ok(probe_of(doc)),
            Err(_) => Err("parsing ffprobe JSON"@),
        }
    }
}

/// The arguments that ask ffprobe for everything about a file.
pub open spec fn probe_request(path: Seq<char>) -> Seq<Seq<char>> {
    seq![
        "-v"@,
        "error"@,
        "-print_format"@,
        "json"@,
        "-show_format"@,
        "-show_streams"@,
        path,
    ]
}

/// The arguments that ask ffprobe for everything about a file.
pub fn probe_args(path: &str) -> (res: Vec<String>)
    ensures
        texts(res@) == probe_request(path@),
{
    let mut args: Vec<String> = Vec::new();
    put(&mut args, "-v");
    put(&mut args, "error");
    put(&mut args, "-print_format");
    put(&mut args, "json");
    put(&mut args, "-show_format");
    put(&mut args, "-show_streams");
    put(&mut args, path);
    assert(texts(args@) =~= probe_request(path@));
    args
}

/// Reads ffprobe's answer.
pub fn probe_media(exit: &Exit) -> (res: Result<MediaProbe, String>)
    ensures
        match (res, probe_outcome(exit.success, exit.stdout@, exit.stderr@)) {
            (Ok(p), Ok(x)) => p@ == x,
            (Err(e), Err(x)) => e@ == x,
            _ => false,
        },
{
    if !exit.success {
        let mut message = "ffprobe failed: ".to_owned();
        let said = trim(exit.stderr.as_str());
        message.append(said.as_str());
        return Err(message);
    }
    match parse_json(exit.stdout.as_str()) {
        Ok(doc) => Ok(probe_in(&doc)),
        Err(_) => Err("parsing ffprobe JSON".to_owned()),
    }
}

/// The arguments that extract a mono track at 16 kHz.
pub open spec fn audio_request(source: Seq<char>, output: Seq<char>) -> Seq<Seq<char>> {
    seq!["-y"@, "-i"@, source, "-vn"@, "-ac"@, "1"@, "-ar"@, "16000"@, output]
}

/// The arguments that extract the audio for transcription.
pub fn audio_args(source_path: &str, output_path: &str) -> (res: Vec<String>)
    ensures
        texts(res@) == audio_request(source_path@, output_path@),
{
    let mut args: Vec<String> = Vec::new();
    put(&mut args, "-y");
    put(&mut args, "-i");
    put(&mut args, source_path);
    put(&mut args, "-vn");
    put(&mut args, "-ac");
    put(&mut args, "1");
    put(&mut args, "-ar");
    put(&mut args, "16000");
    put(&mut args, output_path);
    assert(texts(args@) =~= audio_request(source_path@, output_path@));
    args
}

/// What comes of a run of ffmpeg: the file it was asked for, or what it said.
pub open spec fn ffmpeg_outcome(
    success: bool,
    stderr: Seq<char>,
    output: Seq<char>,
    failure: Seq<char>,
) -> Result<Seq<char>, Seq<char>> {
    if success {
        Ok(output)
    } else {
        Err(failure + trimmed(stderr))
    }
}

/// Decides what comes of a run of ffmpeg.
fn ffmpeg_result(exit: &Exit, output: &str, failure: &str) -> (res: Result<String, String>)
    ensures
        result_texts(res) == ffmpeg_outcome(exit.success, exit.stderr@, output@, failure@),
{
    if exit.success {
        Ok(output.to_owned())
    } else {
        let mut message = failure.to_owned();
        let said = trim(exit.stderr.as_str());
        message.append(said.as_str());
        Err(message)
    }
}

/// Decides what comes of extracting the audio.
pub fn extract_audio(exit: &Exit, output_path: &str) -> (res: Result<String, String>)
    ensures
        result_texts(res) == ffmpeg_outcome(
            exit.success,
            exit.stderr@,
            output_path@,
            "ffmpeg audio extraction failed: "@,
        ),
{
    ffmpeg_result(exit, output_path, "ffmpeg audio extraction failed: ")
}

/// Decides what comes of rendering a clip.
pub fn render_flat_clip(exit: &Exit, output_path: &str) -> (res: Result<String, String>)
    ensures
        result_texts(res) == ffmpeg_outcome(
            exit.success,
            exit.stderr@,
            output_path@,
            "ffmpeg clip render failed: "@,
        ),
{
    ffmpeg_result(exit, output_path, "ffmpeg clip render failed: ")
}

/// The crop offsets that follow the speaker; nothing leaves ffmpeg's centred
/// ones.
pub open spec fn offsets(plan: Option<(Seq<char>, Seq<char>)>) -> Seq<char> {
    match plan {
        Some((x, y)) => ":x='"@ + x + "':y='"@ + y + "'"@,
        None => Seq::empty(),
    }
}

/// The offsets of an optional plan.
pub open spec fn plan_offsets(plan: Option<&CropPlan>) -> Option<(Seq<char>, Seq<char>)> {
    match plan {
        Some(p) => Some((p.x@, p.y@)),
        None => None,
    }
}

/// Writes the crop offsets that follow the speaker.
pub fn crop_offsets(plan: Option<&CropPlan>) -> (res: String)
    ensures
        res@ == offsets(plan_offsets(plan)),
{
    match plan {
        Some(p) => {
            let mut s = ":x='".to_owned();
            s.append(p.x.as_str());
            s.append("':y='");
            s.append(p.y.as_str());
            s.append("'");
            s
        },
        None => String::new(),
    }
}

/// The smaller of two numbers.
pub open spec fn lesser(a: int, b: int) -> int {
    if a < b {
        a
    } else {
        b
    }
}

/// The size of the largest upright 9:16 window in a frame, with even sides.
pub open spec fn window(width: int, height: int) -> (i64, i64) {
    (
        clamped(2 * (lesser(16 * width, 9 * height) / 32)),
        clamped(2 * (lesser(9 * height, 16 * width) / 18)),
    )
}

/// The size of the cropped picture: the window of the source's frame, where
/// unknown sides count as those of full HD, and an upright full HD frame for a
/// source that could not be probed.
pub open spec fn cropped(probe: Option<(Option<i64>, Option<i64>)>) -> (i64, i64) {
    match probe {
        Some((width, height)) => window(
            match width {
                Some(w) => w as int,
                None => 1920,
            },
            match height {
                Some(h) => h as int,
                None => 1080,
            },
        ),
        None => (1080, 1920),
    }
}

/// The sides of an optional probe.
pub open spec fn probe_sides(probe: Option<&MediaProbe>) -> Option<(Option<i64>, Option<i64>)> {
    match probe {
        Some(p) => Some((p.width, p.height)),
        None => None,
    }
}

/// Twice the quotient, rounded down.
fn even_part(a: i128, b: i128) -> (res: i64)
    requires
        0 < b < 100,
        -0x1_0000_0000_0000_0000_0000 < a < 0x1_0000_0000_0000_0000_0000,
    ensures
        res == clamped(2 * (a as int / b as int)),
{
    let q: i128 = if a >= 0 { a / b } else { -((b - 1 - a) / b) };
    proof {
        if a < 0 {
            vstd::arithmetic::div_mod::lemma_fundamental_div_mod(a as int, b as int);
            vstd::arithmetic::div_mod::lemma_fundamental_div_mod(b - 1 - a, b as int);
            let x = a as int / b as int;
            let y = (b - 1 - a) / b as int;
            let r = a as int % b as int;
            let s = (b - 1 - a) % b as int;
            assert(b * x + r == a);
            assert(b * y + s == b - 1 - a);
            assert(y == -x) by (nonlinear_arith)
                requires
                    b > 0,
                    b * x + r == a,
                    b * y + s == b - 1 - a,
                    0 <= r < b,
                    0 <= s < b,
            {
                assert(b * (x + y) == b - 1 - r - s);
                assert(-b < b * (x + y) < b);
                assert(x + y == 0);
            }
        }
    }
    assert(q == a as int / b as int);
    assert(-0x1_0000_0000_0000_0000_0000 <= q <= 0x1_0000_0000_0000_0000_0000) by {
        if a >= 0 {
            assert(0 <= a / b <= a) by (nonlinear_arith)
                requires
                    a >= 0,
                    b > 0,
            ;
        } else {
            assert(a <= a as int / b as int <= 0) by (nonlinear_arith)
                requires
                    a < 0,
                    b > 0,
            ;
        }
    }
    let twice: i128 = 2 * q;
    if twice < i64::MIN as i128 {
        i64::MIN
    } else if twice > i64::MAX as i128 {
        i64::MAX
    } else {
        twice as i64
    }
}

/// Computes the size of the cropped picture.
pub fn cropped_size(probe: Option<&MediaProbe>) -> (res: (i64, i64))
    ensures
        res == cropped(probe_sides(probe)),
{
    match probe {
        Some(p) => {
            let width: i128 = match p.width {
                Some(w) => w as i128,
                None => 1920,
            };
            let height: i128 = match p.height {
                Some(h) => h as i128,
                None => 1080,
            };
            let wide: i128 = 16 * width;
            let high: i128 = 9 * height;
            let least: i128 = if wide < high { wide } else { high };
            (even_part(least, 32), even_part(least, 18))
        },
        None => (1080, 1920),
    }
}

/// A clip to render.
pub struct RenderSpec<'a> {
    pub source_path: &'a str,
    pub start_sec: i64,
    pub end_sec: i64,
    pub output_path: &'a str,
    pub drawtext_filters: Option<&'a str>,
    pub caption_overlay: Option<&'a str>,
    pub has_video: bool,
    /// The suffix that follows the speaker, as [`crop_offsets`] writes it.
    pub crop_offsets: &'a str,
}

/// What a [`RenderSpec`] says.
pub struct RenderView {
    pub source_path: Seq<char>,
    pub start_sec: int,
    pub end_sec: int,
    pub output_path: Seq<char>,
    pub drawtext_filters: Option<Seq<char>>,
    pub caption_overlay: Option<Seq<char>>,
    pub has_video: bool,
    pub crop_offsets: Seq<char>,
}

impl<'a> View for RenderSpec<'a> {
    type V = RenderView;

    open spec fn view(&self) -> RenderView {
        RenderView {
            source_path: self.source_path@,
            start_sec: self.start_sec as int,
            end_sec: self.end_sec as int,
            output_path: self.output_path@,
            drawtext_filters: opt_str(self.drawtext_filters),
            caption_overlay: opt_str(self.caption_overlay),
            has_video: self.has_video,
            crop_offsets: self.crop_offsets@,
        }
    }
}

/// The caption track that is laid over the picture, where there is a picture.
pub open spec fn overlay(spec: RenderView) -> Option<Seq<char>> {
    if spec.has_video {
        spec.caption_overlay
    } else {
        None
    }
}

/// The inputs: the source from the start of the clip on, and the caption track.
pub open spec fn input_args(spec: RenderView) -> Seq<Seq<char>> {
    let source = seq!["-y"@, "-ss"@, fixed_text(spec.start_sec, 3), "-i"@, spec.source_path];
    match overlay(spec) {
        Some(list) => source + seq!["-f"@, "concat"@, "-safe"@, "0"@, "-i"@, list],
        None => source,
    }
}

/// How long the clip lasts, at least a tenth of a second.
pub open spec fn clip_length(spec: RenderView) -> int {
    if spec.end_sec - spec.start_sec < 100_000_000 {
        100_000_000
    } else {
        spec.end_sec - spec.start_sec
    }
}

/// The crop to the upright window, followed by drawn captions where there are
/// some, no overlay takes their place and ffmpeg can draw them.
pub open spec fn picture_filter(spec: RenderView, can_draw: bool) -> Seq<char> {
    let crop = "crop=w='2*trunc(min(iw,ih*9/16)/2)':h='2*trunc(min(ih,iw*16/9)/2)'"@
        + spec.crop_offsets;
    match spec.drawtext_filters {
        Some(drawn) => if overlay(spec) is None && drawn.len() > 0 && can_draw {
            crop + ","@ + drawn
        } else {
            crop
        },
        None => crop,
    }
}

/// The options that encode the picture.
pub open spec fn encode_args() -> Seq<Seq<char>> {
    seq![
        "-c:v"@,
        "libx264"@,
        "-preset"@,
        "fast"@,
        "-crf"@,
        "18"@,
        "-pix_fmt"@,
        "yuv420p"@,
    ]
}

/// The options for the picture.
pub open spec fn picture_args(spec: RenderView, can_draw: bool) -> Seq<Seq<char>> {
    let filter = picture_filter(spec, can_draw);
    if !spec.has_video {
        seq!["-vn"@]
    } else if overlay(spec) is Some {
        seq![
            "-filter_complex"@,
            "[0:v]"@ + filter
                + "[base];[base][1:v]overlay=0:0:format=auto:shortest=0[v]"@,
            "-map"@,
            "[v]"@,
            "-map"@,
            "0:a?"@,
        ] + encode_args()
    } else {
        seq!["-vf"@, filter] + encode_args()
    }
}

/// The output options: the length, the picture, the sound, the file.
pub open spec fn output_args(spec: RenderView, can_draw: bool) -> Seq<Seq<char>> {
    seq!["-t"@, fixed_text(clip_length(spec), 3)] + picture_args(spec, can_draw) + seq![
        "-c:a"@,
        "aac"@,
        "-b:a"@,
        "192k"@,
        spec.output_path,
    ]
}

/// The arguments that render a clip: every input, then every output option.
pub open spec fn render_args(spec: RenderView, can_draw: bool) -> Seq<Seq<char>> {
    input_args(spec) + output_args(spec, can_draw)
}

/// Writes the filter for the picture.
fn filter_text(spec: &RenderSpec<'_>, can_draw: bool) -> (res: String)
    ensures
        res@ == picture_filter(spec@, can_draw),
{
    let mut filter =
        "crop=w='2*trunc(min(iw,ih*9/16)/2)':h='2*trunc(min(ih,iw*16/9)/2)'".to_owned();
    filter.append(spec.crop_offsets);
    let overlaid = spec.has_video && spec.caption_overlay.is_some();
    if let Some(drawn) = spec.drawtext_filters {
        if !overlaid && !drawn.is_empty() && can_draw {
            filter.append(",");
            filter.append(drawn);
        }
    }
    filter
}

/// Writes the inputs.
fn input_list(spec: &RenderSpec<'_>) -> (res: Vec<String>)
    ensures
        texts(res@) == input_args(spec@),
{
    let start = fixed_string(spec.start_sec as i128, 3);
    let mut args: Vec<String> = Vec::new();
    put(&mut args, "-y");
    put(&mut args, "-ss");
    put(&mut args, start.as_str());
    put(&mut args, "-i");
    put(&mut args, spec.source_path);
    if spec.has_video {
        if let Some(list) = spec.caption_overlay {
            put(&mut args, "-f");
            put(&mut args, "concat");
            put(&mut args, "-safe");
            put(&mut args, "0");
            put(&mut args, "-i");
            put(&mut args, list);
        }
    }
    assert(texts(args@) =~= input_args(spec@));
    args
}

/// Writes the options that encode the picture.
fn encode_list() -> (res: Vec<String>)
    ensures
        texts(res@) == encode_args(),
{
    let mut args: Vec<String> = Vec::new();
    put(&mut args, "-c:v");
    put(&mut args, "libx264");
    put(&mut args, "-preset");
    put(&mut args, "fast");
    put(&mut args, "-crf");
    put(&mut args, "18");
    put(&mut args, "-pix_fmt");
    put(&mut args, "yuv420p");
    assert(texts(args@) =~= encode_args());
    args
}

/// Writes the options for the picture.
fn picture_list(spec: &RenderSpec<'_>, can_draw: bool) -> (res: Vec<String>)
    ensures
        texts(res@) == picture_args(spec@, can_draw),
{
    let mut args: Vec<String> = Vec::new();
    if !spec.has_video {
        put(&mut args, "-vn");
        assert(texts(args@) =~= picture_args(spec@, can_draw));
        return args;
    }
    let filter = filter_text(spec, can_draw);
    if spec.caption_overlay.is_some() {
        let mut graph = "[0:v]".to_owned();
        graph.append(filter.as_str());
        graph.append("[base];[base][1:v]overlay=0:0:format=auto:shortest=0[v]");
        put(&mut args, "-filter_complex");
        put(&mut args, graph.as_str());
        put(&mut args, "-map");
        put(&mut args, "[v]");
        put(&mut args, "-map");
        put(&mut args, "0:a?");
        assert(texts(args@) =~= seq![
            "-filter_complex"@,
            graph@,
            "-map"@,
            "[v]"@,
            "-map"@,
            "0:a?"@,
        ]);
    } else {
        put(&mut args, "-vf");
        put(&mut args, filter.as_str());
        assert(texts(args@) =~= seq!["-vf"@, filter@]);
    }
    let encode = encode_list();
    put_list(&mut args, &encode);
    args
}

/// Assembles the arguments for ffmpeg without running it.
///
/// An option of ffmpeg that stands before an `-i` belongs to that input. The
/// length limit `-t` in particular must come after every input, or it limits an
/// input and the whole source is encoded. `can_draw` is whether this ffmpeg has
/// the `drawtext` filter.
pub fn build_render_command(spec: RenderSpec<'_>, can_draw: bool) -> (res: Vec<String>)
    ensures
        texts(res@) == render_args(spec@, can_draw),
{
    let span: i128 = spec.end_sec as i128 - spec.start_sec as i128;
    let length: i128 = if span < 100_000_000 { 100_000_000 } else { span };
    let duration = fixed_string(length, 3);
    let mut args = input_list(&spec);
    let ghost inputs = texts(args@);
    put(&mut args, "-t");
    put(&mut args, duration.as_str());
    let picture = picture_list(&spec, can_draw);
    put_list(&mut args, &picture);
    put(&mut args, "-c:a");
    put(&mut args, "aac");
    put(&mut args, "-b:a");
    put(&mut args, "192k");
    put(&mut args, spec.output_path);
    assert(texts(args@) =~= inputs + output_args(spec@, can_draw));
    args
}

/// A number with three decimals takes at least five characters.
proof fn lemma_fixed_len(v: int)
    ensures
        fixed_text(v, 3).len() >= 5,
{
    reveal_strlit(".");
    let size = (if v < 0 { -v } else { v }) as nat;
    let (significand, p) = binary(size);
    let scaled = div_even(significand * pow10(3), p);
    lemma_nat_text(scaled / pow10(3));
    assert(zero_padded(nat_text(scaled % pow10(3)), 3).len() >= 3);
}

/// None of the output options is an input or a filter graph that was not asked
/// for.
proof fn lemma_output_args(spec: RenderView, can_draw: bool)
    requires
        spec.output_path != "-i"@,
    ensures
        forall|k: int|
            0 <= k < output_args(spec, can_draw).len() ==> #[trigger] output_args(spec, can_draw)[k]
                != "-i"@,
{
    let out = output_args(spec, can_draw);
    let filter = picture_filter(spec, can_draw);
    lemma_fixed_len(clip_length(spec));
    reveal_strlit("-i");
    reveal_strlit("-t");
    reveal_strlit("-vn");
    reveal_strlit("-vf");
    reveal_strlit("-filter_complex");
    reveal_strlit("[0:v]");
    reveal_strlit("-map");
    reveal_strlit("[v]");
    reveal_strlit("0:a?");
    reveal_strlit("-c:v");
    reveal_strlit("libx264");
    reveal_strlit("-preset");
    reveal_strlit("fast");
    reveal_strlit("-crf");
    reveal_strlit("18");
    reveal_strlit("-pix_fmt");
    reveal_strlit("yuv420p");
    reveal_strlit("-c:a");
    reveal_strlit("aac");
    reveal_strlit("-b:a");
    reveal_strlit("192k");
    reveal_strlit("crop=w='2*trunc(min(iw,ih*9/16)/2)':h='2*trunc(min(ih,iw*16/9)/2)'");
    assert(filter.len() > 2);
    let input = "-i"@;
    assert(input.len() == 2 && input[0] == '-' && input[1] == 'i');
    assert forall|k: int| 0 <= k < out.len() implies #[trigger] out[k] != input by {
        if !spec.has_video {
            assert(out.len() == 8);
        } else if overlay(spec) is Some {
            assert(out.len() == 21);
        } else {
            assert(out.len() == 17);
        }
    }
}

/// The length limit comes after every input: no `-i` stands behind `-t`, so the
/// limit is that of the clip and never of an input.
pub proof fn law_limit_after_inputs(spec: RenderView, can_draw: bool)
    requires
        spec.output_path != "-i"@,
    ensures
        ({
            let args = render_args(spec, can_draw);
            let t = input_args(spec).len() as int;
            &&& t + 1 < args.len()
            &&& args[t] == "-t"@
            &&& args[t + 1] == fixed_text(clip_length(spec), 3)
            &&& forall|i: int| 0 <= i < args.len() && #[trigger] args[i] == "-i"@ ==> i < t
        }),
{
    let args = render_args(spec, can_draw);
    let t = input_args(spec).len() as int;
    lemma_output_args(spec, can_draw);
    let out = output_args(spec, can_draw);
    assert(args[t] == out[0]);
    assert(args[t + 1] == out[1]);
    assert forall|i: int| 0 <= i < args.len() && #[trigger] args[i] == "-i"@ implies i < t by {
        if i >= t {
            assert(args[i] == out[i - t]);
        }
    }
}

/// A caption track is the second input and the only one besides the source; the
/// sound still comes from the source. Without one there is a single input and a
/// plain filter.
pub proof fn law_caption_input(spec: RenderView, can_draw: bool)
    requires
        spec.has_video,
    ensures
        input_args(spec)[3] == "-i"@ && input_args(spec)[4] == spec.source_path,
        match spec.caption_overlay {
            Some(list) => {
                &&& input_args(spec).len() == 11
                &&& input_args(spec)[9] == "-i"@ && input_args(spec)[10] == list
                &&& picture_args(spec, can_draw)[0] == "-filter_complex"@
                &&& picture_args(spec, can_draw)[2] == "-map"@ && picture_args(spec, can_draw)[3]
                    == "[v]"@
                &&& picture_args(spec, can_draw)[4] == "-map"@ && picture_args(spec, can_draw)[5]
                    == "0:a?"@
            },
            None => {
                &&& input_args(spec).len() == 5
                &&& picture_args(spec, can_draw)[0] == "-vf"@
                &&& picture_args(spec, can_draw)[1] == picture_filter(spec, can_draw)
            },
        },
{
}

/// An overlay takes the place of drawn captions: the picture's filter is then
/// the crop alone.
pub proof fn law_overlay_first(spec: RenderView, can_draw: bool)
    requires
        spec.has_video,
        spec.caption_overlay is Some,
    ensures
        picture_filter(spec, can_draw) == picture_filter(
            RenderView { drawtext_filters: None, ..spec },
            can_draw,
        ),
{
}

/// The window lies within the frame and its sides are even.
pub proof fn law_window(width: int, height: int)
    requires
        0 <= width <= i64::MAX,
        0 <= height <= i64::MAX,
    ensures
        0 <= window(width, height).0 <= width,
        0 <= window(width, height).1 <= height,
        window(width, height).0 % 2 == 0,
        window(width, height).1 % 2 == 0,
{
}

/// A request to render and a probe stand for what their fields hold.
pub proof fn law_media_views(spec: RenderSpec<'_>, p: MediaProbe, plan: CropPlan)
    ensures
        spec@.source_path == spec.source_path@ && spec@.output_path == spec.output_path@,
        spec@.start_sec == spec.start_sec && spec@.end_sec == spec.end_sec,
        spec@.drawtext_filters == opt_str(spec.drawtext_filters),
        spec@.caption_overlay == opt_str(spec.caption_overlay),
        spec@.has_video == spec.has_video && spec@.crop_offsets == spec.crop_offsets@,
        p@.duration_sec == p.duration_sec && p@.has_video == p.has_video,
        p@.width == p.width && p@.height == p.height,
        p@.video_codec == opt_text(p.video_codec) && p@.audio_codec == opt_text(p.audio_codec),
        probe_sides(Some(&p)) == Some((p.width, p.height)) && probe_sides(None) is None,
        plan_offsets(Some(&plan)) == Some((plan.x@, plan.y@)) && plan_offsets(None) is None,
{
}

/// The source is read from the start of the clip on: before the source's `-i`
/// stands `-ss` with the start to the millisecond. Where the clip ends has no say
/// in the inputs.
pub proof fn law_seek(spec: RenderSpec<'_>, other_end: int)
    ensures
        input_args(spec@)[0] == "-y"@,
        input_args(spec@)[1] == "-ss"@,
        input_args(spec@)[2] == fixed_text(spec.start_sec as int, 3),
        input_args(spec@)[3] == "-i"@,
        input_args(spec@)[4] == spec.source_path@,
        input_args(RenderView { end_sec: other_end, ..spec@ }) == input_args(spec@),
        spec.has_video && spec.caption_overlay is Some ==> input_args(spec@).len() == 11 && input_args(
            spec@,
        ).skip(5) == seq![
            "-f"@,
            "concat"@,
            "-safe"@,
            "0"@,
            "-i"@,
            spec.caption_overlay->0@,
        ],
        !spec.has_video || spec.caption_overlay is None ==> input_args(spec@).len() == 5,
{
    if spec.has_video && spec.caption_overlay is Some {
        assert(input_args(spec@).skip(5) =~= seq![
            "-f"@,
            "concat"@,
            "-safe"@,
            "0"@,
            "-i"@,
            spec.caption_overlay->0@,
        ]);
    }
}

/// The limit after the inputs is the time from the clip's start to its end, and a
/// tenth of a second where that is less. A clip that is moved as a whole has the
/// same output options.
pub proof fn law_limit(spec: RenderSpec<'_>, can_draw: bool, shift: int)
    ensures
        output_args(spec@, can_draw)[0] == "-t"@,
        spec.end_sec - spec.start_sec >= 100_000_000 ==> output_args(spec@, can_draw)[1] == fixed_text(
            spec.end_sec - spec.start_sec,
            3,
        ),
        spec.end_sec - spec.start_sec < 100_000_000 ==> output_args(spec@, can_draw)[1] == fixed_text(
            100_000_000,
            3,
        ),
        output_args(
            RenderView {
                start_sec: spec.start_sec + shift,
                end_sec: spec.end_sec + shift,
                ..spec@
            },
            can_draw,
        ) == output_args(spec@, can_draw),
{
    let moved = RenderView {
        start_sec: spec.start_sec + shift,
        end_sec: spec.end_sec + shift,
        ..spec@
    };
    assert(clip_length(moved) == clip_length(spec@));
    assert(picture_args(moved, can_draw) == picture_args(spec@, can_draw));
}

/// The arguments are the inputs, the limit, the options for the picture, those
/// for the sound, and the output file at the very end.
pub proof fn law_render_order(spec: RenderSpec<'_>, can_draw: bool)
    ensures
        ({
            let args = render_args(spec@, can_draw);
            let n = input_args(spec@).len() as int;
            let m = picture_args(spec@, can_draw).len() as int;
            &&& args.len() == n + m + 7
            &&& args.take(n) == input_args(spec@)
            &&& args[n] == "-t"@
            &&& args.subrange(n + 2, n + 2 + m) == picture_args(spec@, can_draw)
            &&& args.skip(n + 2 + m) == seq!["-c:a"@, "aac"@, "-b:a"@, "192k"@, spec.output_path@]
        }),
{
    let args = render_args(spec@, can_draw);
    let n = input_args(spec@).len() as int;
    let m = picture_args(spec@, can_draw).len() as int;
    assert(args.take(n) =~= input_args(spec@));
    assert(args.subrange(n + 2, n + 2 + m) =~= picture_args(spec@, can_draw));
    assert(args.skip(n + 2 + m) =~= seq!["-c:a"@, "aac"@, "-b:a"@, "192k"@, spec.output_path@]);
}

/// Without a picture there is none in the output; with one it is filtered, with
/// the caption track laid over it where there is one, and encoded for every
/// player.
pub proof fn law_picture(spec: RenderSpec<'_>, can_draw: bool)
    ensures
        ({
            let args = picture_args(spec@, can_draw);
            let filter = picture_filter(spec@, can_draw);
            let encoded = seq![
                "-c:v"@,
                "libx264"@,
                "-preset"@,
                "fast"@,
                "-crf"@,
                "18"@,
                "-pix_fmt"@,
                "yuv420p"@,
            ];
            &&& !spec.has_video ==> args == seq!["-vn"@]
            &&& spec.has_video && spec.caption_overlay is None ==> args == seq!["-vf"@, filter]
                + encoded
            &&& spec.has_video && spec.caption_overlay is Some ==> args == seq![
                "-filter_complex"@,
                "[0:v]"@ + filter + "[base];[base][1:v]overlay=0:0:format=auto:shortest=0[v]"@,
                "-map"@,
                "[v]"@,
                "-map"@,
                "0:a?"@,
            ] + encoded
        }),
{
}

/// The picture is cropped to the upright window, shifted by the offsets; drawn
/// captions follow behind a comma exactly where there are some, ffmpeg can draw
/// them and no track is laid over the picture.
pub proof fn law_filter(spec: RenderSpec<'_>, can_draw: bool)
    ensures
        ({
            let crop = "crop=w='2*trunc(min(iw,ih*9/16)/2)':h='2*trunc(min(ih,iw*16/9)/2)'"@
                + spec.crop_offsets@;
            let drawn = can_draw && spec.drawtext_filters is Some && spec.drawtext_filters->0@.len()
                > 0 && !(spec.has_video && spec.caption_overlay is Some);
            picture_filter(spec@, can_draw) == if drawn {
                crop + seq![','] + spec.drawtext_filters->0@
            } else {
                crop
            }
        }),
{
    reveal_strlit(",");
    assert(","@ =~= seq![',']);
}

/// The offsets stand behind `:x=` and `:y=` in quotes; without a plan there are
/// none.
pub proof fn law_offsets(x: Seq<char>, y: Seq<char>)
    ensures
        offsets(None) == Seq::<char>::empty(),
        offsets(Some((x, y))) == seq![':', 'x', '=', '\''] + x + seq!['\'', ':', 'y', '=', '\''] + y
            + seq!['\''],
{
    reveal_strlit(":x='");
    reveal_strlit("':y='");
    reveal_strlit("'");
    assert(":x='"@ =~= seq![':', 'x', '=', '\'']);
    assert("':y='"@ =~= seq!['\'', ':', 'y', '=', '\'']);
    assert("'"@ =~= seq!['\'']);
}

/// The window is the largest: it fits into the frame at nine to sixteen, and a
/// window that is two pixels wider or higher would not.
pub proof fn law_largest_window(width: int, height: int)
    requires
        0 <= width <= i64::MAX,
        0 <= height <= i64::MAX,
    ensures
        ({
            let (w, h) = window(width, height);
            &&& w <= width && 16 * w <= 9 * height
            &&& w + 2 > width || 16 * (w + 2) > 9 * height
            &&& h <= height && 9 * h <= 16 * width
            &&& h + 2 > height || 9 * (h + 2) > 16 * width
        }),
{
}

/// An unknown side counts as that of full HD, and a source that could not be
/// probed as an upright full HD frame.
pub proof fn law_cropped(width: Option<i64>, height: Option<i64>, w: i64, h: i64)
    ensures
        cropped(None) == (1080i64, 1920i64),
        cropped(Some((Some(w), Some(h)))) == window(w as int, h as int),
        cropped(Some((None, height))) == cropped(Some((Some(1920i64), height))),
        cropped(Some((width, None))) == cropped(Some((width, Some(1080i64)))),
{
}

/// The first stream of a kind is one of that kind with none of it before; there
/// is none exactly where no stream is of that kind.
pub proof fn law_first_stream(streams: Seq<JsonView>, kind: Seq<char>, i: int)
    requires
        0 <= i <= streams.len(),
        forall|k: int| 0 <= k < i ==> (#[trigger] streams[k]).text_at("codec_type"@) != Some(kind),
        i < streams.len() ==> streams[i].text_at("codec_type"@) == Some(kind),
    ensures
        first_stream(streams, kind) == if i < streams.len() {
            Some(streams[i])
        } else {
            None
        },
    decreases streams.len(),
{
    if i > 0 {
        let rest = streams.drop_first();
        assert(streams[0].text_at("codec_type"@) != Some(kind));
        assert forall|k: int| 0 <= k < i - 1 implies (#[trigger] rest[k]).text_at("codec_type"@) != Some(
            kind,
        ) by {
            assert(rest[k] == streams[k + 1]);
        }
        law_first_stream(rest, kind, i - 1);
    }
}

/// What ffprobe says of a file: the length from the format, the size and codec
/// from the first video stream, the sound's codec from the first audio stream.
pub proof fn law_probe(doc: JsonView, streams: Seq<JsonView>, v: int, a: int)
    requires
        doc.items_at("streams"@) == Some(streams),
        0 <= v <= streams.len(),
        forall|k: int| 0 <= k < v ==> (#[trigger] streams[k]).text_at("codec_type"@) != Some("video"@),
        v < streams.len() ==> streams[v].text_at("codec_type"@) == Some("video"@),
        0 <= a <= streams.len(),
        forall|k: int| 0 <= k < a ==> (#[trigger] streams[k]).text_at("codec_type"@) != Some("audio"@),
        a < streams.len() ==> streams[a].text_at("codec_type"@) == Some("audio"@),
    ensures
        probe_of(doc).has_video == (v < streams.len()),
        v < streams.len() ==> probe_of(doc).width == streams[v].integer_at("width"@)
            && probe_of(doc).height == streams[v].integer_at("height"@) && probe_of(doc).video_codec
            == streams[v].text_at("codec_name"@),
        v == streams.len() ==> probe_of(doc).width is None && probe_of(doc).height is None
            && probe_of(doc).video_codec is None,
        probe_of(doc).audio_codec == if a < streams.len() {
            streams[a].text_at("codec_name"@)
        } else {
            None
        },
{
    law_first_stream(streams, "video"@, v);
    law_first_stream(streams, "audio"@, a);
}

/// An answer without streams has no picture and no sound.
pub proof fn law_probe_empty(doc: JsonView)
    requires
        doc.items_at("streams"@) is None,
    ensures
        !probe_of(doc).has_video,
        probe_of(doc).width is None && probe_of(doc).height is None,
        probe_of(doc).video_codec is None && probe_of(doc).audio_codec is None,
{
}

/// The length is the number of seconds that the format's duration writes, and is
/// unknown where there is none or it is no number.
pub proof fn law_probe_length(doc: JsonView, format: JsonView, t: Seq<char>, n: nat)
    requires
        doc.get("format"@) == Some(format),
        n < 9_000_000_000,
    ensures
        format.text_at("duration"@) == Some(nat_text(n)) ==> probe_of(doc).duration_sec == Some(
            (n * 1_000_000_000) as i64,
        ),
        format.text_at("duration"@) == Some(t) ==> probe_of(doc).duration_sec == match read_decimal(t) {
            Some(Reading::Value(v)) => Some(v),
            _ => None,
        },
        format.text_at("duration"@) is None ==> probe_of(doc).duration_sec is None,
        forall|d: JsonView|
            d.get("format"@) is None ==> (#[trigger] probe_of(d)).duration_sec is None,
{
    law_read_whole(n);
}

/// A run that failed is reported with what the program said, and one that
/// succeeded with what was asked for.
pub proof fn law_outcomes(stdout: Seq<char>, stderr: Seq<char>, output: Seq<char>, failure: Seq<char>)
    ensures
        ffmpeg_outcome(true, stderr, output, failure) == Ok::<Seq<char>, Seq<char>>(output),
        ffmpeg_outcome(false, stderr, output, failure) == Err::<Seq<char>, Seq<char>>(
            failure + trimmed(stderr),
        ),
        probe_outcome(false, stdout, stderr) == Err::<ProbeView, Seq<char>>(
            "ffprobe failed: "@ + trimmed(stderr),
        ),
        json_document(stdout) is Err ==> probe_outcome(true, stdout, stderr) == Err::<
            ProbeView,
            Seq<char>,
        >("parsing ffprobe JSON"@),
        json_document(stdout) matches Ok(doc) ==> probe_outcome(true, stdout, stderr) == Ok::<
            ProbeView,
            Seq<char>,
        >(probe_of(doc)),
{
}

/// ffprobe is asked for the format and the streams of the file, as JSON and with
/// nothing but errors besides; the sound is taken from the source alone, without
/// a picture, on one channel at 16 kHz.
pub proof fn law_requests(path: Seq<char>, output: Seq<char>)
    ensures
        probe_request(path).len() == 7 && probe_request(path).last() == path,
        probe_request(path)[0] == "-v"@ && probe_request(path)[1] == "error"@,
        probe_request(path)[2] == "-print_format"@ && probe_request(path)[3] == "json"@,
        probe_request(path)[4] == "-show_format"@ && probe_request(path)[5] == "-show_streams"@,
        audio_request(path, output).len() == 9 && audio_request(path, output).last() == output,
        audio_request(path, output)[0] == "-y"@ && audio_request(path, output)[1] == "-i"@,
        audio_request(path, output)[2] == path && audio_request(path, output)[3] == "-vn"@,
        audio_request(path, output)[4] == "-ac"@ && audio_request(path, output)[5] == "1"@,
        audio_request(path, output)[6] == "-ar"@ && audio_request(path, output)[7] == "16000"@,
{
}

/// A line lists the filter that is its second word.
pub proof fn law_lists_filter(mark: Seq<char>, name: Seq<char>, rest: Seq<char>, other: Seq<char>)
    requires
        mark.len() > 0,
        forall|i: int| 0 <= i < mark.len() ==> !is_space(#[trigger] mark[i]),
        name.len() > 0,
        forall|i: int| 0 <= i < name.len() ==> !is_space(#[trigger] name[i]),
    ensures
        lists_filter(mark + seq![' '] + (name + seq![' '] + rest), other) <==> other == name,
        lists_filter(mark + seq![' '] + name, other) <==> other == name,
        !lists_filter(mark, other),
{
    law_words(mark, ' ', name + seq![' '] + rest);
    law_words(mark, ' ', name);
    law_words(name, ' ', rest);
    assert(words(mark + seq![' '] + name) =~= seq![mark, name]);
}

/// ffmpeg has a filter exactly where the first line of its list lists it or the
/// rest of the list does.
pub proof fn law_has_filter(line: Seq<char>, rest: Seq<char>, name: Seq<char>)
    requires
        forall|i: int| 0 <= i < line.len() ==> #[trigger] line[i] != '\n',
    ensures
        line.len() == 0 || line.last() != '\r' ==> (has_filter(line + seq!['\n'] + rest, name)
            <==> lists_filter(line, name) || has_filter(rest, name)),
        !has_filter(Seq::empty(), name),
{
    law_lines(line, rest);
    let whole = line + seq!['\n'] + rest;
    let all = lines(whole);
    let more = lines(rest);
    if line.len() == 0 || line.last() != '\r' {
        if has_filter(whole, name) {
            let i = choose|i: int| 0 <= i < all.len() && lists_filter(#[trigger] all[i], name);
            if i > 0 {
                assert(more[i - 1] == all[i]);
            }
        }
        if lists_filter(line, name) {
            assert(all[0] == line);
        }
        if has_filter(rest, name) {
            let i = choose|i: int| 0 <= i < more.len() && lists_filter(#[trigger] more[i], name);
            assert(all[i + 1] == more[i]);
        }
    }
}

/// A setting that says something names the program; else it is the usual one. No
/// program but ffmpeg and ffprobe can be set.
pub proof fn law_programs(
    setting: Option<Seq<char>>,
    other: Option<Seq<char>>,
    value: Seq<char>,
    usual: Seq<char>,
    name: Seq<char>,
)
    ensures
        program(None, usual) == usual,
        is_blank(value) ==> program(Some(value), usual) == usual,
        !is_blank(value) ==> program(Some(value), usual) == value,
        program_named("ffmpeg"@, setting, other) == program(setting, "ffmpeg"@),
        program_named("ffprobe"@, other, setting) == program(setting, "ffprobe"@),
        name != "ffmpeg"@ && name != "ffprobe"@ ==> program_named(name, setting, other) == name,
{
    reveal_strlit("ffmpeg");
    reveal_strlit("ffprobe");
    assert("ffmpeg"@.len() == 6 && "ffprobe"@.len() == 7);
}

} // verus!
