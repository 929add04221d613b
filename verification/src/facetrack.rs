//! Speaker-aware vertical cropping.
//!
//! A centre crop decapitates any speaker who is not sitting dead centre. A small
//! program follows the primary face and answers with a fixed offset or with an
//! expression for ffmpeg's `crop` filter. Every failure leads back to the centre
//! crop: tracking is an enhancement, never a hard dependency.

use vstd::prelude::*;
use vstd::string::StringExecFns;
use crate::number::{fixed_string, fixed_text, int_string, int_text, UNIT};
use crate::pyenv::has_module;
use crate::sidecar::Exit;
use crate::text::{
    is_space, lemma_prefix_first, lines, opt_text, put, same, split_lines, starts_with, strip_start,
    strip_start_of, texts, trim, trimmed, CharClass,
};

verus! {

/// What the tracking program answers. Offsets count billionths of a pixel and
/// the coverage billionths.
#[derive(Debug)]
pub struct TrackResult {
    pub mode: String,
    pub x: Option<i64>,
    pub y: Option<i64>,
    pub x_expr: Option<String>,
    pub y_expr: Option<String>,
    pub reason: Option<String>,
    pub coverage: Option<i64>,
    pub cuts: Option<i64>,
}

/// Resolved crop offsets, as ffmpeg expressions.
#[derive(Debug)]
pub struct CropPlan {
    pub x: String,
    pub y: String,
    /// A note for the log, so that a bad track can be diagnosed.
    pub summary: String,
}

/// What a [`CropPlan`] says.
pub struct CropView {
    pub x: Seq<char>,
    pub y: Seq<char>,
    pub summary: Seq<char>,
}

impl View for CropPlan {
    type V = CropView;

    open spec fn view(&self) -> CropView {
        CropView { x: self.x@, y: self.y@, summary: self.summary@ }
    }
}

/// The view of an optional plan.
pub open spec fn opt_plan(p: Option<CropPlan>) -> Option<CropView> {
    match p {
        Some(p) => Some(p@),
        None => None,
    }
}

/// The nearest whole number of units; a half goes away from zero.
pub open spec fn rounded(v: int) -> int {
    if v >= 0 {
        (v + UNIT / 2) / UNIT as int
    } else {
        -((UNIT / 2 - v) / UNIT as int)
    }
}

/// Rounds to the nearest whole number of units.
fn round(v: i64) -> (res: i64)
    ensures
        res == rounded(v as int),
{
    if v >= 0 {
        ((v as i128 + 500_000_000) / 1_000_000_000) as i64
    } else {
        (-((500_000_000 - v as i128) / 1_000_000_000)) as i64
    }
}

/// The offset on one axis: the tracker's expression, else its fixed offset, else
/// ffmpeg's own centred expression.
pub open spec fn offset(expr: Option<Seq<char>>, fixed: Option<i64>, centred: Seq<char>) -> Seq<char> {
    match expr {
        Some(e) => e,
        None => match fixed {
            Some(v) => int_text(rounded(v as int)),
            None => centred,
        },
    }
}

/// The value, or zero where there is none.
pub open spec fn or_zero(v: Option<i64>) -> int {
    match v {
        Some(n) => n as int,
        None => 0,
    }
}

/// The note on a track.
pub open spec fn track_summary(mode: Seq<char>, coverage: int, cuts: int) -> Seq<char> {
    mode + " track, coverage "@ + fixed_text(coverage * 100, 0) + "%, "@ + int_text(cuts)
        + " cut(s)"@
}

/// The plan that an answer of the tracker amounts to; none where it gives up.
pub open spec fn planned(t: TrackResult) -> Option<CropView> {
    if t.mode@ == "none"@ {
        None
    } else {
        Some(
            CropView {
                x: offset(opt_text(t.x_expr), t.x, "(in_w-out_w)/2"@),
                y: offset(opt_text(t.y_expr), t.y, "(in_h-out_h)/2"@),
                summary: track_summary(t.mode@, or_zero(t.coverage), or_zero(t.cuts)),
            },
        )
    }
}

/// Writes the offset on one axis.
fn offset_text(expr: &Option<String>, fixed: Option<i64>, centred: &str) -> (res: String)
    ensures
        res@ == offset(opt_text(*expr), fixed, centred@),
{
    match expr {
        Some(e) => e.as_str().to_owned(),
        None => match fixed {
            Some(v) => int_string(round(v)),
            None => centred.to_owned(),
        },
    }
}

/// Turns an answer of the tracker into crop offsets. An axis that the tracker
/// did not constrain stays centred.
pub fn plan_from_track(t: &TrackResult) -> (res: Option<CropPlan>)
    ensures
        opt_plan(res) == planned(*t),
{
    if same(t.mode.as_str(), "none") {
        return None;
    }
    let coverage: i64 = match t.coverage {
        Some(v) => v,
        None => 0,
    };
    let cuts: i64 = match t.cuts {
        Some(v) => v,
        None => 0,
    };
    let mut summary = t.mode.as_str().to_owned();
    summary.append(" track, coverage ");
    let percent = fixed_string(coverage as i128 * 100, 0);
    summary.append(percent.as_str());
    summary.append("%, ");
    let count = int_string(cuts);
    summary.append(count.as_str());
    summary.append(" cut(s)");
    Some(
        CropPlan {
            x: offset_text(&t.x_expr, t.x, "(in_w-out_w)/2"),
            y: offset_text(&t.y_expr, t.y, "(in_h-out_h)/2"),
            summary,
        },
    )
}

/// Why the tracker gave up.
pub open spec fn fallback_note(reason: Option<Seq<char>>) -> Seq<char> {
    "facetrack: falling back to centre crop ("@ + match reason {
        Some(r) => r,
        None => "unspecified"@,
    } + ")"@
}

/// Writes why the tracker gave up.
pub fn fallback_message(t: &TrackResult) -> (res: String)
    ensures
        res@ == fallback_note(opt_text(t.reason)),
{
    let mut s = "facetrack: falling back to centre crop (".to_owned();
    match &t.reason {
        Some(r) => s.append(r.as_str()),
        None => s.append("unspecified"),
    }
    s.append(")");
    s
}

/// The line begins, after white space, with an opening brace.
pub open spec fn opens_object(line: Seq<char>) -> bool {
    "{"@.is_prefix_of(strip_start(CharClass::Space, line))
}

/// The last line that opens an object, trimmed.
pub open spec fn answer_line(parts: Seq<Seq<char>>) -> Option<Seq<char>>
    decreases parts.len(),
{
    if parts.len() == 0 {
        None
    } else if opens_object(parts.last()) {
        Some(trimmed(parts.last()))
    } else {
        answer_line(parts.drop_last())
    }
}

/// Finds the tracker's answer in its output: it prints one JSON object, on a
/// line of its own, possibly among other output.
pub fn track_line(stdout: &str) -> (res: Option<String>)
    ensures
        opt_text(res) == answer_line(lines(stdout@)),
{
    let all = split_lines(stdout);
    let ghost parts = texts(all@);
    let mut n: usize = all.len();
    assert(parts.take(n as int) =~= parts);
    while n > 0
        invariant
            n <= all@.len(),
            parts == texts(all@),
            parts == lines(stdout@),
            answer_line(parts) == answer_line(parts.take(n as int)),
        decreases n,
    {
        let line = all[n - 1].as_str();
        assert(parts.take(n as int).last() == line@);
        assert(parts.take(n as int).drop_last() =~= parts.take(n - 1));
        let from_brace = strip_start_of(CharClass::Space, line);
        if starts_with(from_brace.as_str(), "{") {
            return Some(trim(line));
        }
        n -= 1;
    }
    None
}

/// Takes the tracker's answer from how it ended. A tracker that failed gives
/// none, whatever it printed.
pub fn track_answer(exit: &Exit) -> (res: Option<String>)
    ensures
        opt_text(res) == if exit.success {
            answer_line(lines(exit.stdout@))
        } else {
            None
        },
{
    if exit.success {
        track_line(exit.stdout.as_str())
    } else {
        None
    }
}

/// What the tracker is asked: to follow the face from `start` to `end`. Nothing
/// is asked of an empty range.
pub open spec fn track_request(
    script: Seq<char>,
    source: Seq<char>,
    model: Seq<char>,
    start: int,
    end: int,
) -> Option<Seq<Seq<char>>> {
    if end - start <= 0 {
        None
    } else {
        Some(
            seq![
                script,
                "--video"@,
                source,
                "--model"@,
                model,
                "--start"@,
                fixed_text(start, 3),
                "--end"@,
                fixed_text(end, 3),
            ],
        )
    }
}

/// The texts of an optional list.
pub open spec fn opt_list(v: Option<Vec<String>>) -> Option<Seq<Seq<char>>> {
    match v {
        Some(v) => Some(texts(v@)),
        None => None,
    }
}

/// The arguments that ask the tracker for a crop of the range from `start_sec`
/// to `end_sec`.
pub fn track_args(script: &str, source_path: &str, model: &str, start_sec: i64, end_sec: i64) -> (res:
    Option<Vec<String>>)
    ensures
        opt_list(res) == track_request(
            script@,
            source_path@,
            model@,
            start_sec as int,
            end_sec as int,
        ),
{
    if end_sec <= start_sec {
        return None;
    }
    let start = fixed_string(start_sec as i128, 3);
    let end = fixed_string(end_sec as i128, 3);
    let mut args: Vec<String> = Vec::new();
    put(&mut args, script);
    put(&mut args, "--video");
    put(&mut args, source_path);
    put(&mut args, "--model");
    put(&mut args, model);
    put(&mut args, "--start");
    put(&mut args, start.as_str());
    put(&mut args, "--end");
    put(&mut args, end.as_str());
    assert(texts(args@) =~= track_request(
        script@,
        source_path@,
        model@,
        start_sec as int,
        end_sec as int,
    )->0);
    Some(args)
}

/// Whether a speaker-tracked crop is possible on this machine: some interpreter
/// has OpenCV.
pub fn available(candidates: &Vec<String>, imports: impl Fn(&String, &str) -> bool) -> (res: bool)
    requires
        forall|c: &String, m: &str| call_requires(imports, (c, m)),
    ensures
        res ==> exists|i: int|
            0 <= i < candidates@.len() && call_ensures(
                imports,
                (&#[trigger] candidates@[i], "cv2"),
                true,
            ),
        !res ==> forall|i: int|
            0 <= i < candidates@.len() ==> call_ensures(
                imports,
                (&#[trigger] candidates@[i], "cv2"),
                false,
            ),
{
    has_module(candidates, "cv2", imports)
}

/// An axis that the tracker did not constrain stays centred, and a tracker that
/// gives up leaves the centre crop.
pub proof fn law_centred(t: TrackResult)
    ensures
        t.mode@ == "none"@ <==> planned(t) is None,
        t.mode@ != "none"@ && t.x is None && t.x_expr is None ==> planned(t)->0.x
            == "(in_w-out_w)/2"@,
        t.mode@ != "none"@ && t.y is None && t.y_expr is None ==> planned(t)->0.y
            == "(in_h-out_h)/2"@,
{
}

/// The tracker's own expression for an axis is used as it stands; without one,
/// its fixed offset is written as the nearest whole pixel.
pub proof fn law_offsets(t: TrackResult)
    requires
        t.mode@ != "none"@,
    ensures
        planned(t) is Some,
        t.x_expr matches Some(e) ==> planned(t)->0.x == e@,
        t.y_expr matches Some(e) ==> planned(t)->0.y == e@,
        t.x_expr is None ==> (t.x matches Some(v) ==> exists|n: int|
            planned(t)->0.x == #[trigger] int_text(n) && -1_000_000_000 <= 2 * (n * 1_000_000_000 - v)
                <= 1_000_000_000),
        t.y_expr is None ==> (t.y matches Some(v) ==> exists|n: int|
            planned(t)->0.y == #[trigger] int_text(n) && -1_000_000_000 <= 2 * (n * 1_000_000_000 - v)
                <= 1_000_000_000),
{
    if let Some(v) = t.x {
        law_rounded(v as int, 0);
        if t.x_expr is None {
            assert(planned(t)->0.x == int_text(rounded(v as int)));
        }
    }
    if let Some(v) = t.y {
        law_rounded(v as int, 0);
        if t.y_expr is None {
            assert(planned(t)->0.y == int_text(rounded(v as int)));
        }
    }
}

/// Rounding gives the nearest whole number, and of two that are equally near the
/// one farther from zero. Whole numbers stay what they are.
pub proof fn law_rounded(v: int, n: int)
    ensures
        -1_000_000_000 <= 2 * (rounded(v) * 1_000_000_000 - v) <= 1_000_000_000,
        v > 0 ==> 2 * (rounded(v) * 1_000_000_000 - v) > -1_000_000_000,
        v < 0 ==> 2 * (rounded(v) * 1_000_000_000 - v) < 1_000_000_000,
        rounded(-v) == -rounded(v),
        rounded(n * 1_000_000_000) == n,
{
    if v == 0 {
        assert(rounded(v) == 0);
    }
}

/// The plan notes the tracker's mode, how many percent it covered and how many
/// cuts it found, where zero stands for what it left out.
pub proof fn law_summary(t: TrackResult, coverage: int, cuts: int)
    requires
        t.mode@ != "none"@,
        coverage == match t.coverage {
            Some(v) => v as int,
            None => 0,
        },
        cuts == match t.cuts {
            Some(v) => v as int,
            None => 0,
        },
    ensures
        planned(t)->0.summary == t.mode@ + " track, coverage "@ + fixed_text(100 * coverage, 0)
            + "%, "@ + int_text(cuts) + " cut(s)"@,
{
}

/// A plan stands for what its fields hold.
pub proof fn law_plan_view(p: CropPlan, v: Vec<String>)
    ensures
        p@.x == p.x@ && p@.y == p.y@ && p@.summary == p.summary@,
        opt_plan(Some(p)) == Some(p@) && opt_plan(None) is None,
        opt_list(Some(v)) == Some(texts(v@)) && opt_list(None) is None,
{
}

/// A tracker that gives up says why, where it knows.
pub proof fn law_fallback(reason: Seq<char>)
    ensures
        fallback_note(Some(reason)) == "facetrack: falling back to centre crop ("@ + reason + seq![
            ')',
        ],
        fallback_note(None) == fallback_note(Some("unspecified"@)),
{
    reveal_strlit(")");
    assert(")"@ =~= seq![')']);
}

/// The answer is the last line that begins, after white space, with a brace; what
/// follows it without one does not count.
pub proof fn law_answer(parts: Seq<Seq<char>>, space: Seq<char>, body: Seq<char>, other: Seq<char>)
    requires
        forall|k: int| 0 <= k < space.len() ==> is_space(#[trigger] space[k]),
        other.len() == 0 || (other[0] != '{' && !is_space(other[0])),
    ensures
        answer_line(Seq::empty()) is None,
        answer_line(parts.push(space + seq!['{'] + body)) == Some(trimmed(space + seq!['{'] + body)),
        answer_line(parts.push(other)) == answer_line(parts),
{
    reveal_strlit("{");
    let line = space + seq!['{'] + body;
    assert(parts.push(line).drop_last() =~= parts);
    assert(parts.push(other).drop_last() =~= parts);
    lemma_strip_blank(space, seq!['{'] + body);
    assert(space + (seq!['{'] + body) =~= line);
    let open = seq!['{'] + body;
    assert(strip_start(CharClass::Space, line) == open);
    assert(open.subrange(0, 1) =~= "{"@);
    assert(opens_object(line));
    if opens_object(other) {
        lemma_prefix_first("{"@, strip_start(CharClass::Space, other));
        assert(strip_start(CharClass::Space, other) == other);
        assert("{"@[0] == '{');
    }
}

/// White space at the front of a text is stripped up to the first character that
/// is none.
proof fn lemma_strip_blank(space: Seq<char>, rest: Seq<char>)
    requires
        forall|k: int| 0 <= k < space.len() ==> is_space(#[trigger] space[k]),
        rest.len() > 0,
        !is_space(rest[0]),
    ensures
        strip_start(CharClass::Space, space + rest) == rest,
    decreases space.len(),
{
    if space.len() == 0 {
        assert(space + rest =~= rest);
    } else {
        assert((space + rest)[0] == space[0]);
        assert((space + rest).drop_first() =~= space.drop_first() + rest);
        lemma_strip_blank(space.drop_first(), rest);
    }
}

/// The tracker is asked about the given range of the source, to the millisecond;
/// it is asked nothing exactly where the range is empty.
pub proof fn law_track_request(script: Seq<char>, source: Seq<char>, model: Seq<char>, start: int, end:
    int)
    ensures
        track_request(script, source, model, start, end) is Some <==> start < end,
        track_request(script, source, model, start, end) matches Some(args) ==> {
            &&& args.len() == 9
            &&& args[0] == script
            &&& args[1] == "--video"@ && args[2] == source
            &&& args[3] == "--model"@ && args[4] == model
            &&& args[5] == "--start"@ && args[6] == fixed_text(start, 3)
            &&& args[7] == "--end"@ && args[8] == fixed_text(end, 3)
        },
{
}

} // verus!
