//! Sound effects placed under a finished clip.
//!
//! The kit is synthesised on the machine, with no licence to mind and no
//! network. Where effects go is decided by the edit.

use vstd::prelude::*;
use vstd::string::StringExecFns;
use crate::paths::{
    all_seen, choose_place, find_home, is_home, join_path, look, place_of, seen, under, which_exist,
};
use crate::sidecar::{file_outcome, produced, result_texts, written_file, Exit};
use crate::text::{lines, opt_str, put, split_lines, texts};

verus! {

/// Where the generated kit lives.
pub fn kit_dir(setting: Option<&str>, temp: &str, windows: bool) -> (res: String)
    ensures
        exists|home: Option<Seq<char>>|
            is_home(home) && res@ == #[trigger] place_of(
                opt_str(setting),
                home,
                temp@,
                under("autoshorts"@, "sfx"@, windows),
                windows,
            ),
{
    let home = find_home();
    let rest = join_path("autoshorts", "sfx", windows);
    choose_place(setting, home, temp, rest.as_str(), windows)
}

/// The files of the kit.
pub open spec fn kit_paths(dir: Seq<char>, windows: bool) -> Seq<Seq<char>> {
    seq![
        under(dir, "attention.wav"@, windows),
        under(dir, "riser.wav"@, windows),
        under(dir, "whoosh.wav"@, windows),
        under(dir, "boom.wav"@, windows),
        under(dir, "stinger.wav"@, windows),
        under(dir, "pop.wav"@, windows),
    ]
}

/// Adds a file of the kit to a list.
fn put_file(list: &mut Vec<String>, dir: &str, name: &str, windows: bool)
    ensures
        texts(final(list)@) == texts(old(list)@).push(under(dir@, name@, windows)),
{
    let path = join_path(dir, name, windows);
    put(list, path.as_str());
}

/// Lists the files of the kit.
pub fn kit_files(dir: &str, windows: bool) -> (res: Vec<String>)
    ensures
        texts(res@) == kit_paths(dir@, windows),
{
    let mut list: Vec<String> = Vec::new();
    put_file(&mut list, dir, "attention.wav", windows);
    put_file(&mut list, dir, "riser.wav", windows);
    put_file(&mut list, dir, "whoosh.wav", windows);
    put_file(&mut list, dir, "boom.wav", windows);
    put_file(&mut list, dir, "stinger.wav", windows);
    put_file(&mut list, dir, "pop.wav", windows);
    assert(texts(list@) =~= kit_paths(dir@, windows));
    list
}

/// Every file is present.
pub open spec fn all_present(present: Seq<bool>) -> bool {
    forall|i: int| 0 <= i < present.len() ==> #[trigger] present[i]
}

/// Whether every file is present.
pub fn complete(present: &Vec<bool>) -> (res: bool)
    ensures
        res == all_present(present@),
{
    let mut i: usize = 0;
    while i < present.len()
        invariant
            i <= present@.len(),
            forall|k: int| 0 <= k < i ==> #[trigger] present@[k],
        decreases present@.len() - i,
    {
        if !present[i] {
            assert(!present@[i as int]);
            return false;
        }
        i += 1;
    }
    true
}

/// What has to be run to have the kit: nothing where it is complete.
pub open spec fn kit_request(script: Seq<char>, dir: Seq<char>, present: Seq<bool>) -> Option<
    Seq<Seq<char>>,
> {
    if all_present(present) {
        None
    } else {
        Some(seq![script, "--out"@, dir])
    }
}

/// The arguments that generate the kit, where it is not already on disk.
pub fn kit_args(script: &str, dir: &str, windows: bool) -> (res: Option<Vec<String>>)
    ensures
        exists|present: Seq<bool>|
            all_seen(kit_paths(dir@, windows), present) && match (
                res,
                #[trigger] kit_request(script@, dir@, present),
            ) {
                (Some(args), Some(x)) => texts(args@) == x,
                (None, None) => true,
                _ => false,
            },
{
    let files = kit_files(dir, windows);
    let present = which_exist(&files);
    let res = kit_args_for(script, dir, &present);
    assert(kit_request(script@, dir@, present@) is Some == res is Some);
    res
}

/// The arguments that generate the kit. `present` says which of [`kit_files`]
/// are there.
pub fn kit_args_for(script: &str, dir: &str, present: &Vec<bool>) -> (res: Option<Vec<String>>)
    ensures
        match (res, kit_request(script@, dir@, present@)) {
            (Some(args), Some(x)) => texts(args@) == x,
            (None, None) => true,
            _ => false,
        },
{
    if complete(present) {
        return None;
    }
    let mut args: Vec<String> = Vec::new();
    put(&mut args, script);
    put(&mut args, "--out");
    put(&mut args, dir);
    assert(texts(args@) =~= seq![script@, "--out"@, dir@]);
    Some(args)
}

/// What comes of generating the kit: its directory, or the last line that the
/// generator said.
pub open spec fn kit_outcome(success: bool, stderr: Seq<char>, dir: Seq<char>) -> Result<
    Seq<char>,
    Seq<char>,
> {
    if success {
        Ok(dir)
    } else {
        Err(
            "sfx kit generation failed: "@ + if lines(stderr).len() > 0 {
                lines(stderr).last()
            } else {
                Seq::empty()
            },
        )
    }
}

/// Decides what comes of generating the kit.
pub fn ensure_kit(exit: &Exit, dir: &str) -> (res: Result<String, String>)
    ensures
        result_texts(res) == kit_outcome(exit.success, exit.stderr@, dir@),
{
    if exit.success {
        return Ok(dir.to_owned());
    }
    let all = split_lines(exit.stderr.as_str());
    let mut message = "sfx kit generation failed: ".to_owned();
    if all.len() > 0 {
        assert(texts(all@).last() == all@[all@.len() - 1]@);
        message.append(all[all.len() - 1].as_str());
    }
    assert(message@ =~= kit_outcome(exit.success, exit.stderr@, dir@)->Err_0);
    Err(message)
}

/// The arguments that mix effects under a video.
pub open spec fn mix_request(
    script: Seq<char>,
    video: Seq<char>,
    kit: Seq<char>,
    output: Seq<char>,
    scene_plan: Option<Seq<char>>,
    transcript: Option<Seq<char>>,
) -> Seq<Seq<char>> {
    let base = seq![script, "--video"@, video, "--kit"@, kit, "--output"@, output];
    let with_scenes = match scene_plan {
        Some(p) => base.push("--scenes"@).push(p),
        None => base,
    };
    match transcript {
        Some(t) => with_scenes.push("--transcript"@).push(t),
        None => with_scenes,
    }
}

/// The arguments that mix effects under `video`, placed by the files given.
pub fn mix_args_with(
    script: &str,
    video: &str,
    kit: &str,
    output: &str,
    scene_plan: Option<&str>,
    transcript: Option<&str>,
) -> (res: Vec<String>)
    ensures
        texts(res@) == mix_request(
            script@,
            video@,
            kit@,
            output@,
            opt_str(scene_plan),
            opt_str(transcript),
        ),
{
    let mut args: Vec<String> = Vec::new();
    put(&mut args, script);
    put(&mut args, "--video");
    put(&mut args, video);
    put(&mut args, "--kit");
    put(&mut args, kit);
    put(&mut args, "--output");
    put(&mut args, output);
    if let Some(p) = scene_plan {
        put(&mut args, "--scenes");
        put(&mut args, p);
    }
    if let Some(t) = transcript {
        put(&mut args, "--transcript");
        put(&mut args, t);
    }
    assert(texts(args@) =~= mix_request(
        script@,
        video@,
        kit@,
        output@,
        opt_str(scene_plan),
        opt_str(transcript),
    ));
    args
}

/// The file, where it is present.
pub open spec fn if_present(path: Option<Seq<char>>, present: bool) -> Option<Seq<char>> {
    if present {
        path
    } else {
        None
    }
}

/// The arguments that mix effects under `video`. The scene plan and the
/// transcript steer placement. `planned` and `heard` say whether they are there;
/// one that is not is left out, and without both the mixer passes the clip
/// through unchanged.
pub fn mix_args_given(
    script: &str,
    video: &str,
    kit: &str,
    output: &str,
    scene_plan: Option<&str>,
    planned: bool,
    transcript: Option<&str>,
    heard: bool,
) -> (res: Vec<String>)
    ensures
        texts(res@) == mix_request(
            script@,
            video@,
            kit@,
            output@,
            if_present(opt_str(scene_plan), planned),
            if_present(opt_str(transcript), heard),
        ),
{
    let scenes = if planned {
        scene_plan
    } else {
        None
    };
    let said = if heard {
        transcript
    } else {
        None
    };
    mix_args_with(script, video, kit, output, scenes, said)
}

/// `present` is what the disk answers when asked for the file, if there is one
/// to ask for.
pub open spec fn file_seen(path: Option<Seq<char>>, present: bool) -> bool {
    match path {
        Some(p) => seen(p, present),
        None => true,
    }
}

/// Asks the disk for a file, if there is one to ask for.
fn look_for(path: Option<&str>) -> (res: bool)
    ensures
        file_seen(opt_str(path), res),
{
    match path {
        Some(p) => look(p),
        None => false,
    }
}

/// As [`mix_args_given`], looking for both files on disk.
pub fn mix_args(
    script: &str,
    video: &str,
    kit: &str,
    output: &str,
    scene_plan: Option<&str>,
    transcript: Option<&str>,
) -> (res: Vec<String>)
    ensures
        exists|planned: bool, heard: bool|
            file_seen(opt_str(scene_plan), planned) && file_seen(opt_str(transcript), heard)
                && texts(res@) == mix_request(
                script@,
                video@,
                kit@,
                output@,
                #[trigger] if_present(opt_str(scene_plan), planned),
                #[trigger] if_present(opt_str(transcript), heard),
            ),
{
    let planned = look_for(scene_plan);
    let heard = look_for(transcript);
    mix_args_given(script, video, kit, output, scene_plan, planned, transcript, heard)
}

/// Decides what comes of mixing: the file written, or why there is none.
pub fn apply(exit: &Exit, output: &str) -> (res: Result<String, String>)
    ensures
        exists|present: bool|
            seen(produced(exit.stdout@, output@), present) && result_texts(res)
                == #[trigger] file_outcome(
                exit.success,
                exit.stdout@,
                exit.stderr@,
                output@,
                "sfx mix failed: "@,
                3,
                "sfx mix reported success but produced no file"@,
                present,
            ),
{
    written_file(
        exit,
        output,
        "sfx mix failed: ",
        3,
        "sfx mix reported success but produced no file",
    )
}

/// The kit is six sounds in one directory.
pub proof fn law_kit_paths(dir: Seq<char>, windows: bool)
    ensures
        kit_paths(dir, windows).len() == 6,
        kit_paths(dir, windows)[0] == under(dir, "attention.wav"@, windows),
        kit_paths(dir, windows)[1] == under(dir, "riser.wav"@, windows),
        kit_paths(dir, windows)[2] == under(dir, "whoosh.wav"@, windows),
        kit_paths(dir, windows)[3] == under(dir, "boom.wav"@, windows),
        kit_paths(dir, windows)[4] == under(dir, "stinger.wav"@, windows),
        kit_paths(dir, windows)[5] == under(dir, "pop.wav"@, windows),
{
}

/// The kit is asked for exactly where one of its sounds is missing.
pub proof fn law_kit_request(script: Seq<char>, dir: Seq<char>, present: Seq<bool>)
    ensures
        kit_request(script, dir, present) is None <==> forall|i: int|
            0 <= i < present.len() ==> #[trigger] present[i],
        kit_request(script, dir, present) matches Some(args) ==> args == seq![script, "--out"@, dir],
{
}

/// The kit is its directory where it was made; a failure is told by the last line
/// of what was said.
pub proof fn law_kit_outcome(stderr: Seq<char>, dir: Seq<char>)
    ensures
        kit_outcome(true, stderr, dir) == Ok::<Seq<char>, Seq<char>>(dir),
        lines(stderr).len() > 0 ==> kit_outcome(false, stderr, dir) == Err::<Seq<char>, Seq<char>>(
            "sfx kit generation failed: "@ + lines(stderr).last(),
        ),
        lines(stderr).len() == 0 ==> kit_outcome(false, stderr, dir) == Err::<Seq<char>, Seq<char>>(
            "sfx kit generation failed: "@,
        ),
{
    assert("sfx kit generation failed: "@ + Seq::<char>::empty() =~= "sfx kit generation failed: "@);
}

/// The mix is asked for on the video, from the kit, into the output, and told of
/// the scenes and the transcript where there are some; a file that is not there
/// is left out.
pub proof fn law_mix_request(
    script: Seq<char>,
    video: Seq<char>,
    kit: Seq<char>,
    output: Seq<char>,
    scenes: Seq<char>,
    transcript: Seq<char>,
    path: Option<Seq<char>>,
)
    ensures
        ({
            let ask = |s: Option<Seq<char>>, t: Option<Seq<char>>|
                mix_request(script, video, kit, output, s, t);
            let args = ask(None, None);
            &&& args.len() == 7 && args[0] == script
            &&& args[1] == "--video"@ && args[2] == video
            &&& args[3] == "--kit"@ && args[4] == kit
            &&& args[5] == "--output"@ && args[6] == output
            &&& ask(Some(scenes), None) == args + seq!["--scenes"@, scenes]
            &&& ask(None, Some(transcript)) == args + seq!["--transcript"@, transcript]
            &&& ask(Some(scenes), Some(transcript)) == args + seq!["--scenes"@, scenes] + seq![
                "--transcript"@,
                transcript,
            ]
        }),
        if_present(path, true) == path,
        if_present(path, false) is None,
{
    let ask = |s: Option<Seq<char>>, t: Option<Seq<char>>|
        mix_request(script, video, kit, output, s, t);
    let args = ask(None, None);
    assert(ask(Some(scenes), None) =~= args + seq!["--scenes"@, scenes]);
    assert(ask(None, Some(transcript)) =~= args + seq!["--transcript"@, transcript]);
    assert(ask(Some(scenes), Some(transcript)) =~= args + seq!["--scenes"@, scenes] + seq![
        "--transcript"@,
        transcript,
    ]);
}

/// A file that is given was looked for; without one there is nothing to look for.
pub proof fn law_file_seen(path: Seq<char>, present: bool)
    ensures
        file_seen(Some(path), present) == seen(path, present),
        file_seen(None, present),
{
}

} // verus!
