//! Branded end card appended to a rendered clip.
//!
//! It shows the app's logo and name while a line is spoken in a voice taken from
//! the clip. A project without branding, a missing logo or a missing voice
//! leaves the clip as it is rather than failing it.

use vstd::prelude::*;
use crate::naming::verdict_text;
use crate::paths::{choose_place, find_home, is_home, look, place_of, seen};
use crate::pyenv::has_module;
use crate::sidecar::{result_texts, tail, tail_of, Exit};
use crate::text::{blank, is_blank, opt_str, put, texts};

verus! {

/// The interpreter for cloning a voice, which has an environment of its own.
pub fn tts_python(setting: Option<&str>, temp: &str, windows: bool) -> (res: String)
    ensures
        exists|home: Option<Seq<char>>|
            is_home(home) && res@ == #[trigger] place_of(
                opt_str(setting),
                home,
                temp@,
                "tts-venv/bin/python"@,
                windows,
            ),
{
    let home = find_home();
    choose_place(setting, home, temp, "tts-venv/bin/python", windows)
}

/// Whether an end card can be drawn: some interpreter has Pillow. Voice cloning
/// is asked separately, so that a silent card is still drawn without it.
pub fn available(candidates: &Vec<String>, imports: impl Fn(&String, &str) -> bool) -> (res: bool)
    requires
        forall|c: &String, m: &str| call_requires(imports, (c, m)),
    ensures
        res ==> exists|i: int|
            0 <= i < candidates@.len() && call_ensures(
                imports,
                (&#[trigger] candidates@[i], "PIL"),
                true,
            ),
        !res ==> forall|i: int|
            0 <= i < candidates@.len() ==> call_ensures(
                imports,
                (&#[trigger] candidates@[i], "PIL"),
                false,
            ),
{
    has_module(candidates, "PIL", imports)
}

/// Whether the end card can also speak: the interpreter of [`tts_python`] is
/// there. `is_there` looks for a file.
pub fn can_clone_voice(
    setting: Option<&str>,
    temp: &str,
    windows: bool,
    is_there: impl Fn(&str) -> bool,
) -> (res: bool)
    requires
        forall|p: &str| call_requires(is_there, (p,)),
    ensures
        exists|p: &str, home: Option<Seq<char>>|
            is_home(home) && p@ == #[trigger] place_of(
                opt_str(setting),
                home,
                temp@,
                "tts-venv/bin/python"@,
                windows,
            ) && #[trigger] call_ensures(is_there, (p,), res),
{
    let python = tts_python(setting, temp, windows);
    let p = python.as_str();
    is_there(p)
}

/// The arguments that append an end card.
pub open spec fn card_request(
    script: Seq<char>,
    clip: Seq<char>,
    app_name: Seq<char>,
    output: Seq<char>,
    assets: Seq<char>,
    tts_python: Seq<char>,
    logo: Option<Seq<char>>,
    transcript: Option<Seq<char>>,
) -> Seq<Seq<char>> {
    let base = seq![
        script,
        "--clip"@,
        clip,
        "--app-name"@,
        app_name,
        "--output"@,
        output,
        "--assets"@,
        assets,
        "--tts-python"@,
        tts_python,
    ];
    let with_logo = match logo {
        Some(l) => base.push("--logo"@).push(l),
        None => base,
    };
    match transcript {
        Some(t) => with_logo.push("--transcript"@).push(t),
        None => with_logo,
    }
}

/// Whether a card can advertise the name, or the message of the refusal.
pub open spec fn name_verdict(app_name: Seq<char>) -> Result<(), Seq<char>> {
    if is_blank(app_name) {
        Err("no app name configured"@)
    } else {
        Ok(())
    }
}

/// Decides whether a card can advertise the name.
pub fn check_app_name(app_name: &str) -> (res: Result<(), String>)
    ensures
        verdict_text(res) == name_verdict(app_name@),
{
    if blank(app_name) {
        Err("no app name configured".to_owned())
    } else {
        Ok(())
    }
}

/// What is asked of the program that appends the end card; a project without an
/// app name has no card.
pub open spec fn card_plan(
    app_name: Seq<char>,
    request: Seq<Seq<char>>,
) -> Result<Seq<Seq<char>>, Seq<char>> {
    match name_verdict(app_name) {
        Ok(_) => Ok(request),
        Err(e) => Err(e),
    }
}

/// The arguments that append an end card to `clip`. The transcript's word times
/// let the speakers be told apart.
pub fn card_args(
    script: &str,
    clip: &str,
    app_name: &str,
    logo: Option<&str>,
    transcript: Option<&str>,
    output: &str,
    assets: &str,
    tts_python: &str,
) -> (res: Result<Vec<String>, String>)
    ensures
        match (
            res,
            card_plan(
                app_name@,
                card_request(
                    script@,
                    clip@,
                    app_name@,
                    output@,
                    assets@,
                    tts_python@,
                    opt_str(logo),
                    opt_str(transcript),
                ),
            ),
        ) {
            (Ok(args), Ok(x)) => texts(args@) == x,
            (Err(e), Err(x)) => e@ == x,
            _ => false,
        },
{
    if let Err(e) = check_app_name(app_name) {
        return Err(e);
    }
    let mut args: Vec<String> = Vec::new();
    put(&mut args, script);
    put(&mut args, "--clip");
    put(&mut args, clip);
    put(&mut args, "--app-name");
    put(&mut args, app_name);
    put(&mut args, "--output");
    put(&mut args, output);
    put(&mut args, "--assets");
    put(&mut args, assets);
    put(&mut args, "--tts-python");
    put(&mut args, tts_python);
    if let Some(l) = logo {
        put(&mut args, "--logo");
        put(&mut args, l);
    }
    if let Some(t) = transcript {
        put(&mut args, "--transcript");
        put(&mut args, t);
    }
    assert(texts(args@) =~= card_request(
        script@,
        clip@,
        app_name@,
        output@,
        assets@,
        tts_python@,
        opt_str(logo),
        opt_str(transcript),
    ));
    Ok(args)
}

/// What comes of appending the end card. `present` is whether the file that was
/// asked for is there.
pub open spec fn card_outcome(success: bool, stderr: Seq<char>, output: Seq<char>, present: bool) -> Result<
    Seq<char>,
    Seq<char>,
> {
    if !success {
        Err(tail(stderr, 4))
    } else if !present {
        Err("outro builder reported success but produced no file"@)
    } else {
        Ok(output)
    }
}

/// Decides what comes of appending the end card.
pub fn decide_card(exit: &Exit, output: &str, present: bool) -> (res: Result<String, String>)
    ensures
        result_texts(res) == card_outcome(exit.success, exit.stderr@, output@, present),
{
    if !exit.success {
        Err(tail_of(exit.stderr.as_str(), 4))
    } else if !present {
        Err("outro builder reported success but produced no file".to_owned())
    } else {
        Ok(output.to_owned())
    }
}

/// As [`decide_card`], looking for the file on disk.
pub fn append(exit: &Exit, output: &str) -> (res: Result<String, String>)
    ensures
        exists|present: bool|
            seen(output@, present) && result_texts(res) == #[trigger] card_outcome(
                exit.success,
                exit.stderr@,
                output@,
                present,
            ),
{
    let present = look(output);
    decide_card(exit, output, present)
}

/// The card is asked for behind the clip, for the app, into the output, and told
/// of the logo and the transcript where there are some.
pub proof fn law_card_request(
    script: Seq<char>,
    clip: Seq<char>,
    app_name: Seq<char>,
    output: Seq<char>,
    assets: Seq<char>,
    python: Seq<char>,
    logo: Seq<char>,
    transcript: Seq<char>,
)
    ensures
        ({
            let ask = |l: Option<Seq<char>>, t: Option<Seq<char>>|
                card_request(script, clip, app_name, output, assets, python, l, t);
            let args = ask(None, None);
            &&& args.len() == 11 && args[0] == script
            &&& args[1] == "--clip"@ && args[2] == clip
            &&& args[3] == "--app-name"@ && args[4] == app_name
            &&& args[5] == "--output"@ && args[6] == output
            &&& args[7] == "--assets"@ && args[8] == assets
            &&& args[9] == "--tts-python"@ && args[10] == python
            &&& ask(Some(logo), None) == args + seq!["--logo"@, logo]
            &&& ask(None, Some(transcript)) == args + seq!["--transcript"@, transcript]
            &&& ask(Some(logo), Some(transcript)) == args + seq!["--logo"@, logo] + seq![
                "--transcript"@,
                transcript,
            ]
        }),
{
    let ask = |l: Option<Seq<char>>, t: Option<Seq<char>>|
        card_request(script, clip, app_name, output, assets, python, l, t);
    let args = ask(None, None);
    assert(ask(Some(logo), None) =~= args + seq!["--logo"@, logo]);
    assert(ask(None, Some(transcript)) =~= args + seq!["--transcript"@, transcript]);
    assert(ask(Some(logo), Some(transcript)) =~= args + seq!["--logo"@, logo] + seq![
        "--transcript"@,
        transcript,
    ]);
}

/// Without a name for the app no card is made; with one the request is as it
/// stands.
pub proof fn law_app_name(app_name: Seq<char>, request: Seq<Seq<char>>)
    ensures
        is_blank(app_name) ==> name_verdict(app_name) == Err::<(), Seq<char>>("no app name configured"@)
            && card_plan(app_name, request) == Err::<Seq<Seq<char>>, Seq<char>>(
            "no app name configured"@,
        ),
        !is_blank(app_name) ==> name_verdict(app_name) == Ok::<(), Seq<char>>(()) && card_plan(
            app_name,
            request,
        ) == Ok::<Seq<Seq<char>>, Seq<char>>(request),
{
}

/// The card is the output exactly where the builder succeeded and the file is
/// there; a failure is told by the last four lines of what it said.
pub proof fn law_card_outcome(stderr: Seq<char>, output: Seq<char>, present: bool)
    ensures
        card_outcome(false, stderr, output, present) == Err::<Seq<char>, Seq<char>>(tail(stderr, 4)),
        card_outcome(true, stderr, output, false) == Err::<Seq<char>, Seq<char>>(
            "outro builder reported success but produced no file"@,
        ),
        card_outcome(true, stderr, output, true) == Ok::<Seq<char>, Seq<char>>(output),
{
}

} // verus!
