//! Importing from YouTube through `yt-dlp`.

use vstd::prelude::*;
use vstd::string::StringExecFns;
use crate::json::{json_document, parse_json, Json, JsonView};
use crate::paths::{join_path, look, seen, under};
use crate::sidecar::{result_texts, Exit};
use crate::text::{
    contains, holds_text, lines, lower, lower_of, opt_text, put, split_lines, texts, trim, trimmed,
};

verus! {

/// Whether a video may be reused, and under which licence.
#[derive(Debug)]
pub struct CopyrightCheckResult {
    pub is_safe: bool,
    pub license: Option<String>,
}

/// The licence allows reuse.
pub open spec fn allows_reuse(license: Option<Seq<char>>) -> bool {
    match license {
        Some(l) => contains(lower(l), "creative commons"@) || contains(
            lower(l),
            "reuse allowed"@,
        ),
        None => false,
    }
}

/// Whether the licence in a video's metadata allows reuse.
pub fn check_license(metadata: &Json) -> (res: CopyrightCheckResult)
    ensures
        opt_text(res.license) == metadata@.text_at("license"@),
        res.is_safe == allows_reuse(metadata@.text_at("license"@)),
{
    match metadata.text_at("license") {
        Some(l) => {
            let small = lower_of(l);
            CopyrightCheckResult {
                is_safe: holds_text(small.as_str(), "creative commons") || holds_text(
                    small.as_str(),
                    "reuse allowed",
                ),
                license: Some(l.to_owned()),
            }
        },
        None => CopyrightCheckResult { is_safe: false, license: None },
    }
}

/// What comes of asking for a video's metadata: its licence, or the message of
/// the failure.
pub open spec fn license_outcome(success: bool, stdout: Seq<char>) -> Result<
    Option<Seq<char>>,
    Seq<char>,
> {
    if !success {
        Err("Failed to fetch video metadata from YouTube."@)
    } else {
        match json_document(stdout) {
            Ok(doc) => Ok(doc.text_at("license"@)),
            Err(_) => Err("Failed to parse yt-dlp output"@),
        }
    }
}

/// Reads whether a video may be reused out of what `yt-dlp` says of it.
pub fn check_youtube_copyright(exit: &Exit) -> (res: Result<CopyrightCheckResult, String>)
    ensures
        match (res, license_outcome(exit.success, exit.stdout@)) {
            (Ok(r), Ok(license)) => opt_text(r.license) == license && r.is_safe == allows_reuse(
                license,
            ),
            (Err(e), Err(x)) => e@ == x,
            _ => false,
        },
{
    if !exit.success {
        return Err("Failed to fetch video metadata from YouTube.".to_owned());
    }
    match parse_json(exit.stdout.as_str()) {
        Ok(doc) => Ok(check_license(&doc)),
        Err(_) => Err("Failed to parse yt-dlp output".to_owned()),
    }
}

/// The arguments that ask for the metadata of a video.
pub open spec fn metadata_request(url: Seq<char>) -> Seq<Seq<char>> {
    seq!["--dump-json"@, url]
}

/// The arguments that ask for a video's metadata.
pub fn metadata_args(url: &str) -> (res: Vec<String>)
    ensures
        texts(res@) == metadata_request(url@),
        texts(res@) == seq!["--dump-json"@, url@],
{
    let mut args: Vec<String> = Vec::new();
    put(&mut args, "--dump-json");
    put(&mut args, url);
    assert(texts(args@) =~= seq!["--dump-json"@, url@]);
    args
}

/// The arguments that download a video into a directory.
pub open spec fn download_request(dir: Seq<char>, url: Seq<char>, windows: bool) -> Seq<Seq<char>> {
    seq![
        "--format"@,
        "bestvideo[ext=mp4]+bestaudio[ext=m4a]/best[ext=mp4]/best"@,
        "--merge-output-format"@,
        "mp4"@,
        "-o"@,
        under(dir, "AutoShorts_%(id)s.%(ext)s"@, windows),
        "--print"@,
        "after_move:filepath"@,
        "--no-simulate"@,
        url,
    ]
}

/// What is asked to download a video, or why nothing can be.
pub open spec fn download_plan(dir: Option<Seq<char>>, url: Seq<char>, windows: bool) -> Result<
    Seq<Seq<char>>,
    Seq<char>,
> {
    match dir {
        Some(d) => Ok(download_request(d, url, windows)),
        None => Err("Could not find Downloads folder"@),
    }
}

/// The arguments that download a video into `dir`, the downloads directory.
pub fn download_args(dir: Option<String>, url: &str, windows: bool) -> (res: Result<
    Vec<String>,
    String,
>)
    ensures
        match (res, download_plan(opt_text(dir), url@, windows)) {
            (Ok(args), Ok(x)) => texts(args@) == x,
            (Err(e), Err(x)) => e@ == x,
            _ => false,
        },
{
    let d = match dir {
        Some(d) => d,
        None => {
            return Err("Could not find Downloads folder".to_owned());
        },
    };
    let template = join_path(d.as_str(), "AutoShorts_%(id)s.%(ext)s", windows);
    let mut args: Vec<String> = Vec::new();
    put(&mut args, "--format");
    put(&mut args, "bestvideo[ext=mp4]+bestaudio[ext=m4a]/best[ext=mp4]/best");
    put(&mut args, "--merge-output-format");
    put(&mut args, "mp4");
    put(&mut args, "-o");
    put(&mut args, template.as_str());
    put(&mut args, "--print");
    put(&mut args, "after_move:filepath");
    put(&mut args, "--no-simulate");
    put(&mut args, url);
    assert(texts(args@) =~= download_request(d@, url@, windows));
    Ok(args)
}

/// The file that a download names: its last line, trimmed.
pub open spec fn named_file(stdout: Seq<char>) -> Seq<char> {
    if lines(stdout).len() > 0 {
        trimmed(lines(stdout).last())
    } else {
        Seq::empty()
    }
}

/// What comes of a download: the file, or the message of the failure. `present`
/// is whether the file is there.
pub open spec fn download_outcome(
    success: bool,
    stdout: Seq<char>,
    stderr: Seq<char>,
    present: bool,
) -> Result<Seq<char>, Seq<char>> {
    if !success {
        Err("yt-dlp failed: "@ + stderr)
    } else if named_file(stdout).len() == 0 || !present {
        Err("Could not locate downloaded file"@)
    } else {
        Ok(named_file(stdout))
    }
}

/// Reads the file that a download names.
pub fn downloaded_file(stdout: &str) -> (res: String)
    ensures
        res@ == named_file(stdout@),
{
    let all = split_lines(stdout);
    if all.len() > 0 {
        assert(texts(all@).last() == all@[all@.len() - 1]@);
        trim(all[all.len() - 1].as_str())
    } else {
        let none: String = String::new();
        assert(none@ =~= Seq::<char>::empty());
        none
    }
}

/// Decides what comes of a download.
pub fn decide_download(exit: &Exit, present: bool) -> (res: Result<String, String>)
    ensures
        result_texts(res) == download_outcome(exit.success, exit.stdout@, exit.stderr@, present),
{
    if !exit.success {
        let mut message = "yt-dlp failed: ".to_owned();
        message.append(exit.stderr.as_str());
        return Err(message);
    }
    let path = downloaded_file(exit.stdout.as_str());
    if path.as_str().is_empty() || !present {
        return Err("Could not locate downloaded file".to_owned());
    }
    Ok(path)
}

/// As [`decide_download`], looking for the file on disk.
pub fn download_youtube_video(exit: &Exit) -> (res: Result<String, String>)
    ensures
        exists|present: bool|
            seen(named_file(exit.stdout@), present) && result_texts(res)
                == #[trigger] download_outcome(
                exit.success,
                exit.stdout@,
                exit.stderr@,
                present,
            ),
{
    let path = downloaded_file(exit.stdout.as_str());
    let present = look(path.as_str());
    decide_download(exit, present)
}

/// A video without a licence in its metadata is never safe to reuse.
pub proof fn law_no_license(doc: JsonView)
    requires
        doc.text_at("license"@) is None,
    ensures
        !allows_reuse(doc.text_at("license"@)),
{
}

/// A video may be used exactly where its license speaks of the commons or allows
/// reuse, in any case of letters.
pub proof fn law_reuse(license: Seq<char>)
    ensures
        allows_reuse(Some(license)) <==> contains(lower(license), "creative commons"@) || contains(
            lower(license),
            "reuse allowed"@,
        ),
        !allows_reuse(None),
{
}

/// The license is what the metadata says; a run that failed or said nothing
/// readable is reported as such.
pub proof fn law_license_outcome(stdout: Seq<char>)
    ensures
        license_outcome(false, stdout) == Err::<Option<Seq<char>>, Seq<char>>(
            "Failed to fetch video metadata from YouTube."@,
        ),
        json_document(stdout) matches Ok(doc) ==> license_outcome(true, stdout) == Ok::<
            Option<Seq<char>>,
            Seq<char>,
        >(doc.text_at("license"@)),
        json_document(stdout) is Err ==> license_outcome(true, stdout) == Err::<
            Option<Seq<char>>,
            Seq<char>,
        >("Failed to parse yt-dlp output"@),
{
}

/// The video is downloaded as one file of the usual kind into the directory, and
/// its path is printed; without a directory nothing is asked.
pub proof fn law_download(dir: Seq<char>, url: Seq<char>, windows: bool)
    ensures
        ({
            let args = download_request(dir, url, windows);
            &&& args.len() == 10 && args.last() == url
            &&& args[0] == "--format"@ && args[1]
                == "bestvideo[ext=mp4]+bestaudio[ext=m4a]/best[ext=mp4]/best"@
            &&& args[2] == "--merge-output-format"@ && args[3] == "mp4"@
            &&& args[4] == "-o"@ && args[5] == under(dir, "AutoShorts_%(id)s.%(ext)s"@, windows)
            &&& args[6] == "--print"@ && args[7] == "after_move:filepath"@
            &&& args[8] == "--no-simulate"@
            &&& download_plan(Some(dir), url, windows) == Ok::<Seq<Seq<char>>, Seq<char>>(args)
        }),
        download_plan(None, url, windows) == Err::<Seq<Seq<char>>, Seq<char>>(
            "Could not find Downloads folder"@,
        ),
{
}

/// The file is the one that the last line names, where the run succeeded and the
/// file is there.
pub proof fn law_downloaded(stdout: Seq<char>, stderr: Seq<char>, present: bool)
    ensures
        lines(stdout).len() > 0 ==> named_file(stdout) == trimmed(lines(stdout).last()),
        lines(stdout).len() == 0 ==> named_file(stdout) == Seq::<char>::empty(),
        download_outcome(false, stdout, stderr, present) == Err::<Seq<char>, Seq<char>>(
            "yt-dlp failed: "@ + stderr,
        ),
        named_file(stdout).len() > 0 && present ==> download_outcome(true, stdout, stderr, present)
            == Ok::<Seq<char>, Seq<char>>(named_file(stdout)),
        named_file(stdout).len() == 0 || !present ==> download_outcome(true, stdout, stderr, present)
            == Err::<Seq<char>, Seq<char>>("Could not locate downloaded file"@),
{
}

/// Metadata is asked for as JSON, of the one address.
pub proof fn law_metadata(url: Seq<char>)
    ensures
        metadata_request(url).len() == 2,
        metadata_request(url)[0] == "--dump-json"@ && metadata_request(url)[1] == url,
{
}

} // verus!
