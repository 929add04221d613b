//! Programs that the app runs, and what their output means.

use vstd::prelude::*;
use vstd::string::StringExecFns;
use crate::paths::{look, seen};
use crate::text::{
    is_blank, join, joined, lines, opt_str, put, same, split_lines, starts_with, texts, trim,
    trimmed,
};

verus! {

/// How a program ended.
#[derive(Debug)]
pub struct Exit {
    pub success: bool,
    pub stdout: String,
    pub stderr: String,
}

/// At most the last `n` parts.
pub open spec fn last_parts(parts: Seq<Seq<char>>, n: int) -> Seq<Seq<char>> {
    if parts.len() > n {
        parts.skip(parts.len() - n)
    } else {
        parts
    }
}

/// The last `n` lines of a text on one line.
pub open spec fn tail(s: Seq<char>, n: int) -> Seq<char> {
    joined(last_parts(lines(s), n), " | "@)
}

/// Puts the last `n` lines of a text on one line.
pub fn tail_of(s: &str, n: usize) -> (res: String)
    ensures
        res@ == tail(s@, n as int),
{
    let all = split_lines(s);
    let from: usize = if all.len() > n { all.len() - n } else { 0 };
    let mut parts: Vec<String> = Vec::new();
    let mut i: usize = from;
    assert(texts(parts@) =~= texts(all@).subrange(from as int, from as int));
    while i < all.len()
        invariant
            from <= i <= all@.len(),
            texts(parts@) == texts(all@).subrange(from as int, i as int),
        decreases all@.len() - i,
    {
        put(&mut parts, all[i].as_str());
        assert(texts(parts@) =~= texts(all@).subrange(from as int, i + 1));
        i += 1;
    }
    assert(texts(parts@) =~= last_parts(lines(s@), n as int));
    join(&parts, " | ")
}

/// The line begins with one of the tags.
pub open spec fn tagged(line: Seq<char>, tags: Seq<&str>) -> bool {
    exists|k: int| 0 <= k < tags.len() && (#[trigger] tags[k])@.is_prefix_of(line)
}

/// The lines that begin with one of the tags, in order.
pub open spec fn tagged_of(parts: Seq<Seq<char>>, tags: Seq<&str>) -> Seq<Seq<char>>
    decreases parts.len(),
{
    if parts.len() == 0 {
        Seq::empty()
    } else if tagged(parts.last(), tags) {
        tagged_of(parts.drop_last(), tags).push(parts.last())
    } else {
        tagged_of(parts.drop_last(), tags)
    }
}

/// Whether the line begins with one of the tags.
fn has_tag(line: &str, tags: &Vec<&str>) -> (res: bool)
    ensures
        res == tagged(line@, tags@),
{
    let mut k: usize = 0;
    while k < tags.len()
        invariant
            k <= tags@.len(),
            forall|m: int| 0 <= m < k ==> !(#[trigger] tags@[m])@.is_prefix_of(line@),
        decreases tags@.len() - k,
    {
        if starts_with(line, tags[k]) {
            assert(tags@[k as int]@.is_prefix_of(line@));
            return true;
        }
        k += 1;
    }
    false
}

/// The lines of a program's narration that are worth passing on: those that
/// begin with one of the tags.
pub fn notes(stderr: &str, tags: &Vec<&str>) -> (res: Vec<String>)
    ensures
        texts(res@) == tagged_of(lines(stderr@), tags@),
{
    let all = split_lines(stderr);
    let ghost parts = texts(all@);
    let mut res: Vec<String> = Vec::new();
    let mut i: usize = 0;
    assert(parts.take(0) =~= Seq::<Seq<char>>::empty());
    assert(texts(res@) =~= Seq::<Seq<char>>::empty());
    while i < all.len()
        invariant
            i <= all@.len(),
            parts == texts(all@),
            texts(res@) == tagged_of(parts.take(i as int), tags@),
        decreases all@.len() - i,
    {
        assert(parts.take(i + 1).drop_last() =~= parts.take(i as int));
        assert(parts.take(i + 1).last() == all@[i as int]@);
        if has_tag(all[i].as_str(), tags) {
            put(&mut res, all[i].as_str());
        }
        i += 1;
    }
    assert(parts.take(i as int) =~= parts);
    res
}

/// The file that a program says it wrote, else the one it was asked for.
pub open spec fn produced(stdout: Seq<char>, output: Seq<char>) -> Seq<char> {
    if trimmed(stdout).len() == 0 {
        output
    } else {
        trimmed(stdout)
    }
}

/// Reads which file a program wrote.
pub fn produced_path(stdout: &str, output: &str) -> (res: String)
    ensures
        res@ == produced(stdout@, output@),
{
    let named = trim(stdout);
    if named.as_str().is_empty() {
        output.to_owned()
    } else {
        named
    }
}

/// What comes of a program that writes a file: the file, or why there is none.
/// `present` is whether the file is there.
pub open spec fn file_outcome(
    success: bool,
    stdout: Seq<char>,
    stderr: Seq<char>,
    output: Seq<char>,
    failure: Seq<char>,
    kept_lines: int,
    nothing: Seq<char>,
    present: bool,
) -> Result<Seq<char>, Seq<char>> {
    if !success {
        Err(failure + tail(stderr, kept_lines))
    } else if !present {
        Err(nothing)
    } else {
        Ok(produced(stdout, output))
    }
}

/// The texts of a result.
pub open spec fn result_texts(r: Result<String, String>) -> Result<Seq<char>, Seq<char>> {
    match r {
        Ok(t) => Ok(t@),
        Err(e) => Err(e@),
    }
}

/// Decides what comes of a program that writes a file. A failure is told with
/// `failure` and the last `kept_lines` lines of what the program said; a file
/// that is not there with `nothing`.
pub fn decide_file(
    exit: &Exit,
    output: &str,
    failure: &str,
    kept_lines: usize,
    nothing: &str,
    present: bool,
) -> (res: Result<String, String>)
    ensures
        result_texts(res) == file_outcome(
            exit.success,
            exit.stdout@,
            exit.stderr@,
            output@,
            failure@,
            kept_lines as int,
            nothing@,
            present,
        ),
{
    if !exit.success {
        let mut message = failure.to_owned();
        let last = tail_of(exit.stderr.as_str(), kept_lines);
        message.append(last.as_str());
        return Err(message);
    }
    if !present {
        return Err(nothing.to_owned());
    }
    Ok(produced_path(exit.stdout.as_str(), output))
}

/// As [`decide_file`], looking for the file on disk.
pub fn written_file(exit: &Exit, output: &str, failure: &str, kept_lines: usize, nothing: &str) -> (res:
    Result<String, String>)
    ensures
        exists|present: bool|
            seen(produced(exit.stdout@, output@), present) && result_texts(res)
                == #[trigger] file_outcome(
                exit.success,
                exit.stdout@,
                exit.stderr@,
                output@,
                failure@,
                kept_lines as int,
                nothing@,
                present,
            ),
{
    let path = produced_path(exit.stdout.as_str(), output);
    let present = look(path.as_str());
    decide_file(exit, output, failure, kept_lines, nothing, present)
}

/// The script has to be written: it is not there, or it is another one.
pub open spec fn stale_script(existing: Option<Seq<char>>, body: Seq<char>) -> bool {
    existing != Some(body)
}

/// The model has to be written: it is not there, or it has another size.
pub open spec fn stale_model(existing: Option<u64>, size: u64) -> bool {
    existing != Some(size)
}

/// Whether a script on disk has to be written anew: it is not there, or it is
/// not the one that ships with the app.
pub fn script_is_stale(existing: Option<&str>, body: &str) -> (res: bool)
    ensures
        res == stale_script(opt_str(existing), body@),
        res == (opt_str(existing) != Some(body@)),
{
    match existing {
        Some(text) => !same(text, body),
        None => true,
    }
}

/// Whether model weights on disk have to be written anew: they are not there,
/// or their size is not that of the ones that ship with the app.
pub fn model_is_stale(existing: Option<u64>, size: u64) -> (res: bool)
    ensures
        res == stale_model(existing, size),
        res == (existing != Some(size)),
{
    match existing {
        Some(n) => n != size,
        None => true,
    }
}

/// The last parts are the end of the list, as many as asked for or all of them.
pub proof fn law_last_parts(parts: Seq<Seq<char>>, n: int)
    requires
        n >= 0,
    ensures
        last_parts(parts, n).len() == if parts.len() < n {
            parts.len() as int
        } else {
            n
        },
        last_parts(parts, n) == parts.skip(parts.len() - last_parts(parts, n).len()),
{
}

/// The end of a text is its last lines with a bar between.
pub proof fn law_tail(s: Seq<char>, n: int)
    requires
        n >= 0,
    ensures
        tail(s, n) == joined(
            lines(s).skip(
                if lines(s).len() > n {
                    lines(s).len() - n
                } else {
                    0
                },
            ),
            seq![' ', '|', ' '],
        ),
{
    reveal_strlit(" | ");
    assert(" | "@ =~= seq![' ', '|', ' ']);
    if lines(s).len() <= n {
        assert(lines(s).skip(0) =~= lines(s));
    }
}

/// The notes are the lines that begin with one of the tags, each in its place.
pub proof fn law_tagged(parts: Seq<Seq<char>>, tags: Seq<&str>)
    ensures
        tagged_of(parts, tags) == parts.filter(
            |line: Seq<char>|
                exists|k: int| 0 <= k < tags.len() && (#[trigger] tags[k])@.is_prefix_of(line),
        ),
    decreases parts.len(),
{
    reveal(Seq::filter);
    if parts.len() > 0 {
        law_tagged(parts.drop_last(), tags);
    }
}

/// A program that names its file names it on its output; else the file is the one
/// that was asked for.
pub proof fn law_produced(stdout: Seq<char>, output: Seq<char>)
    ensures
        is_blank(stdout) ==> produced(stdout, output) == output,
        !is_blank(stdout) ==> produced(stdout, output) == trimmed(stdout),
{
}

/// A run gives its file exactly where it succeeded and the file is there. A
/// failure is reported with the end of what the program said, and a missing file
/// as such.
pub proof fn law_file_outcome(
    stdout: Seq<char>,
    stderr: Seq<char>,
    output: Seq<char>,
    failure: Seq<char>,
    kept: int,
    nothing: Seq<char>,
    present: bool,
)
    ensures
        file_outcome(false, stdout, stderr, output, failure, kept, nothing, present) == Err::<
            Seq<char>,
            Seq<char>,
        >(failure + tail(stderr, kept)),
        file_outcome(true, stdout, stderr, output, failure, kept, nothing, false) == Err::<
            Seq<char>,
            Seq<char>,
        >(nothing),
        file_outcome(true, stdout, stderr, output, failure, kept, nothing, true) == Ok::<
            Seq<char>,
            Seq<char>,
        >(produced(stdout, output)),
{
}

/// A result stands for the text that it holds.
pub proof fn law_result_texts(t: String)
    ensures
        result_texts(Ok(t)) == Ok::<Seq<char>, Seq<char>>(t@),
        result_texts(Err(t)) == Err::<Seq<char>, Seq<char>>(t@),
{
}

/// What is written is not stale, and nothing else is fresh.
pub proof fn law_stale(existing: Seq<char>, body: Seq<char>, there: u64, size: u64)
    ensures
        stale_script(None, body) && stale_model(None, size),
        stale_script(Some(existing), body) <==> existing != body,
        stale_model(Some(there), size) <==> there != size,
{
}

} // verus!
