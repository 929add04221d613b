//! A persistent title banner across the top of a finished clip.
//!
//! The headline is short and written from what the clip says; a program draws
//! it into clear space above the speaker's face.

use vstd::prelude::*;
use vstd::string::StringExecFns;
use crate::paths::{seen, set_value, setting_of};
use crate::pyenv::has_module;
use crate::sidecar::{file_outcome, produced, result_texts, written_file, Exit};
use crate::text::{
    alphanumeric, in_class, is_blank, join, joined, lemma_joined_first, lemma_run_length,
    lemma_starts_concat, lemma_starts_joined, lemma_starts_take, lemma_starts_uniform,
    lemma_strip_end_take, lemma_strip_start_len, lemma_words, lines, opt_str, opt_text, put,
    run_length, split_lines, split_words, strip_both_of, strip_end, strip_end_of, strip_start,
    strip_start_of, texts, trim, trimmed, word_starts, words, CharClass,
};

verus! {

/// Whether a banner can be drawn: some interpreter has Pillow.
pub fn available(candidates: &Vec<String>, imports: impl Fn(&String, &str) -> bool) -> (res: bool)
    requires
        forall|c: &String, m: &str| call_requires(imports, (c, m)),
    ensures
        res ==> exists|i: int|
            0 <= i < candidates@.len() && call_ensures(
                imports,
                (&#[trigger] candidates@[i], "PIL"),
                true,
            ),
        !res ==> forall|i: int|
            0 <= i < candidates@.len() ==> call_ensures(
                imports,
                (&#[trigger] candidates@[i], "PIL"),
                false,
            ),
{
    has_module(candidates, "PIL", imports)
}

/// How many words of a hook make a headline.
pub const HOOK_WORDS: usize = 6;

/// How many words a model's headline may have.
pub const MOST_WORDS: usize = 8;

/// The opening words of a hook, from its first letter or digit on.
pub open spec fn opening_words(hook: Seq<char>) -> Seq<Seq<char>> {
    let all = words(strip_start(CharClass::NotAlphanumeric, trimmed(hook)));
    if all.len() > HOOK_WORDS {
        all.take(HOOK_WORDS as int)
    } else {
        all
    }
}

/// The headline that a hook makes by itself: its opening words without a pause
/// at their end. A hook without words leaves the project's name.
pub open spec fn hook_title(hook: Seq<char>, project_name: Option<Seq<char>>) -> Seq<char> {
    if opening_words(hook).len() == 0 {
        match project_name {
            Some(name) => name,
            None => "Watch This"@,
        }
    } else {
        strip_end(CharClass::Pause, joined(opening_words(hook), " "@))
    }
}

/// Shorten a hook into a headline without calling a model.
///
/// Used when no credential is available, and as the floor when the model
/// returns something unusable. Keeps the opening words, which is where a hook
/// carries its subject.
pub fn fallback_title(hook: &str, project_name: Option<&str>) -> (res: String)
    ensures
        res@ == hook_title(hook@, opt_str(project_name)),
{
    let inner = trim(hook);
    let cleaned = strip_start_of(CharClass::NotAlphanumeric, inner.as_str());
    let mut list = split_words(cleaned.as_str());
    let ghost all = texts(list@);
    if list.len() > HOOK_WORDS {
        list.truncate(HOOK_WORDS);
        assert(texts(list@) =~= all.take(HOOK_WORDS as int));
    }
    assert(texts(list@) == opening_words(hook@));
    if list.len() == 0 {
        return match project_name {
            Some(name) => name.to_owned(),
            None => "Watch This".to_owned(),
        };
    }
    let line = join(&list, " ");
    strip_end_of(CharClass::Pause, line.as_str())
}

/// The first credential that is set and not blank.
pub open spec fn title_key(api_key: Option<Seq<char>>, oauth_token: Option<Seq<char>>) -> Option<
    Seq<char>,
> {
    match set_value(api_key) {
        Some(k) => Some(k),
        None => set_value(oauth_token),
    }
}

/// Chooses the credential for writing titles: the key, else the token. A blank
/// one is none.
pub fn title_credential(api_key: Option<&str>, oauth_token: Option<&str>) -> (res: Option<String>)
    ensures
        opt_text(res) == title_key(opt_str(api_key), opt_str(oauth_token)),
{
    match setting_of(api_key) {
        Some(k) => Some(k),
        None => setting_of(oauth_token),
    }
}

/// What a model is told before it is shown the clip.
pub open spec fn title_rules() -> Seq<char> {
    "Write the on-screen title for a short vertical video.\n\nRules:\n- 3 to 6 words. Never more than 6.\n- Name the SPECIFIC thing this clip reveals, not the general topic. Two clips from the same video must get clearly different titles.\n- Do NOT start with \"The Truth About\". Do not use \"Secrets\", \"Exposed\" or \"You Won't Believe\".\n- Concrete nouns a viewer understands instantly. No quotes, no emoji, no trailing punctuation, no hashtags.\n\nGood: \"Bagels Beat Muffins For Sugar\", \"Kraft Bought Cadbury In 2010\"\nBad: \"The Truth About Food\", \"Shocking Facts Revealed\"\n\nReply with the title only.\n\nThis clip's hook: "@
}

/// The request for a headline.
pub open spec fn prompt_for(excerpt: Seq<char>, hook: Seq<char>) -> Seq<char> {
    title_rules() + hook + "\n\nWhat is said in this clip:\n"@ + excerpt
}

/// Writes the request for a headline. It asks for the specific claim and rules
/// out stock phrasing, so that the clips of one video get different titles.
pub fn title_prompt(transcript_excerpt: &str, hook: &str) -> (res: String)
    ensures
        res@ == prompt_for(transcript_excerpt@, hook@),
{
    let mut s =
        "Write the on-screen title for a short vertical video.\n\nRules:\n- 3 to 6 words. Never more than 6.\n- Name the SPECIFIC thing this clip reveals, not the general topic. Two clips from the same video must get clearly different titles.\n- Do NOT start with \"The Truth About\". Do not use \"Secrets\", \"Exposed\" or \"You Won't Believe\".\n- Concrete nouns a viewer understands instantly. No quotes, no emoji, no trailing punctuation, no hashtags.\n\nGood: \"Bagels Beat Muffins For Sugar\", \"Kraft Bought Cadbury In 2010\"\nBad: \"The Truth About Food\", \"Shocking Facts Revealed\"\n\nReply with the title only.\n\nThis clip's hook: ".to_owned();
    s.append(hook);
    s.append("\n\nWhat is said in this clip:\n");
    s.append(transcript_excerpt);
    s
}

/// The first line that is not blank, trimmed; nothing where all are blank.
pub open spec fn first_line(parts: Seq<Seq<char>>) -> Seq<char>
    decreases parts.len(),
{
    if parts.len() == 0 {
        Seq::empty()
    } else if trimmed(parts[0]).len() > 0 {
        trimmed(parts[0])
    } else {
        first_line(parts.drop_first())
    }
}

/// The headline in a model's reply: its first line without quotes around it and
/// without a full stop at its end.
pub open spec fn headline_in(reply: Seq<char>) -> Seq<char> {
    strip_end(
        CharClass::Stop,
        strip_end(CharClass::Quote, strip_start(CharClass::Quote, first_line(lines(reply)))),
    )
}

/// The title of a clip: the model's headline where there is one of at most
/// [`MOST_WORDS`] words, else the hook's opening words.
pub open spec fn title_of(reply: Option<Seq<char>>, hook: Seq<char>) -> Seq<char> {
    match reply {
        Some(text) => if headline_in(text).len() == 0 || words(headline_in(text)).len()
            > MOST_WORDS {
            hook_title(hook, None)
        } else {
            headline_in(text)
        },
        None => hook_title(hook, None),
    }
}

/// Finds the first line that is not blank.
fn first_line_of(text: &str) -> (res: String)
    ensures
        res@ == first_line(lines(text@)),
{
    let all = split_lines(text);
    let ghost parts = texts(all@);
    let mut i: usize = 0;
    assert(parts.skip(0) =~= parts);
    while i < all.len()
        invariant
            i <= all@.len(),
            parts == texts(all@),
            parts == lines(text@),
            first_line(parts) == first_line(parts.skip(i as int)),
        decreases all@.len() - i,
    {
        assert(parts.skip(i as int)[0] == all@[i as int]@);
        let line = trim(all[i].as_str());
        if !line.as_str().is_empty() {
            return line;
        }
        assert(parts.skip(i as int).drop_first() =~= parts.skip(i + 1));
        i += 1;
    }
    String::new()
}

/// Decides the title of a clip. `reply` is the model's reply, where there is
/// one. A model that ignores the limit and returns a sentence is not followed:
/// an over-long title would cover the speaker.
pub fn write_title(reply: Option<&str>, hook: &str) -> (res: String)
    ensures
        res@ == title_of(opt_str(reply), hook@),
{
    match reply {
        Some(text) => {
            let line = first_line_of(text);
            let bare = strip_both_of(CharClass::Quote, line.as_str());
            let title = strip_end_of(CharClass::Stop, bare.as_str());
            let count = split_words(title.as_str()).len();
            assert(count == words(title@).len());
            if title.as_str().is_empty() || count > MOST_WORDS {
                fallback_title(hook, None)
            } else {
                title
            }
        },
        None => fallback_title(hook, None),
    }
}

/// The arguments that draw a banner.
pub open spec fn banner_request(
    script: Seq<char>,
    video: Seq<char>,
    text: Seq<char>,
    output: Seq<char>,
    assets: Seq<char>,
) -> Seq<Seq<char>> {
    seq![
        script,
        "--video"@,
        video,
        "--text"@,
        text,
        "--output"@,
        output,
        "--assets"@,
        assets,
    ]
}

/// The arguments that draw `text` across the top of `video`.
pub fn banner_args(script: &str, video: &str, text: &str, output: &str, assets: &str) -> (res: Vec<
    String,
>)
    ensures
        texts(res@) == banner_request(script@, video@, text@, output@, assets@),
{
    let mut args: Vec<String> = Vec::new();
    put(&mut args, script);
    put(&mut args, "--video");
    put(&mut args, video);
    put(&mut args, "--text");
    put(&mut args, text);
    put(&mut args, "--output");
    put(&mut args, output);
    put(&mut args, "--assets");
    put(&mut args, assets);
    assert(texts(args@) =~= banner_request(script@, video@, text@, output@, assets@));
    args
}

/// Decides what comes of drawing a banner: the file written, or why there is
/// none.
pub fn apply(exit: &Exit, output: &str) -> (res: Result<String, String>)
    ensures
        exists|present: bool|
            seen(produced(exit.stdout@, output@), present) && result_texts(res)
                == #[trigger] file_outcome(
                exit.success,
                exit.stdout@,
                exit.stderr@,
                output@,
                "title overlay failed: "@,
                4,
                "title overlay reported success but produced no file"@,
                present,
            ),
{
    written_file(
        exit,
        output,
        "title overlay failed: ",
        4,
        "title overlay reported success but produced no file",
    )
}

/// The headline that a hook makes by itself is never empty, has at most
/// [`HOOK_WORDS`] words, begins with a letter or digit and does not end with a
/// comma, full stop, semicolon or colon.
pub proof fn law_hook_title(hook: Seq<char>)
    ensures
        hook_title(hook, None).len() > 0,
        words(hook_title(hook, None)).len() <= HOOK_WORDS,
        alphanumeric(hook_title(hook, None)[0]),
        !in_class(CharClass::Pause, hook_title(hook, None).last()),
{
    let title = hook_title(hook, None);
    let body = strip_start(CharClass::NotAlphanumeric, trimmed(hook));
    let list = opening_words(hook);
    lemma_strip_start_len(CharClass::NotAlphanumeric, trimmed(hook));
    lemma_words(body);
    if list.len() == 0 {
        reveal_strlit("Watch This");
        lemma_words(title);
        lemma_watch_this();
    } else {
        assert(body.len() > 0) by {
            lemma_strip_start_len(CharClass::Space, body);
        }
        assert(strip_start(CharClass::Space, body) == body);
        lemma_run_length(CharClass::Space, body);
        let n = run_length(CharClass::Space, body);
        assert(words(body)[0] == body.take(n));
        assert(list[0] == body.take(n));
        assert(list[0][0] == body[0]);
        assert forall|i: int| 0 <= i < list.len() implies word_starts(#[trigger] list[i]) <= 1 by {
            assert(list[i] == words(body)[i]);
        }
        let line = joined(list, " "@);
        lemma_starts_joined(list);
        lemma_joined_first(list, " "@);
        let k = lemma_strip_end_take(CharClass::Pause, line);
        if k == 0 {
            assert(in_class(CharClass::Pause, line[0]));
        }
        lemma_starts_take(line, k);
        lemma_words(title);
        assert(title[0] == line[0]);
    }
}

/// The default headline has two words.
proof fn lemma_watch_this()
    ensures
        word_starts("Watch This"@) == 2,
{
    reveal_strlit("Watch This");
    let s = "Watch This"@;
    let a = s.take(5);
    let b = s.subrange(5, 6);
    let c = s.skip(6);
    lemma_starts_uniform(a);
    lemma_starts_uniform(b);
    lemma_starts_uniform(c);
    lemma_starts_concat(a, b);
    lemma_starts_concat(a + b, c);
    assert(a + b + c =~= s);
}

/// A clip always gets a title, and never one of more than [`MOST_WORDS`] words,
/// whatever the model replies.
pub proof fn law_title(reply: Option<Seq<char>>, hook: Seq<char>)
    ensures
        title_of(reply, hook).len() > 0,
        words(title_of(reply, hook)).len() <= MOST_WORDS,
{
    law_hook_title(hook);
}

/// A title out of a hook: its first six words, from its first letter or digit on,
/// with a space between and without pauses at the end. A hook without words is
/// titled by the project, else by a call to watch.
pub proof fn law_hook_words(hook: Seq<char>, name: Seq<char>)
    ensures
        ({
            let all = words(strip_start(CharClass::NotAlphanumeric, trimmed(hook)));
            let first = all.take(
                if all.len() < 6 {
                    all.len() as int
                } else {
                    6
                },
            );
            &&& all.len() > 0 ==> hook_title(hook, None) == strip_end(
                CharClass::Pause,
                joined(first, seq![' ']),
            )
            &&& all.len() > 0 ==> hook_title(hook, Some(name)) == hook_title(hook, None)
            &&& all.len() == 0 ==> hook_title(hook, None) == "Watch This"@
            &&& all.len() == 0 ==> hook_title(hook, Some(name)) == name
        }),
{
    reveal_strlit(" ");
    assert(" "@ =~= seq![' ']);
    let all = words(strip_start(CharClass::NotAlphanumeric, trimmed(hook)));
    if all.len() <= 6 {
        assert(all.take(all.len() as int) =~= all);
    }
}

/// A key that says something is used; else the token is.
pub proof fn law_title_key(key: Seq<char>, token: Seq<char>, other: Option<Seq<char>>)
    ensures
        !is_blank(key) ==> title_key(Some(key), other) == Some(key),
        is_blank(key) ==> title_key(Some(key), other) == title_key(None, other),
        !is_blank(token) ==> title_key(None, Some(token)) == Some(token),
        is_blank(token) ==> title_key(None, Some(token)) is None,
        title_key(None, None) is None,
{
}

/// The prompt is the rules, then the hook, then what is said; the rules are the
/// same for every clip.
pub proof fn law_prompt(excerpt: Seq<char>, hook: Seq<char>)
    ensures
        title_rules() == "Write the on-screen title for a short vertical video.\n\nRules:\n- 3 to 6 words. Never more than 6.\n- Name the SPECIFIC thing this clip reveals, not the general topic. Two clips from the same video must get clearly different titles.\n- Do NOT start with \"The Truth About\". Do not use \"Secrets\", \"Exposed\" or \"You Won't Believe\".\n- Concrete nouns a viewer understands instantly. No quotes, no emoji, no trailing punctuation, no hashtags.\n\nGood: \"Bagels Beat Muffins For Sugar\", \"Kraft Bought Cadbury In 2010\"\nBad: \"The Truth About Food\", \"Shocking Facts Revealed\"\n\nReply with the title only.\n\nThis clip's hook: "@,
        prompt_for(excerpt, hook) == title_rules() + hook + "\n\nWhat is said in this clip:\n"@
            + excerpt,
        prompt_for(excerpt, hook).take(title_rules().len() as int) == title_rules(),
        prompt_for(excerpt, hook).skip(prompt_for(excerpt, hook).len() - excerpt.len()) == excerpt,
{
    let p = prompt_for(excerpt, hook);
    assert(p.take(title_rules().len() as int) =~= title_rules());
    assert(p.skip(p.len() - excerpt.len()) =~= excerpt);
}

/// The first line that is not blank is taken, trimmed.
pub proof fn law_first_line(parts: Seq<Seq<char>>, i: int)
    requires
        0 <= i <= parts.len(),
        forall|k: int| 0 <= k < i ==> is_blank(#[trigger] parts[k]),
        i < parts.len() ==> !is_blank(parts[i]),
    ensures
        first_line(parts) == if i < parts.len() {
            trimmed(parts[i])
        } else {
            Seq::empty()
        },
    decreases parts.len(),
{
    if i > 0 {
        assert(is_blank(parts[0]));
        let rest = parts.drop_first();
        assert forall|k: int| 0 <= k < i - 1 implies is_blank(#[trigger] rest[k]) by {
            assert(rest[k] == parts[k + 1]);
        }
        law_first_line(rest, i - 1);
    }
}

/// A reply's title is its first line without the quotes around it and the stops
/// behind it. It is used where there is one of at most eight words; else the hook
/// gives the title.
pub proof fn law_reply_title(reply: Seq<char>, hook: Seq<char>, line: Seq<char>)
    requires
        line == strip_end(
            CharClass::Stop,
            strip_end(CharClass::Quote, strip_start(CharClass::Quote, first_line(lines(reply)))),
        ),
    ensures
        title_of(None, hook) == hook_title(hook, None),
        title_of(Some(reply), hook) == if line.len() > 0 && words(line).len() <= 8 {
            line
        } else {
            hook_title(hook, None)
        },
{
}

/// The banner is asked for on the video, with the text, into the output, from the
/// assets.
pub proof fn law_banner(
    script: Seq<char>,
    video: Seq<char>,
    text: Seq<char>,
    output: Seq<char>,
    assets: Seq<char>,
)
    ensures
        ({
            let args = banner_request(script, video, text, output, assets);
            &&& args.len() == 9 && args[0] == script
            &&& args[1] == "--video"@ && args[2] == video
            &&& args[3] == "--text"@ && args[4] == text
            &&& args[5] == "--output"@ && args[6] == output
            &&& args[7] == "--assets"@ && args[8] == assets
        }),
{
}

} // verus!
